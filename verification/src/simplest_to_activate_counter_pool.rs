//! The central pool strategy: for every coverage counter, retain the
//! simplest (lowest-complexity) test case that activated it.
use vstd::prelude::*;

use vstd::pervasive::cloned;
use vstd::pervasive::unreached;
use vstd::pervasive::VecAdditionalExecFns;

use crate::pool::{CorpusDelta, Either, Pool};
use crate::rng::rng_usize_below;
use crate::stats::EmptyStats;

verus! {

broadcast use vstd::seq_lib::group_seq_properties;

/// One retained test case: its value, its complexity, and whether it was
/// marked as a dead end.
pub struct PoolEntry<T> {
    pub value: T,
    pub complexity: u64,
    pub dead_end: bool,
}

/// How many slots hold a retained case.
pub open spec fn live_count<T>(entries: Seq<Option<PoolEntry<T>>>) -> nat
    decreases entries.len(),
{
    if entries.len() == 0 {
        0
    } else {
        live_count(entries.drop_last()) + if entries.last() is Some {
            1nat
        } else {
            0nat
        }
    }
}

proof fn lemma_live_count_update<T>(
    entries: Seq<Option<PoolEntry<T>>>,
    i: int,
    v: Option<PoolEntry<T>>,
)
    requires
        0 <= i < entries.len(),
    ensures
        live_count(entries.update(i, v)) + (if entries[i] is Some {
            1nat
        } else {
            0nat
        }) == live_count(entries) + (if v is Some {
            1nat
        } else {
            0nat
        }),
    decreases entries.len(),
{
    if i == entries.len() - 1 {
        assert(entries.update(i, v).drop_last() =~= entries.drop_last());
    } else {
        lemma_live_count_update(entries.drop_last(), i, v);
        assert(entries.update(i, v).drop_last() =~= entries.drop_last().update(i, v));
        assert(entries.update(i, v).last() == entries.last());
    }
}

proof fn lemma_live_count_skip_step<T>(entries: Seq<Option<PoolEntry<T>>>, i: int)
    requires
        0 <= i < entries.len(),
    ensures
        live_count(entries.skip(i)) == live_count(entries.skip(i + 1)) + (if entries[i] is Some {
            1nat
        } else {
            0nat
        }),
    decreases entries.len(),
{
    if i == entries.len() - 1 {
        assert(entries.skip(i) =~= seq![entries[i]]);
        assert(entries.skip(i).drop_last() =~= Seq::<Option<PoolEntry<T>>>::empty());
        assert(entries.skip(i + 1) =~= Seq::<Option<PoolEntry<T>>>::empty());
    } else {
        lemma_live_count_skip_step(entries.drop_last(), i);
        assert(entries.skip(i).drop_last() =~= entries.drop_last().skip(i));
        assert(entries.skip(i + 1).drop_last() =~= entries.drop_last().skip(i + 1));
        assert(entries.skip(i).last() == entries.last());
        assert(entries.skip(i + 1).last() == entries.last());
        assert(entries.drop_last()[i] == entries[i]);
    }
}

proof fn lemma_live_count_le_len<T>(entries: Seq<Option<PoolEntry<T>>>)
    ensures
        live_count(entries) <= entries.len(),
    decreases entries.len(),
{
    if entries.len() > 0 {
        lemma_live_count_le_len(entries.drop_last());
    }
}

proof fn lemma_contains_push<A>(s: Seq<A>, x: A, y: A)
    ensures
        s.push(x).contains(y) <==> (s.contains(y) || y == x),
{
    if s.push(x).contains(y) {
        let i = choose|i: int| 0 <= i < s.push(x).len() && s.push(x)[i] == y;
        if i < s.len() {
            assert(s[i] == y);
        }
    }
    if s.contains(y) {
        let i = choose|i: int| 0 <= i < s.len() && s[i] == y;
        assert(s.push(x)[i] == y);
    }
    assert(s.push(x)[s.len() as int] == x);
}

/// The set of counters that a run's observations activated.
pub open spec fn observed_counters(observations: Seq<(usize, u64)>) -> Set<int> {
    Set::new(
        |k: int|
            exists|j: int| 0 <= j < observations.len() && #[trigger] observations[j].0 == k,
    )
}

/// `c` is the smallest complexity among the processed runs that activated
/// counter `k`, and some such run exists.
pub open spec fn is_min_complexity_for(history: Seq<(Set<int>, u64)>, k: int, c: u64) -> bool {
    &&& exists|i: int| 0 <= i < history.len() && (#[trigger] history[i]).0.contains(k)
        && history[i].1 == c
    &&& forall|i: int|
        0 <= i < history.len() && (#[trigger] history[i]).0.contains(k) ==> c <= history[i].1
}

/// A pool that, for each coverage counter, retains the simplest test case
/// observed to activate it. A new case is admitted when some activated
/// counter has no owner yet or a strictly more complex one; owners beaten
/// on every counter they owned are evicted.
pub struct SimplestToActivateCounterPool<T> {
    entries: Vec<Option<PoolEntry<T>>>,
    owners: Vec<Option<usize>>,
    generation: u64,
    rng: fastrand::Rng,
    history: Ghost<Seq<(Set<int>, u64)>>,
    retired: Ghost<Set<int>>,
}

impl<T: Clone> SimplestToActivateCounterPool<T> {
    /// The per-counter owner table.
    pub closed spec fn spec_owners(self) -> Seq<Option<usize>> {
        self.owners@
    }

    /// The entry slots.
    pub closed spec fn spec_entries(self) -> Seq<Option<PoolEntry<T>>> {
        self.entries@
    }

    /// The complexities of the runs processed so far, with the counters
    /// each one activated.
    pub closed spec fn spec_history(self) -> Seq<(Set<int>, u64)> {
        self.history@
    }

    /// The counters whose coverage was given up by corpus minification:
    /// their cases were evicted to shrink the corpus, so no owner is
    /// maintained for them any more.
    pub closed spec fn spec_retired(self) -> Set<int> {
        self.retired@
    }

    /// Law: for every counter that a processed run activated and that
    /// minification has not retired, the pool owns a case of exactly the
    /// minimum complexity among the runs that activated it, and counters
    /// never activated have no owner.
    pub open spec fn counter_ownership_optimal(self) -> bool {
        forall|k: int|
            0 <= k < self.spec_owners().len() && !self.spec_retired().contains(k)
                ==> match #[trigger] self.spec_owners()[k] {
                Some(e) => e < self.spec_entries().len() && self.spec_entries()[e as int] is Some
                    && is_min_complexity_for(
                    self.spec_history(),
                    k,
                    self.spec_entries()[e as int]->0.complexity,
                ),
                None => forall|i: int|
                    0 <= i < self.spec_history().len() ==> !(#[trigger] self.spec_history()[i]).0.contains(
                        k,
                    ),
            }
    }

    /// The counter at position `k` currently has a live, selectable owner.
    pub open spec fn owner_live(self, k: int) -> bool {
        &&& 0 <= k < self.spec_owners().len()
        &&& match self.spec_owners()[k] {
            Some(e) => e < self.spec_entries().len() && self.spec_entries()[e as int] is Some
                && !self.spec_entries()[e as int]->0.dead_end,
            None => false,
        }
    }

    /// The complexity of the case that currently owns counter `k`, if the
    /// owner slot holds a retained case.
    pub open spec fn owner_complexity(self, k: int) -> Option<u64> {
        match self.spec_owners()[k] {
            Some(e) => if e < self.spec_entries().len() && self.spec_entries()[e as int] is Some {
                Some(self.spec_entries()[e as int]->0.complexity)
            } else {
                None
            },
            None => None,
        }
    }

    /// A run of complexity `c` that activated counter `k` beats the
    /// current owner of `k`: there is none, or it is strictly more
    /// complex.
    pub open spec fn counter_qualifies(self, k: int, c: u64) -> bool {
        &&& 0 <= k < self.spec_owners().len()
        &&& match self.owner_complexity(k) {
            Some(oc) => oc > c,
            None => true,
        }
    }

    /// The admission rule: a run is admitted exactly when one of its
    /// activated counters has no owner yet or a strictly more complex one.
    pub open spec fn spec_admits(self, observations: Seq<(usize, u64)>, c: u64) -> bool {
        exists|j: int|
            0 <= j < observations.len() && self.counter_qualifies(
                (#[trigger] observations[j]).0 as int,
                c,
            )
    }

    /// A pool watching `number_of_counters` counters, with nothing
    /// processed yet.
    pub fn new(number_of_counters: usize, rng: fastrand::Rng) -> (r: Self)
        ensures
            r.spec_len() == 0,
            r.spec_owners().len() == number_of_counters,
            r.spec_history().len() == 0,
            r.spec_retired() == Set::<int>::empty(),
            r.counter_ownership_optimal(),
    {
        let mut owners: Vec<Option<usize>> = Vec::new();
        let mut i: usize = 0;
        while i < number_of_counters
            invariant
                i <= number_of_counters,
                owners@.len() == i,
                forall|k: int| 0 <= k < i ==> owners@[k] is None,
            decreases number_of_counters - i,
        {
            owners.push(None);
            i += 1;
        }
        SimplestToActivateCounterPool {
            entries: Vec::new(),
            owners,
            generation: 0,
            rng,
            history: Ghost(Seq::empty()),
            retired: Ghost(Set::empty()),
        }
    }
}

impl<T: Clone> Pool for SimplestToActivateCounterPool<T> {
    type TestCase = T;

    type Index = usize;

    type Stats = EmptyStats;

    type Observations = Vec<(usize, u64)>;

    /// Processing appends the run to the history and keeps per-counter
    /// ownership optimal. The run is admitted exactly when it beats some
    /// owner; then one delta reports a clone of the input retained at a
    /// fresh slot, and exactly the cases left owning nothing are removed,
    /// every other retained case staying as it was.
    open spec fn spec_process(
        pre: Self,
        value: T,
        complexity: u64,
        observations: Vec<(usize, u64)>,
        post: Self,
        deltas: Seq<CorpusDelta<T, usize>>,
    ) -> bool {
        &&& post.spec_history() == pre.spec_history().push(
            (observed_counters(observations@), complexity),
        )
        &&& post.spec_owners().len() == pre.spec_owners().len()
        &&& post.spec_retired() == pre.spec_retired()
        &&& (deltas.len() > 0 <==> pre.spec_admits(observations@, complexity))
        &&& (pre.counter_ownership_optimal() ==> post.counter_ownership_optimal())
        &&& if pre.spec_admits(observations@, complexity) {
            &&& deltas.len() == 1
            &&& (deltas[0].add matches Some((t, idx)) && idx as int == pre.spec_entries().len()
                && post.valid_index(idx) && cloned::<T>(value, t) && cloned::<T>(
                value,
                post.spec_get(idx),
            ))
            &&& forall|e: usize| #[trigger]
                deltas[0].remove@.contains(e) ==> pre.valid_index(e) && !post.valid_index(e)
            &&& forall|e: usize|
                pre.valid_index(e) && !(#[trigger] post.valid_index(e))
                    ==> deltas[0].remove@.contains(e)
            &&& forall|e: usize|
                pre.valid_index(e) && #[trigger] post.valid_index(e) ==> post.spec_get(e)
                    == pre.spec_get(e)
        } else {
            &&& deltas.len() == 0
            &&& post.spec_owners() == pre.spec_owners()
            &&& post.spec_entries() == pre.spec_entries()
        }
    }

    /// Minification gives up the youngest retained cases until no more
    /// than `target_len` remain; the counters they owned are retired, the
    /// survivors stay as they were, and ownership stays optimal for the
    /// counters still covered.
    open spec fn spec_minify(
        pre: Self,
        target_len: usize,
        post: Self,
        deltas: Seq<CorpusDelta<T, usize>>,
    ) -> bool {
        &&& post.spec_len() == if pre.spec_len() <= target_len as nat {
            pre.spec_len()
        } else {
            target_len as nat
        }
        &&& post.spec_history() == pre.spec_history()
        &&& post.spec_owners().len() == pre.spec_owners().len()
        &&& (pre.counter_ownership_optimal() ==> post.counter_ownership_optimal())
        &&& forall|e: usize| #[trigger]
            post.valid_index(e) ==> pre.valid_index(e) && post.spec_get(e) == pre.spec_get(e)
        &&& if pre.spec_len() <= target_len as nat {
            post == pre && deltas.len() == 0
        } else {
            &&& deltas.len() == 1
            &&& deltas[0].add is None
            &&& forall|e: usize| #[trigger]
                deltas[0].remove@.contains(e) ==> pre.valid_index(e) && !post.valid_index(e)
            &&& forall|e: usize|
                pre.valid_index(e) && !(#[trigger] post.valid_index(e))
                    ==> deltas[0].remove@.contains(e)
        }
    }

    closed spec fn spec_len(&self) -> nat {
        live_count(self.entries@)
    }

    closed spec fn valid_index(&self, idx: usize) -> bool {
        idx < self.entries@.len() && self.entries@[idx as int] is Some
    }

    /// Only a case that still owns a counter and is no dead end can be
    /// selected.
    closed spec fn selectable(&self, idx: usize) -> bool {
        &&& self.valid_index(idx)
        &&& !self.entries@[idx as int]->0.dead_end
        &&& exists|k: int|
            0 <= k < self.owners@.len() && #[trigger] self.owners@[k] == Some(idx)
    }

    closed spec fn spec_get(&self, idx: usize) -> T {
        self.entries@[idx as int]->0.value
    }

    closed spec fn retrievable(&self, idx: usize, generation: u64) -> bool {
        self.valid_index(idx) && generation == self.generation
    }

    proof fn lemma_selectable_is_valid(&self, idx: usize) {
    }

    fn len(&self) -> (r: usize) {
        let mut count: usize = 0;
        let mut i: usize = 0;
        while i < self.entries.len()
            invariant
                i <= self.entries@.len(),
                count as nat == live_count(self.entries@.take(i as int)),
                count <= i,
            decreases self.entries@.len() - i,
        {
            proof {
                assert(self.entries@.take(i as int + 1).drop_last() =~= self.entries@.take(
                    i as int,
                ));
            }
            if self.entries[i].is_some() {
                count += 1;
            }
            i += 1;
        }
        proof {
            assert(self.entries@.take(self.entries@.len() as int) =~= self.entries@);
        }
        count
    }

    fn stats(&self) -> EmptyStats {
        EmptyStats
    }

    /// Samples an owner with weight proportional to the number of counters
    /// it owns.
    fn get_random_index(&self) -> (r: Option<usize>) {
        let mut candidates: Vec<usize> = Vec::new();
        let mut k: usize = 0;
        while k < self.owners.len()
            invariant
                k <= self.owners@.len(),
                forall|j: int|
                    0 <= j < candidates@.len() ==> self.selectable(#[trigger] candidates@[j]),
                candidates@.len() == 0 ==> forall|c: int|
                    0 <= c < k ==> !self.owner_live(c),
            decreases self.owners@.len() - k,
        {
            match self.owners[k] {
                Some(e) => {
                    if e < self.entries.len() {
                        match &self.entries[e] {
                            Some(entry) => {
                                if !entry.dead_end {
                                    proof {
                                        assert(self.owners@[k as int] == Some(e));
                                    }
                                    candidates.push(e);
                                }
                            },
                            None => {},
                        }
                    }
                },
                None => {},
            }
            k += 1;
        }
        if candidates.len() == 0 {
            proof {
                assert forall|idx: usize| !self.selectable(idx) by {
                    if self.selectable(idx) {
                        let c = choose|c: int|
                            0 <= c < self.owners@.len() && #[trigger] self.owners@[c] == Some(idx);
                        assert(self.owner_live(c));
                    }
                }
            }
            None
        } else {
            let pick = rng_usize_below(&self.rng, candidates.len());
            Some(candidates[pick])
        }
    }

    fn get(&self, idx: usize) -> (r: &T) {
        match &self.entries[idx] {
            Some(entry) => &entry.value,
            None => unreached(),
        }
    }

    fn retrieve_after_processing(&self, idx: usize, generation: u64) -> (r: Option<&T>) {
        if generation == self.generation && idx < self.entries.len() {
            match &self.entries[idx] {
                Some(entry) => Some(&entry.value),
                None => None,
            }
        } else {
            None
        }
    }

    fn mark_test_case_as_dead_end(&mut self, idx: usize) {
        let mut slot: Option<PoolEntry<T>> = None;
        self.entries.set_and_swap(idx, &mut slot);
        let updated = match slot {
            Some(entry) => Some(
                PoolEntry { value: entry.value, complexity: entry.complexity, dead_end: true },
            ),
            None => None,
        };
        self.entries.set(idx, updated);
        proof {
            assert(self.entries@ =~= old(self).entries@.update(
                idx as int,
                self.entries@[idx as int],
            ));
            lemma_live_count_update(old(self).entries@, idx as int, self.entries@[idx as int]);
            assert forall|j: usize| j != idx implies (self.selectable(j) <==> old(
                self,
            ).selectable(j)) by {
                assert(self.owners@ == old(self).owners@);
                assert(self.entries@.len() == old(self).entries@.len());
                if j < self.entries@.len() {
                    assert(self.entries@[j as int] == old(self).entries@[j as int]);
                }
            }
        }
    }

    /// Swaps in the new value, keeping the case's complexity and dead-end
    /// flag, so ownership and its optimality are untouched.
    fn replace(&mut self, idx: usize, case: T) -> (r: T)
        ensures
            final(self).spec_history() == old(self).spec_history(),
            final(self).spec_owners() == old(self).spec_owners(),
            final(self).spec_retired() == old(self).spec_retired(),
            old(self).counter_ownership_optimal() ==> final(self).counter_ownership_optimal(),
    {
        let mut slot: Option<PoolEntry<T>> = None;
        self.entries.set_and_swap(idx, &mut slot);
        match slot {
            Some(entry) => {
                let previous = entry.value;
                self.entries.set(
                    idx,
                    Some(
                        PoolEntry {
                            value: case,
                            complexity: entry.complexity,
                            dead_end: entry.dead_end,
                        },
                    ),
                );
                proof {
                    assert(self.entries@ =~= old(self).entries@.update(
                        idx as int,
                        self.entries@[idx as int],
                    ));
                    lemma_live_count_update(
                        old(self).entries@,
                        idx as int,
                        self.entries@[idx as int],
                    );
                    assert forall|j: usize| (self.selectable(j) <==> old(self).selectable(j)) by {
                        assert(self.owners@ == old(self).owners@);
                        if (j as int) < self.entries@.len() && j != idx {
                            assert(self.entries@[j as int] == old(self).entries@[j as int]);
                        }
                    }
                    if old(self).counter_ownership_optimal() {
                        assert forall|k: int|
                            0 <= k < self.spec_owners().len() && !self.spec_retired().contains(
                                k,
                            ) implies match #[trigger] self.spec_owners()[k] {
                            Some(e) => e < self.spec_entries().len()
                                && self.spec_entries()[e as int] is Some
                                && is_min_complexity_for(
                                self.spec_history(),
                                k,
                                self.spec_entries()[e as int]->0.complexity,
                            ),
                            None => forall|i: int|
                                0 <= i < self.spec_history().len() ==> !(
                                #[trigger] self.spec_history()[i]).0.contains(k),
                        } by {
                            assert(self.spec_owners()[k] == old(self).spec_owners()[k]);
                            assert(self.spec_retired() == old(self).spec_retired());
                            assert(self.spec_history() == old(self).spec_history());
                            match self.spec_owners()[k] {
                                Some(e) => {
                                    assert(e < old(self).spec_entries().len());
                                    assert(old(self).spec_entries()[e as int] is Some);
                                    assert(self.spec_entries()[e as int] is Some);
                                    assert(self.spec_entries()[e as int]->0.complexity == old(
                                        self,
                                    ).spec_entries()[e as int]->0.complexity);
                                },
                                None => {},
                            }
                        }
                    }
                }
                previous
            },
            None => unreached(),
        }
    }

    /// Admits the run's input when one of its activated counters had no
    /// owner or a strictly more complex one; reassigns every such counter
    /// to the new case and evicts owners left with no counter at all.
    fn process(
        &mut self,
        input: Either<usize, &T>,
        complexity: u64,
        observations: &Vec<(usize, u64)>,
    ) -> (deltas: Vec<CorpusDelta<T, usize>>)
        ensures
            final(self).spec_history() == old(self).spec_history().push(
                (observed_counters(observations@), complexity),
            ),
            final(self).spec_owners().len() == old(self).spec_owners().len(),
            deltas@.len() > 0 <==> old(self).spec_admits(observations@, complexity),
            old(self).counter_ownership_optimal() ==> final(self).counter_ownership_optimal(),
    {
        let ghost old_pool = *old(self);
        let ghost new_history = self.history@.push(
            (observed_counters(observations@), complexity),
        );
        // First pass: should the input be admitted at all?
        let mut admitted = false;
        let mut j: usize = 0;
        while j < observations.len()
            invariant
                j <= observations@.len(),
                *self == old_pool,
                old_pool == *old(self),
                admitted <==> exists|l: int|
                    0 <= l < j && old_pool.counter_qualifies(
                        (#[trigger] observations@[l]).0 as int,
                        complexity,
                    ),
            decreases observations@.len() - j,
        {
            let k = observations[j].0;
            if k < self.owners.len() {
                let qualifies: bool;
                match self.owners[k] {
                    Some(e) => {
                        if e < self.entries.len() {
                            match &self.entries[e] {
                                Some(entry) => {
                                    qualifies = entry.complexity > complexity;
                                },
                                None => {
                                    qualifies = true;
                                },
                            }
                        } else {
                            qualifies = true;
                        }
                    },
                    None => {
                        qualifies = true;
                    },
                }
                if qualifies {
                    proof {
                        assert(old_pool.counter_qualifies(
                            observations@[j as int].0 as int,
                            complexity,
                        ));
                    }
                    admitted = true;
                }
            }
            j += 1;
        }
        if !admitted {
            self.history = Ghost(new_history);
            proof {
                if old_pool.counter_ownership_optimal() {
                    assert forall|k: int|
                        0 <= k < self.spec_owners().len() && !self.spec_retired().contains(
                            k,
                        ) implies match #[trigger] self.spec_owners()[k] {
                        Some(e) => e < self.spec_entries().len()
                            && self.spec_entries()[e as int] is Some && is_min_complexity_for(
                            self.spec_history(),
                            k,
                            self.spec_entries()[e as int]->0.complexity,
                        ),
                        None => forall|i: int|
                            0 <= i < self.spec_history().len() ==> !(
                            #[trigger] self.spec_history()[i]).0.contains(k),
                    } by {
                        match self.spec_owners()[k] {
                            Some(e) => {
                                let oc = self.spec_entries()[e as int]->0.complexity;
                                assert(is_min_complexity_for(old_pool.spec_history(), k, oc));
                                if observed_counters(observations@).contains(k) {
                                    // Some observation hit k; since nothing was
                                    // admitted, the owner is at most as complex.
                                    let l = choose|l: int|
                                        0 <= l < observations@.len() && #[trigger] observations@[l].0
                                            == k;
                                    assert(!old_pool.counter_qualifies(
                                        observations@[l].0 as int,
                                        complexity,
                                    ));
                                    assert(oc <= complexity);
                                }
                                let wi = choose|i: int|
                                    0 <= i < old_pool.spec_history().len() && (
                                    #[trigger] old_pool.spec_history()[i]).0.contains(k)
                                        && old_pool.spec_history()[i].1 == oc;
                                assert(new_history[wi] == old_pool.spec_history()[wi]);
                                assert(new_history[wi].0.contains(k) && new_history[wi].1 == oc);
                                assert forall|i: int|
                                    0 <= i < new_history.len() && (
                                    #[trigger] new_history[i]).0.contains(k) implies oc
                                    <= new_history[i].1 by {
                                    if i < old_pool.spec_history().len() {
                                        assert(old_pool.spec_history()[i] == new_history[i]);
                                    }
                                }
                                assert(is_min_complexity_for(new_history, k, oc));
                            },
                            None => {
                                assert forall|i: int|
                                    0 <= i < new_history.len() implies !(
                                    #[trigger] new_history[i]).0.contains(k) by {
                                    if i < old_pool.spec_history().len() {
                                        assert(old_pool.spec_history()[i] == new_history[i]);
                                    } else {
                                        if observed_counters(observations@).contains(k) {
                                            let l = choose|l: int|
                                                0 <= l < observations@.len()
                                                    && #[trigger] observations@[l].0 == k;
                                            assert(old_pool.counter_qualifies(
                                                observations@[l].0 as int,
                                                complexity,
                                            ));
                                        }
                                    }
                                }
                            },
                        }
                    }
                }
            }
            return Vec::new();
        }
        // Admission: retain one clone of the input in a fresh slot, and
        // report a second clone in the delta.
        let ghost processed = (match input {
            Either::Left(idx) => old(self).spec_get(idx),
            Either::Right(case) => *case,
        });
        let stored: T;
        let reported: T;
        match input {
            Either::Left(idx) => {
                let case = self.get(idx);
                stored = case.clone();
                reported = case.clone();
            },
            Either::Right(case) => {
                stored = case.clone();
                reported = case.clone();
            },
        }
        proof {
            assert(cloned::<T>(processed, stored));
            assert(cloned::<T>(processed, reported));
        }
        let ghost stored_spec = stored;
        let new_idx = self.entries.len();
        self.entries.push(Some(PoolEntry { value: stored, complexity, dead_end: false }));
        let ghost pushed_entries = self.entries@;
        proof {
            assert(pushed_entries.last()->0.value == stored_spec);
        }
        // Second pass: reassign every beaten counter to the new case.
        let mut displaced: Vec<usize> = Vec::new();
        j = 0;
        while j < observations.len()
            invariant
                j <= observations@.len(),
                old_pool == *old(self),
                new_idx == old_pool.spec_entries().len(),
                self.entries@ == pushed_entries,
                pushed_entries.len() == old_pool.spec_entries().len() + 1,
                forall|e: int|
                    0 <= e < old_pool.spec_entries().len() ==> pushed_entries[e]
                        == old_pool.spec_entries()[e],
                pushed_entries.last() is Some,
                pushed_entries.last()->0.complexity == complexity,
                !pushed_entries.last()->0.dead_end,
                self.owners@.len() == old_pool.spec_owners().len(),
                self.history@ == old_pool.spec_history(),
                self.retired@ == old_pool.spec_retired(),
                forall|k: int|
                    0 <= k < self.owners@.len() ==> self.owners@[k] == old_pool.spec_owners()[k]
                        || self.owners@[k] == Some(new_idx),
                forall|k: int|
                    0 <= k < self.owners@.len() && self.owners@[k] == Some(new_idx)
                        && old_pool.spec_owners()[k] != Some(new_idx) ==> observed_counters(
                        observations@,
                    ).contains(k) && old_pool.counter_qualifies(k, complexity),
                forall|k: int|
                    #![trigger old_pool.counter_qualifies(k, complexity)]
                    0 <= k < self.owners@.len() && (exists|l: int|
                        0 <= l < j && (#[trigger] observations@[l]).0 == k)
                        && old_pool.counter_qualifies(k, complexity) ==> self.owners@[k] == Some(
                        new_idx,
                    ),
            decreases observations@.len() - j,
        {
            let k = observations[j].0;
            if k < self.owners.len() {
                let qualifies: bool;
                match self.owners[k] {
                    Some(e) => {
                        if e < self.entries.len() {
                            match &self.entries[e] {
                                Some(entry) => {
                                    qualifies = entry.complexity > complexity;
                                },
                                None => {
                                    qualifies = true;
                                },
                            }
                        } else {
                            qualifies = true;
                        }
                    },
                    None => {
                        qualifies = true;
                    },
                }
                if qualifies {
                    match self.owners[k] {
                        Some(e) => {
                            displaced.push(e);
                        },
                        None => {},
                    }
                    self.owners.set(k, Some(new_idx));
                }
            }
            j += 1;
        }
        let ghost owners_after = self.owners@;
        // Third pass: evict every displaced owner that owns nothing now.
        let mut removed: Vec<usize> = Vec::new();
        let mut di: usize = 0;
        while di < displaced.len()
            invariant
                di <= displaced@.len(),
                old_pool == *old(self),
                self.owners@ == owners_after,
                self.history@ == old_pool.spec_history(),
                self.retired@ == old_pool.spec_retired(),
                self.entries@.len() == pushed_entries.len(),
                forall|e: usize|
                    (e as int) < self.entries@.len() && (exists|k: int|
                        0 <= k < self.owners@.len() && #[trigger] self.owners@[k] == Some(e))
                        ==> self.entries@[e as int] == pushed_entries[e as int],
                forall|e: usize|
                    (e as int) < self.entries@.len() ==> ((#[trigger] self.entries@[e as int])
                        == pushed_entries[e as int] <==> !removed@.contains(e)),
                forall|e: usize|
                    (e as int) < self.entries@.len() && removed@.contains(e)
                        ==> self.entries@[e as int] is None && pushed_entries[e as int] is Some,
                forall|j2: int|
                    0 <= j2 < removed@.len() ==> ((#[trigger] removed@[j2]) as int)
                        < self.entries@.len(),
            decreases displaced@.len() - di,
        {
            let e = displaced[di];
            if e < self.entries.len() {
                let mut owned = false;
                let mut ki: usize = 0;
                while ki < self.owners.len()
                    invariant
                        ki <= self.owners@.len(),
                        owned <==> exists|k: int|
                            0 <= k < ki && #[trigger] self.owners@[k] == Some(e),
                    decreases self.owners@.len() - ki,
                {
                    match self.owners[ki] {
                        Some(x) => {
                            if x == e {
                                proof {
                                    assert(self.owners@[ki as int] == Some(e));
                                }
                                owned = true;
                            }
                        },
                        None => {},
                    }
                    ki += 1;
                }
                if !owned {
                    if self.entries[e].is_some() {
                        proof {
                            if removed@.contains(e) {
                                assert(self.entries@[e as int] is None);
                            }
                            assert(!removed@.contains(e));
                            assert(self.entries@[e as int] == pushed_entries[e as int]);
                        }
                        let ghost removed_before = removed@;
                        self.entries.set(e, None);
                        removed.push(e);
                        proof {
                            assert(removed@.last() == e);
                            assert(removed@.contains(e));
                            assert forall|e2: usize|
                                (e2 as int) < self.entries@.len() implies ((
                            #[trigger] self.entries@[e2 as int]) == pushed_entries[e2 as int]
                                <==> !removed@.contains(e2)) by {
                                lemma_contains_push(removed_before, e, e2);
                            }
                            assert forall|e2: usize|
                                (e2 as int) < self.entries@.len() && removed@.contains(e2) implies
                                self.entries@[e2 as int] is None && pushed_entries[e2 as int]
                                is Some by {
                                lemma_contains_push(removed_before, e, e2);
                            }
                        }
                    }
                }
            }
            di += 1;
        }
        self.generation = self.generation.wrapping_add(1);
        self.history = Ghost(new_history);
        proof {
            if old_pool.counter_ownership_optimal() {
                assert forall|k: int|
                    0 <= k < self.spec_owners().len() && !self.spec_retired().contains(
                        k,
                    ) implies match #[trigger] self.spec_owners()[k] {
                    Some(e) => e < self.spec_entries().len() && self.spec_entries()[e as int] is Some
                        && is_min_complexity_for(
                        self.spec_history(),
                        k,
                        self.spec_entries()[e as int]->0.complexity,
                    ),
                    None => forall|i: int|
                        0 <= i < self.spec_history().len() ==> !(
                        #[trigger] self.spec_history()[i]).0.contains(k),
                } by {
                    let observed = observed_counters(observations@);
                    let old_len = old_pool.spec_history().len() as int;
                    match self.spec_owners()[k] {
                        Some(e) => {
                            assert(exists|kk: int|
                                0 <= kk < self.owners@.len() && #[trigger] self.owners@[kk]
                                    == Some(e));
                            assert(self.spec_entries()[e as int] == pushed_entries[e as int]);
                            if e == new_idx {
                                // Reassigned to the new case: it beat the old
                                // owner, so it is the new minimum for k.
                                assert(self.spec_owners()[k] == Some(new_idx));
                                if old_pool.spec_owners()[k] == Some(new_idx) {
                                    // An old owner always points below the
                                    // old length, and new_idx is that length.
                                    assert(new_idx < old_pool.spec_entries().len());
                                }
                                assert(old_pool.spec_owners()[k] != Some(new_idx));
                                assert(old_pool.counter_qualifies(k, complexity));
                                assert(observed.contains(k));
                                assert(pushed_entries[e as int] == pushed_entries.last());
                                let cplx = self.spec_entries()[e as int]->0.complexity;
                                assert(cplx == complexity);
                                assert(new_history[old_len].0 == observed);
                                assert(new_history[old_len].0.contains(k));
                                assert(new_history[old_len].1 == cplx);
                                assert(exists|i: int|
                                    0 <= i < new_history.len() && (
                                    #[trigger] new_history[i]).0.contains(k) && new_history[i].1
                                        == cplx);
                                assert forall|i: int|
                                    0 <= i < new_history.len() && (
                                    #[trigger] new_history[i]).0.contains(k) implies cplx
                                    <= new_history[i].1 by {
                                    if i < old_len {
                                        assert(new_history[i] == old_pool.spec_history()[i]);
                                        match old_pool.spec_owners()[k] {
                                            Some(oe) => {
                                                let oc = old_pool.spec_entries()[oe as int]->0.complexity;
                                                assert(old_pool.owner_complexity(k) == Some(oc));
                                                assert(oc > complexity);
                                                assert(is_min_complexity_for(
                                                    old_pool.spec_history(),
                                                    k,
                                                    oc,
                                                ));
                                                assert(oc <= old_pool.spec_history()[i].1);
                                            },
                                            None => {},
                                        }
                                    }
                                }
                            } else {
                                // The owner did not change: the new case did
                                // not beat it, so it stays the minimum.
                                assert(self.spec_owners()[k] == old_pool.spec_owners()[k]);
                                assert(e < old_pool.spec_entries().len());
                                assert(self.spec_entries()[e as int]
                                    == old_pool.spec_entries()[e as int]);
                                let cplx = self.spec_entries()[e as int]->0.complexity;
                                assert(is_min_complexity_for(old_pool.spec_history(), k, cplx));
                                let wi = choose|i: int|
                                    0 <= i < old_pool.spec_history().len() && (
                                    #[trigger] old_pool.spec_history()[i]).0.contains(k)
                                        && old_pool.spec_history()[i].1 == cplx;
                                assert(new_history[wi] == old_pool.spec_history()[wi]);
                                assert forall|i: int|
                                    0 <= i < new_history.len() && (
                                    #[trigger] new_history[i]).0.contains(k) implies cplx
                                    <= new_history[i].1 by {
                                    if i < old_len {
                                        assert(new_history[i] == old_pool.spec_history()[i]);
                                    } else {
                                        assert(observed.contains(k));
                                        assert(old_pool.counter_qualifies(k, complexity)
                                            ==> self.spec_owners()[k] == Some(new_idx));
                                        assert(!old_pool.counter_qualifies(k, complexity));
                                        assert(cplx <= complexity);
                                    }
                                }
                            }
                        },
                        None => {
                            assert(self.spec_owners()[k] == old_pool.spec_owners()[k]);
                            assert forall|i: int|
                                0 <= i < new_history.len() implies !(
                                #[trigger] new_history[i]).0.contains(k) by {
                                if i < old_len {
                                    assert(new_history[i] == old_pool.spec_history()[i]);
                                } else {
                                    if observed.contains(k) {
                                        assert(old_pool.counter_qualifies(k, complexity));
                                        assert(self.spec_owners()[k] == Some(new_idx));
                                    }
                                }
                            }
                        },
                    }
                }
            }
        }
        proof {
            // The new case is owned by the counter that qualified it, so
            // the third pass never evicted it.
            let l0 = choose|l: int|
                0 <= l < observations@.len() && old_pool.counter_qualifies(
                    (#[trigger] observations@[l]).0 as int,
                    complexity,
                );
            let k0 = observations@[l0].0 as int;
            assert(self.owners@[k0] == Some(new_idx));
            assert(self.entries@[new_idx as int] == pushed_entries[new_idx as int]);
            assert(self.entries@[new_idx as int] is Some);
            assert(self.valid_index(new_idx));
            assert(self.spec_get(new_idx) == stored_spec);
            assert(cloned::<T>(processed, self.spec_get(new_idx)));
            // The removed list holds exactly the slots that stopped being
            // retained, and the survivors are untouched.
            assert forall|e: usize|
                old_pool.valid_index(e) && !(#[trigger] self.valid_index(e)) implies
                removed@.contains(e) by {
                assert((e as int) < old_pool.spec_entries().len());
                assert(pushed_entries[e as int] == old_pool.spec_entries()[e as int]);
                if self.entries@[e as int] == pushed_entries[e as int] {
                    assert(self.valid_index(e));
                }
            }
            assert forall|e: usize| #[trigger]
                removed@.contains(e) implies old_pool.valid_index(e) && !self.valid_index(e) by {
                let j2 = choose|j2: int|
                    0 <= j2 < removed@.len() && #[trigger] removed@[j2] == e;
                assert((e as int) < self.entries@.len());
                assert(self.entries@[e as int] is None && pushed_entries[e as int] is Some);
                if e == new_idx {
                    assert(false);
                }
                assert((e as int) < old_pool.spec_entries().len());
                assert(pushed_entries[e as int] == old_pool.spec_entries()[e as int]);
            }
            assert forall|e: usize|
                old_pool.valid_index(e) && #[trigger] self.valid_index(e) implies self.spec_get(e)
                    == old_pool.spec_get(e) by {
                if removed@.contains(e) {
                    assert(self.entries@[e as int] is None);
                }
                assert(self.entries@[e as int] == pushed_entries[e as int]);
                assert(pushed_entries[e as int] == old_pool.spec_entries()[e as int]);
            }
            assert(self.retired@ == old_pool.spec_retired());
        }
        let ghost removed_spec = removed@;
        let mut deltas: Vec<CorpusDelta<T, usize>> = Vec::new();
        deltas.push(
            CorpusDelta { path: String::new(), add: Some((reported, new_idx)), remove: removed },
        );
        proof {
            assert(deltas@.len() == 1);
            assert(deltas@[0].add == Some((reported, new_idx)));
            assert(deltas@[0].remove@ == removed_spec);
            assert(exists|src: T|
                #[trigger] cloned::<T>(src, reported) && cloned::<T>(src, self.spec_get(new_idx)));
            assert forall|idx: usize|
                old_pool.valid_index(idx) && !(#[trigger] self.valid_index(idx)) implies exists|
                    d: int,
                    kk: int,
                |
                    0 <= d < deltas@.len() && 0 <= kk < deltas@[d].remove@.len() && (
                    #[trigger] deltas@[d].remove@[kk]) == idx by {
                assert(removed_spec.contains(idx));
                let kk = choose|kk: int|
                    0 <= kk < removed_spec.len() && #[trigger] removed_spec[kk] == idx;
                assert(deltas@[0].remove@[kk] == idx);
            }
        }
        deltas
    }

    /// Shrinks the corpus to `target_len` cases by giving up the youngest
    /// retained cases first: each victim's counters are retired, so the
    /// ownership of every still-covered counter stays optimal.
    #[verifier::rlimit(60)]
    fn minify(&mut self, target_len: usize) -> (deltas: Vec<CorpusDelta<T, usize>>) {
        let ghost pre = *old(self);
        let total_slots = self.entries.len();
        proof {
            lemma_live_count_le_len(self.entries@);
            assert(self.spec_len() <= total_slots as nat);
        }
        let mut live = self.len();
        if live <= target_len {
            proof {
                assert(*self == pre);
                assert(self.spec_len() == live as nat);
                assert(Self::spec_minify(pre, target_len, *self, Seq::empty()));
            }
            return Vec::new();
        }
        let mut removed: Vec<usize> = Vec::new();
        let mut slot = self.entries.len();
        proof {
            assert(self.entries@.skip(slot as int) =~= Seq::<Option<PoolEntry<T>>>::empty());
        }
        while live > target_len && slot > 0
            invariant
                pre == *old(self),
                slot <= self.entries@.len(),
                live as nat == live_count(self.entries@),
                live >= target_len,
                self.entries@.len() == pre.spec_entries().len(),
                self.owners@.len() == pre.spec_owners().len(),
                self.history@ == pre.spec_history(),
                pre.spec_retired().subset_of(self.retired@),
                live > target_len ==> live_count(self.entries@.skip(slot as int)) == 0,
                forall|e: usize|
                    (e as int) < self.entries@.len() ==> ((#[trigger] self.entries@[e as int])
                        == pre.spec_entries()[e as int] <==> !removed@.contains(e)),
                forall|e: usize|
                    (e as int) < self.entries@.len() && removed@.contains(e)
                        ==> self.entries@[e as int] is None && pre.spec_entries()[e as int]
                        is Some,
                forall|j2: int|
                    0 <= j2 < removed@.len() ==> ((#[trigger] removed@[j2]) as int)
                        < self.entries@.len(),
                forall|k: int|
                    0 <= k < self.owners@.len() && !self.retired@.contains(k) ==> (
                    #[trigger] self.owners@[k]) == pre.spec_owners()[k],
                forall|k: int|
                    #![trigger self.owners@[k]]
                    0 <= k < self.owners@.len() && !self.retired@.contains(k) ==> (
                    self.owners@[k] matches Some(o) ==> !removed@.contains(o)),
            decreases slot,
        {
            slot -= 1;
            let is_live = self.entries[slot].is_some();
            if is_live {
                let ghost entries_snap = self.entries@;
                let ghost removed_snap = removed@;
                // Retire every counter this case owns, so that no owner
                // table entry is left pointing at the victim.
                let mut k: usize = 0;
                while k < self.owners.len()
                    invariant
                        k <= self.owners@.len(),
                        self.owners@.len() == pre.spec_owners().len(),
                        self.entries@ == entries_snap,
                        removed@ == removed_snap,
                        self.history@ == pre.spec_history(),
                        pre.spec_retired().subset_of(self.retired@),
                        forall|kk: int|
                            0 <= kk < k ==> (#[trigger] self.owners@[kk]) != Some(slot),
                        forall|kk: int|
                            0 <= kk < self.owners@.len() && !self.retired@.contains(kk) ==> (
                            #[trigger] self.owners@[kk]) == pre.spec_owners()[kk],
                        forall|kk: int|
                            #![trigger self.owners@[kk]]
                            0 <= kk < self.owners@.len() && !self.retired@.contains(kk) ==> (
                            self.owners@[kk] matches Some(o) ==> !removed@.contains(o)),
                    decreases self.owners@.len() - k,
                {
                    let clear: bool = match self.owners[k] {
                        Some(o) => o == slot,
                        None => false,
                    };
                    if clear {
                        self.owners.set(k, None);
                        self.retired = Ghost(self.retired@.insert(k as int));
                    }
                    k += 1;
                }
                proof {
                    if removed@.contains(slot) {
                        assert(self.entries@[slot as int] is None);
                    }
                    assert(!removed@.contains(slot));
                    assert(self.entries@[slot as int] == pre.spec_entries()[slot as int]);
                    lemma_live_count_update(self.entries@, slot as int, None);
                }
                let ghost before_evict = self.entries@;
                let ghost removed_before = removed@;
                self.entries.set(slot, None);
                removed.push(slot);
                live = live - 1;
                proof {
                    assert(removed@.last() == slot);
                    assert(removed@.contains(slot));
                    assert(pre.spec_entries()[slot as int] is Some);
                    assert(self.entries@ == before_evict.update(slot as int, None));
                    assert forall|e2: usize|
                        (e2 as int) < self.entries@.len() implies ((
                    #[trigger] self.entries@[e2 as int]) == pre.spec_entries()[e2 as int]
                        <==> !removed@.contains(e2)) by {
                        lemma_contains_push(removed_before, slot, e2);
                        if e2 == slot {
                            assert(self.entries@[e2 as int] is None);
                        } else {
                            assert(self.entries@[e2 as int] == before_evict[e2 as int]);
                            assert(before_evict[e2 as int] == pre.spec_entries()[e2 as int]
                                <==> !removed_before.contains(e2));
                        }
                    }
                    assert forall|e2: usize|
                        (e2 as int) < self.entries@.len() && removed@.contains(e2) implies
                        self.entries@[e2 as int] is None && pre.spec_entries()[e2 as int]
                        is Some by {
                        lemma_contains_push(removed_before, slot, e2);
                    }
                    if live > target_len {
                        assert(self.entries@ == before_evict.update(slot as int, None));
                        lemma_live_count_skip_step(self.entries@, slot as int);
                        assert(self.entries@.skip(slot as int + 1) =~= before_evict.skip(
                            slot as int + 1,
                        ));
                        lemma_live_count_skip_step(before_evict, slot as int);
                        assert(live_count(before_evict.skip(slot as int + 1)) == 0);
                    }
                }
            } else {
                proof {
                    if live > target_len {
                        lemma_live_count_skip_step(self.entries@, slot as int);
                    }
                }
            }
        }
        self.generation = self.generation.wrapping_add(1);
        proof {
            if live > target_len {
                assert(self.entries@.skip(0) =~= self.entries@);
                assert(false);
            }
            assert(live == target_len);
            // Ownership stays optimal for every counter still covered.
            if pre.counter_ownership_optimal() {
                assert forall|k: int|
                    0 <= k < self.spec_owners().len() && !self.spec_retired().contains(
                        k,
                    ) implies match #[trigger] self.spec_owners()[k] {
                    Some(e) => e < self.spec_entries().len() && self.spec_entries()[e as int] is Some
                        && is_min_complexity_for(
                        self.spec_history(),
                        k,
                        self.spec_entries()[e as int]->0.complexity,
                    ),
                    None => forall|i: int|
                        0 <= i < self.spec_history().len() ==> !(
                        #[trigger] self.spec_history()[i]).0.contains(k),
                } by {
                    assert(!pre.spec_retired().contains(k));
                    assert(self.spec_owners()[k] == pre.spec_owners()[k]);
                    match self.spec_owners()[k] {
                        Some(e) => {
                            assert(!removed@.contains(e));
                            assert(self.spec_entries()[e as int] == pre.spec_entries()[e as int]);
                        },
                        None => {},
                    }
                }
            }
            assert forall|e: usize| #[trigger]
                self.valid_index(e) implies pre.valid_index(e) && self.spec_get(e)
                == pre.spec_get(e) by {
                if removed@.contains(e) {
                    assert(self.entries@[e as int] is None);
                }
                assert(self.entries@[e as int] == pre.spec_entries()[e as int]);
            }
            assert forall|e: usize|
                pre.valid_index(e) && !(#[trigger] self.valid_index(e)) implies removed@.contains(
                e,
            ) by {
                if self.entries@[e as int] == pre.spec_entries()[e as int] {
                    assert(self.valid_index(e));
                }
            }
            assert forall|e: usize| #[trigger]
                removed@.contains(e) implies pre.valid_index(e) && !self.valid_index(e) by {
                let j2 = choose|j2: int|
                    0 <= j2 < removed@.len() && #[trigger] removed@[j2] == e;
                assert(self.entries@[e as int] is None && pre.spec_entries()[e as int] is Some);
            }
        }
        let ghost removed_spec = removed@;
        let mut deltas: Vec<CorpusDelta<T, usize>> = Vec::new();
        deltas.push(CorpusDelta { path: String::new(), add: None, remove: removed });
        proof {
            assert(deltas@.len() == 1);
            assert(deltas@[0].remove@ == removed_spec);
            assert forall|idx: usize|
                pre.valid_index(idx) && !(#[trigger] self.valid_index(idx)) implies exists|
                    d: int,
                    kk: int,
                |
                    0 <= d < deltas@.len() && 0 <= kk < deltas@[d].remove@.len() && (
                    #[trigger] deltas@[d].remove@[kk]) == idx by {
                assert(removed_spec.contains(idx));
                let kk = choose|kk: int|
                    0 <= kk < removed_spec.len() && #[trigger] removed_spec[kk] == idx;
                assert(deltas@[0].remove@[kk] == idx);
            }
        }
        deltas
    }
}

} // verus!
