//! Pools: strategies that retain interesting test cases and propose which
//! one to fuzz next.
//!
//! A pool hands out indices to retained test cases (`get_random_index`,
//! `get`), integrates the result of a test run (`process`) and reports the
//! resulting additions and evictions as [`CorpusDelta`]s, and can shrink its
//! retained set (`minify`). `AndPool` composes two pools into a product.
use vstd::prelude::*;

use vstd::pervasive::cloned;

use crate::rng::rng_usize_below;
use crate::stats::{AndStats, EmptyStats, Stats};

verus! {

/// A value of one of two kinds, used to address the sub-pools of a product
/// pool.
#[derive(Clone, Copy, PartialEq, Eq)]
pub enum Either<L, R> {
    Left(L),
    Right(R),
}

/// The atomic unit of corpus persistence: under `path`, add the given test
/// case with its index, and remove the test cases at the removed indices.
pub struct CorpusDelta<T, Idx> {
    pub path: String,
    pub add: Option<(T, Idx)>,
    pub remove: Vec<Idx>,
}

/// A strategy that retains test cases and proposes which one to fuzz next.
///
/// Two laws are part of the contract of every implementation:
///
/// * no stale indices: an index returned by `get_random_index` is selectable,
///   every selectable index is valid (`lemma_selectable_is_valid`), and `get`
///   is defined on every valid index;
/// * after `mark_test_case_as_dead_end(idx)`, `get_random_index` never
///   returns `idx` again, but `get(idx)` stays defined.
pub trait Pool: Sized {
    /// The retained test cases.
    type TestCase: Clone;

    /// Pool-local address of a retained test case.
    type Index: Copy;

    /// The statistics this pool reports.
    type Stats;

    /// The observations of one test run that this pool consumes.
    type Observations;

    /// How many test cases the pool retains.
    spec fn spec_len(&self) -> nat;

    /// `idx` addresses a retained test case.
    spec fn valid_index(&self, idx: Self::Index) -> bool;

    /// `idx` addresses a retained test case that may still be selected.
    spec fn selectable(&self, idx: Self::Index) -> bool;

    /// The test case retained at `idx`.
    spec fn spec_get(&self, idx: Self::Index) -> Self::TestCase;

    /// The test case at `idx` can still be retrieved by a caller that saw
    /// generation `generation`.
    spec fn retrievable(&self, idx: Self::Index, generation: u64) -> bool;

    /// Law: every selectable index is valid, so that an index returned by
    /// `get_random_index` can immediately be passed to `get`.
    proof fn lemma_selectable_is_valid(&self, idx: Self::Index)
        requires
            self.selectable(idx),
        ensures
            self.valid_index(idx),
    ;

    /// The number of retained test cases, saturated at `usize::MAX`.
    fn len(&self) -> (r: usize)
        ensures
            r as nat <= self.spec_len(),
            self.spec_len() <= usize::MAX as nat ==> r as nat == self.spec_len(),
    ;

    /// This pool's statistics.
    fn stats(&self) -> Self::Stats;

    /// Samples a selectable index with pool-specific weighting; `None` only
    /// when nothing is selectable.
    fn get_random_index(&self) -> (r: Option<Self::Index>)
        ensures
            r matches Some(idx) ==> self.selectable(idx),
            r is None ==> forall|idx: Self::Index| !self.selectable(idx),
    ;

    /// The test case retained at `idx`.
    fn get(&self, idx: Self::Index) -> (r: &Self::TestCase)
        requires
            self.valid_index(idx),
        ensures
            *r == self.spec_get(idx),
    ;

    /// The test case at `idx`, if it has not been evicted since
    /// `generation`.
    fn retrieve_after_processing(&self, idx: Self::Index, generation: u64) -> (r: Option<
        &Self::TestCase,
    >)
        ensures
            r matches Some(tc) ==> self.valid_index(idx) && *tc == self.spec_get(idx),
            r is Some <==> self.retrievable(idx, generation),
    ;

    /// Keeps the test case at `idx` but never selects it again.
    fn mark_test_case_as_dead_end(&mut self, idx: Self::Index)
        requires
            old(self).valid_index(idx),
        ensures
            final(self).spec_len() == old(self).spec_len(),
            !final(self).selectable(idx),
            forall|j: Self::Index| final(self).valid_index(j) <==> old(self).valid_index(j),
            forall|j: Self::Index|
                final(self).valid_index(j) ==> final(self).spec_get(j) == old(self).spec_get(j),
            forall|j: Self::Index|
                j != idx ==> (final(self).selectable(j) <==> old(self).selectable(j)),
    ;

    /// Replaces the test case retained at `idx` and hands back the
    /// previous one: the in-place update of a retained case. Nothing else
    /// about the pool changes.
    fn replace(&mut self, idx: Self::Index, case: Self::TestCase) -> (r: Self::TestCase)
        requires
            old(self).valid_index(idx),
        ensures
            r == old(self).spec_get(idx),
            final(self).spec_get(idx) == case,
            final(self).spec_len() == old(self).spec_len(),
            forall|j: Self::Index| final(self).valid_index(j) <==> old(self).valid_index(j),
            forall|j: Self::Index|
                j != idx && final(self).valid_index(j) ==> final(self).spec_get(j) == old(
                    self,
                ).spec_get(j),
            forall|j: Self::Index| final(self).selectable(j) <==> old(self).selectable(j),
    ;

    /// What one processed run does to this pool: relates the state before,
    /// the processed value, its complexity, the observations, the state
    /// after, and the reported deltas. Each pool spells out its admission
    /// rule here.
    spec fn spec_process(
        pre: Self,
        value: Self::TestCase,
        complexity: u64,
        observations: Self::Observations,
        post: Self,
        deltas: Seq<CorpusDelta<Self::TestCase, Self::Index>>,
    ) -> bool;

    /// What one minification pass does to this pool.
    spec fn spec_minify(
        pre: Self,
        target_len: usize,
        post: Self,
        deltas: Seq<CorpusDelta<Self::TestCase, Self::Index>>,
    ) -> bool;

    /// Integrates an observed test run: the input (either one of the pool's
    /// own retained cases, or a borrowed value), its complexity, and the
    /// observations recorded by the sensor. Returns the corpus changes this
    /// caused: every reported addition is retained (and, with the stored
    /// case, a clone of one common source), and every case that stopped
    /// being retained is reported removed.
    fn process(
        &mut self,
        input: Either<Self::Index, &Self::TestCase>,
        complexity: u64,
        observations: &Self::Observations,
    ) -> (deltas: Vec<CorpusDelta<Self::TestCase, Self::Index>>)
        requires
            input matches Either::Left(idx) ==> old(self).valid_index(idx),
        ensures
            Self::spec_process(
                *old(self),
                (match input {
                    Either::Left(idx) => old(self).spec_get(idx),
                    Either::Right(case) => *case,
                }),
                complexity,
                *observations,
                *final(self),
                deltas@,
            ),
            forall|d: int|
                0 <= d < deltas@.len() ==> ((#[trigger] deltas@[d]).add matches Some(added)
                    ==> final(self).valid_index(added.1) && (exists|src: Self::TestCase|
                    #[trigger] cloned::<Self::TestCase>(src, added.0) && cloned::<
                        Self::TestCase,
                    >(src, final(self).spec_get(added.1)))),
            forall|idx: Self::Index|
                #![trigger old(self).valid_index(idx), final(self).valid_index(idx)]
                old(self).valid_index(idx) && !final(self).valid_index(idx) ==> exists|
                    d: int,
                    k: int,
                |
                    0 <= d < deltas@.len() && 0 <= k < deltas@[d].remove@.len() && (
                    #[trigger] deltas@[d].remove@[k]) == idx,
    ;

    /// Shrinks the retained set toward `target_len`; never grows it, and
    /// reports every case that stopped being retained.
    fn minify(&mut self, target_len: usize) -> (deltas: Vec<
        CorpusDelta<Self::TestCase, Self::Index>,
    >)
        ensures
            final(self).spec_len() <= old(self).spec_len(),
            Self::spec_minify(*old(self), target_len, *final(self), deltas@),
            forall|idx: Self::Index|
                #![trigger old(self).valid_index(idx), final(self).valid_index(idx)]
                old(self).valid_index(idx) && !final(self).valid_index(idx) ==> exists|
                    d: int,
                    k: int,
                |
                    0 <= d < deltas@.len() && 0 <= k < deltas@[d].remove@.len() && (
                    #[trigger] deltas@[d].remove@[k]) == idx,
    ;
}

/// A product-pool delta is the first sub-pool's delta with its indices
/// re-addressed to the left side.
pub open spec fn delta_lifted_left<T, I1, I2>(
    d: CorpusDelta<T, I1>,
    r: CorpusDelta<T, Either<I1, I2>>,
) -> bool {
    &&& r.path == d.path
    &&& (match d.add {
        Some((t, idx)) => r.add == Some((t, Either::<I1, I2>::Left(idx))),
        None => r.add is None,
    })
    &&& r.remove@.len() == d.remove@.len()
    &&& forall|k: int|
        0 <= k < d.remove@.len() ==> r.remove@[k] == Either::<I1, I2>::Left(#[trigger] d.remove@[k])
}

/// A product-pool delta is the second sub-pool's delta with its indices
/// re-addressed to the right side.
pub open spec fn delta_lifted_right<T, I1, I2>(
    d: CorpusDelta<T, I2>,
    r: CorpusDelta<T, Either<I1, I2>>,
) -> bool {
    &&& r.path == d.path
    &&& (match d.add {
        Some((t, idx)) => r.add == Some((t, Either::<I1, I2>::Right(idx))),
        None => r.add is None,
    })
    &&& r.remove@.len() == d.remove@.len()
    &&& forall|k: int|
        0 <= k < d.remove@.len() ==> r.remove@[k] == Either::<I1, I2>::Right(
            #[trigger] d.remove@[k],
        )
}

/// Law: an index returned by `get_random_index` can immediately be passed to
/// `get`: it is selectable, and every selectable index is valid.
pub proof fn lemma_no_stale_index<P: Pool>(pool: &P, idx: P::Index)
    requires
        pool.selectable(idx),
    ensures
        pool.valid_index(idx),
{
    pool.lemma_selectable_is_valid(idx);
}

/// The index of the single test case of a `UnitPool`.
#[derive(Clone, Copy, PartialEq, Eq)]
pub struct UnitPoolIndex;

/// A pool that stores exactly one immutable test case and never admits
/// another one. Used when re-running a single input.
pub struct UnitPool<T> {
    case: T,
    dead_end: bool,
}

impl<T: Clone> UnitPool<T> {
    /// A pool holding exactly `case`.
    pub fn new(case: T) -> (r: Self)
        ensures
            r.spec_len() == 1,
            r.spec_get(UnitPoolIndex) == case,
            r.selectable(UnitPoolIndex),
    {
        UnitPool { case, dead_end: false }
    }
}

impl<T: Clone> Pool for UnitPool<T> {
    type TestCase = T;

    type Index = UnitPoolIndex;

    type Stats = EmptyStats;

    type Observations = ();

    closed spec fn spec_len(&self) -> nat {
        1
    }

    closed spec fn valid_index(&self, idx: UnitPoolIndex) -> bool {
        true
    }

    closed spec fn selectable(&self, idx: UnitPoolIndex) -> bool {
        !self.dead_end
    }

    closed spec fn spec_get(&self, idx: UnitPoolIndex) -> T {
        self.case
    }

    closed spec fn retrievable(&self, idx: UnitPoolIndex, generation: u64) -> bool {
        true
    }

    /// The one stored case is immutable: processing changes nothing and
    /// reports nothing.
    open spec fn spec_process(
        pre: Self,
        value: T,
        complexity: u64,
        observations: (),
        post: Self,
        deltas: Seq<CorpusDelta<T, UnitPoolIndex>>,
    ) -> bool {
        post == pre && deltas.len() == 0
    }

    /// The single case is never given up: minification changes nothing.
    open spec fn spec_minify(
        pre: Self,
        target_len: usize,
        post: Self,
        deltas: Seq<CorpusDelta<T, UnitPoolIndex>>,
    ) -> bool {
        post == pre && deltas.len() == 0
    }

    proof fn lemma_selectable_is_valid(&self, idx: UnitPoolIndex) {
    }

    fn len(&self) -> (r: usize) {
        1
    }

    fn stats(&self) -> EmptyStats {
        EmptyStats
    }

    fn get_random_index(&self) -> (r: Option<UnitPoolIndex>) {
        if self.dead_end {
            None
        } else {
            Some(UnitPoolIndex)
        }
    }

    fn get(&self, idx: UnitPoolIndex) -> (r: &T) {
        &self.case
    }

    fn retrieve_after_processing(&self, idx: UnitPoolIndex, generation: u64) -> (r: Option<&T>) {
        Some(&self.case)
    }

    fn mark_test_case_as_dead_end(&mut self, idx: UnitPoolIndex) {
        self.dead_end = true;
    }

    fn replace(&mut self, idx: UnitPoolIndex, case: T) -> (r: T) {
        let mut incoming = case;
        core::mem::swap(&mut self.case, &mut incoming);
        incoming
    }

    /// The one stored case is immutable: `process` never admits or evicts
    /// anything.
    fn process(&mut self, input: Either<UnitPoolIndex, &T>, complexity: u64, observations: &()) -> (deltas:
        Vec<CorpusDelta<T, UnitPoolIndex>>)
        ensures
            deltas@.len() == 0,
            *final(self) == *old(self),
    {
        Vec::new()
    }

    fn minify(&mut self, target_len: usize) -> (deltas: Vec<CorpusDelta<T, UnitPoolIndex>>)
        ensures
            deltas@.len() == 0,
            *final(self) == *old(self),
    {
        Vec::new()
    }
}

/// The product of two pools over the same test cases. An index addresses a
/// case of either sub-pool; sampling flips a biased coin
/// (`percent_choose_first` out of 100) to decide which sub-pool to try
/// first, and falls back to the other when that one has nothing to select.
pub struct AndPool<P1, P2> where P1: Pool, P2: Pool<TestCase = P1::TestCase> {
    pub p1: P1,
    pub p2: P2,
    pub percent_choose_first: usize,
    pub rng: fastrand::Rng,
}

impl<P1, P2> AndPool<P1, P2> where P1: Pool, P2: Pool<TestCase = P1::TestCase> {
    /// Re-addresses a delta of the first sub-pool as a delta of the product
    /// pool.
    pub(crate) fn lift_corpus_delta_1(delta: CorpusDelta<P1::TestCase, P1::Index>) -> (r:
        CorpusDelta<P1::TestCase, Either<P1::Index, P2::Index>>)
        ensures
            delta_lifted_left::<P1::TestCase, P1::Index, P2::Index>(delta, r),
    {
        let CorpusDelta { path, add, remove } = delta;
        let add = match add {
            Some((t, idx)) => Some((t, Either::Left(idx))),
            None => None,
        };
        let mut lifted_remove: Vec<Either<P1::Index, P2::Index>> = Vec::new();
        let mut k: usize = 0;
        while k < remove.len()
            invariant
                k <= remove.len(),
                lifted_remove@.len() == k,
                forall|j: int|
                    0 <= j < k ==> lifted_remove@[j] == Either::<P1::Index, P2::Index>::Left(
                        remove@[j],
                    ),
            decreases remove.len() - k,
        {
            lifted_remove.push(Either::Left(remove[k]));
            k += 1;
        }
        CorpusDelta { path, add, remove: lifted_remove }
    }

    /// Re-addresses a delta of the second sub-pool as a delta of the product
    /// pool.
    pub(crate) fn lift_corpus_delta_2(delta: CorpusDelta<P2::TestCase, P2::Index>) -> (r:
        CorpusDelta<P2::TestCase, Either<P1::Index, P2::Index>>)
        ensures
            delta_lifted_right::<P1::TestCase, P1::Index, P2::Index>(delta, r),
    {
        let CorpusDelta { path, add, remove } = delta;
        let add = match add {
            Some((t, idx)) => Some((t, Either::Right(idx))),
            None => None,
        };
        let mut lifted_remove: Vec<Either<P1::Index, P2::Index>> = Vec::new();
        let mut k: usize = 0;
        while k < remove.len()
            invariant
                k <= remove.len(),
                lifted_remove@.len() == k,
                forall|j: int|
                    0 <= j < k ==> lifted_remove@[j] == Either::<P1::Index, P2::Index>::Right(
                        remove@[j],
                    ),
            decreases remove.len() - k,
        {
            lifted_remove.push(Either::Right(remove[k]));
            k += 1;
        }
        CorpusDelta { path, add, remove: lifted_remove }
    }

    fn lift_all_1(deltas: Vec<CorpusDelta<P1::TestCase, P1::Index>>) -> (r: Vec<
        CorpusDelta<P1::TestCase, Either<P1::Index, P2::Index>>,
    >)
        ensures
            r@.len() == deltas@.len(),
            forall|i: int|
                0 <= i < deltas@.len() ==> delta_lifted_left::<P1::TestCase, P1::Index, P2::Index>(
                    #[trigger] deltas@[i],
                    r@[i],
                ),
    {
        let ghost orig = deltas@;
        let mut r: Vec<CorpusDelta<P1::TestCase, Either<P1::Index, P2::Index>>> = Vec::new();
        let mut deltas = deltas;
        while deltas.len() > 0
            invariant
                r@.len() + deltas@.len() == orig.len(),
                deltas@ =~= orig.skip(r@.len() as int),
                forall|i: int|
                    0 <= i < r@.len() ==> delta_lifted_left::<P1::TestCase, P1::Index, P2::Index>(
                        #[trigger] orig[i],
                        r@[i],
                    ),
            decreases deltas.len(),
        {
            proof {
                assert(deltas@[0] == orig[r@.len() as int]);
            }
            let d = deltas.remove(0);
            r.push(Self::lift_corpus_delta_1(d));
            proof {
                assert(deltas@ =~= orig.skip(r@.len() as int));
            }
        }
        r
    }

    fn lift_all_2(deltas: Vec<CorpusDelta<P2::TestCase, P2::Index>>) -> (r: Vec<
        CorpusDelta<P2::TestCase, Either<P1::Index, P2::Index>>,
    >)
        ensures
            r@.len() == deltas@.len(),
            forall|i: int|
                0 <= i < deltas@.len() ==> delta_lifted_right::<
                    P1::TestCase,
                    P1::Index,
                    P2::Index,
                >(#[trigger] deltas@[i], r@[i]),
    {
        let ghost orig = deltas@;
        let mut r: Vec<CorpusDelta<P2::TestCase, Either<P1::Index, P2::Index>>> = Vec::new();
        let mut deltas = deltas;
        while deltas.len() > 0
            invariant
                r@.len() + deltas@.len() == orig.len(),
                deltas@ =~= orig.skip(r@.len() as int),
                forall|i: int|
                    0 <= i < r@.len() ==> delta_lifted_right::<P1::TestCase, P1::Index, P2::Index>(
                        #[trigger] orig[i],
                        r@[i],
                    ),
            decreases deltas.len(),
        {
            proof {
                assert(deltas@[0] == orig[r@.len() as int]);
            }
            let d = deltas.remove(0);
            r.push(Self::lift_corpus_delta_2(d));
            proof {
                assert(deltas@ =~= orig.skip(r@.len() as int));
            }
        }
        r
    }
}

impl<P1, P2> Pool for AndPool<P1, P2> where P1: Pool, P2: Pool<TestCase = P1::TestCase> {
    type TestCase = P1::TestCase;

    type Index = Either<P1::Index, P2::Index>;

    type Stats = AndStats<P1::Stats, P2::Stats>;

    type Observations = (P1::Observations, P2::Observations);

    open spec fn spec_len(&self) -> nat {
        self.p1.spec_len() + self.p2.spec_len()
    }

    open spec fn valid_index(&self, idx: Either<P1::Index, P2::Index>) -> bool {
        match idx {
            Either::Left(idx) => self.p1.valid_index(idx),
            Either::Right(idx) => self.p2.valid_index(idx),
        }
    }

    open spec fn selectable(&self, idx: Either<P1::Index, P2::Index>) -> bool {
        match idx {
            Either::Left(idx) => self.p1.selectable(idx),
            Either::Right(idx) => self.p2.selectable(idx),
        }
    }

    open spec fn spec_get(&self, idx: Either<P1::Index, P2::Index>) -> P1::TestCase {
        match idx {
            Either::Left(idx) => self.p1.spec_get(idx),
            Either::Right(idx) => self.p2.spec_get(idx),
        }
    }

    open spec fn retrievable(&self, idx: Either<P1::Index, P2::Index>, generation: u64) -> bool {
        match idx {
            Either::Left(idx) => self.p1.retrievable(idx, generation),
            Either::Right(idx) => self.p2.retrievable(idx, generation),
        }
    }

    /// Each sub-pool processes the same value with its own half of the
    /// observations; the reported deltas are the first sub-pool's deltas
    /// lifted left, followed by the second's lifted right.
    open spec fn spec_process(
        pre: Self,
        value: P1::TestCase,
        complexity: u64,
        observations: (P1::Observations, P2::Observations),
        post: Self,
        deltas: Seq<CorpusDelta<P1::TestCase, Either<P1::Index, P2::Index>>>,
    ) -> bool {
        exists|
            d1: Seq<CorpusDelta<P1::TestCase, P1::Index>>,
            d2: Seq<CorpusDelta<P1::TestCase, P2::Index>>,
        |
            {
                &&& #[trigger] P1::spec_process(
                    pre.p1,
                    value,
                    complexity,
                    observations.0,
                    post.p1,
                    d1,
                )
                &&& #[trigger] P2::spec_process(
                    pre.p2,
                    value,
                    complexity,
                    observations.1,
                    post.p2,
                    d2,
                )
                &&& deltas.len() == d1.len() + d2.len()
                &&& forall|i: int|
                    0 <= i < d1.len() ==> delta_lifted_left::<P1::TestCase, P1::Index, P2::Index>(
                        #[trigger] d1[i],
                        deltas[i],
                    )
                &&& forall|i: int|
                    0 <= i < d2.len() ==> delta_lifted_right::<P1::TestCase, P1::Index, P2::Index>(
                        #[trigger] d2[i],
                        deltas[d1.len() + i],
                    )
                &&& post.percent_choose_first == pre.percent_choose_first
            }
    }

    /// Each sub-pool shrinks toward the same target; the reported deltas
    /// are the sub-pools' deltas, lifted and concatenated.
    open spec fn spec_minify(
        pre: Self,
        target_len: usize,
        post: Self,
        deltas: Seq<CorpusDelta<P1::TestCase, Either<P1::Index, P2::Index>>>,
    ) -> bool {
        exists|
            d1: Seq<CorpusDelta<P1::TestCase, P1::Index>>,
            d2: Seq<CorpusDelta<P1::TestCase, P2::Index>>,
        |
            {
                &&& #[trigger] P1::spec_minify(pre.p1, target_len, post.p1, d1)
                &&& #[trigger] P2::spec_minify(pre.p2, target_len, post.p2, d2)
                &&& deltas.len() == d1.len() + d2.len()
                &&& forall|i: int|
                    0 <= i < d1.len() ==> delta_lifted_left::<P1::TestCase, P1::Index, P2::Index>(
                        #[trigger] d1[i],
                        deltas[i],
                    )
                &&& forall|i: int|
                    0 <= i < d2.len() ==> delta_lifted_right::<P1::TestCase, P1::Index, P2::Index>(
                        #[trigger] d2[i],
                        deltas[d1.len() + i],
                    )
                &&& post.percent_choose_first == pre.percent_choose_first
            }
    }

    proof fn lemma_selectable_is_valid(&self, idx: Either<P1::Index, P2::Index>) {
        match idx {
            Either::Left(idx) => self.p1.lemma_selectable_is_valid(idx),
            Either::Right(idx) => self.p2.lemma_selectable_is_valid(idx),
        }
    }

    /// Law: the product pool retains exactly the cases of its two sub-pools
    /// together, so its length is the sum of theirs.
    fn len(&self) -> (r: usize)
        ensures
            r as nat <= self.p1.spec_len() + self.p2.spec_len(),
            self.p1.spec_len() + self.p2.spec_len() <= usize::MAX as nat ==> r as nat
                == self.p1.spec_len() + self.p2.spec_len(),
    {
        let a = self.p1.len();
        let b = self.p2.len();
        if a <= usize::MAX - b {
            a + b
        } else {
            usize::MAX
        }
    }

    fn stats(&self) -> AndStats<P1::Stats, P2::Stats> {
        AndStats { stats1: self.p1.stats(), stats2: self.p2.stats() }
    }

    /// Flips the biased coin; the chosen sub-pool is sampled first, and the
    /// other serves as fallback when the first has nothing selectable.
    fn get_random_index(&self) -> (r: Option<Either<P1::Index, P2::Index>>) {
        if rng_usize_below(&self.rng, 100) < self.percent_choose_first {
            if let Some(idx) = self.p1.get_random_index() {
                Some(Either::Left(idx))
            } else {
                match self.p2.get_random_index() {
                    Some(idx) => Some(Either::Right(idx)),
                    None => None,
                }
            }
        } else {
            if let Some(idx) = self.p2.get_random_index() {
                Some(Either::Right(idx))
            } else {
                match self.p1.get_random_index() {
                    Some(idx) => Some(Either::Left(idx)),
                    None => None,
                }
            }
        }
    }

    fn get(&self, idx: Either<P1::Index, P2::Index>) -> (r: &P1::TestCase) {
        match idx {
            Either::Left(idx) => self.p1.get(idx),
            Either::Right(idx) => self.p2.get(idx),
        }
    }

    fn retrieve_after_processing(&self, idx: Either<P1::Index, P2::Index>, generation: u64) -> (r:
        Option<&P1::TestCase>)
    {
        match idx {
            Either::Left(idx) => self.p1.retrieve_after_processing(idx, generation),
            Either::Right(idx) => self.p2.retrieve_after_processing(idx, generation),
        }
    }

    fn mark_test_case_as_dead_end(&mut self, idx: Either<P1::Index, P2::Index>) {
        match idx {
            Either::Left(idx) => self.p1.mark_test_case_as_dead_end(idx),
            Either::Right(idx) => self.p2.mark_test_case_as_dead_end(idx),
        }
    }

    fn replace(&mut self, idx: Either<P1::Index, P2::Index>, case: P1::TestCase) -> (r:
        P1::TestCase) {
        match idx {
            Either::Left(idx) => self.p1.replace(idx, case),
            Either::Right(idx) => self.p2.replace(idx, case),
        }
    }

    /// Feeds each sub-pool its own view of the input: an index of that
    /// sub-pool stays an index, and an index of the other sub-pool is
    /// dereferenced there and handed over as a borrowed test case. The
    /// resulting deltas are re-addressed into the product pool, the first
    /// sub-pool's first.
    fn process(
        &mut self,
        input: Either<Either<P1::Index, P2::Index>, &P1::TestCase>,
        complexity: u64,
        observations: &(P1::Observations, P2::Observations),
    ) -> (deltas: Vec<
        CorpusDelta<P1::TestCase, Either<P1::Index, P2::Index>>,
    >) {
        let ghost pre = *old(self);
        let ghost value = (match input {
            Either::Left(idx) => pre.spec_get(idx),
            Either::Right(case) => *case,
        });
        let deltas1: Vec<CorpusDelta<P1::TestCase, P1::Index>>;
        let deltas2: Vec<CorpusDelta<P1::TestCase, P2::Index>>;
        match input {
            Either::Left(Either::Left(idx1)) => {
                let case = self.p1.get(idx1);
                deltas2 = self.p2.process(Either::Right(case), complexity, &observations.1);
                deltas1 = self.p1.process(Either::Left(idx1), complexity, &observations.0);
            },
            Either::Left(Either::Right(idx2)) => {
                let case = self.p2.get(idx2);
                deltas1 = self.p1.process(Either::Right(case), complexity, &observations.0);
                deltas2 = self.p2.process(Either::Left(idx2), complexity, &observations.1);
            },
            Either::Right(case) => {
                deltas1 = self.p1.process(Either::Right(case), complexity, &observations.0);
                deltas2 = self.p2.process(Either::Right(case), complexity, &observations.1);
            },
        }
        let ghost d1 = deltas1@;
        let ghost d2 = deltas2@;
        let mut deltas = Self::lift_all_1(deltas1);
        let mut second = Self::lift_all_2(deltas2);
        deltas.append(&mut second);
        proof {
            assert(P1::spec_process(pre.p1, value, complexity, observations.0, self.p1, d1));
            assert(P2::spec_process(pre.p2, value, complexity, observations.1, self.p2, d2));
            assert(Self::spec_process(pre, value, complexity, *observations, *self, deltas@));
            assert forall|d: int|
                0 <= d < deltas@.len() implies ((#[trigger] deltas@[d]).add matches Some(added)
                ==> self.valid_index(added.1) && (exists|src: P1::TestCase|
                #[trigger] cloned::<P1::TestCase>(src, added.0) && cloned::<P1::TestCase>(
                    src,
                    self.spec_get(added.1),
                ))) by {
                if d < d1.len() {
                    assert(delta_lifted_left::<P1::TestCase, P1::Index, P2::Index>(
                        d1[d],
                        deltas@[d],
                    ));
                    if d1[d].add is Some {
                        let (t, i1) = d1[d].add->0;
                        assert(self.p1.valid_index(i1) && (exists|src: P1::TestCase|
                            #[trigger] cloned::<P1::TestCase>(src, t) && cloned::<P1::TestCase>(
                                src,
                                self.p1.spec_get(i1),
                            )));
                        let src0 = choose|src: P1::TestCase|
                            #[trigger] cloned::<P1::TestCase>(src, t) && cloned::<P1::TestCase>(
                                src,
                                self.p1.spec_get(i1),
                            );
                        assert(deltas@[d].add == Some(
                            (t, Either::<P1::Index, P2::Index>::Left(i1)),
                        ));
                        assert(self.spec_get(Either::Left(i1)) == self.p1.spec_get(i1));
                        assert(cloned::<P1::TestCase>(
                            src0,
                            self.spec_get(Either::Left(i1)),
                        ));
                        assert(self.valid_index(Either::Left(i1)));
                        let added = deltas@[d].add->0;
                        assert(added.0 == t && added.1 == Either::<P1::Index, P2::Index>::Left(
                            i1,
                        ));
                        assert(exists|src: P1::TestCase|
                            #[trigger] cloned::<P1::TestCase>(src, added.0) && cloned::<
                                P1::TestCase,
                            >(src, self.spec_get(added.1)));
                    }
                } else {
                    let j = d - d1.len();
                    assert(delta_lifted_right::<P1::TestCase, P1::Index, P2::Index>(
                        d2[j],
                        deltas@[d],
                    ));
                    if d2[j].add is Some {
                        let (t, i2) = d2[j].add->0;
                        assert(self.p2.valid_index(i2) && (exists|src: P1::TestCase|
                            #[trigger] cloned::<P1::TestCase>(src, t) && cloned::<P1::TestCase>(
                                src,
                                self.p2.spec_get(i2),
                            )));
                        let src0 = choose|src: P1::TestCase|
                            #[trigger] cloned::<P1::TestCase>(src, t) && cloned::<P1::TestCase>(
                                src,
                                self.p2.spec_get(i2),
                            );
                        assert(deltas@[d].add == Some(
                            (t, Either::<P1::Index, P2::Index>::Right(i2)),
                        ));
                        assert(self.spec_get(Either::Right(i2)) == self.p2.spec_get(i2));
                        assert(cloned::<P1::TestCase>(
                            src0,
                            self.spec_get(Either::Right(i2)),
                        ));
                        assert(self.valid_index(Either::Right(i2)));
                        let added = deltas@[d].add->0;
                        assert(added.0 == t && added.1 == Either::<P1::Index, P2::Index>::Right(
                            i2,
                        ));
                        assert(exists|src: P1::TestCase|
                            #[trigger] cloned::<P1::TestCase>(src, added.0) && cloned::<
                                P1::TestCase,
                            >(src, self.spec_get(added.1)));
                    }
                }
            }
            assert forall|idx: Either<P1::Index, P2::Index>|
                pre.valid_index(idx) && !self.valid_index(idx) implies exists|dd: int, kk: int|
                0 <= dd < deltas@.len() && 0 <= kk < deltas@[dd].remove@.len() && (
                #[trigger] deltas@[dd].remove@[kk]) == idx by {
                match idx {
                    Either::Left(i1) => {
                        assert(pre.p1.valid_index(i1) && !self.p1.valid_index(i1));
                        let (dd, kk) = choose|dd: int, kk: int|
                            0 <= dd < d1.len() && 0 <= kk < d1[dd].remove@.len() && (
                            #[trigger] d1[dd].remove@[kk]) == i1;
                        assert(delta_lifted_left::<P1::TestCase, P1::Index, P2::Index>(
                            d1[dd],
                            deltas@[dd],
                        ));
                        assert(deltas@[dd].remove@[kk] == Either::<P1::Index, P2::Index>::Left(
                            i1,
                        ));
                    },
                    Either::Right(i2) => {
                        assert(pre.p2.valid_index(i2) && !self.p2.valid_index(i2));
                        let (dd, kk) = choose|dd: int, kk: int|
                            0 <= dd < d2.len() && 0 <= kk < d2[dd].remove@.len() && (
                            #[trigger] d2[dd].remove@[kk]) == i2;
                        assert(delta_lifted_right::<P1::TestCase, P1::Index, P2::Index>(
                            d2[dd],
                            deltas@[d1.len() + dd],
                        ));
                        assert(deltas@[d1.len() + dd].remove@[kk] == Either::<
                            P1::Index,
                            P2::Index,
                        >::Right(i2));
                    },
                }
            }
        }
        deltas
    }

    fn minify(&mut self, target_len: usize) -> (deltas: Vec<
        CorpusDelta<P1::TestCase, Either<P1::Index, P2::Index>>,
    >) {
        let ghost pre = *old(self);
        let deltas1 = self.p1.minify(target_len);
        let deltas2 = self.p2.minify(target_len);
        let ghost d1 = deltas1@;
        let ghost d2 = deltas2@;
        let mut deltas = Self::lift_all_1(deltas1);
        let mut second = Self::lift_all_2(deltas2);
        deltas.append(&mut second);
        proof {
            assert(P1::spec_minify(pre.p1, target_len, self.p1, d1));
            assert(P2::spec_minify(pre.p2, target_len, self.p2, d2));
            assert(Self::spec_minify(pre, target_len, *self, deltas@));
            assert forall|idx: Either<P1::Index, P2::Index>|
                pre.valid_index(idx) && !self.valid_index(idx) implies exists|dd: int, kk: int|
                0 <= dd < deltas@.len() && 0 <= kk < deltas@[dd].remove@.len() && (
                #[trigger] deltas@[dd].remove@[kk]) == idx by {
                match idx {
                    Either::Left(i1) => {
                        assert(pre.p1.valid_index(i1) && !self.p1.valid_index(i1));
                        let (dd, kk) = choose|dd: int, kk: int|
                            0 <= dd < d1.len() && 0 <= kk < d1[dd].remove@.len() && (
                            #[trigger] d1[dd].remove@[kk]) == i1;
                        assert(delta_lifted_left::<P1::TestCase, P1::Index, P2::Index>(
                            d1[dd],
                            deltas@[dd],
                        ));
                        assert(deltas@[dd].remove@[kk] == Either::<P1::Index, P2::Index>::Left(
                            i1,
                        ));
                    },
                    Either::Right(i2) => {
                        assert(pre.p2.valid_index(i2) && !self.p2.valid_index(i2));
                        let (dd, kk) = choose|dd: int, kk: int|
                            0 <= dd < d2.len() && 0 <= kk < d2[dd].remove@.len() && (
                            #[trigger] d2[dd].remove@[kk]) == i2;
                        assert(delta_lifted_right::<P1::TestCase, P1::Index, P2::Index>(
                            d2[dd],
                            deltas@[d1.len() + dd],
                        ));
                        assert(deltas@[d1.len() + dd].remove@[kk] == Either::<
                            P1::Index,
                            P2::Index,
                        >::Right(i2));
                    },
                }
            }
        }
        deltas
    }
}

} // verus!
