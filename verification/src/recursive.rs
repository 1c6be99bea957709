//! Mutators for recursive types.
//!
//! `RecursiveMutator` is the top-level mutator for a recursive type;
//! `RecurToMutator` stands at the points of recursion and is essentially a
//! weak reference back to the `RecursiveMutator`. The cycle is tied by
//! [`RecursiveMutator::new`], which hands the constructor closure such a
//! back-reference.
use vstd::prelude::*;

use crate::mutator::Mutator;
use crate::rng::{rng_new, rng_usize_below};

verus! {

/// The enumeration cursor of a mutator reached through a back-reference:
/// the inner cursor exists only once the target has been consulted.
#[derive(Clone, Debug, PartialEq)]
pub enum RecursingArbitraryStep<AS> {
    Default,
    Initialized(AS),
}

impl<AS> Default for RecursingArbitraryStep<AS> {
    fn default() -> (r: Self)
        ensures
            (r matches RecursingArbitraryStep::<AS>::Default),
    {
        RecursingArbitraryStep::Default
    }
}

/// The mutation cursor of a `RecursiveMutator`: first the "replace the
/// whole by a recursing sub-part" moves, then the inner mutator's own
/// mutations.
#[derive(Clone, Debug, PartialEq)]
pub struct RecursiveMutatorMutationStep<MS, RPI> {
    recursing_part_index: Option<RPI>,
    mutation_step: MS,
}

/// Reverses a mutation of a `RecursiveMutator`: either put back the entire
/// previous value, or undo an inner mutation.
pub enum RecursiveMutatorUnmutateToken<T, UnmutateToken> {
    Replace(T),
    Token(UnmutateToken),
}

/// A non-owning handle to the reference-counted cell a `RecursiveMutator`
/// keeps its inner mutator in.
#[verifier::external_body]
#[verifier::reject_recursive_types(M)]
pub struct WeakRef<M> {
    reference: std::rc::Weak<M>,
}

/// Relies on std's Weak::upgrade: returns the referenced value as long as it
/// is alive, and `None` once it has been dropped.
#[verifier::external_body]
fn weak_upgrade<M>(w: &WeakRef<M>) -> Option<std::rc::Rc<M>> {
    w.reference.upgrade()
}

/// Relies on std's Rc::new_cyclic: builds the value inside its own
/// reference-counted cell, handing the constructor a handle to that cell so
/// that the value can refer back to itself. The stored value is what
/// `data_fn` returned for that handle; `data_fn` is called exactly once, so
/// its precondition must hold of whatever handle it is given.
#[verifier::external_body]
fn rc_new_cyclic<M, F: FnOnce(RecurToMutator<M>) -> M>(data_fn: F) -> (r: std::rc::Rc<M>)
    requires
        forall|handle: RecurToMutator<M>| data_fn.requires((handle,)),
    ensures
        exists|handle: RecurToMutator<M>| data_fn.ensures((handle,), *r),
{
    std::rc::Rc::new_cyclic(
        |weak|
            data_fn(RecurToMutator { reference: WeakRef { reference: weak.clone() } }),
    )
}

/// Relies on std's Any::downcast_ref: `Some` exactly when the referenced
/// value is a `RecursiveMutator<M>`.
#[verifier::external_body]
fn as_recursive_mutator<'a, N: 'static, M: 'static>(parent: &'a N) -> Option<
    &'a RecursiveMutator<M>,
> {
    let parent_any: &dyn core::any::Any = parent;
    parent_any.downcast_ref::<RecursiveMutator<M>>()
}

/// Relies on std's Rc::downgrade and Weak::ptr_eq: whether the handle and
/// the cell point to the same allocation.
#[verifier::external_body]
fn same_mutator<M>(w: &WeakRef<M>, rc: &std::rc::Rc<M>) -> bool {
    w.reference.ptr_eq(&std::rc::Rc::downgrade(rc))
}

/// Relies on std's Any::downcast_ref: `Some` exactly when `T` and `V` are
/// the same type.
#[verifier::external_body]
fn value_as<'a, T: 'static, V: 'static>(value: &'a T) -> Option<&'a V> {
    let value_any: &dyn core::any::Any = value;
    value_any.downcast_ref::<V>()
}

/// The top-level mutator of a recursive type, owning the inner mutator that
/// handles one layer of the type.
pub struct RecursiveMutator<M> {
    pub mutator: std::rc::Rc<M>,
    pub rng: fastrand::Rng,
}

impl<M> RecursiveMutator<M> {
    /// Creates a `RecursiveMutator`, handing `data_fn` the back-reference
    /// through which the inner mutator can call the whole. The inner
    /// mutator is what `data_fn` returned for that back-reference; since the
    /// handle is chosen by the cell, `data_fn` must accept any handle.
    pub fn new<F: FnOnce(RecurToMutator<M>) -> M>(data_fn: F) -> (r: Self)
        requires
            forall|handle: RecurToMutator<M>| data_fn.requires((handle,)),
        ensures
            exists|handle: RecurToMutator<M>| data_fn.ensures((handle,), *r.mutator),
    {
        let mutator = rc_new_cyclic(data_fn);
        let r = RecursiveMutator { mutator, rng: rng_new() };
        proof {
            assert(exists|handle: RecurToMutator<M>| data_fn.ensures((handle,), *mutator));
            assert(r.mutator == mutator);
            assert(exists|handle: RecurToMutator<M>| data_fn.ensures((handle,), *r.mutator));
        }
        r
    }
}

/// A mutator that defers to a weak reference to a [`RecursiveMutator`].
///
/// Its operations consult the referenced mutator; they fail soft (return
/// `None`, or leave their arguments unchanged) when the reference is no
/// longer alive, which cannot happen while the `RecursiveMutator` exists.
#[verifier::reject_recursive_types(M)]
pub struct RecurToMutator<M> {
    reference: WeakRef<M>,
}

impl<M> RecurToMutator<M> {
    pub fn default_arbitrary_step<T>(&self) -> (r: RecursingArbitraryStep<M::ArbitraryStep>) where
        M: Mutator<T>,

        ensures
            (r matches RecursingArbitraryStep::<M::ArbitraryStep>::Default),
    {
        RecursingArbitraryStep::Default
    }

    /// A cache handed back here is valid for some instance of the target
    /// mutator type.
    pub fn validate_value<T>(&self, value: &T) -> (r: Option<M::Cache>) where M: Mutator<T>
        ensures
            r matches Some(c) ==> exists|m: M| #[trigger] m.valid(*value, c),
    {
        match weak_upgrade(&self.reference) {
            Some(m) => {
                let r = m.validate_value(value);
                proof {
                    if r is Some {
                        assert(exists|mm: M| #[trigger] mm.valid(*value, r->0));
                    }
                }
                r
            },
            None => None,
        }
    }

    pub fn default_mutation_step<T>(&self, value: &T, cache: &M::Cache) -> (r: Option<
        M::MutationStep,
    >) where M: Mutator<T> {
        match weak_upgrade(&self.reference) {
            Some(m) => Some(m.default_mutation_step(value, cache)),
            None => None,
        }
    }

    /// A back-reference puts no bound of its own on complexity.
    pub fn max_complexity(&self) -> (r: u64)
        ensures
            r == u64::MAX,
    {
        u64::MAX
    }

    /// The target's minimum complexity, or 1 when the reference is gone.
    pub fn min_complexity<T>(&self) -> (r: u64) where M: Mutator<T> {
        match weak_upgrade(&self.reference) {
            Some(m) => m.min_complexity(),
            None => 1,
        }
    }

    pub fn complexity<T>(&self, value: &T, cache: &M::Cache) -> (r: Option<u64>) where
        M: Mutator<T>,

        requires
            forall|m: M| m.valid(*value, *cache),
    {
        match weak_upgrade(&self.reference) {
            Some(m) => Some(m.complexity(value, cache)),
            None => None,
        }
    }

    pub fn ordered_arbitrary<T>(
        &self,
        step: &mut RecursingArbitraryStep<M::ArbitraryStep>,
        max_cplx: u64,
    ) -> (r: Option<(T, u64)>) where M: Mutator<T> {
        match weak_upgrade(&self.reference) {
            Some(m) => {
                match step {
                    RecursingArbitraryStep::Default => {
                        let mut inner_step = m.default_arbitrary_step();
                        let r = m.ordered_arbitrary(&mut inner_step, max_cplx);
                        *step = RecursingArbitraryStep::Initialized(inner_step);
                        r
                    },
                    RecursingArbitraryStep::Initialized(inner_step) => m.ordered_arbitrary(
                        inner_step,
                        max_cplx,
                    ),
                }
            },
            None => None,
        }
    }

    pub fn random_arbitrary<T>(&self, max_cplx: u64) -> (r: Option<(T, u64)>) where M: Mutator<T> {
        match weak_upgrade(&self.reference) {
            Some(m) => Some(m.random_arbitrary(max_cplx)),
            None => None,
        }
    }

    /// On success the token undoes the mutation on the target mutator; when
    /// the reference is gone, nothing happens.
    pub fn ordered_mutate<T>(
        &self,
        value: &mut T,
        cache: &mut M::Cache,
        step: &mut M::MutationStep,
        max_cplx: u64,
    ) -> (r: Option<(M::UnmutateToken, u64)>) where M: Mutator<T>
        requires
            forall|m: M| m.valid(*old(value), *old(cache)),
        ensures
            r matches Some((t, cplx)) ==> exists|m: M|
                (#[trigger] m.spec_unmutate(*final(value), *final(cache), t)) == (
                *old(value),
                *old(cache),
                ),
            r is None ==> *final(value) == *old(value) && *final(cache) == *old(cache),
    {
        match weak_upgrade(&self.reference) {
            Some(m) => {
                let r = m.ordered_mutate(value, cache, step, max_cplx);
                proof {
                    if r is Some {
                        let pair = r->0;
                        assert(exists|mm: M|
                            (#[trigger] mm.spec_unmutate(*value, *cache, pair.0)) == (
                                *old(value),
                                *old(cache),
                            ));
                    }
                }
                r
            },
            None => None,
        }
    }

    pub fn random_mutate<T>(&self, value: &mut T, cache: &mut M::Cache, max_cplx: u64) -> (r:
        Option<(M::UnmutateToken, u64)>) where M: Mutator<T>
        requires
            forall|m: M| m.valid(*old(value), *old(cache)),
        ensures
            r matches Some(p) ==> exists|m: M|
                (#[trigger] m.spec_unmutate(*final(value), *final(cache), p.0)) == (
                *old(value),
                *old(cache),
                ),
            r is None ==> *final(value) == *old(value) && *final(cache) == *old(cache),
    {
        let result = match weak_upgrade(&self.reference) {
            Some(m) => Some(m.random_mutate(value, cache, max_cplx)),
            None => None,
        };
        proof {
            if result is Some {
                let p = result->0;
                assert(exists|mm: M|
                    (#[trigger] mm.spec_unmutate(*value, *cache, p.0)) == (
                        *old(value),
                        *old(cache),
                    ));
            }
        }
        result
    }

    /// Applies the token on the target mutator; when the reference is gone,
    /// the pair stays as it is.
    pub fn unmutate<T>(&self, value: &mut T, cache: &mut M::Cache, t: M::UnmutateToken) where
        M: Mutator<T>,

        ensures
            (*final(value), *final(cache)) == (*old(value), *old(cache)) || exists|m: M|
                (*final(value), *final(cache)) == #[trigger] m.spec_unmutate(
                    *old(value),
                    *old(cache),
                    t,
                ),
    {
        match weak_upgrade(&self.reference) {
            Some(m) => {
                m.unmutate(value, cache, t);
                proof {
                    assert(exists|mm: M|
                        (*value, *cache) == #[trigger] mm.spec_unmutate(
                            *old(value),
                            *old(cache),
                            t,
                        ));
                }
            },
            None => {},
        }
    }

    pub fn default_recursing_part_index(&self) -> (r: bool)
        ensures
            r == false,
    {
        false
    }

    /// The whole value is itself a recursing part when `parent` is the
    /// `RecursiveMutator` this back-reference points to; the single-position
    /// cursor is exhausted after one visit.
    pub fn recursing_part<'a, T, V, N>(&self, parent: &N, value: &'a T, index: &mut bool) -> (r:
        Option<&'a V>) where M: Mutator<T> + 'static, T: 'static, V: 'static, N: 'static
        ensures
            *old(index) ==> r is None,
            *final(index),
    {
        if *index {
            None
        } else {
            *index = true;
            match as_recursive_mutator::<N, M>(parent) {
                Some(recursive_mutator) => {
                    if same_mutator(&self.reference, &recursive_mutator.mutator) {
                        value_as::<T, V>(value)
                    } else {
                        None
                    }
                },
                None => None,
            }
        }
    }
}

impl<M, T> Mutator<T> for RecursiveMutator<M> where M: Mutator<T> + 'static, T: Clone + 'static {
    type Cache = M::Cache;

    type MutationStep = RecursiveMutatorMutationStep<M::MutationStep, M::RecursingPartIndex>;

    type ArbitraryStep = M::ArbitraryStep;

    type UnmutateToken = RecursiveMutatorUnmutateToken<T, M::UnmutateToken>;

    type RecursingPartIndex = M::RecursingPartIndex;

    open spec fn valid(&self, v: T, c: M::Cache) -> bool {
        self.mutator.valid(v, c)
    }

    open spec fn spec_min_complexity(&self) -> u64 {
        self.mutator.spec_min_complexity()
    }

    open spec fn spec_max_complexity(&self) -> u64 {
        self.mutator.spec_max_complexity()
    }

    open spec fn spec_complexity(&self, v: T, c: M::Cache) -> u64 {
        self.mutator.spec_complexity(v, c)
    }

    open spec fn spec_unmutate(&self, v: T, c: M::Cache, t: Self::UnmutateToken) -> (T, M::Cache) {
        match t {
            RecursiveMutatorUnmutateToken::Replace(x) => (x, c),
            RecursiveMutatorUnmutateToken::Token(tk) => self.mutator.spec_unmutate(v, c, tk),
        }
    }

    fn default_arbitrary_step(&self) -> M::ArbitraryStep {
        self.mutator.default_arbitrary_step()
    }

    fn validate_value(&self, value: &T) -> (r: Option<M::Cache>) {
        self.mutator.validate_value(value)
    }

    fn default_mutation_step(&self, value: &T, cache: &M::Cache) -> Self::MutationStep {
        let mutation_step = self.mutator.default_mutation_step(value, cache);
        let recursing_part_index = Some(
            self.mutator.default_recursing_part_index(value, cache),
        );
        RecursiveMutatorMutationStep { mutation_step, recursing_part_index }
    }

    fn min_complexity(&self) -> u64 {
        self.mutator.min_complexity()
    }

    fn max_complexity(&self) -> u64 {
        self.mutator.max_complexity()
    }

    fn complexity(&self, value: &T, cache: &M::Cache) -> u64 {
        self.mutator.complexity(value, cache)
    }

    fn ordered_arbitrary(&self, step: &mut M::ArbitraryStep, max_cplx: u64) -> Option<(T, u64)> {
        self.mutator.ordered_arbitrary(step, max_cplx)
    }

    fn random_arbitrary(&self, max_cplx: u64) -> (T, u64) {
        self.mutator.random_arbitrary(max_cplx)
    }

    /// First tries to replace the whole value by one of its recursing
    /// sub-parts, the principal shrinking move of recursive types; once
    /// those positions are exhausted, defers to the inner mutator.
    fn ordered_mutate(
        &self,
        value: &mut T,
        cache: &mut M::Cache,
        step: &mut Self::MutationStep,
        max_cplx: u64,
    ) -> (r: Option<(Self::UnmutateToken, u64)>)
        ensures
            r matches Some((t, cplx)) ==> (t is Replace ==> exists|cc: M::Cache|
                #[trigger] self.valid(*final(value), cc) && cplx == self.spec_complexity(
                    *final(value),
                    cc,
                )),
    {
        let mut replacement: Option<(T, u64)> = None;
        let ghost mut replacement_cache: Option<M::Cache> = None;
        match &mut step.recursing_part_index {
            Some(recursing_part_index) => {
                match self.mutator.recursing_part::<T, Self>(self, value, recursing_part_index) {
                    Some(part) => {
                        let part_clone = part.clone();
                        match self.mutator.validate_value(&part_clone) {
                            Some(part_cache) => {
                                let cplx = self.mutator.complexity(&part_clone, &part_cache);
                                proof {
                                    replacement_cache = Some(part_cache);
                                }
                                replacement = Some((part_clone, cplx));
                            },
                            None => {},
                        }
                    },
                    None => {},
                }
            },
            None => {},
        }
        match replacement {
            Some((new_value, cplx)) => {
                let mut new_value = new_value;
                core::mem::swap(value, &mut new_value);
                proof {
                    let cc = replacement_cache->0;
                    assert(self.valid(*value, cc) && cplx == self.spec_complexity(*value, cc));
                }
                Some((RecursiveMutatorUnmutateToken::Replace(new_value), cplx))
            },
            None => {
                step.recursing_part_index = None;
                match self.mutator.ordered_mutate(value, cache, &mut step.mutation_step, max_cplx) {
                    Some((t, cplx)) => Some((RecursiveMutatorUnmutateToken::Token(t), cplx)),
                    None => None,
                }
            },
        }
    }

    /// About 1% of random mutations attempt the "replace the whole by a
    /// recursing sub-part" shrinking move.
    fn random_mutate(&self, value: &mut T, cache: &mut M::Cache, max_cplx: u64) -> (r: (
        Self::UnmutateToken,
        u64,
    ))
        ensures
            r.0 is Replace ==> exists|cc: M::Cache|
                #[trigger] self.valid(*final(value), cc) && r.1 == self.spec_complexity(
                    *final(value),
                    cc,
                ),
    {
        let mut replacement: Option<(T, u64)> = None;
        let ghost mut replacement_cache: Option<M::Cache> = None;
        if rng_usize_below(&self.rng, 100) == 0 {
            let mut recursing_part_index = self.mutator.default_recursing_part_index(value, cache);
            match self.mutator.recursing_part::<T, Self>(self, value, &mut recursing_part_index) {
                Some(part) => {
                    let part_clone = part.clone();
                    match self.mutator.validate_value(&part_clone) {
                        Some(part_cache) => {
                            let cplx = self.mutator.complexity(&part_clone, &part_cache);
                            proof {
                                replacement_cache = Some(part_cache);
                            }
                            replacement = Some((part_clone, cplx));
                        },
                        None => {},
                    }
                },
                None => {},
            }
        }
        match replacement {
            Some((new_value, cplx)) => {
                let mut new_value = new_value;
                core::mem::swap(value, &mut new_value);
                proof {
                    let cc = replacement_cache->0;
                    assert(self.valid(*value, cc) && cplx == self.spec_complexity(*value, cc));
                }
                (RecursiveMutatorUnmutateToken::Replace(new_value), cplx)
            },
            None => {
                let (t, cplx) = self.mutator.random_mutate(value, cache, max_cplx);
                (RecursiveMutatorUnmutateToken::Token(t), cplx)
            },
        }
    }

    fn unmutate(&self, value: &mut T, cache: &mut M::Cache, t: Self::UnmutateToken) {
        match t {
            RecursiveMutatorUnmutateToken::Replace(x) => {
                *value = x;
            },
            RecursiveMutatorUnmutateToken::Token(t) => self.mutator.unmutate(value, cache, t),
        }
    }

    fn default_recursing_part_index(&self, value: &T, cache: &M::Cache) -> M::RecursingPartIndex {
        self.mutator.default_recursing_part_index(value, cache)
    }

    fn recursing_part<'a, V, N>(&self, parent: &N, value: &'a T, index: &mut M::RecursingPartIndex) -> (r:
        Option<&'a V>) where V: Clone + 'static, N: 'static {
        self.mutator.recursing_part::<V, N>(parent, value, index)
    }
}

} // verus!
