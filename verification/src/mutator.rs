use vstd::prelude::*;

verus! {

/// A mutator over values of type `T`.
///
/// A mutator can generate fresh values (`ordered_arbitrary`, `random_arbitrary`),
/// mutate a value in place (`ordered_mutate`, `random_mutate`), and undo the last
/// mutation (`unmutate`). Every value has a complexity, a nonnegative measure of
/// its size expressed in abstract units, bounded by `min_complexity()` and
/// `max_complexity()`.
///
/// Two laws are part of the contract of every implementation:
///
/// * unmutate inverse: a mutation returns a token such that applying `unmutate`
///   with it restores the value and its cache exactly to their pre-mutation
///   state, as stated by `spec_unmutate`;
/// * complexity bounds: `complexity` always lies between `min_complexity()`
///   and `max_complexity()`.
pub trait Mutator<T>: Sized {
    /// Per-value memoization produced by `validate_value`.
    type Cache;

    /// Per-value progress cursor for the deterministic enumeration of mutations.
    type MutationStep;

    /// Progress cursor for the deterministic enumeration of fresh values.
    type ArbitraryStep;

    /// Record that reverses the last mutation on a (value, cache) pair.
    type UnmutateToken;

    /// Cursor identifying a sub-position of a value that is shape-compatible
    /// with the whole, used by recursive mutators.
    type RecursingPartIndex;

    /// The cache `c` belongs to the value `v`: it is one that this mutator's
    /// `validate_value` could have produced for `v`.
    spec fn valid(&self, v: T, c: Self::Cache) -> bool;

    /// Lower bound on the complexity of every value.
    spec fn spec_min_complexity(&self) -> u64;

    /// Upper bound on the complexity of every value.
    spec fn spec_max_complexity(&self) -> u64;

    /// The complexity assigned to a value and its cache.
    spec fn spec_complexity(&self, v: T, c: Self::Cache) -> u64;

    /// The state that applying token `t` to the pair `(v, c)` restores.
    spec fn spec_unmutate(&self, v: T, c: Self::Cache, t: Self::UnmutateToken) -> (T, Self::Cache);

    /// The initial cursor for `ordered_arbitrary`.
    fn default_arbitrary_step(&self) -> Self::ArbitraryStep;

    /// Checks the mutator's invariants on `value` and returns its cache, or
    /// `None` if `value` violates them.
    fn validate_value(&self, value: &T) -> (r: Option<Self::Cache>)
        ensures
            r matches Some(c) ==> self.valid(*value, c),
    ;

    /// The initial cursor for `ordered_mutate` on `value`.
    fn default_mutation_step(&self, value: &T, cache: &Self::Cache) -> Self::MutationStep;

    fn min_complexity(&self) -> (r: u64)
        ensures
            r == self.spec_min_complexity(),
    ;

    fn max_complexity(&self) -> (r: u64)
        ensures
            r == self.spec_max_complexity(),
    ;

    /// The complexity of `value`; always within the mutator's bounds.
    fn complexity(&self, value: &T, cache: &Self::Cache) -> (r: u64)
        requires
            self.valid(*value, *cache),
        ensures
            r == self.spec_complexity(*value, *cache),
            self.spec_min_complexity() <= r <= self.spec_max_complexity(),
    ;

    /// Deterministic enumeration of fresh values, simplest first. Returns
    /// `None` once the enumeration is exhausted.
    fn ordered_arbitrary(&self, step: &mut Self::ArbitraryStep, max_cplx: u64) -> (r: Option<
        (T, u64),
    >);

    /// A fresh value within the complexity budget, chosen at random.
    fn random_arbitrary(&self, max_cplx: u64) -> (r: (T, u64));

    /// Performs the next deterministic mutation of `value` in place. On
    /// success, the returned token undoes it: applying `unmutate` with it
    /// restores `(value, cache)` exactly. On `None` the pair is untouched.
    fn ordered_mutate(
        &self,
        value: &mut T,
        cache: &mut Self::Cache,
        step: &mut Self::MutationStep,
        max_cplx: u64,
    ) -> (r: Option<(Self::UnmutateToken, u64)>)
        requires
            self.valid(*old(value), *old(cache)),
        ensures
            r matches Some((t, cplx)) ==> self.spec_unmutate(*final(value), *final(cache), t) == (
                *old(value),
                *old(cache),
            ),
            r is None ==> *final(value) == *old(value) && *final(cache) == *old(cache),
    ;

    /// Performs a random mutation of `value` in place. The returned token
    /// undoes it, exactly as for `ordered_mutate`.
    fn random_mutate(&self, value: &mut T, cache: &mut Self::Cache, max_cplx: u64) -> (r: (
        Self::UnmutateToken,
        u64,
    ))
        requires
            self.valid(*old(value), *old(cache)),
        ensures
            self.spec_unmutate(*final(value), *final(cache), r.0) == (*old(value), *old(cache)),
    ;

    /// Reverses the mutation recorded by `t`.
    fn unmutate(&self, value: &mut T, cache: &mut Self::Cache, t: Self::UnmutateToken)
        ensures
            (*final(value), *final(cache)) == self.spec_unmutate(*old(value), *old(cache), t),
    ;

    /// The initial cursor for `recursing_part` on `value`.
    fn default_recursing_part_index(
        &self,
        value: &T,
        cache: &Self::Cache,
    ) -> Self::RecursingPartIndex;

    /// Iterates over the sub-parts of `value` that are shape-compatible with
    /// the mutator `parent` (a mutator for values of type `V`), advancing
    /// `index`. Returns `None` when there is no further such part.
    fn recursing_part<'a, V, N>(
        &self,
        parent: &N,
        value: &'a T,
        index: &mut Self::RecursingPartIndex,
    ) -> (r: Option<&'a V>) where V: Clone + 'static, N: 'static;
}

} // verus!
