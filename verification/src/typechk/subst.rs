//! Fresh type variables: an unknown type named by a counter value.

use vstd::prelude::*;

verus! {

/// A type variable standing for an unknown type.
#[derive(Debug, Clone, Copy, PartialEq, Eq, Structural)]
pub struct TypeVariable(pub u64);

/// Mints the next type variable from a per-compilation seed.
pub fn next_type_var(seed: &mut u64) -> (r: TypeVariable)
    requires
        *old(seed) < u64::MAX,
    ensures
        r == (TypeVariable(*old(seed))),
        *final(seed) == *old(seed) + 1,
{
    let v = TypeVariable(*seed);
    *seed = *seed + 1;
    v
}

impl TypeVariable {
    /// Mints a fresh type variable, advancing the seed.
    pub fn fresh(seed: &mut u64) -> (r: Self)
        requires
            *old(seed) < u64::MAX,
        ensures
            r == (TypeVariable(*old(seed))),
            *final(seed) == *old(seed) + 1,
    {
        next_type_var(seed)
    }
}

} // verus!
