//! Variables of the type system: interned names.

use vstd::prelude::*;

verus! {

/// A variable: the symbol of an interned name. The type context owns the
/// intern table that maps symbols back to their text.
#[derive(Debug, Clone, Copy, PartialEq, Eq, Structural)]
pub struct Variable(pub u64);

} // verus!
