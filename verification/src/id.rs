//! Ids of IR nodes.

use vstd::prelude::*;

use crate::ast::NodeId;

verus! {

/// A unique id for an IR node, minted by a per-compilation counter.
#[derive(Debug, Clone, Copy, PartialEq, Eq, Structural)]
pub struct HirId(pub i64);

impl HirId {
    /// The IR id carrying over a syntax-tree node's id.
    pub fn from_node(value: NodeId) -> (r: Self)
        ensures
            r == (HirId(value.0)),
    {
        HirId(value.0)
    }
}

} // verus!
