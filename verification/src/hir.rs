//! The typed intermediate representation: a tree isomorphic to the syntax
//! tree, with every binding's type resolved.

pub mod error;
pub mod expr;
pub mod item;
pub mod stmt;
pub mod ty;

use vstd::prelude::*;

use crate::hir::error::HirError;
use crate::typechk::context::TypeContext;
use crate::typechk::context::builtin_env;
use crate::typechk::context::builtin_names;

verus! {

pub type HirResult<T> = Result<T, HirError>;

/// The lowering context of one compiled unit: its type context and the
/// counter minting IR node ids.
pub struct HirContext {
    pub tcx: TypeContext,
    pub next_id: i64,
}

impl HirContext {
    /// A fresh context: a type context seeded with the builtins, and the id
    /// counter at zero.
    pub fn new() -> (r: Self)
        ensures
            r.tcx.wf(),
            r.tcx.env() == builtin_env(),
            r.tcx.names_view() == builtin_names(),
            r.tcx.type_var == 0,
            r.next_id == 0,
    {
        HirContext { tcx: TypeContext::default(), next_id: 0 }
    }

    /// Mints the next IR node id: the id handed out is the counter's value,
    /// and the counter advances by one until it saturates at the largest id.
    pub(crate) fn next_hir_id(&mut self) -> (r: crate::id::HirId)
        ensures
            final(self).tcx == old(self).tcx,
            r == (crate::id::HirId(old(self).next_id)),
            final(self).next_id as int == if old(self).next_id < i64::MAX {
                old(self).next_id + 1
            } else {
                old(self).next_id as int
            },
    {
        let id = self.next_id;
        if self.next_id < i64::MAX {
            self.next_id = self.next_id + 1;
        }
        crate::id::HirId(id)
    }
}

} // verus!
