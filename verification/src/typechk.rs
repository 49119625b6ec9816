//! The bidirectional type checker: a name-keyed type environment with
//! `check` and `synthesise` judgments, and fresh type-variable minting.

pub mod context;
pub mod error;
pub mod expr;
pub mod persist;
pub mod subst;
pub mod ty;
pub mod var;
