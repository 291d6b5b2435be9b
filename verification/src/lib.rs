//! A reversible-computation transformer for a small imperative dialect.
//!
//! A routine written in the dialect is mechanically rewritten into two
//! executable forms: a forward form that performs its effect, and a backward
//! form that undoes it exactly. The dialect is deliberately restricted — the
//! only mutating operators are `+=`, `-=` and `^=`, every local variable must
//! be explicitly retired, and control flow is limited to guard-based
//! reversible conditionals and loops — so that every accepted routine has an
//! exact inverse.

use vstd::prelude::*;

pub mod ast;
pub mod laws;
pub mod machine;
pub mod reverse;
pub mod scope;
pub mod forward;
pub mod semantics;
pub mod transform;

verus! {

} // verus!
