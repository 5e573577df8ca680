//! Front end pieces of an ECMAScript source-to-source compiler: a
//! position-tracked character stream for lexing, and a bottom-up tree
//! rewrite that lowers JSX syntax to plain function calls.

pub mod ast;
pub mod clone_ast;
pub mod input;
pub mod pos;
pub mod jsx;
pub mod laws;
pub mod pragma;
pub mod rewrite;
pub mod strutil;

use vstd::prelude::*;

verus! {

} // verus!
