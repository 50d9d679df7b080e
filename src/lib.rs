use vstd::prelude::*;

pub mod status;
pub mod words;
pub mod text;
pub mod runtime;
pub mod engine;
pub mod nesting;

verus! {

/// Largest number of builtin dispatches that may be nested on one call chain.
pub const MAX_DEPTH: usize = 64;

} // verus!
