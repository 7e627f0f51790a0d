use vstd::prelude::*;

pub mod compile;
pub mod lex;
pub mod output;
pub mod parse;
pub mod search;
pub mod sem;
pub mod text;
pub mod transpile;

verus! {

/// Number of distinct values a tape cell can hold.
pub const CELL_SIZE: usize = 256;

} // verus!
