//! Compilation to LLVM IR, as the sequence of builder steps that a driver
//! replays.
use vstd::prelude::*;

pub mod compiler;
pub mod properties;

pub use compiler::{CompileError, Compiler, IntTy, IrInst, IrPlace, MAIN_FN_NAME};

verus! {
} // verus!
