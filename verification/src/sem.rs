//! Semantic analysis of a syntax tree.
use vstd::prelude::*;

pub mod properties;
pub mod semer;

pub use semer::{
    InfoModel, SemError, SemFailure, SemOptimizationOptions, SemState, SemanticInfo, Semer,
    fresh_state, info_of, spec_sem,
};

use crate::parse::AST;

verus! {

/// The options that `SemOptimizationOptions::default()` gives.
pub open spec fn default_sem_options() -> SemOptimizationOptions {
    SemOptimizationOptions { compress_var_map: true, round_var_index: false, round_num_literal: true }
}

/// What analyzing a program for a tape of `tape_len` cells with `opts`
/// gives, as (analyzer's final state, rewritten program, outcome).
pub open spec fn spec_sem_program(
    ast: Seq<crate::parse::NodeModel>,
    tape_len: usize,
    opts: SemOptimizationOptions,
) -> (SemState, Seq<crate::parse::NodeModel>, Result<(), SemFailure>) {
    spec_sem(fresh_state(tape_len, opts), ast)
}

/// Analyzes with the default options.
pub fn sem(ast: &mut AST, tape_len: usize) -> (r: Result<SemanticInfo, SemError>)
    requires
        spec_sem_program(old(ast)@, tape_len, default_sem_options()).2 != Err::<(), SemFailure>(
            SemFailure::Abort,
        ),
    ensures
        final(ast)@ == spec_sem_program(old(ast)@, tape_len, default_sem_options()).1,
        match spec_sem_program(old(ast)@, tape_len, default_sem_options()).2 {
            Ok(_) => r matches Ok(info) && info@ == info_of(
                spec_sem_program(old(ast)@, tape_len, default_sem_options()).0,
            ),
            Err(SemFailure::Error(e)) => r matches Err(e2) && e2 == e,
            Err(SemFailure::Abort) => false,
        },
{
    sem_with_opt_struct(ast, tape_len, &SemOptimizationOptions::default())
}

/// Analyzes with the options given one by one.
pub fn sem_with_opts(
    ast: &mut AST,
    tape_len: usize,
    compress_var_map: bool,
    round_var_index: bool,
    round_num_literal: bool,
) -> (r: Result<SemanticInfo, SemError>)
    requires
        spec_sem_program(
            old(ast)@,
            tape_len,
            SemOptimizationOptions { compress_var_map, round_var_index, round_num_literal },
        ).2 != Err::<(), SemFailure>(SemFailure::Abort),
    ensures
        ({
            let s = spec_sem_program(
                old(ast)@,
                tape_len,
                SemOptimizationOptions { compress_var_map, round_var_index, round_num_literal },
            );
            &&& final(ast)@ == s.1
            &&& match s.2 {
                Ok(_) => r matches Ok(info) && info@ == info_of(s.0),
                Err(SemFailure::Error(e)) => r matches Err(e2) && e2 == e,
                Err(SemFailure::Abort) => false,
            }
        }),
{
    sem_with_opt_struct(
        ast,
        tape_len,
        &SemOptimizationOptions { compress_var_map, round_var_index, round_num_literal },
    )
}

/// Analyzes with the given options.
pub fn sem_with_opt_struct(ast: &mut AST, tape_len: usize, opts: &SemOptimizationOptions) -> (r:
    Result<SemanticInfo, SemError>)
    requires
        spec_sem_program(old(ast)@, tape_len, *opts).2 != Err::<(), SemFailure>(SemFailure::Abort),
    ensures
        final(ast)@ == spec_sem_program(old(ast)@, tape_len, *opts).1,
        match spec_sem_program(old(ast)@, tape_len, *opts).2 {
            Ok(_) => r matches Ok(info) && info@ == info_of(
                spec_sem_program(old(ast)@, tape_len, *opts).0,
            ),
            Err(SemFailure::Error(e)) => r matches Err(e2) && e2 == e,
            Err(SemFailure::Abort) => false,
        },
{
    Semer::new(tape_len, opts).sem(ast)
}

/// As `sem_with_opt_struct`, and says so where it would not return.
pub fn sem_checked(ast: &mut AST, tape_len: usize, opts: &SemOptimizationOptions) -> (r: Result<
    SemanticInfo,
    SemFailure,
>)
    ensures
        final(ast)@ == spec_sem_program(old(ast)@, tape_len, *opts).1,
        match spec_sem_program(old(ast)@, tape_len, *opts).2 {
            Ok(_) => r matches Ok(info) && info@ == info_of(
                spec_sem_program(old(ast)@, tape_len, *opts).0,
            ),
            Err(f) => r matches Err(f2) && f2 == f,
        },
{
    Semer::new(tape_len, opts).sem_checked(ast)
}

} // verus!
