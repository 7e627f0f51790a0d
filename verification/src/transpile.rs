//! Translation to Brainf*ck.
use vstd::prelude::*;

pub mod bf_definitions;
pub mod brackets;
pub mod motion;
pub mod optimization;
pub mod properties;
pub mod transpiler;

pub use bf_definitions::BFToken;
pub use optimization::compaction_map;
pub use transpiler::{
    TranspileError, TranspileFailure, TranspileOptimizationOptions, Transpiler,
    fresh_trans_state, spec_transpile_nodes,
};

use crate::parse::AST;
use crate::text::push_char;
use crate::sem::semer::SemanticInfo;

verus! {

pub const BF_INC: char = '+';
pub const BF_DEC: char = '-';
pub const BF_NXT: char = '>';
pub const BF_PRV: char = '<';
pub const BF_GET: char = ',';
pub const BF_PUT: char = '.';
pub const BF_OPN: char = '[';
pub const BF_CLS: char = ']';

/// The character that writes an instruction.
pub open spec fn spec_bf_char(t: BFToken) -> char {
    match t {
        BFToken::INC => '+',
        BFToken::DEC => '-',
        BFToken::NXT => '>',
        BFToken::PRV => '<',
        BFToken::GET => ',',
        BFToken::PUT => '.',
        BFToken::OPN => '[',
        BFToken::CLS => ']',
    }
}

/// The text of an instruction sequence.
pub open spec fn bf_text(ts: Seq<BFToken>) -> Seq<char> {
    ts.map_values(|t: BFToken| spec_bf_char(t))
}

/// The options that `TranspileOptimizationOptions::default()` gives.
pub open spec fn default_transpile_options() -> TranspileOptimizationOptions {
    TranspileOptimizationOptions { number_compaction: true, head_move_around_compaction: true }
}

/// What translating `ast`, analyzed into `info`, with `opts` gives: the
/// text of the instructions, or the failure.
pub open spec fn spec_transpile_text(
    ast: Seq<crate::parse::NodeModel>,
    info: crate::sem::semer::InfoModel,
    opts: TranspileOptimizationOptions,
) -> Result<Seq<char>, TranspileFailure> {
    match spec_transpile_nodes(fresh_trans_state(info, opts), ast).1 {
        Ok(ts) => Ok(bf_text(ts)),
        Err(f) => Err(f),
    }
}

/// Translates with the default options: head moves the short way round the
/// tape, and number literals by multiplication loops, which are not
/// available (so that any literal where the head position is known stops
/// the translation).
pub fn transpile(ast: &AST, info: &SemanticInfo) -> (r: Result<String, TranspileError>)
    requires
        spec_transpile_text(ast@, info@, default_transpile_options())
            != Err::<Seq<char>, TranspileFailure>(TranspileFailure::Abort),
    ensures
        match spec_transpile_text(ast@, info@, default_transpile_options()) {
            Ok(text) => r matches Ok(s) && s@ == text,
            Err(TranspileFailure::Error(e)) => r matches Err(e2) && e2 == e,
            Err(TranspileFailure::Abort) => false,
        },
{
    transpile_with_opt_struct(ast, info, &TranspileOptimizationOptions::default())
}

/// Translates with the options given one by one.
pub fn transpile_with_opts(
    ast: &AST,
    info: &SemanticInfo,
    number_compaction: bool,
    head_move_around_compaction: bool,
) -> (r: Result<String, TranspileError>)
    requires
        spec_transpile_text(
            ast@,
            info@,
            TranspileOptimizationOptions { number_compaction, head_move_around_compaction },
        ) != Err::<Seq<char>, TranspileFailure>(TranspileFailure::Abort),
    ensures
        match spec_transpile_text(
            ast@,
            info@,
            TranspileOptimizationOptions { number_compaction, head_move_around_compaction },
        ) {
            Ok(text) => r matches Ok(s) && s@ == text,
            Err(TranspileFailure::Error(e)) => r matches Err(e2) && e2 == e,
            Err(TranspileFailure::Abort) => false,
        },
{
    transpile_with_opt_struct(
        ast,
        info,
        &TranspileOptimizationOptions { number_compaction, head_move_around_compaction },
    )
}

/// Translates with the given options.
pub fn transpile_with_opt_struct(
    ast: &AST,
    info: &SemanticInfo,
    opts: &TranspileOptimizationOptions,
) -> (r: Result<String, TranspileError>)
    requires
        spec_transpile_text(ast@, info@, *opts) != Err::<Seq<char>, TranspileFailure>(
            TranspileFailure::Abort,
        ),
    ensures
        match spec_transpile_text(ast@, info@, *opts) {
            Ok(text) => r matches Ok(s) && s@ == text,
            Err(TranspileFailure::Error(e)) => r matches Err(e2) && e2 == e,
            Err(TranspileFailure::Abort) => false,
        },
{
    match transpile_checked(ast, info, opts) {
        Ok(s) => Ok(s),
        Err(TranspileFailure::Error(e)) => Err(e),
        Err(TranspileFailure::Abort) => {
            proof {
                assert(false);
            }
            Err(TranspileError::InputToHead)
        },
    }
}

/// As `transpile_with_opt_struct`, and says so where it would not return.
pub fn transpile_checked(
    ast: &AST,
    info: &SemanticInfo,
    opts: &TranspileOptimizationOptions,
) -> (r: Result<String, TranspileFailure>)
    ensures
        match spec_transpile_text(ast@, info@, *opts) {
            Ok(text) => r matches Ok(s) && s@ == text,
            Err(f) => r matches Err(f2) && f2 == f,
        },
{
    let tokens = Transpiler::new(ast, info, opts).transpile_checked()?;
    let mut s = String::new();
    let mut i: usize = 0;
    while i < tokens.len()
        invariant
            i <= tokens@.len(),
            s@ == bf_text(tokens@.take(i as int)),
        decreases tokens@.len() - i,
    {
        push_char(&mut s, bf_token_char(&tokens[i]));
        proof {
            assert(bf_text(tokens@.take(i + 1)) =~= bf_text(tokens@.take(i as int)).push(
                spec_bf_char(tokens@[i as int]),
            ));
        }
        i = i + 1;
    }
    proof {
        assert(tokens@.take(tokens@.len() as int) =~= tokens@);
    }
    Ok(s)
}

/// The character that writes an instruction.
pub fn bf_token_char(token: &BFToken) -> (r: char)
    ensures
        r == spec_bf_char(*token),
{
    match token {
        BFToken::INC => BF_INC,
        BFToken::DEC => BF_DEC,
        BFToken::NXT => BF_NXT,
        BFToken::PRV => BF_PRV,
        BFToken::GET => BF_GET,
        BFToken::PUT => BF_PUT,
        BFToken::OPN => BF_OPN,
        BFToken::CLS => BF_CLS,
    }
}

} // verus!
