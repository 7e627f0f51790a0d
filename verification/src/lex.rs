//! Lexical analysis: source text to tokens.
use vstd::prelude::*;

pub mod lexer;
pub mod token;

pub use lexer::{LexError, LexFailure, LexModel, Lexer, spec_lex};
pub use token::{AssginToken, BracketToken, CurlyBracketToken, Token, VariableToken};

verus! {

/// Splits `code` into tokens with a fresh `Lexer`.
pub fn lex(code: &str) -> (r: Result<Vec<Token>, LexError>)
    requires
        !(spec_lex(code) is Abort),
    ensures
        match spec_lex(code) {
            LexModel::Tokens(ts) => r matches Ok(v) && v@ == ts,
            LexModel::UnknownToken(u) => r matches Err(LexError::UnknownToken(s))
                && vstd::utf8::encode_utf8(s@) == u,
            LexModel::Abort => false,
        },
{
    Lexer::new().lex(code)
}

} // verus!
