//! Tokens of BrainMassage source text.
use vstd::prelude::*;
use vstd::string::*;

use crate::text::{decimal_string, decimal_text};

verus! {

/// One token of source text.
#[derive(Debug, Clone, Copy, PartialEq, Eq, Structural)]
pub enum Token {
    Number { value: usize },
    Variable(VariableToken),
    Head,
    Assign(AssginToken),
    Bracket(BracketToken),
    CurlyBracket(CurlyBracketToken),
    While,
    Put,
    Get,
    Semicolon,
    NewLine,
}

/// A tape cell named by a fixed index (`v3`, `tape[3]`) or by the head
/// (`vhead`, `tape[head]`).
#[derive(Debug, Clone, Copy, PartialEq, Eq, Structural)]
pub enum VariableToken {
    Static { index: usize },
    Dynamic,
}

/// `=`, `+=` or `-=`.
#[derive(Debug, Clone, Copy, PartialEq, Eq, Structural)]
pub enum AssginToken {
    Simple,
    Add,
    Sub,
}

/// `(` or `)`.
#[derive(Debug, Clone, Copy, PartialEq, Eq, Structural)]
pub enum BracketToken {
    Open,
    Close,
}

/// `{` or `}`.
#[derive(Debug, Clone, Copy, PartialEq, Eq, Structural)]
pub enum CurlyBracketToken {
    Open,
    Close,
}

/// How a token is written out in messages: its variant and fields, as
/// `{:?}` shows them (`Number { value: 3 }`, `Variable(Dynamic)`).
pub open spec fn token_text(t: Token) -> Seq<char> {
    match t {
        Token::Number { value } => "Number { value: "@ + decimal_text(value as nat) + " }"@,
        Token::Variable(VariableToken::Static { index }) => "Variable(Static { index: "@
            + decimal_text(index as nat) + " })"@,
        Token::Variable(VariableToken::Dynamic) => "Variable(Dynamic)"@,
        Token::Head => "Head"@,
        Token::Assign(AssginToken::Simple) => "Assign(Simple)"@,
        Token::Assign(AssginToken::Add) => "Assign(Add)"@,
        Token::Assign(AssginToken::Sub) => "Assign(Sub)"@,
        Token::Bracket(BracketToken::Open) => "Bracket(Open)"@,
        Token::Bracket(BracketToken::Close) => "Bracket(Close)"@,
        Token::CurlyBracket(CurlyBracketToken::Open) => "CurlyBracket(Open)"@,
        Token::CurlyBracket(CurlyBracketToken::Close) => "CurlyBracket(Close)"@,
        Token::While => "While"@,
        Token::Put => "Put"@,
        Token::Get => "Get"@,
        Token::Semicolon => "Semicolon"@,
        Token::NewLine => "NewLine"@,
    }
}

impl Token {
    /// The token as messages write it.
    pub fn text(&self) -> (r: String)
        ensures
            r@ == token_text(*self),
    {
        match self {
            Token::Number { value } => {
                let mut s = String::from_str("Number { value: ");
                let d = decimal_string(*value);
                s.append(d.as_str());
                s.append(" }");
                s
            },
            Token::Variable(VariableToken::Static { index }) => {
                let mut s = String::from_str("Variable(Static { index: ");
                let d = decimal_string(*index);
                s.append(d.as_str());
                s.append(" })");
                s
            },
            Token::Variable(VariableToken::Dynamic) => String::from_str("Variable(Dynamic)"),
            Token::Head => String::from_str("Head"),
            Token::Assign(AssginToken::Simple) => String::from_str("Assign(Simple)"),
            Token::Assign(AssginToken::Add) => String::from_str("Assign(Add)"),
            Token::Assign(AssginToken::Sub) => String::from_str("Assign(Sub)"),
            Token::Bracket(BracketToken::Open) => String::from_str("Bracket(Open)"),
            Token::Bracket(BracketToken::Close) => String::from_str("Bracket(Close)"),
            Token::CurlyBracket(CurlyBracketToken::Open) => String::from_str("CurlyBracket(Open)"),
            Token::CurlyBracket(CurlyBracketToken::Close) => String::from_str("CurlyBracket(Close)"),
            Token::While => String::from_str("While"),
            Token::Put => String::from_str("Put"),
            Token::Get => String::from_str("Get"),
            Token::Semicolon => String::from_str("Semicolon"),
            Token::NewLine => String::from_str("NewLine"),
        }
    }
}

} // verus!
