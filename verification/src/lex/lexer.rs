//! Splitting source text into tokens.
use vstd::prelude::*;
use vstd::string::*;
use vstd::utf8::*;

use crate::lex::token::{AssginToken, BracketToken, CurlyBracketToken, Token, VariableToken};
use crate::search::{capture, find_at, regex_capture, regex_find_at};
use crate::text::{parse_usize_radix, parsed_usize, slice};

verus! {

broadcast use {
    is_char_boundary_start_end_of_seq,
    encode_utf8_valid_utf8,
    encode_utf8_decode_utf8,
    decode_utf8_encode_utf8,
};

pub const PUT_KW: &'static str = "put";
pub const GET_KW: &'static str = "get";
pub const WHILE_KW: &'static str = "while";
pub const HEAD_KW: &'static str = "head";
pub const TAPE_KW: &'static str = "tape";

pub const SEMICOLON: &'static str = ";";
pub const LBRACKET: &'static str = "(";
pub const RBRACKET: &'static str = ")";
pub const LCBRACKET: &'static str = "{";
pub const RCBRACKET: &'static str = "}";

pub const SIMPLE_ASSIGN_OP: &'static str = "=";
pub const ADD_ASSIGN_OP: &'static str = "+=";
pub const SUB_ASSIGN_OP: &'static str = "-=";

pub const VAR_PREFIX: &'static str = "v";

/// Names of the capture groups that hold the index of a static variable.
pub const INDEX1: &'static str = "index1";
pub const INDEX2: &'static str = "index2";

/// The patterns tried at each position, in this order.
pub const WSP_PTN: &'static str = r"[ \t]";
pub const NEWLINE_PTN: &'static str = r"[\r\n]";
pub const SEMICOLON_PTN: &'static str = ";";
pub const PUT_PTN: &'static str = "put";
pub const GET_PTN: &'static str = "get";
pub const WHILE_PTN: &'static str = "while";
pub const HEAD_PTN: &'static str = "head";
pub const BRACKET_PTN: &'static str = r"[\(\)]";
pub const CURLY_BRACKET_PTN: &'static str = r"[\{\}]";
pub const ASSIGN_PTN: &'static str = r"(=)|(\+=)|(-=)";
pub const NUMBER_PTN: &'static str = r"(?i)(0x[0-9A-F]+)|([0-9]+)";
pub const STATIC_VARIABLE_PTN: &'static str =
    r"(v(?P<index1>(?i)(0x[0-9A-F]+)|([0-9]+)))|(tape\[(?P<index2>(?i)(0x[0-9A-F]+)|([0-9]+))\])";
pub const DYNAMIC_VARIABLE_PTN: &'static str = r"(vhead)|(tape\[head\])";
/// What ends the text quoted in the message for an unknown token.
pub const DELIMITER_PTN: &'static str = r"[ \t\r\n;\(\)\[\]\{\}]+";

/// Splits source text into tokens.
pub struct Lexer;

/// A token could not be read.
#[derive(Debug)]
pub enum LexError {
    /// No token starts here; holds the text from here up to the next
    /// delimiter (white space, `;`, or a bracket of any kind).
    UnknownToken(String),
}

/// Why lexing stopped without tokens.
#[derive(Debug)]
pub enum LexFailure {
    Error(LexError),
    /// The pattern search gave what no valid token can be: the text of a
    /// bracket or an operator that is none of them, a number that does not
    /// fit in `usize`, a static variable without its index, or an empty
    /// token, after which reading would never end.
    Abort,
}

/// What reading the token at one position gives.
pub enum LexStep {
    /// White space up to the given byte offset.
    Skip(usize),
    /// A token that ends at the given byte offset.
    Emit(Token, usize),
    /// No pattern matches; holds the bytes quoted in the error.
    Unknown(Seq<u8>),
    Abort,
}

/// What lexing a whole text gives.
pub enum LexModel {
    Tokens(Seq<Token>),
    UnknownToken(Seq<u8>),
    Abort,
}

/// The end of the match of `pattern` that starts right at byte `cur`, if any.
pub open spec fn spec_cut(pattern: Seq<char>, code: &str, cur: usize) -> Option<usize> {
    match regex_find_at(pattern, code@, cur) {
        Some((s, e)) => if s == cur {
            Some(e)
        } else {
            None
        },
        None => None,
    }
}

/// The value of a number literal with the bytes `b`: hexadecimal after a
/// leading `0x` or `0X`, decimal otherwise.
pub open spec fn spec_parse_number(b: Seq<u8>) -> Option<usize> {
    if b.len() >= 2 && b[0] == 48u8 && (b[1] == 120u8 || b[1] == 88u8) {
        parsed_usize(b.subrange(2, b.len() as int), 16)
    } else {
        parsed_usize(b, 10)
    }
}

/// The index of the static variable whose text has the bytes `t`: the
/// number in group `index1`, or failing that in group `index2`.
pub open spec fn spec_static_index(t: Seq<u8>) -> Option<usize> {
    let chars = decode_utf8(t);
    let span = match regex_capture(STATIC_VARIABLE_PTN@, chars, INDEX1@) {
        Some(sp) => Some(sp),
        None => regex_capture(STATIC_VARIABLE_PTN@, chars, INDEX2@),
    };
    match span {
        Some((s, e)) => spec_parse_number(t.subrange(s as int, e as int)),
        None => None,
    }
}

/// The bytes quoted when no token starts at `cur`: up to the next delimiter
/// or the end of the text.
pub open spec fn spec_unknown_text(code: &str, cur: usize) -> Seq<u8> {
    let b = code.spec_bytes();
    match regex_find_at(DELIMITER_PTN@, code@, cur) {
        Some((s, _)) => b.subrange(cur as int, s as int),
        None => b.subrange(cur as int, b.len() as int),
    }
}

/// The token read at byte `cur`: the patterns are tried in a fixed order and
/// the first that matches right at `cur` decides.
pub open spec fn lex_step(code: &str, cur: usize) -> LexStep {
    let b = code.spec_bytes();
    if let Some(e) = spec_cut(WSP_PTN@, code, cur) {
        LexStep::Skip(e)
    } else if let Some(e) = spec_cut(NEWLINE_PTN@, code, cur) {
        LexStep::Emit(Token::NewLine, e)
    } else if let Some(e) = spec_cut(SEMICOLON_PTN@, code, cur) {
        LexStep::Emit(Token::Semicolon, e)
    } else if let Some(e) = spec_cut(PUT_PTN@, code, cur) {
        LexStep::Emit(Token::Put, e)
    } else if let Some(e) = spec_cut(GET_PTN@, code, cur) {
        LexStep::Emit(Token::Get, e)
    } else if let Some(e) = spec_cut(WHILE_PTN@, code, cur) {
        LexStep::Emit(Token::While, e)
    } else if let Some(e) = spec_cut(HEAD_PTN@, code, cur) {
        LexStep::Emit(Token::Head, e)
    } else if let Some(e) = spec_cut(BRACKET_PTN@, code, cur) {
        let t = b.subrange(cur as int, e as int);
        if t == seq![40u8] {
            LexStep::Emit(Token::Bracket(BracketToken::Open), e)
        } else if t == seq![41u8] {
            LexStep::Emit(Token::Bracket(BracketToken::Close), e)
        } else {
            LexStep::Abort
        }
    } else if let Some(e) = spec_cut(CURLY_BRACKET_PTN@, code, cur) {
        let t = b.subrange(cur as int, e as int);
        if t == seq![123u8] {
            LexStep::Emit(Token::CurlyBracket(CurlyBracketToken::Open), e)
        } else if t == seq![125u8] {
            LexStep::Emit(Token::CurlyBracket(CurlyBracketToken::Close), e)
        } else {
            LexStep::Abort
        }
    } else if let Some(e) = spec_cut(ASSIGN_PTN@, code, cur) {
        let t = b.subrange(cur as int, e as int);
        if t == seq![61u8] {
            LexStep::Emit(Token::Assign(AssginToken::Simple), e)
        } else if t == seq![43u8, 61u8] {
            LexStep::Emit(Token::Assign(AssginToken::Add), e)
        } else if t == seq![45u8, 61u8] {
            LexStep::Emit(Token::Assign(AssginToken::Sub), e)
        } else {
            LexStep::Abort
        }
    } else if let Some(e) = spec_cut(NUMBER_PTN@, code, cur) {
        match spec_parse_number(b.subrange(cur as int, e as int)) {
            Some(value) => LexStep::Emit(Token::Number { value }, e),
            None => LexStep::Abort,
        }
    } else if let Some(e) = spec_cut(STATIC_VARIABLE_PTN@, code, cur) {
        match spec_static_index(b.subrange(cur as int, e as int)) {
            Some(index) => LexStep::Emit(Token::Variable(VariableToken::Static { index }), e),
            None => LexStep::Abort,
        }
    } else if let Some(e) = spec_cut(DYNAMIC_VARIABLE_PTN@, code, cur) {
        LexStep::Emit(Token::Variable(VariableToken::Dynamic), e)
    } else {
        LexStep::Unknown(spec_unknown_text(code, cur))
    }
}

/// The tokens read from byte `cur` to the end of `code`, or the first
/// failure. A match that does not move past `cur` is an `Abort`: reading
/// would repeat it forever.
pub open spec fn lex_from(code: &str, cur: usize) -> LexModel
    decreases code.spec_bytes().len() - cur,
{
    let len = code.spec_bytes().len();
    if cur >= len {
        LexModel::Tokens(seq![])
    } else {
        match lex_step(code, cur) {
            LexStep::Skip(e) => if cur < e <= len {
                lex_from(code, e)
            } else {
                LexModel::Abort
            },
            LexStep::Emit(t, e) => if cur < e <= len {
                prepend_tokens(seq![t], lex_from(code, e))
            } else {
                LexModel::Abort
            },
            LexStep::Unknown(u) => LexModel::UnknownToken(u),
            LexStep::Abort => LexModel::Abort,
        }
    }
}

/// `ts` in front of the tokens of `m`; failures pass through.
pub open spec fn prepend_tokens(ts: Seq<Token>, m: LexModel) -> LexModel {
    match m {
        LexModel::Tokens(rest) => LexModel::Tokens(ts + rest),
        other => other,
    }
}

/// What lexing all of `code` gives.
pub open spec fn spec_lex(code: &str) -> LexModel {
    lex_from(code, 0)
}

/// `r` is what `m` describes.
pub open spec fn lex_result_is(r: Result<Vec<Token>, LexFailure>, m: LexModel) -> bool {
    match m {
        LexModel::Tokens(ts) => r matches Ok(v) && v@ == ts,
        LexModel::UnknownToken(u) => r matches Err(LexFailure::Error(LexError::UnknownToken(s)))
            && encode_utf8(s@) == u,
        LexModel::Abort => r matches Err(LexFailure::Abort),
    }
}

/// What the exec step gives, in the shape of `LexStep`.
enum StepResult {
    Skip(usize),
    Emit(Token, usize),
    Unknown(String),
    Abort,
}

impl Lexer {
    /// Splits `code` into tokens; fails on the first position where no token
    /// starts.
    pub fn lex(&self, code: &str) -> (r: Result<Vec<Token>, LexError>)
        requires
            !(spec_lex(code) is Abort),
        ensures
            match spec_lex(code) {
                LexModel::Tokens(ts) => r matches Ok(v) && v@ == ts,
                LexModel::UnknownToken(u) => r matches Err(LexError::UnknownToken(s))
                    && encode_utf8(s@) == u,
                LexModel::Abort => false,
            },
    {
        match self.lex_checked(code) {
            Ok(v) => Ok(v),
            Err(LexFailure::Error(e)) => Err(e),
            Err(LexFailure::Abort) => {
                proof {
                    assert(false);
                }
                Ok(Vec::new())
            },
        }
    }

    /// Splits `code` into tokens, and says so where `lex` would not return.
    pub fn lex_checked(&self, code: &str) -> (r: Result<Vec<Token>, LexFailure>)
        ensures
            lex_result_is(r, spec_lex(code)),
    {
        let mut result: Vec<Token> = Vec::new();
        let mut cur: usize = 0;
        let len = code.as_bytes().len();
        while cur < len
            invariant
                len == code.spec_bytes().len(),
                cur <= len,
                is_char_boundary(code.spec_bytes(), cur as int),
                spec_lex(code) == prepend_tokens(result@, lex_from(code, cur)),
            decreases len - cur,
        {
            let step = Self::step(code, cur);
            match step {
                StepResult::Skip(e) => {
                    if e <= cur {
                        return Err(LexFailure::Abort);
                    }
                    cur = e;
                },
                StepResult::Emit(t, e) => {
                    if e <= cur {
                        return Err(LexFailure::Abort);
                    }
                    proof {
                        assert(result@.push(t) == result@ + seq![t]);
                        assert forall|m: LexModel| true implies prepend_tokens(result@, prepend_tokens(seq![t], m))
                            == prepend_tokens(result@.push(t), m) by {
                            match m {
                                LexModel::Tokens(rest) => {
                                    assert(result@ + (seq![t] + rest) =~= result@.push(t) + rest);
                                },
                                _ => {},
                            }
                        }
                    }
                    result.push(t);
                    cur = e;
                },
                StepResult::Unknown(s) => {
                    return Err(LexFailure::Error(LexError::UnknownToken(s)));
                },
                StepResult::Abort => {
                    return Err(LexFailure::Abort);
                },
            }
        }
        proof {
            assert(result@ + seq![] =~= result@);
        }
        Ok(result)
    }

    /// Reads the token at byte `cur`.
    fn step(code: &str, cur: usize) -> (r: StepResult)
        requires
            cur < code.spec_bytes().len(),
            is_char_boundary(code.spec_bytes(), cur as int),
        ensures
            match (r, lex_step(code, cur)) {
                (StepResult::Skip(e), LexStep::Skip(e2)) => e == e2 && e <= code.spec_bytes().len()
                    && is_char_boundary(code.spec_bytes(), e as int),
                (StepResult::Emit(t, e), LexStep::Emit(t2, e2)) => t == t2 && e == e2
                    && e <= code.spec_bytes().len() && is_char_boundary(code.spec_bytes(), e as int),
                (StepResult::Unknown(s), LexStep::Unknown(u)) => encode_utf8(s@) == u,
                (StepResult::Abort, LexStep::Abort) => true,
                _ => false,
            },
    {
        let ghost b = code.spec_bytes();
        let mut c = cur;
        if Self::cut_token(WSP_PTN, code, &mut c).is_some() {
            return StepResult::Skip(c);
        }
        if Self::cut_token(NEWLINE_PTN, code, &mut c).is_some() {
            return StepResult::Emit(Token::NewLine, c);
        }
        if Self::cut_token(SEMICOLON_PTN, code, &mut c).is_some() {
            return StepResult::Emit(Token::Semicolon, c);
        }
        if Self::cut_token(PUT_PTN, code, &mut c).is_some() {
            return StepResult::Emit(Token::Put, c);
        }
        if Self::cut_token(GET_PTN, code, &mut c).is_some() {
            return StepResult::Emit(Token::Get, c);
        }
        if Self::cut_token(WHILE_PTN, code, &mut c).is_some() {
            return StepResult::Emit(Token::While, c);
        }
        if Self::cut_token(HEAD_PTN, code, &mut c).is_some() {
            return StepResult::Emit(Token::Head, c);
        }
        if let Some(bracket_str) = Self::cut_token(BRACKET_PTN, code, &mut c) {
            let t = bracket_str.as_bytes();
            if t.len() == 1 && t[0] == 40u8 {
                assert(t@ =~= seq![40u8]);
                return StepResult::Emit(Token::Bracket(BracketToken::Open), c);
            } else if t.len() == 1 && t[0] == 41u8 {
                assert(t@ =~= seq![41u8]);
                return StepResult::Emit(Token::Bracket(BracketToken::Close), c);
            } else {
                return StepResult::Abort;
            }
        }
        if let Some(cbracket_str) = Self::cut_token(CURLY_BRACKET_PTN, code, &mut c) {
            let t = cbracket_str.as_bytes();
            if t.len() == 1 && t[0] == 123u8 {
                assert(t@ =~= seq![123u8]);
                return StepResult::Emit(Token::CurlyBracket(CurlyBracketToken::Open), c);
            } else if t.len() == 1 && t[0] == 125u8 {
                assert(t@ =~= seq![125u8]);
                return StepResult::Emit(Token::CurlyBracket(CurlyBracketToken::Close), c);
            } else {
                return StepResult::Abort;
            }
        }
        if let Some(assign_str) = Self::cut_token(ASSIGN_PTN, code, &mut c) {
            let t = assign_str.as_bytes();
            if t.len() == 1 && t[0] == 61u8 {
                assert(t@ =~= seq![61u8]);
                return StepResult::Emit(Token::Assign(AssginToken::Simple), c);
            } else if t.len() == 2 && t[0] == 43u8 && t[1] == 61u8 {
                assert(t@ =~= seq![43u8, 61u8]);
                return StepResult::Emit(Token::Assign(AssginToken::Add), c);
            } else if t.len() == 2 && t[0] == 45u8 && t[1] == 61u8 {
                assert(t@ =~= seq![45u8, 61u8]);
                return StepResult::Emit(Token::Assign(AssginToken::Sub), c);
            } else {
                return StepResult::Abort;
            }
        }
        if let Some(num_str) = Self::cut_token(NUMBER_PTN, code, &mut c) {
            match Self::parse_number(num_str) {
                Some(value) => {
                    return StepResult::Emit(Token::Number { value }, c);
                },
                None => {
                    return StepResult::Abort;
                },
            }
        }
        if let Some(stat_var_str) = Self::cut_token(STATIC_VARIABLE_PTN, code, &mut c) {
            let span = match capture(STATIC_VARIABLE_PTN, stat_var_str, INDEX1) {
                Some(sp) => Some(sp),
                None => capture(STATIC_VARIABLE_PTN, stat_var_str, INDEX2),
            };
            match span {
                Some((s, e)) => {
                    let index_str = slice(stat_var_str, s, e);
                    match Self::parse_number(index_str) {
                        Some(index) => {
                            return StepResult::Emit(
                                Token::Variable(VariableToken::Static { index }),
                                c,
                            );
                        },
                        None => {
                            return StepResult::Abort;
                        },
                    }
                },
                None => {
                    return StepResult::Abort;
                },
            }
        }
        if Self::cut_token(DYNAMIC_VARIABLE_PTN, code, &mut c).is_some() {
            return StepResult::Emit(Token::Variable(VariableToken::Dynamic), c);
        }
        let end = match find_at(DELIMITER_PTN, code, cur) {
            Some((s, _)) => s,
            None => code.as_bytes().len(),
        };
        let token_like = slice(code, cur, end);
        StepResult::Unknown(token_like.to_owned())
    }

    /// Where `pattern` matches right at `*cur`: moves `*cur` past the match
    /// and returns the matched text.
    fn cut_token<'a>(pattern: &str, code: &'a str, cur: &mut usize) -> (r: Option<&'a str>)
        requires
            *old(cur) <= code.spec_bytes().len(),
            is_char_boundary(code.spec_bytes(), *old(cur) as int),
        ensures
            match spec_cut(pattern@, code, *old(cur)) {
                Some(e) => r matches Some(t) && *final(cur) == e && *old(cur) <= e
                    <= code.spec_bytes().len() && is_char_boundary(code.spec_bytes(), e as int)
                    && t.spec_bytes() == code.spec_bytes().subrange(*old(cur) as int, e as int),
                None => r is None && *final(cur) == *old(cur),
            },
    {
        match find_at(pattern, code, *cur) {
            Some((s, e)) => {
                if s == *cur {
                    let token_str = slice(code, s, e);
                    *cur = e;
                    Some(token_str)
                } else {
                    None
                }
            },
            None => None,
        }
    }

    /// The value of a number literal: hexadecimal after `0x` or `0X`,
    /// decimal otherwise; `None` where the text is no such number or its
    /// value does not fit in `usize`.
    fn parse_number(num_str: &str) -> (r: Option<usize>)
        ensures
            r == spec_parse_number(num_str.spec_bytes()),
    {
        let b = num_str.as_bytes();
        if b.len() >= 2 && b[0] == 48u8 && (b[1] == 120u8 || b[1] == 88u8) {
            proof {
                lemma_ascii_pair_boundary(num_str.spec_bytes());
            }
            let digits = slice(num_str, 2, b.len());
            return parse_usize_radix(digits, 16);
        }
        parse_usize_radix(num_str, 10)
    }

    pub fn new() -> (r: Lexer)
        ensures
            r == Lexer,
    {
        Lexer
    }
}

impl Default for Lexer {
    fn default() -> (r: Self)
        ensures
            r == Lexer,
    {
        Self::new()
    }
}

/// After two ASCII bytes of valid UTF-8 lies a character boundary.
proof fn lemma_ascii_pair_boundary(b: Seq<u8>)
    requires
        valid_utf8(b),
        b.len() >= 2,
        b[0] < 128,
        b[1] < 128,
    ensures
        is_char_boundary(b, 2),
{
    reveal_with_fuel(valid_utf8, 3);
    reveal_with_fuel(is_char_boundary, 3);
    let r1 = pop_first_scalar(b);
    assert(r1 =~= b.subrange(1, b.len() as int));
    let r2 = pop_first_scalar(r1);
    assert(r2 =~= b.subrange(2, b.len() as int));
}

/// The message for a lexical error: the unknown text in double quotes.
pub open spec fn lex_error_message(e: LexError) -> Seq<char> {
    match e {
        LexError::UnknownToken(s) => "Unknown token \""@ + s@ + "\""@,
    }
}

impl LexError {
    /// The message shown for this error.
    pub fn message(&self) -> (r: String)
        ensures
            r@ == lex_error_message(*self),
    {
        match self {
            LexError::UnknownToken(token_like) => {
                let mut s = String::from_str("Unknown token \"");
                s.append(token_like.as_str());
                s.append("\"");
                s
            },
        }
    }
}

} // verus!
