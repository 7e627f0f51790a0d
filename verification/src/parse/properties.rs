//! What parsing keeps when a newline is added between tokens.
use vstd::prelude::*;

use crate::lex::token::Token;
use crate::parse::parser::{
    ParseError, lemma_next_token, lemma_parse_progress, lemma_statement_progress, next_token,
    spec_expect, spec_expect_variable, spec_parse, spec_parse_assign, spec_parse_get,
    spec_parse_put, spec_parse_statement, spec_parse_top_level_nodes, spec_parse_while,
};

verus! {

/// `ts2` is `ts` with one newline token put in at index `i`.
pub open spec fn newline_inserted(ts: Seq<Token>, ts2: Seq<Token>, i: nat) -> bool {
    &&& i <= ts.len()
    &&& ts2.len() == ts.len() + 1
    &&& ts2[i as int] is NewLine
    &&& forall|k: int| 0 <= k < i ==> #[trigger] ts2[k] == ts[k]
    &&& forall|k: int| i <= k < ts.len() ==> ts2[k + 1] == #[trigger] ts[k]
}

/// Where position `p` of `ts` lies in `ts2`.
pub open spec fn shift(p: nat, i: nat) -> nat {
    if p < i {
        p
    } else {
        p + 1
    }
}

/// Position `q` of `ts2` stands for position `p` of `ts`: it is the same
/// place, or `p` is the index of the new newline and `q` is just before it.
pub open spec fn corr(p: nat, q: nat, i: nat) -> bool {
    q == shift(p, i) || (p == i && q == i)
}

proof fn lemma_same_token(ts: Seq<Token>, ts2: Seq<Token>, i: nat, p: nat)
    requires
        newline_inserted(ts, ts2, i),
        p < ts.len(),
    ensures
        ts2[shift(p, i) as int] == ts[p as int],
{
    if p >= i {
        assert(ts2[p as int + 1] == ts[p as int]);
    }
}

proof fn lemma_next_corr(ts: Seq<Token>, ts2: Seq<Token>, i: nat, p: nat, q: nat)
    requires
        newline_inserted(ts, ts2, i),
        p <= ts.len(),
        corr(p, q, i),
    ensures
        next_token(ts2, q).0 == next_token(ts, p).0,
        corr(next_token(ts, p).1, next_token(ts2, q).1, i),
        next_token(ts, p).1 <= ts.len(),
        next_token(ts, p).0 is Some ==> next_token(ts2, q).1 == shift(
            (next_token(ts, p).1 - 1) as nat,
            i,
        ) + 1,
    decreases ts.len() - p, if q == shift(p, i) {
        0nat
    } else {
        1nat
    },
{
    lemma_next_token(ts, p);
    if q != shift(p, i) {
        lemma_next_corr(ts, ts2, i, p, i + 1);
    } else if p < ts.len() {
        lemma_same_token(ts, ts2, i, p);
        if ts[p as int] is NewLine {
            lemma_next_corr(ts, ts2, i, p + 1, q + 1);
        }
    }
}

proof fn lemma_expect_corr(
    ts: Seq<Token>,
    ts2: Seq<Token>,
    i: nat,
    p: nat,
    q: nat,
    want: Token,
    err: ParseError,
)
    requires
        newline_inserted(ts, ts2, i),
        p <= ts.len(),
        corr(p, q, i),
    ensures
        spec_expect(ts2, q, want, err).0 == spec_expect(ts, p, want, err).0,
        corr(spec_expect(ts, p, want, err).1, spec_expect(ts2, q, want, err).1, i),
        spec_expect(ts, p, want, err).1 <= ts.len(),
{
    lemma_next_corr(ts, ts2, i, p, q);
}

proof fn lemma_expect_variable_corr(ts: Seq<Token>, ts2: Seq<Token>, i: nat, p: nat, q: nat)
    requires
        newline_inserted(ts, ts2, i),
        p <= ts.len(),
        corr(p, q, i),
    ensures
        spec_expect_variable(ts2, q).0 == spec_expect_variable(ts, p).0,
        corr(spec_expect_variable(ts, p).1, spec_expect_variable(ts2, q).1, i),
        spec_expect_variable(ts, p).1 <= ts.len(),
{
    lemma_next_corr(ts, ts2, i, p, q);
}

proof fn lemma_put_corr(ts: Seq<Token>, ts2: Seq<Token>, i: nat, p: nat, q: nat)
    requires
        newline_inserted(ts, ts2, i),
        p <= ts.len(),
        corr(p, q, i),
    ensures
        spec_parse_put(ts2, q).0 == spec_parse_put(ts, p).0,
        corr(spec_parse_put(ts, p).1, spec_parse_put(ts2, q).1, i),
        spec_parse_put(ts, p).1 <= ts.len(),
{
    lemma_next_corr(ts, ts2, i, p, q);
    let c1 = next_token(ts, p).1;
    let d1 = next_token(ts2, q).1;
    let bo = Token::Bracket(crate::lex::token::BracketToken::Open);
    let bc = Token::Bracket(crate::lex::token::BracketToken::Close);
    lemma_expect_corr(ts, ts2, i, c1, d1, bo, ParseError::PutWithoutOpenBracket);
    let c2 = spec_expect(ts, c1, bo, ParseError::PutWithoutOpenBracket).1;
    let d2 = spec_expect(ts2, d1, bo, ParseError::PutWithoutOpenBracket).1;
    lemma_expect_variable_corr(ts, ts2, i, c2, d2);
    let c3 = spec_expect_variable(ts, c2).1;
    let d3 = spec_expect_variable(ts2, d2).1;
    lemma_expect_corr(ts, ts2, i, c3, d3, bc, ParseError::MissingCloseBracket);
}

proof fn lemma_get_corr(ts: Seq<Token>, ts2: Seq<Token>, i: nat, p: nat, q: nat)
    requires
        newline_inserted(ts, ts2, i),
        p <= ts.len(),
        corr(p, q, i),
    ensures
        spec_parse_get(ts2, q).0 == spec_parse_get(ts, p).0,
        corr(spec_parse_get(ts, p).1, spec_parse_get(ts2, q).1, i),
        spec_parse_get(ts, p).1 <= ts.len(),
{
    lemma_next_corr(ts, ts2, i, p, q);
    let c1 = next_token(ts, p).1;
    let d1 = next_token(ts2, q).1;
    let bo = Token::Bracket(crate::lex::token::BracketToken::Open);
    let bc = Token::Bracket(crate::lex::token::BracketToken::Close);
    lemma_expect_corr(ts, ts2, i, c1, d1, bo, ParseError::GetWithoutOpenBracket);
    let c2 = spec_expect(ts, c1, bo, ParseError::GetWithoutOpenBracket).1;
    let d2 = spec_expect(ts2, d1, bo, ParseError::GetWithoutOpenBracket).1;
    lemma_expect_corr(ts, ts2, i, c2, d2, bc, ParseError::MissingCloseBracket);
}

proof fn lemma_assign_corr(ts: Seq<Token>, ts2: Seq<Token>, i: nat, p: nat, q: nat)
    requires
        newline_inserted(ts, ts2, i),
        p <= ts.len(),
        corr(p, q, i),
    ensures
        spec_parse_assign(ts2, q).0 == spec_parse_assign(ts, p).0,
        corr(spec_parse_assign(ts, p).1, spec_parse_assign(ts2, q).1, i),
        spec_parse_assign(ts, p).1 <= ts.len(),
{
    lemma_next_corr(ts, ts2, i, p, q);
    let c1 = next_token(ts, p).1;
    let d1 = next_token(ts2, q).1;
    lemma_next_corr(ts, ts2, i, c1, d1);
    let c2 = next_token(ts, c1).1;
    let d2 = next_token(ts2, d1).1;
    lemma_next_corr(ts, ts2, i, c2, d2);
    let c3 = next_token(ts, c2).1;
    let d3 = next_token(ts2, d2).1;
    if next_token(ts, c2).0 == Some(Token::Get) {
        lemma_next_token(ts, c2);
        lemma_get_corr(ts, ts2, i, (c3 - 1) as nat, (d3 - 1) as nat);
    }
}

proof fn lemma_statement_corr(ts: Seq<Token>, ts2: Seq<Token>, i: nat, p: nat)
    requires
        newline_inserted(ts, ts2, i),
        p < ts.len(),
        spec_parse_statement(ts, p).0 is Ok,
    ensures
        spec_parse_statement(ts2, shift(p, i)).0 == spec_parse_statement(ts, p).0,
        corr(spec_parse_statement(ts, p).1, spec_parse_statement(ts2, shift(p, i)).1, i),
        spec_parse_statement(ts, p).1 <= ts.len(),
{
    let q = shift(p, i);
    lemma_same_token(ts, ts2, i, p);
    if ts[p as int] is Put {
        lemma_put_corr(ts, ts2, i, p, q);
    } else {
        lemma_assign_corr(ts, ts2, i, p, q);
    }
    let c = spec_parse_statement(ts, p).1;
    if c < ts.len() {
        lemma_same_token(ts, ts2, i, c);
    }
}

proof fn lemma_top_corr(ts: Seq<Token>, ts2: Seq<Token>, i: nat, p: nat, q: nat)
    requires
        newline_inserted(ts, ts2, i),
        p <= ts.len(),
        corr(p, q, i),
        spec_parse_top_level_nodes(ts, p).0 is Ok,
    ensures
        spec_parse_top_level_nodes(ts2, q).0 == spec_parse_top_level_nodes(ts, p).0,
        corr(spec_parse_top_level_nodes(ts, p).1, spec_parse_top_level_nodes(ts2, q).1, i),
    decreases ts.len() - p, 1nat, if q == shift(p, i) {
        0nat
    } else {
        1nat
    },
{
    if q != shift(p, i) {
        assert(spec_parse_top_level_nodes(ts2, q) == spec_parse_top_level_nodes(ts2, q + 1));
        lemma_top_corr(ts, ts2, i, p, q + 1);
    } else if p < ts.len() {
        lemma_same_token(ts, ts2, i, p);
        let t = ts[p as int];
        match t {
            Token::NewLine | Token::Semicolon => {
                lemma_top_corr(ts, ts2, i, p + 1, q + 1);
            },
            Token::Variable(_) | Token::Head | Token::Put => {
                lemma_statement_corr(ts, ts2, i, p);
                let c = spec_parse_statement(ts, p).1;
                let d = spec_parse_statement(ts2, q).1;
                lemma_top_corr(ts, ts2, i, c, d);
            },
            Token::While => {
                lemma_while_corr(ts, ts2, i, p);
                let c = spec_parse_while(ts, p).1;
                let d = spec_parse_while(ts2, q).1;
                lemma_top_corr(ts, ts2, i, c, d);
            },
            _ => {},
        }
    }
}

proof fn lemma_while_corr(ts: Seq<Token>, ts2: Seq<Token>, i: nat, p: nat)
    requires
        newline_inserted(ts, ts2, i),
        p < ts.len(),
        spec_parse_while(ts, p).0 is Ok,
    ensures
        spec_parse_while(ts2, shift(p, i)).0 == spec_parse_while(ts, p).0,
        corr(spec_parse_while(ts, p).1, spec_parse_while(ts2, shift(p, i)).1, i),
        spec_parse_while(ts, p).1 <= ts.len(),
    decreases ts.len() - p, 0nat, 0nat,
{
    let q = shift(p, i);
    lemma_parse_progress(ts, p);
    lemma_next_corr(ts, ts2, i, p, q);
    let c1 = next_token(ts, p).1;
    let d1 = next_token(ts2, q).1;
    let bo = Token::Bracket(crate::lex::token::BracketToken::Open);
    let bc = Token::Bracket(crate::lex::token::BracketToken::Close);
    let co = Token::CurlyBracket(crate::lex::token::CurlyBracketToken::Open);
    let cc = Token::CurlyBracket(crate::lex::token::CurlyBracketToken::Close);
    lemma_expect_corr(ts, ts2, i, c1, d1, bo, ParseError::WhileWithoutOpenBracket);
    let c2 = spec_expect(ts, c1, bo, ParseError::WhileWithoutOpenBracket).1;
    let d2 = spec_expect(ts2, d1, bo, ParseError::WhileWithoutOpenBracket).1;
    lemma_expect_variable_corr(ts, ts2, i, c2, d2);
    let c3 = spec_expect_variable(ts, c2).1;
    let d3 = spec_expect_variable(ts2, d2).1;
    lemma_expect_corr(ts, ts2, i, c3, d3, bc, ParseError::MissingCloseBracket);
    let c4 = spec_expect(ts, c3, bc, ParseError::MissingCloseBracket).1;
    let d4 = spec_expect(ts2, d3, bc, ParseError::MissingCloseBracket).1;
    lemma_expect_corr(ts, ts2, i, c4, d4, co, ParseError::WhileWithoutBody);
    let c5 = spec_expect(ts, c4, co, ParseError::WhileWithoutBody).1;
    let d5 = spec_expect(ts2, d4, co, ParseError::WhileWithoutBody).1;
    lemma_top_corr(ts, ts2, i, c5, d5);
    let c6 = spec_parse_top_level_nodes(ts, c5).1;
    let d6 = spec_parse_top_level_nodes(ts2, d5).1;
    lemma_parse_progress(ts, c5);
    lemma_expect_corr(ts, ts2, i, c6, d6, cc, ParseError::MissingCloseCurlyBracket);
}

/// Law: a newline put in anywhere between the tokens (or at either end)
/// of a program that parses changes nothing of what it parses to: newlines
/// are skipped inside statements and loop heads, and end statements.
pub proof fn law_parse_ignores_added_newline(ts: Seq<Token>, i: nat)
    requires
        spec_parse(ts) is Ok,
        i <= ts.len(),
    ensures
        spec_parse(ts.insert(i as int, Token::NewLine)) == spec_parse(ts),
{
    let ts2 = ts.insert(i as int, Token::NewLine);
    ts.insert_ensures(i as int, Token::NewLine);
    assert(newline_inserted(ts, ts2, i));
    lemma_top_corr(ts, ts2, i, 0, 0);
}

} // verus!
