//! A recursive-descent parser over tokens.
use vstd::prelude::*;
use vstd::string::*;

use crate::lex::token::{
    AssginToken, BracketToken, CurlyBracketToken, Token, VariableToken, token_text,
};
use crate::parse::ast::{
    AST, AssignNode, AssignNodeOperand, DynamicVariableNode, GetNode, HeadNode, LValueNode,
    NodeModel, NumberNode, PutNode, RValueNode, StatementNode, StaticVariableNode, TopLevelNode,
    VariableNode, WhileNode, lemma_nodes_view, node_view, nodes_view,
};

verus! {

broadcast use lemma_nodes_view;

/// Why a token sequence is no program.
#[derive(Debug, Clone, Copy, PartialEq, Eq, Structural)]
pub enum ParseError {
    /// `{` where a statement or loop should start.
    UnexpectedOpenCurly,
    /// A token that cannot start a statement or loop.
    UnexpectedToken(Token),
    /// A token that cannot start a statement, where one should start.
    ExpectedStatement(Token),
    /// A statement followed by something other than `;`, a newline or `}`.
    StatementNotTerminated,
    /// `while` not followed by `(`.
    WhileWithoutOpenBracket,
    /// Something other than a variable where one is needed.
    ExpectedVariable(Token),
    /// A `(` without its `)`.
    MissingCloseBracket,
    /// A loop head not followed by `{`.
    WhileWithoutBody,
    /// A loop body without its `}`.
    MissingCloseCurlyBracket,
    /// `put` not followed by `(`.
    PutWithoutOpenBracket,
    /// `get` not followed by `(`.
    GetWithoutOpenBracket,
    /// Something other than a variable or `head` on the left of an assignment.
    ExpectedVariableOrHead(Token),
    /// Something other than an assignment operator after its left side.
    ExpectedAssignment(Token),
    /// Something other than a number or `get()` on the right of an assignment.
    ExpectedNumberOrGet(Token),
    /// The tokens end in the middle of a construct.
    UnexpectedEof,
}

/// Parses a token sequence, keeping its place between calls.
pub struct Parser<'source> {
    tokens: &'source [Token],
    cur: usize,
}

/// The next token from `cur` on that is not a newline, and the position
/// after it; `None` where only newlines are left.
pub open spec fn next_token(toks: Seq<Token>, cur: nat) -> (Option<Token>, nat)
    decreases toks.len() - cur,
{
    if cur >= toks.len() {
        (None, cur)
    } else if toks[cur as int] is NewLine {
        next_token(toks, cur + 1)
    } else {
        (Some(toks[cur as int]), cur + 1)
    }
}

/// Reads the next token that is not a newline and checks that it is `want`.
pub open spec fn spec_expect(toks: Seq<Token>, cur: nat, want: Token, err: ParseError) -> (
    Result<(), ParseError>,
    nat,
) {
    let (t, c) = next_token(toks, cur);
    match t {
        None => (Err(ParseError::UnexpectedEof), c),
        Some(x) => if x == want {
            (Ok(()), c)
        } else {
            (Err(err), c)
        },
    }
}

/// The variable node for a variable token.
pub open spec fn spec_variable(vt: VariableToken) -> VariableNode {
    match vt {
        VariableToken::Static { index } => VariableNode::Static(StaticVariableNode { index }),
        VariableToken::Dynamic => VariableNode::Dynamic(DynamicVariableNode),
    }
}

/// Reads a variable token.
pub open spec fn spec_expect_variable(toks: Seq<Token>, cur: nat) -> (
    Result<VariableNode, ParseError>,
    nat,
) {
    let (t, c) = next_token(toks, cur);
    match t {
        None => (Err(ParseError::UnexpectedEof), c),
        Some(Token::Variable(vt)) => (Ok(spec_variable(vt)), c),
        Some(other) => (Err(ParseError::ExpectedVariable(other)), c),
    }
}

/// `put ( variable )`, with `put` at the next token.
pub open spec fn spec_parse_put(toks: Seq<Token>, cur: nat) -> (Result<PutNode, ParseError>, nat) {
    let (_, c1) = next_token(toks, cur);
    let (r2, c2) = spec_expect(
        toks,
        c1,
        Token::Bracket(BracketToken::Open),
        ParseError::PutWithoutOpenBracket,
    );
    if r2 is Err {
        (Err(r2->Err_0), c2)
    } else {
        let (r3, c3) = spec_expect_variable(toks, c2);
        if r3 is Err {
            (Err(r3->Err_0), c3)
        } else {
            let (r4, c4) = spec_expect(
                toks,
                c3,
                Token::Bracket(BracketToken::Close),
                ParseError::MissingCloseBracket,
            );
            if r4 is Err {
                (Err(r4->Err_0), c4)
            } else {
                (Ok(PutNode { character: r3->Ok_0 }), c4)
            }
        }
    }
}

/// `get ( )`, with `get` at the next token.
pub open spec fn spec_parse_get(toks: Seq<Token>, cur: nat) -> (Result<GetNode, ParseError>, nat) {
    let (_, c1) = next_token(toks, cur);
    let (r2, c2) = spec_expect(
        toks,
        c1,
        Token::Bracket(BracketToken::Open),
        ParseError::GetWithoutOpenBracket,
    );
    if r2 is Err {
        (Err(r2->Err_0), c2)
    } else {
        let (r3, c3) = spec_expect(
            toks,
            c2,
            Token::Bracket(BracketToken::Close),
            ParseError::MissingCloseBracket,
        );
        if r3 is Err {
            (Err(r3->Err_0), c3)
        } else {
            (Ok(GetNode), c3)
        }
    }
}

/// The assignment node of the given kind.
pub open spec fn spec_assign_node(kind: AssginToken, operand: AssignNodeOperand) -> AssignNode {
    match kind {
        AssginToken::Simple => AssignNode::Simple(operand),
        AssginToken::Add => AssignNode::Add(operand),
        AssginToken::Sub => AssignNode::Sub(operand),
    }
}

/// `lvalue op rvalue`.
pub open spec fn spec_parse_assign(toks: Seq<Token>, cur: nat) -> (
    Result<AssignNode, ParseError>,
    nat,
) {
    let (t1, c1) = next_token(toks, cur);
    let lvalue = match t1 {
        None => Err(ParseError::UnexpectedEof),
        Some(Token::Variable(vt)) => Ok(LValueNode::Variable(spec_variable(vt))),
        Some(Token::Head) => Ok(LValueNode::Head(HeadNode)),
        Some(other) => Err(ParseError::ExpectedVariableOrHead(other)),
    };
    if lvalue is Err {
        (Err(lvalue->Err_0), c1)
    } else {
        let (t2, c2) = next_token(toks, c1);
        let kind = match t2 {
            None => Err(ParseError::UnexpectedEof),
            Some(Token::Assign(a)) => Ok(a),
            Some(other) => Err(ParseError::ExpectedAssignment(other)),
        };
        if kind is Err {
            (Err(kind->Err_0), c2)
        } else {
            let (t3, c3) = next_token(toks, c2);
            let (rvalue, c4) = match t3 {
                None => (Err(ParseError::UnexpectedEof), c3),
                Some(Token::Number { value }) => (Ok(RValueNode::Number(NumberNode { value })), c3),
                Some(Token::Get) => {
                    let (g, c) = spec_parse_get(toks, (c3 - 1) as nat);
                    match g {
                        Ok(gn) => (Ok(RValueNode::Get(gn)), c),
                        Err(e) => (Err(e), c),
                    }
                },
                Some(other) => (Err(ParseError::ExpectedNumberOrGet(other)), c3),
            };
            match rvalue {
                Err(e) => (Err(e), c4),
                Ok(rv) => (
                    Ok(spec_assign_node(kind->Ok_0, AssignNodeOperand { lvalue: lvalue->Ok_0, rvalue: rv })),
                    c4,
                ),
            }
        }
    }
}

/// A token that may follow a statement.
pub open spec fn is_terminator(t: Token) -> bool {
    t == Token::Semicolon || t == Token::NewLine || t == Token::CurlyBracket(CurlyBracketToken::Close)
}

/// A statement starting at `cur`, followed by `;`, a newline, `}` or the end
/// (which are left unread).
pub open spec fn spec_parse_statement(toks: Seq<Token>, cur: nat) -> (
    Result<StatementNode, ParseError>,
    nat,
) {
    let (r, c) = if cur < toks.len() && toks[cur as int] is Put {
        let (p, c) = spec_parse_put(toks, cur);
        match p {
            Ok(pn) => (Ok(StatementNode::Put(pn)), c),
            Err(e) => (Err(e), c),
        }
    } else if cur < toks.len() && (toks[cur as int] is Variable || toks[cur as int] is Head) {
        let (a, c) = spec_parse_assign(toks, cur);
        match a {
            Ok(an) => (Ok(StatementNode::Assign(an)), c),
            Err(e) => (Err(e), c),
        }
    } else {
        (Err(ParseError::ExpectedStatement(toks[cur as int])), cur)
    };
    match r {
        Err(e) => (Err(e), c),
        Ok(s) => {
            let term = if c < toks.len() {
                toks[c as int]
            } else {
                Token::NewLine
            };
            if is_terminator(term) {
                (Ok(s), c)
            } else {
                (Err(ParseError::StatementNotTerminated), c)
            }
        },
    }
}

/// `result` in front of the nodes of `r`; errors pass through.
pub open spec fn prepend_nodes(
    result: Seq<NodeModel>,
    r: (Result<Seq<NodeModel>, ParseError>, nat),
) -> (Result<Seq<NodeModel>, ParseError>, nat) {
    match r.0 {
        Ok(rest) => (Ok(result + rest), r.1),
        Err(e) => (Err(e), r.1),
    }
}

/// Statements and loops from `cur` up to a `}` (left unread) or the end;
/// `;` and newlines between them are skipped.
pub open spec fn spec_parse_top_level_nodes(toks: Seq<Token>, cur: nat) -> (
    Result<Seq<NodeModel>, ParseError>,
    nat,
)
    decreases toks.len() - cur, 1nat,
{
    if cur >= toks.len() {
        (Ok(seq![]), cur)
    } else {
        let t = toks[cur as int];
        match t {
            Token::NewLine | Token::Semicolon => spec_parse_top_level_nodes(toks, cur + 1),
            Token::Variable(_) | Token::Head | Token::Put => {
                let (r, c) = spec_parse_statement(toks, cur);
                match r {
                    Err(e) => (Err(e), c),
                    Ok(s) => if cur < c <= toks.len() {
                        prepend_nodes(
                            seq![NodeModel::Statement(s)],
                            spec_parse_top_level_nodes(toks, c),
                        )
                    } else {
                        (Err(ParseError::UnexpectedEof), c)
                    },
                }
            },
            Token::While => {
                let (r, c) = spec_parse_while(toks, cur);
                match r {
                    Err(e) => (Err(e), c),
                    Ok((cond, content)) => if cur < c <= toks.len() {
                        prepend_nodes(
                            seq![NodeModel::While(cond, content)],
                            spec_parse_top_level_nodes(toks, c),
                        )
                    } else {
                        (Err(ParseError::UnexpectedEof), c)
                    },
                }
            },
            Token::CurlyBracket(CurlyBracketToken::Close) => (Ok(seq![]), cur),
            Token::CurlyBracket(CurlyBracketToken::Open) => (
                Err(ParseError::UnexpectedOpenCurly),
                cur,
            ),
            other => (Err(ParseError::UnexpectedToken(other)), cur),
        }
    }
}

/// `while ( variable ) { nodes }`, with `while` at the next token.
pub open spec fn spec_parse_while(toks: Seq<Token>, cur: nat) -> (
    Result<(VariableNode, Seq<NodeModel>), ParseError>,
    nat,
)
    decreases toks.len() - cur, 0nat,
{
    let (_, c1) = next_token(toks, cur);
    let (r2, c2) = spec_expect(
        toks,
        c1,
        Token::Bracket(BracketToken::Open),
        ParseError::WhileWithoutOpenBracket,
    );
    if r2 is Err {
        (Err(r2->Err_0), c2)
    } else {
        let (r3, c3) = spec_expect_variable(toks, c2);
        if r3 is Err {
            (Err(r3->Err_0), c3)
        } else {
            let (r4, c4) = spec_expect(
                toks,
                c3,
                Token::Bracket(BracketToken::Close),
                ParseError::MissingCloseBracket,
            );
            if r4 is Err {
                (Err(r4->Err_0), c4)
            } else {
                let (r5, c5) = spec_expect(
                    toks,
                    c4,
                    Token::CurlyBracket(CurlyBracketToken::Open),
                    ParseError::WhileWithoutBody,
                );
                if r5 is Err {
                    (Err(r5->Err_0), c5)
                } else if !(cur < c5 <= toks.len()) {
                    (Err(ParseError::UnexpectedEof), c5)
                } else {
                    let (r6, c6) = spec_parse_top_level_nodes(toks, c5);
                    match r6 {
                        Err(e) => (Err(e), c6),
                        Ok(content) => {
                            let (r7, c7) = spec_expect(
                                toks,
                                c6,
                                Token::CurlyBracket(CurlyBracketToken::Close),
                                ParseError::MissingCloseCurlyBracket,
                            );
                            if r7 is Err {
                                (Err(r7->Err_0), c7)
                            } else {
                                (Ok((r3->Ok_0, content)), c7)
                            }
                        },
                    }
                }
            }
        }
    }
}

/// What parsing all of `toks` gives: the nodes up to the end or to a `}`
/// at top level, which ends the program.
pub open spec fn spec_parse(toks: Seq<Token>) -> Result<Seq<NodeModel>, ParseError> {
    spec_parse_top_level_nodes(toks, 0).0
}

/// `next_token` moves forward, and finds what it reports.
pub proof fn lemma_next_token(toks: Seq<Token>, cur: nat)
    requires
        cur <= toks.len(),
    ensures
        cur <= next_token(toks, cur).1 <= toks.len(),
        next_token(toks, cur).0 matches Some(t) ==> {
            &&& cur < next_token(toks, cur).1
            &&& toks[next_token(toks, cur).1 - 1] == t
            &&& !(t is NewLine)
        },
    decreases toks.len() - cur,
{
    if cur < toks.len() && toks[cur as int] is NewLine {
        lemma_next_token(toks, cur + 1);
    }
}

/// Reading a construct never moves backwards or past the end, and a
/// successful loop moves forward.
pub proof fn lemma_parse_progress(toks: Seq<Token>, cur: nat)
    requires
        cur <= toks.len(),
    ensures
        cur <= spec_parse_top_level_nodes(toks, cur).1 <= toks.len(),
        cur <= spec_parse_while(toks, cur).1 <= toks.len(),
        spec_parse_while(toks, cur).0 is Ok ==> cur < spec_parse_while(toks, cur).1,
    decreases toks.len() - cur,
{
    lemma_statement_progress(toks, cur);
    let (_, c1) = next_token(toks, cur);
    lemma_next_token(toks, cur);
    lemma_next_token(toks, c1);
    let c2 = next_token(toks, c1).1;
    lemma_next_token(toks, c2);
    let c3 = next_token(toks, c2).1;
    lemma_next_token(toks, c3);
    let c4 = next_token(toks, c3).1;
    lemma_next_token(toks, c4);
    let c5 = next_token(toks, c4).1;
    if cur < c5 <= toks.len() {
        lemma_parse_progress(toks, c5);
        let c6 = spec_parse_top_level_nodes(toks, c5).1;
        lemma_next_token(toks, c6);
    }
    if cur < toks.len() {
        let t = toks[cur as int];
        match t {
            Token::NewLine | Token::Semicolon => {
                lemma_parse_progress(toks, cur + 1);
            },
            Token::Variable(_) | Token::Head | Token::Put => {
                let c = spec_parse_statement(toks, cur).1;
                if spec_parse_statement(toks, cur).0 is Ok && cur < c <= toks.len() {
                    lemma_parse_progress(toks, c);
                }
            },
            Token::While => {
                let c = spec_parse_while(toks, cur).1;
                if spec_parse_while(toks, cur).0 is Ok && cur < c <= toks.len() {
                    lemma_parse_progress(toks, c);
                }
            },
            _ => {},
        }
    }
}

/// Reading a statement stays inside the tokens, and moves forward when it
/// succeeds.
pub proof fn lemma_statement_progress(toks: Seq<Token>, cur: nat)
    requires
        cur <= toks.len(),
    ensures
        cur <= spec_parse_statement(toks, cur).1 <= toks.len(),
        spec_parse_statement(toks, cur).0 is Ok ==> cur < spec_parse_statement(toks, cur).1,
{
    lemma_next_token(toks, cur);
    let c1 = next_token(toks, cur).1;
    lemma_next_token(toks, c1);
    let c2 = next_token(toks, c1).1;
    lemma_next_token(toks, c2);
    let c3 = next_token(toks, c2).1;
    lemma_next_token(toks, c3);
    let c4 = next_token(toks, c3).1;
    lemma_next_token(toks, c4);
    if c3 > 0 {
        let g = (c3 - 1) as nat;
        lemma_next_token(toks, g);
        let g1 = next_token(toks, g).1;
        lemma_next_token(toks, g1);
        let g2 = next_token(toks, g1).1;
        lemma_next_token(toks, g2);
    }
}

/// Law: a successful parse stops only at the end of the tokens or right
/// before a `}` at its own level; a top-level parse that meets a stray `}`
/// ends the program there.
pub proof fn law_parse_stops_at_end_or_close(toks: Seq<Token>, cur: nat)
    requires
        cur <= toks.len(),
    ensures
        spec_parse_top_level_nodes(toks, cur).0 is Ok ==> {
            let c = spec_parse_top_level_nodes(toks, cur).1;
            c == toks.len() || toks[c as int] == Token::CurlyBracket(CurlyBracketToken::Close)
        },
    decreases toks.len() - cur,
{
    lemma_statement_progress(toks, cur);
    if cur < toks.len() {
        let t = toks[cur as int];
        match t {
            Token::NewLine | Token::Semicolon => {
                law_parse_stops_at_end_or_close(toks, cur + 1);
            },
            Token::Variable(_) | Token::Head | Token::Put => {
                let c = spec_parse_statement(toks, cur).1;
                if spec_parse_statement(toks, cur).0 is Ok && cur < c <= toks.len() {
                    law_parse_stops_at_end_or_close(toks, c);
                }
            },
            Token::While => {
                lemma_parse_progress(toks, cur);
                let c = spec_parse_while(toks, cur).1;
                if spec_parse_while(toks, cur).0 is Ok && cur < c <= toks.len() {
                    law_parse_stops_at_end_or_close(toks, c);
                }
            },
            _ => {},
        }
    }
}

impl<'source> Parser<'source> {
    /// The tokens being parsed.
    pub closed spec fn spec_tokens(&self) -> Seq<Token> {
        self.tokens@
    }

    /// Where the next parse starts.
    pub closed spec fn spec_cur(&self) -> nat {
        self.cur as nat
    }

    /// Parses the tokens from the current position up to the end or to a
    /// `}` at top level, and stays at the position where it stopped.
    pub fn parse(&mut self) -> (r: Result<AST, ParseError>)
        requires
            old(self).spec_cur() <= old(self).spec_tokens().len(),
        ensures
            final(self).spec_tokens() == old(self).spec_tokens(),
            final(self).spec_cur() == spec_parse_top_level_nodes(
                old(self).spec_tokens(),
                old(self).spec_cur(),
            ).1,
            final(self).spec_cur() <= final(self).spec_tokens().len(),
            match spec_parse_top_level_nodes(old(self).spec_tokens(), old(self).spec_cur()).0 {
                Ok(nodes) => r matches Ok(ast) && ast@ == nodes,
                Err(e) => r == Err::<AST, ParseError>(e),
            },
    {
        let (r, c) = self.parse_top_level_nodes(self.cur);
        proof {
            lemma_parse_progress(self.spec_tokens(), self.spec_cur() as nat);
        }
        self.cur = c;
        match r {
            Ok(root) => Ok(AST { root }),
            Err(e) => Err(e),
        }
    }

    fn parse_top_level_nodes(&self, start: usize) -> (r: (Result<Vec<TopLevelNode>, ParseError>, usize))
        requires
            start <= self.tokens@.len(),
        ensures
            r.1 == spec_parse_top_level_nodes(self.tokens@, start as nat).1,
            match spec_parse_top_level_nodes(self.tokens@, start as nat).0 {
                Ok(nodes) => r.0 matches Ok(v) && nodes_view(v@) == nodes,
                Err(e) => r.0 == Err::<Vec<TopLevelNode>, ParseError>(e),
            },
        decreases self.tokens@.len() - start, 1nat,
    {
        let ghost toks = self.tokens@;
        let mut result: Vec<TopLevelNode> = Vec::new();
        let mut cur = start;
        let ghost cur0 = cur as nat;
        while cur < self.tokens.len()
            invariant
                toks == self.tokens@,
                cur0 == start,
                cur0 <= cur <= toks.len(),
                spec_parse_top_level_nodes(toks, cur0) == prepend_nodes(
                    nodes_view(result@),
                    spec_parse_top_level_nodes(toks, cur as nat),
                ),
            decreases toks.len() - cur,
        {
            let token = self.tokens[cur];
            match token {
                Token::NewLine | Token::Semicolon => {
                    cur = cur + 1;
                },
                Token::Variable(_) | Token::Head | Token::Put => {
                    let (r, c) = self.parse_statement(cur);
                    proof {
                        lemma_statement_progress(toks, cur as nat);
                    }
                    match r {
                        Ok(s) => {
                            proof {
                                self.lemma_push_node(result@, TopLevelNode::Statement(s), c as nat);
                            }
                            result.push(TopLevelNode::Statement(s));
                            cur = c;
                        },
                        Err(e) => {
                            return (Err(e), c);
                        },
                    }
                },
                Token::While => {
                    let (r, c) = self.parse_while(cur);
                    proof {
                        lemma_parse_progress(toks, cur as nat);
                    }
                    match r {
                        Ok(w) => {
                            proof {
                                self.lemma_push_node(result@, TopLevelNode::While(w), c as nat);
                            }
                            result.push(TopLevelNode::While(w));
                            cur = c;
                        },
                        Err(e) => {
                            return (Err(e), c);
                        },
                    }
                },
                Token::CurlyBracket(cbtoken) => match cbtoken {
                    CurlyBracketToken::Close => {
                        proof {
                            assert(nodes_view(result@) + seq![] =~= nodes_view(result@));
                        }
                        return (Ok(result), cur);
                    },
                    CurlyBracketToken::Open => {
                        return (Err(ParseError::UnexpectedOpenCurly), cur);
                    },
                },
                other => {
                    return (Err(ParseError::UnexpectedToken(other)), cur);
                },
            }
        }
        proof {
            assert(nodes_view(result@) + seq![] =~= nodes_view(result@));
        }
        (Ok(result), cur)
    }

    /// Appending a node to the result keeps the loop's account of the whole.
    proof fn lemma_push_node(&self, result: Seq<TopLevelNode>, n: TopLevelNode, c: nat)
        ensures
            forall|r: (Result<Seq<NodeModel>, ParseError>, nat)|
                #![trigger prepend_nodes(nodes_view(result.push(n)), r)]
                prepend_nodes(nodes_view(result), prepend_nodes(seq![node_view(n)], r))
                    == prepend_nodes(nodes_view(result.push(n)), r),
    {
        assert(result.push(n).drop_last() =~= result);
        assert forall|r: (Result<Seq<NodeModel>, ParseError>, nat)|
            #![trigger prepend_nodes(nodes_view(result.push(n)), r)]
            prepend_nodes(nodes_view(result), prepend_nodes(seq![node_view(n)], r))
                == prepend_nodes(nodes_view(result.push(n)), r) by {
            match r.0 {
                Ok(rest) => {
                    assert(nodes_view(result) + (seq![node_view(n)] + rest) =~= nodes_view(
                        result.push(n),
                    ) + rest);
                },
                Err(_) => {},
            }
        }
    }

    fn parse_statement(&self, cur: usize) -> (r: (Result<StatementNode, ParseError>, usize))
        requires
            cur < self.tokens@.len(),
        ensures
            cur <= r.1 <= self.tokens@.len(),
            r.0 == spec_parse_statement(self.tokens@, cur as nat).0,
            r.1 == spec_parse_statement(self.tokens@, cur as nat).1,
    {
        proof {
            lemma_statement_progress(self.tokens@, cur as nat);
        }
        let (statement_node, c) = match self.tokens[cur] {
            Token::Put => {
                let (p, c) = self.parse_put(cur);
                match p {
                    Ok(pn) => (StatementNode::Put(pn), c),
                    Err(e) => {
                        return (Err(e), c);
                    },
                }
            },
            Token::Variable(_) | Token::Head => {
                let (a, c) = self.parse_assign(cur);
                match a {
                    Ok(an) => (StatementNode::Assign(an), c),
                    Err(e) => {
                        return (Err(e), c);
                    },
                }
            },
            other => {
                return (Err(ParseError::ExpectedStatement(other)), cur);
            },
        };
        let terminator = if c < self.tokens.len() {
            self.tokens[c]
        } else {
            Token::NewLine
        };
        if terminator != Token::Semicolon && terminator != Token::NewLine && terminator
            != Token::CurlyBracket(CurlyBracketToken::Close) {
            return (Err(ParseError::StatementNotTerminated), c);
        }
        (Ok(statement_node), c)
    }

    fn parse_while(&self, cur: usize) -> (r: (Result<WhileNode, ParseError>, usize))
        requires
            cur < self.tokens@.len(),
            self.tokens@[cur as int] is While,
        ensures
            r.1 == spec_parse_while(self.tokens@, cur as nat).1,
            match spec_parse_while(self.tokens@, cur as nat).0 {
                Ok((cond, content)) => r.0 matches Ok(w) && w.condition == cond && nodes_view(
                    w.content@,
                ) == content,
                Err(e) => r.0 == Err::<WhileNode, ParseError>(e),
            },
        decreases self.tokens@.len() - cur, 0nat,
    {
        let ghost toks = self.tokens@;
        proof {
            lemma_next_token(toks, cur as nat);
        }
        let (_, c) = self.get_token_without_nl(cur);
        let (r, c) = self.expect_token(
            c,
            Token::Bracket(BracketToken::Open),
            ParseError::WhileWithoutOpenBracket,
        );
        if let Err(e) = r {
            return (Err(e), c);
        }
        let (r, c) = self.expect_variable(c);
        let condition = match r {
            Ok(v) => v,
            Err(e) => {
                return (Err(e), c);
            },
        };
        let (r, c) = self.expect_token(
            c,
            Token::Bracket(BracketToken::Close),
            ParseError::MissingCloseBracket,
        );
        if let Err(e) = r {
            return (Err(e), c);
        }
        let ghost c4 = c;
        let (r, c) = self.expect_token(
            c,
            Token::CurlyBracket(CurlyBracketToken::Open),
            ParseError::WhileWithoutBody,
        );
        if let Err(e) = r {
            return (Err(e), c);
        }
        proof {
            lemma_next_token(toks, c4 as nat);
        }
        let (r, c) = self.parse_top_level_nodes(c);
        let content = match r {
            Ok(v) => v,
            Err(e) => {
                return (Err(e), c);
            },
        };
        proof {
            lemma_parse_progress(toks, cur as nat);
        }
        let (r, c) = self.expect_token(
            c,
            Token::CurlyBracket(CurlyBracketToken::Close),
            ParseError::MissingCloseCurlyBracket,
        );
        if let Err(e) = r {
            return (Err(e), c);
        }
        (Ok(WhileNode { condition, content }), c)
    }

    fn parse_put(&self, cur: usize) -> (r: (Result<PutNode, ParseError>, usize))
        requires
            cur < self.tokens@.len(),
            self.tokens@[cur as int] is Put,
        ensures
            cur <= r.1 <= self.tokens@.len(),
            r.0 == spec_parse_put(self.tokens@, cur as nat).0,
            r.1 == spec_parse_put(self.tokens@, cur as nat).1,
    {
        let (_, c) = self.get_token_without_nl(cur);
        let (r, c) = self.expect_token(
            c,
            Token::Bracket(BracketToken::Open),
            ParseError::PutWithoutOpenBracket,
        );
        if let Err(e) = r {
            return (Err(e), c);
        }
        let (r, c) = self.expect_variable(c);
        let character = match r {
            Ok(v) => v,
            Err(e) => {
                return (Err(e), c);
            },
        };
        let (r, c) = self.expect_token(
            c,
            Token::Bracket(BracketToken::Close),
            ParseError::MissingCloseBracket,
        );
        if let Err(e) = r {
            return (Err(e), c);
        }
        (Ok(PutNode { character }), c)
    }

    fn parse_get(&self, cur: usize) -> (r: (Result<GetNode, ParseError>, usize))
        requires
            cur < self.tokens@.len(),
            self.tokens@[cur as int] is Get,
        ensures
            cur <= r.1 <= self.tokens@.len(),
            r.0 == spec_parse_get(self.tokens@, cur as nat).0,
            r.1 == spec_parse_get(self.tokens@, cur as nat).1,
    {
        let (_, c) = self.get_token_without_nl(cur);
        let (r, c) = self.expect_token(
            c,
            Token::Bracket(BracketToken::Open),
            ParseError::GetWithoutOpenBracket,
        );
        if let Err(e) = r {
            return (Err(e), c);
        }
        let (r, c) = self.expect_token(
            c,
            Token::Bracket(BracketToken::Close),
            ParseError::MissingCloseBracket,
        );
        if let Err(e) = r {
            return (Err(e), c);
        }
        (Ok(GetNode), c)
    }

    fn parse_assign(&self, cur: usize) -> (r: (Result<AssignNode, ParseError>, usize))
        requires
            cur <= self.tokens@.len(),
        ensures
            cur <= r.1 <= self.tokens@.len(),
            r.0 == spec_parse_assign(self.tokens@, cur as nat).0,
            r.1 == spec_parse_assign(self.tokens@, cur as nat).1,
    {
        let ghost toks = self.tokens@;
        let (t, c) = self.get_token_without_nl(cur);
        let lvalue = match t {
            Ok(Token::Variable(var_token)) => LValueNode::Variable(self.parse_variable(var_token)),
            Ok(Token::Head) => LValueNode::Head(HeadNode),
            Ok(other) => {
                return (Err(ParseError::ExpectedVariableOrHead(other)), c);
            },
            Err(e) => {
                return (Err(e), c);
            },
        };
        let (t, c) = self.get_token_without_nl(c);
        let assign_token = match t {
            Ok(Token::Assign(a)) => a,
            Ok(other) => {
                return (Err(ParseError::ExpectedAssignment(other)), c);
            },
            Err(e) => {
                return (Err(e), c);
            },
        };
        let ghost c2 = c;
        let (t, c) = self.get_token_without_nl(c);
        let (rvalue, c) = match t {
            Ok(Token::Number { value }) => (RValueNode::Number(NumberNode { value }), c),
            Ok(Token::Get) => {
                proof {
                    lemma_next_token(toks, c2 as nat);
                }
                let (g, c) = self.parse_get(c - 1);
                match g {
                    Ok(gn) => (RValueNode::Get(gn), c),
                    Err(e) => {
                        return (Err(e), c);
                    },
                }
            },
            Ok(other) => {
                return (Err(ParseError::ExpectedNumberOrGet(other)), c);
            },
            Err(e) => {
                return (Err(e), c);
            },
        };
        let operand = AssignNodeOperand { lvalue, rvalue };
        let node = match assign_token {
            AssginToken::Simple => AssignNode::Simple(operand),
            AssginToken::Add => AssignNode::Add(operand),
            AssginToken::Sub => AssignNode::Sub(operand),
        };
        (Ok(node), c)
    }

    fn parse_variable(&self, var_token: VariableToken) -> (r: VariableNode)
        ensures
            r == spec_variable(var_token),
    {
        match var_token {
            VariableToken::Static { index } => VariableNode::Static(StaticVariableNode { index }),
            VariableToken::Dynamic => VariableNode::Dynamic(DynamicVariableNode),
        }
    }

    /// Reads a variable token at the next token that is not a newline.
    fn expect_variable(&self, cur: usize) -> (r: (Result<VariableNode, ParseError>, usize))
        requires
            cur <= self.tokens@.len(),
        ensures
            cur <= r.1 <= self.tokens@.len(),
            r.0 == spec_expect_variable(self.tokens@, cur as nat).0,
            r.1 == spec_expect_variable(self.tokens@, cur as nat).1,
    {
        let (t, c) = self.get_token_without_nl(cur);
        match t {
            Ok(Token::Variable(var_token)) => (Ok(self.parse_variable(var_token)), c),
            Ok(other) => (Err(ParseError::ExpectedVariable(other)), c),
            Err(e) => (Err(e), c),
        }
    }

    /// Reads the next token that is not a newline and checks that it is `want`.
    fn expect_token(&self, cur: usize, want: Token, err: ParseError) -> (r: (
        Result<(), ParseError>,
        usize,
    ))
        requires
            cur <= self.tokens@.len(),
        ensures
            cur <= r.1 <= self.tokens@.len(),
            r.0 == spec_expect(self.tokens@, cur as nat, want, err).0,
            r.1 == spec_expect(self.tokens@, cur as nat, want, err).1,
    {
        let (t, c) = self.get_token_without_nl(cur);
        match t {
            Ok(x) => if x == want {
                (Ok(()), c)
            } else {
                (Err(err), c)
            },
            Err(e) => (Err(e), c),
        }
    }

    /// The next token from `cur` on that is not a newline, and the position
    /// after it.
    fn get_token_without_nl(&self, cur: usize) -> (r: (Result<Token, ParseError>, usize))
        ensures
            cur <= r.1,
            cur <= self.tokens@.len() ==> r.1 <= self.tokens@.len(),
            r.1 == next_token(self.tokens@, cur as nat).1,
            match next_token(self.tokens@, cur as nat).0 {
                Some(t) => r.0 == Ok::<Token, ParseError>(t),
                None => r.0 == Err::<Token, ParseError>(ParseError::UnexpectedEof),
            },
    {
        if cur >= self.tokens.len() {
            return (Err(ParseError::UnexpectedEof), cur);
        }
        let mut c = cur;
        loop
            invariant
                cur <= c <= self.tokens@.len(),
                next_token(self.tokens@, cur as nat) == next_token(self.tokens@, c as nat),
            decreases self.tokens@.len() - c,
        {
            if c >= self.tokens.len() {
                return (Err(ParseError::UnexpectedEof), c);
            }
            let token = self.tokens[c];
            match token {
                Token::NewLine => {
                    c = c + 1;
                },
                other => {
                    return (Ok(other), c + 1);
                },
            }
        }
    }

    /// A parser at the start of `tokens`.
    pub fn new(tokens: &'source [Token]) -> (r: Self)
        ensures
            r.spec_tokens() == tokens@,
            r.spec_cur() == 0,
    {
        Self { tokens, cur: 0 }
    }
}

/// The message for a parse error; a token in it is written as `token_text` gives it.
pub open spec fn parse_error_message(e: ParseError) -> Seq<char> {
    match e {
        ParseError::UnexpectedOpenCurly => "Unexpected \"{\""@,
        ParseError::StatementNotTerminated => "statement must be terminated by \";\" or newline"@,
        ParseError::WhileWithoutOpenBracket => "\"while\" must be followed by \"(\""@,
        ParseError::MissingCloseBracket => "bracket mismatch, not enough \")\""@,
        ParseError::WhileWithoutBody => "while must have loop content starts with \"{\""@,
        ParseError::MissingCloseCurlyBracket => "bracket mismatch, not enough \"}\""@,
        ParseError::PutWithoutOpenBracket => "\"put\" must be followed by \"(\""@,
        ParseError::GetWithoutOpenBracket => "\"get\" must be followed by \"(\""@,
        ParseError::UnexpectedEof => "Unexpected EOF"@,
        ParseError::UnexpectedToken(t) => "Unexpected token "@ + token_text(t),
        ParseError::ExpectedStatement(t) => "Expected statement, found "@ + token_text(t),
        ParseError::ExpectedVariable(t) => "expected variable, found "@ + token_text(t),
        ParseError::ExpectedVariableOrHead(t) => "expected variable or head, found "@ + token_text(t),
        ParseError::ExpectedAssignment(t) => "expected assignment, found "@ + token_text(t),
        ParseError::ExpectedNumberOrGet(t) => "expected number or get, found "@ + token_text(t),
    }
}

impl ParseError {
    /// The message shown for this error.
    pub fn message(&self) -> (r: String)
        ensures
            r@ == parse_error_message(*self),
    {
        match self {
            ParseError::UnexpectedOpenCurly => String::from_str("Unexpected \"{\""),
            ParseError::StatementNotTerminated => String::from_str("statement must be terminated by \";\" or newline"),
            ParseError::WhileWithoutOpenBracket => String::from_str("\"while\" must be followed by \"(\""),
            ParseError::MissingCloseBracket => String::from_str("bracket mismatch, not enough \")\""),
            ParseError::WhileWithoutBody => String::from_str("while must have loop content starts with \"{\""),
            ParseError::MissingCloseCurlyBracket => String::from_str("bracket mismatch, not enough \"}\""),
            ParseError::PutWithoutOpenBracket => String::from_str("\"put\" must be followed by \"(\""),
            ParseError::GetWithoutOpenBracket => String::from_str("\"get\" must be followed by \"(\""),
            ParseError::UnexpectedEof => String::from_str("Unexpected EOF"),
            ParseError::UnexpectedToken(t) => {
                let mut s = String::from_str("Unexpected token ");
                let tt = t.text();
                s.append(tt.as_str());
                s
            },
            ParseError::ExpectedStatement(t) => {
                let mut s = String::from_str("Expected statement, found ");
                let tt = t.text();
                s.append(tt.as_str());
                s
            },
            ParseError::ExpectedVariable(t) => {
                let mut s = String::from_str("expected variable, found ");
                let tt = t.text();
                s.append(tt.as_str());
                s
            },
            ParseError::ExpectedVariableOrHead(t) => {
                let mut s = String::from_str("expected variable or head, found ");
                let tt = t.text();
                s.append(tt.as_str());
                s
            },
            ParseError::ExpectedAssignment(t) => {
                let mut s = String::from_str("expected assignment, found ");
                let tt = t.text();
                s.append(tt.as_str());
                s
            },
            ParseError::ExpectedNumberOrGet(t) => {
                let mut s = String::from_str("expected number or get, found ");
                let tt = t.text();
                s.append(tt.as_str());
                s
            },
        }
    }
}

} // verus!
