use brain_massage::lex::{AssginToken, BracketToken, CurlyBracketToken, Token, VariableToken};
use brain_massage::parse::{
    AST, AssignNode, AssignNodeOperand, DynamicVariableNode, GetNode, HeadNode, LValueNode,
    NumberNode, ParseError, Parser, PutNode, RValueNode, StatementNode, StaticVariableNode,
    TopLevelNode, VariableNode, WhileNode,
};

#[test]
fn parse_succeed() -> Result<(), ParseError> {
    let test_tokens = [
        Token::Variable(VariableToken::Static { index: 0 }),
        Token::Assign(AssginToken::Simple),
        Token::Number { value: 128 },
        Token::NewLine,
        Token::Variable(VariableToken::Static { index: 1 }),
        Token::Assign(AssginToken::Add),
        Token::Number { value: 0x61 },
        Token::Semicolon,
        Token::Put,
        Token::Bracket(BracketToken::Open),
        Token::Variable(VariableToken::Static { index: 0x1 }),
        Token::Bracket(BracketToken::Close),
        Token::NewLine,
        Token::While,
        Token::Bracket(BracketToken::Open),
        Token::Variable(VariableToken::Dynamic),
        Token::Bracket(BracketToken::Close),
        Token::CurlyBracket(CurlyBracketToken::Open),
        Token::NewLine,
        Token::Variable(VariableToken::Dynamic),
        Token::Assign(AssginToken::Sub),
        Token::Number { value: 1 },
        Token::NewLine,
        Token::Head,
        Token::Assign(AssginToken::Add),
        Token::Number { value: 0 },
        Token::NewLine,
        Token::Variable(VariableToken::Dynamic),
        Token::Assign(AssginToken::Simple),
        Token::Get,
        Token::Bracket(BracketToken::Open),
        Token::Bracket(BracketToken::Close),
        Token::CurlyBracket(CurlyBracketToken::Close),
    ];

    let expected_ast = AST {
        root: vec![
            TopLevelNode::Statement(StatementNode::Assign(AssignNode::Simple(AssignNodeOperand {
                lvalue: LValueNode::Variable(VariableNode::Static(StaticVariableNode { index: 0 })),
                rvalue: RValueNode::Number(NumberNode { value: 128 }),
            }))),
            TopLevelNode::Statement(StatementNode::Assign(AssignNode::Add(AssignNodeOperand {
                lvalue: LValueNode::Variable(VariableNode::Static(StaticVariableNode { index: 1 })),
                rvalue: RValueNode::Number(NumberNode { value: 0x61 }),
            }))),
            TopLevelNode::Statement(StatementNode::Put(PutNode {
                character: VariableNode::Static(StaticVariableNode { index: 0x1 }),
            })),
            TopLevelNode::While(WhileNode {
                condition: VariableNode::Dynamic(DynamicVariableNode),
                content: vec![
                    TopLevelNode::Statement(StatementNode::Assign(AssignNode::Sub(
                        AssignNodeOperand {
                            lvalue: LValueNode::Variable(VariableNode::Dynamic(DynamicVariableNode)),
                            rvalue: RValueNode::Number(NumberNode { value: 1 }),
                        },
                    ))),
                    TopLevelNode::Statement(StatementNode::Assign(AssignNode::Add(
                        AssignNodeOperand {
                            lvalue: LValueNode::Head(HeadNode),
                            rvalue: RValueNode::Number(NumberNode { value: 0 }),
                        },
                    ))),
                    TopLevelNode::Statement(StatementNode::Assign(AssignNode::Simple(
                        AssignNodeOperand {
                            lvalue: LValueNode::Variable(VariableNode::Dynamic(DynamicVariableNode)),
                            rvalue: RValueNode::Get(GetNode),
                        },
                    ))),
                ],
            }),
        ],
    };
    let ast = Parser::new(&test_tokens).parse()?;
    assert_eq!(ast, expected_ast);

    Ok(())
}

fn stat(index: usize) -> Token {
    Token::Variable(VariableToken::Static { index })
}

fn parse_tokens(tokens: &[Token]) -> Result<AST, ParseError> {
    brain_massage::parse::parse(tokens)
}

#[test]
fn parse_empty_and_blank_programs() {
    assert_eq!(parse_tokens(&[]), Ok(AST { root: vec![] }));
    assert_eq!(
        parse_tokens(&[Token::NewLine, Token::Semicolon, Token::NewLine]),
        Ok(AST { root: vec![] })
    );
}

#[test]
fn parse_head_assignment_and_input() {
    let tokens = [
        Token::Head,
        Token::Assign(AssginToken::Add),
        Token::Number { value: 2 },
        Token::Semicolon,
        Token::Variable(VariableToken::Dynamic),
        Token::Assign(AssginToken::Sub),
        Token::Get,
        Token::Bracket(BracketToken::Open),
        Token::Bracket(BracketToken::Close),
    ];
    let expected = AST {
        root: vec![
            TopLevelNode::Statement(StatementNode::Assign(AssignNode::Add(AssignNodeOperand {
                lvalue: LValueNode::Head(HeadNode),
                rvalue: RValueNode::Number(NumberNode { value: 2 }),
            }))),
            TopLevelNode::Statement(StatementNode::Assign(AssignNode::Sub(AssignNodeOperand {
                lvalue: LValueNode::Variable(VariableNode::Dynamic(DynamicVariableNode)),
                rvalue: RValueNode::Get(GetNode),
            }))),
        ],
    };
    assert_eq!(parse_tokens(&tokens), Ok(expected));
}

#[test]
fn parse_stops_at_top_level_close_curly() {
    let tokens = [
        Token::Put,
        Token::Bracket(BracketToken::Open),
        stat(0),
        Token::Bracket(BracketToken::Close),
        Token::CurlyBracket(CurlyBracketToken::Close),
        Token::Put,
        Token::Bracket(BracketToken::Open),
        stat(1),
        Token::Bracket(BracketToken::Close),
    ];
    let expected = AST {
        root: vec![TopLevelNode::Statement(StatementNode::Put(PutNode {
            character: VariableNode::Static(StaticVariableNode { index: 0 }),
        }))],
    };
    assert_eq!(parse_tokens(&tokens), Ok(expected));
}

#[test]
fn parse_unexpected_open_curly() {
    assert_eq!(
        parse_tokens(&[Token::CurlyBracket(CurlyBracketToken::Open)]),
        Err(ParseError::UnexpectedOpenCurly)
    );
}

#[test]
fn parse_unexpected_token() {
    assert_eq!(
        parse_tokens(&[Token::Number { value: 1 }]),
        Err(ParseError::UnexpectedToken(Token::Number { value: 1 }))
    );
}

#[test]
fn parse_statement_not_terminated() {
    let tokens = [
        Token::Put,
        Token::Bracket(BracketToken::Open),
        stat(0),
        Token::Bracket(BracketToken::Close),
        stat(1),
    ];
    assert_eq!(parse_tokens(&tokens), Err(ParseError::StatementNotTerminated));
}

#[test]
fn parse_missing_close_bracket() {
    let tokens = [Token::Put, Token::Bracket(BracketToken::Open), stat(0), Token::Semicolon];
    assert_eq!(parse_tokens(&tokens), Err(ParseError::MissingCloseBracket));
}

#[test]
fn parse_unexpected_eof_in_loop_body() {
    let tokens = [
        Token::While,
        Token::Bracket(BracketToken::Open),
        stat(0),
        Token::Bracket(BracketToken::Close),
        Token::CurlyBracket(CurlyBracketToken::Open),
        Token::NewLine,
    ];
    assert_eq!(parse_tokens(&tokens), Err(ParseError::UnexpectedEof));
}

#[test]
fn parse_while_errors() {
    assert_eq!(
        parse_tokens(&[Token::While, stat(0)]),
        Err(ParseError::WhileWithoutOpenBracket)
    );
    let no_body = [
        Token::While,
        Token::Bracket(BracketToken::Open),
        stat(0),
        Token::Bracket(BracketToken::Close),
        Token::NewLine,
        Token::Put,
    ];
    assert_eq!(parse_tokens(&no_body), Err(ParseError::WhileWithoutBody));
}

#[test]
fn parse_put_and_get_errors() {
    assert_eq!(parse_tokens(&[Token::Put, stat(0)]), Err(ParseError::PutWithoutOpenBracket));
    assert_eq!(
        parse_tokens(&[Token::Put, Token::Bracket(BracketToken::Open), Token::Number { value: 3 }]),
        Err(ParseError::ExpectedVariable(Token::Number { value: 3 }))
    );
    assert_eq!(
        parse_tokens(&[stat(0), Token::Assign(AssginToken::Simple), Token::Get, stat(1)]),
        Err(ParseError::GetWithoutOpenBracket)
    );
}

#[test]
fn parse_assignment_errors() {
    assert_eq!(
        parse_tokens(&[stat(0), Token::Number { value: 1 }]),
        Err(ParseError::ExpectedAssignment(Token::Number { value: 1 }))
    );
    assert_eq!(
        parse_tokens(&[stat(0), Token::Assign(AssginToken::Simple), stat(1)]),
        Err(ParseError::ExpectedNumberOrGet(stat(1)))
    );
}

#[test]
fn parse_ignores_an_added_newline_anywhere() {
    let tokens = vec![
        stat(0),
        Token::Assign(AssginToken::Simple),
        Token::Number { value: 5 },
        Token::Semicolon,
        Token::While,
        Token::Bracket(BracketToken::Open),
        Token::Variable(VariableToken::Dynamic),
        Token::Bracket(BracketToken::Close),
        Token::CurlyBracket(CurlyBracketToken::Open),
        Token::Variable(VariableToken::Dynamic),
        Token::Assign(AssginToken::Sub),
        Token::Get,
        Token::Bracket(BracketToken::Open),
        Token::Bracket(BracketToken::Close),
        Token::CurlyBracket(CurlyBracketToken::Close),
        Token::Put,
        Token::Bracket(BracketToken::Open),
        stat(0),
        Token::Bracket(BracketToken::Close),
    ];
    assert!(parse_tokens(&tokens).is_ok());
    for i in 0..=tokens.len() {
        let mut with_newline = tokens.clone();
        with_newline.insert(i, Token::NewLine);
        assert_eq!(parse_tokens(&with_newline), Ok(expected_again(&tokens)));
    }
}

fn expected_again(tokens: &[Token]) -> AST {
    parse_tokens(tokens).unwrap()
}
