use brain_massage::lex::{
    AssginToken, BracketToken, CurlyBracketToken, LexError, LexFailure, Lexer, Token,
    VariableToken,
};

#[test]
fn lex_succeed() -> Result<(), LexError> {
    let test_code = "v0 = 128
v1 += 0x61; put(v0x1)
while (vhead) {
    tape[head] -= 1
    head += 0
}";
    let expected_tokens = vec![
        Token::Variable(VariableToken::Static { index: 0 }),
        Token::Assign(AssginToken::Simple),
        Token::Number { value: 128 },
        Token::NewLine,
        Token::Variable(VariableToken::Static { index: 1 }),
        Token::Assign(AssginToken::Add),
        Token::Number { value: 0x61 },
        Token::Semicolon,
        Token::Put,
        Token::Bracket(BracketToken::Open),
        Token::Variable(VariableToken::Static { index: 0x1 }),
        Token::Bracket(BracketToken::Close),
        Token::NewLine,
        Token::While,
        Token::Bracket(BracketToken::Open),
        Token::Variable(VariableToken::Dynamic),
        Token::Bracket(BracketToken::Close),
        Token::CurlyBracket(CurlyBracketToken::Open),
        Token::NewLine,
        Token::Variable(VariableToken::Dynamic),
        Token::Assign(AssginToken::Sub),
        Token::Number { value: 1 },
        Token::NewLine,
        Token::Head,
        Token::Assign(AssginToken::Add),
        Token::Number { value: 0 },
        Token::NewLine,
        Token::CurlyBracket(CurlyBracketToken::Close),
    ];

    assert_eq!(expected_tokens, Lexer::new().lex(test_code)?);

    Ok(())
}

#[test]
fn lex_of_illegal_code_fail() {
    let illegal_code = "hoge";
    assert!(Lexer::new().lex(illegal_code).is_err())
}

fn unknown_text(r: Result<Vec<Token>, LexError>) -> String {
    match r {
        Err(LexError::UnknownToken(s)) => s,
        Ok(v) => panic!("expected an unknown token, got {:?}", v),
    }
}

#[test]
fn lex_empty_code_gives_no_tokens() {
    assert_eq!(brain_massage::lex::lex("").unwrap(), vec![]);
}

#[test]
fn lex_hex_literal_and_tape_index() {
    let tokens = brain_massage::lex::lex("tape[0x10] = 0X1F").unwrap();
    assert_eq!(
        tokens,
        vec![
            Token::Variable(VariableToken::Static { index: 16 }),
            Token::Assign(AssginToken::Simple),
            Token::Number { value: 31 },
        ]
    );
}

#[test]
fn lex_dynamic_variable_spellings() {
    let tokens = Lexer::new().lex("tape[head] vhead").unwrap();
    assert_eq!(
        tokens,
        vec![
            Token::Variable(VariableToken::Dynamic),
            Token::Variable(VariableToken::Dynamic),
        ]
    );
}

#[test]
fn lex_each_line_break_character_is_a_token() {
    let tokens = Lexer::default().lex("put(v0)\r\n").unwrap();
    assert_eq!(
        tokens,
        vec![
            Token::Put,
            Token::Bracket(BracketToken::Open),
            Token::Variable(VariableToken::Static { index: 0 }),
            Token::Bracket(BracketToken::Close),
            Token::NewLine,
            Token::NewLine,
        ]
    );
}

#[test]
fn lex_double_equals_is_two_assignments() {
    let tokens = Lexer::new().lex("==").unwrap();
    assert_eq!(
        tokens,
        vec![Token::Assign(AssginToken::Simple), Token::Assign(AssginToken::Simple)]
    );
}

#[test]
fn lex_keyword_prefix_leaves_the_rest_unknown() {
    assert_eq!(unknown_text(Lexer::new().lex("puts")), "s");
}

#[test]
fn lex_unknown_token_text_ends_at_delimiter() {
    assert_eq!(unknown_text(Lexer::new().lex("v0 = 1 @x;")), "@x");
    assert_eq!(unknown_text(Lexer::new().lex("hoge")), "hoge");
}

#[test]
fn lex_checked_reports_number_too_large() {
    let r = Lexer::new().lex_checked("v0 = 99999999999999999999999");
    assert!(matches!(r, Err(LexFailure::Abort)));
}

#[test]
fn lex_checked_agrees_with_lex() {
    let r = Lexer::new().lex_checked("head += 0x2\n");
    match r {
        Ok(v) => assert_eq!(
            v,
            vec![
                Token::Head,
                Token::Assign(AssginToken::Add),
                Token::Number { value: 2 },
                Token::NewLine,
            ]
        ),
        Err(e) => panic!("unexpected failure {:?}", e),
    }
    let r = Lexer::new().lex_checked("x");
    assert!(matches!(r, Err(LexFailure::Error(LexError::UnknownToken(ref s))) if s == "x"));
}
