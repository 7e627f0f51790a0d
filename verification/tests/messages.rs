use brain_massage::compile::CompileError;
use brain_massage::lex::{
    AssginToken, BracketToken, CurlyBracketToken, LexError, Token, VariableToken,
};
use brain_massage::parse::ParseError;
use brain_massage::sem::SemError;
use brain_massage::transpile::TranspileError;

#[test]
fn token_text_is_debug_text() {
    let tokens = [
        Token::Number { value: 0 },
        Token::Number { value: 128 },
        Token::Number { value: usize::MAX },
        Token::Variable(VariableToken::Static { index: 0x61 }),
        Token::Variable(VariableToken::Dynamic),
        Token::Head,
        Token::Assign(AssginToken::Simple),
        Token::Assign(AssginToken::Add),
        Token::Assign(AssginToken::Sub),
        Token::Bracket(BracketToken::Open),
        Token::Bracket(BracketToken::Close),
        Token::CurlyBracket(CurlyBracketToken::Open),
        Token::CurlyBracket(CurlyBracketToken::Close),
        Token::While,
        Token::Put,
        Token::Get,
        Token::Semicolon,
        Token::NewLine,
    ];
    for t in tokens {
        assert_eq!(t.text(), format!("{:?}", t));
    }
}

#[test]
fn lex_error_message_quotes_the_text() {
    assert_eq!(LexError::UnknownToken("hoge".to_string()).message(), "Unknown token \"hoge\"");
}

#[test]
fn parse_error_messages() {
    assert_eq!(
        ParseError::UnexpectedToken(Token::Number { value: 128 }).message(),
        "Unexpected token Number { value: 128 }"
    );
    assert_eq!(
        ParseError::ExpectedVariable(Token::Put).message(),
        "expected variable, found Put"
    );
    assert_eq!(
        ParseError::ExpectedNumberOrGet(Token::Variable(VariableToken::Static { index: 3 }))
            .message(),
        "expected number or get, found Variable(Static { index: 3 })"
    );
    assert_eq!(ParseError::UnexpectedOpenCurly.message(), "Unexpected \"{\"");
    assert_eq!(
        ParseError::StatementNotTerminated.message(),
        "statement must be terminated by \";\" or newline"
    );
    assert_eq!(
        ParseError::WhileWithoutBody.message(),
        "while must have loop content starts with \"{\""
    );
    assert_eq!(
        ParseError::MissingCloseCurlyBracket.message(),
        "bracket mismatch, not enough \"}\""
    );
    assert_eq!(ParseError::UnexpectedEof.message(), "Unexpected EOF");
}

#[test]
fn sem_error_messages() {
    assert_eq!(
        SemError::StaticVariableAfterHeadMove.message(),
        "Cannot use static variable after moving head in while"
    );
    assert_eq!(SemError::InputToHead.message(), "Cannot assign user's input to head");
    assert_eq!(SemError::AddInput.message(), "Cannot add user's input");
    assert_eq!(SemError::SubInput.message(), "Cannot subtract user's input");
    assert_eq!(SemError::TooManyStaticVariables.message(), "Too many static variables");
}

#[test]
fn transpile_and_compile_error_messages() {
    assert_eq!(TranspileError::InputToHead.message(), "Cannot add user's input");
    assert_eq!(
        TranspileError::BrokenVarMap.message(),
        "Illegal semantic info: Variable mapping is broken"
    );
    assert_eq!(
        CompileError::InvalidCompression.message(),
        "variable compression is applied invalidly"
    );
}
