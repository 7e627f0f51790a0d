//! Syntax analysis: tokens to a syntax tree.
use vstd::prelude::*;

pub mod ast;
pub mod parser;
pub mod properties;

pub use ast::{
    AST, AssignNode, AssignNodeOperand, DynamicVariableNode, GetNode, HeadNode, LValueNode,
    NodeModel, NumberNode, PutNode, RValueNode, StatementNode, StaticVariableNode, TopLevelNode,
    VariableNode, WhileNode,
};
pub use parser::{ParseError, Parser, spec_parse};

use crate::lex::Token;

verus! {

/// Parses all of `tokens` with a fresh `Parser`.
pub fn parse(tokens: &[Token]) -> (r: Result<AST, ParseError>)
    ensures
        match spec_parse(tokens@) {
            Ok(nodes) => r matches Ok(ast) && ast@ == nodes,
            Err(e) => r == Err::<AST, ParseError>(e),
        },
{
    Parser::new(tokens).parse()
}

} // verus!
