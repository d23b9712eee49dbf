//! The generic syntax tree that the front-end hands to the program extractor.
//!
//! It keeps only the node kinds that the extractor tells apart; every other
//! kind of node is represented by an `Other` variant.
use vstd::prelude::*;

verus! {

/// An expression of the C-like language.
#[derive(Debug, PartialEq)]
pub enum SyntaxExpr {
    /// A bare identifier.
    Identifier(String),
    /// A function call; the callee expression, arguments are not kept.
    Call(Box<SyntaxExpr>),
    /// A binary operation; the flag is set for the logical-and operator.
    Binary(bool, Box<SyntaxExpr>, Box<SyntaxExpr>),
    /// Any other expression.
    Other,
}

/// A statement of the C-like language.
#[derive(Debug, PartialEq)]
pub enum SyntaxStmt {
    /// A braced block of items.
    Compound(Vec<SyntaxItem>),
    /// An expression statement, possibly empty (`;`).
    Expression(Option<SyntaxExpr>),
    /// `if (condition) then_branch else else_branch`.
    If(SyntaxExpr, Box<SyntaxStmt>, Option<Box<SyntaxStmt>>),
    /// `while (condition) body`.
    While(SyntaxExpr, Box<SyntaxStmt>),
    /// `goto label;`.
    Goto,
    /// `break;`.
    Break,
    /// `return;` or `return value;`.
    Return,
    /// Any other statement.
    Other,
}

/// An item of a compound statement.
#[derive(Debug, PartialEq)]
pub enum SyntaxItem {
    Statement(SyntaxStmt),
    /// A declaration or another non-statement item.
    Declaration,
}

/// A top-level item of a translation unit.
#[derive(Debug, PartialEq)]
pub enum SyntaxDecl {
    /// A function definition: its name when the declarator is a plain
    /// identifier, and its body.
    Function(Option<String>, SyntaxStmt),
    /// Any other top-level item.
    Other,
}

/// A whole parsed source text.
#[derive(Debug, PartialEq)]
pub struct SyntaxUnit {
    pub items: Vec<SyntaxDecl>,
}

} // verus!
