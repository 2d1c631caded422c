//! Abstract syntax trees for the language. The grammar-level parser that
//! builds these is still a placeholder; only the shapes are fixed.
use vstd::prelude::*;

use crate::ast::span::Span;

pub mod span;

verus! {

/// A whole source file.
#[derive(Debug)]
pub struct File {
    pub shebang: Option<String>,
    pub items: Vec<Item>,
    pub span: Span,
}

/// A top-level item.
#[derive(Debug)]
pub struct Item {
    pub kind: ItemKind,
    pub span: Span,
    pub ident: Ident,
    pub visibility: Visibility,
}

#[derive(Debug)]
pub enum ItemKind {
    Fn(Box<ItemFn>),
    Use(ItemUse),
}

#[derive(Debug, Clone)]
pub struct Attribute {
    pub span: Span,
}

pub type Attrs = Vec<Attribute>;

#[derive(Debug, Clone)]
pub enum Visibility {
    Inherited,
    Restricted { span: Span },
    Public { span: Span },
}

/// An identifier together with the span it was scanned from.
#[derive(Debug, Clone)]
pub struct Ident {
    pub name: String,
    pub span: Span,
}

/// An import item, `using kai.io` and the like.
#[derive(Debug)]
pub struct ItemUse {
    pub attrs: Attrs,
    pub path: UseTree,
    pub visibility: Visibility,
    pub span: Span,
}

#[derive(Debug)]
pub struct Stmt {
    pub span: Span,
    pub kind: StmtKind,
}

#[derive(Debug)]
pub enum StmtKind {
    /// A let binding.
    Let,
    /// Any item in statement position.
    Item(Box<Item>),
    /// An expression without a trailing semicolon.
    Expr(Box<Expr>),
    /// An expression with a trailing semicolon.
    Semi(Box<Expr>),
    /// A bare semicolon.
    Empty,
}

#[derive(Debug, Clone)]
pub struct Expr {
    pub span: Span,
    pub kind: ExprKind,
}

/// Expression shapes; the grammar work has not reached expressions yet.
#[derive(Debug, Clone)]
pub enum ExprKind {
    Todo,
}

#[derive(Debug)]
pub struct Block {
    pub span: Span,
    pub stmts: Vec<Stmt>,
}

/// Pattern shapes; the grammar work has not reached patterns yet.
#[derive(Debug, Clone)]
pub enum PatternKind {
    Todo,
}

#[derive(Debug, Clone)]
pub struct Pattern {
    pub kind: PatternKind,
    pub span: Span,
}

/// A dotted path of identifiers.
#[derive(Debug, Clone)]
pub struct Path {
    pub segments: Vec<Ident>,
    pub span: Span,
}

#[derive(Debug)]
pub struct UseTree {
    pub prefix: Path,
    pub span: Span,
    pub kind: UseTreeKind,
}

#[derive(Debug)]
pub enum UseTreeKind {
    /// `using kai.json` or `using kai.json as kai_json`.
    Simple(Option<Ident>),
    /// `using kai.io.{debug, print}`.
    Group { items: Vec<UseTree>, span: Span },
    /// `using kai.io.*`.
    Glob,
}

/// A function parameter.
#[derive(Debug, Clone)]
pub struct Param {
    pub attrs: Attrs,
    pub pat: Pattern,
    pub span: Span,
}

/// A function item.
#[derive(Debug)]
pub struct ItemFn {
    pub attrs: Attrs,
    pub ident: Ident,
    pub inputs: Vec<Param>,
    pub body: Option<Box<Block>>,
}

} // verus!
