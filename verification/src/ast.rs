//! The reduced function-body grammar that the rewriter works on.
//!
//! A function definition is a name, an opaque parameter list and return type,
//! and a body: an ordered sequence of statements.  Statements and expressions
//! carry just enough structure for exit-point discovery — explicit `return`s,
//! the compound control-flow forms that are recursed into (`if`, `loop`,
//! `while`, `for`), and closure literals, which are opaque leaves.  Every
//! other expression is carried through as verbatim token text.
//!
//! The instrumentation statements that the rewriter synthesizes (capturing
//! the start time, building the [`crate::LogContext`], reporting it) are
//! first-class statement forms, so that contracts can pin down exactly where
//! they appear in a rewritten body.

use vstd::prelude::*;

verus! {

/// An expression of the reduced grammar.
#[derive(Debug, PartialEq, Eq)]
pub enum Expr {
    /// `return` or `return <e>`.
    Return(Option<Box<Expr>>),
    /// `if <cond> <then-block>` with an optional else branch, which is
    /// either a plain block ([`Expr::BlockExpr`]) or a further [`Expr::If`].
    If(Box<Expr>, Block, Option<Box<Expr>>),
    /// `loop <block>`.
    Loop(Block),
    /// `while <cond> <block>`.
    While(Box<Expr>, Block),
    /// `for <pattern> in <iterator> <block>`; the pattern is opaque text.
    For(String, Box<Expr>, Block),
    /// A closure literal `|<params>| <body>`: an opaque leaf.  The rewriter
    /// never descends into it, its parameter text and body are kept as they
    /// stand.
    Closure(String, Box<Expr>),
    /// A plain block expression `{ ... }`.
    BlockExpr(Block),
    /// `<e>.await`.
    Await(Box<Expr>),
    /// `async <block>`.
    AsyncBlock(Block),
    /// Any other expression, carried through as verbatim token text.
    Verbatim(String),
}

/// A block: an ordered sequence of statements.
#[derive(Debug, PartialEq, Eq)]
pub struct Block {
    pub stmts: Vec<Stmt>,
}

/// A statement of the reduced grammar.
#[derive(Debug, PartialEq, Eq)]
pub enum Stmt {
    /// `let <pattern> = <init>;` — the pattern is opaque text.
    Let(String, Expr),
    /// An expression statement with a terminating semicolon.
    Semi(Expr),
    /// A trailing expression: no terminating semicolon, its value escapes
    /// the enclosing block.
    Tail(Expr),
    /// Synthesized: `let start = std::time::Instant::now();`.
    CaptureStart,
    /// Synthesized: `let ctx = performance_mark::LogContext { function:
    /// <name literal>, duration: std::time::Instant::now()
    /// .duration_since(start) };` — the field holds the function name.
    BuildContext(String),
    /// Synthesized: `println!("(performance_mark) {} took {:?}",
    /// ctx.function, ctx.duration);`.
    PrintReport,
    /// Synthesized: `<callback>(ctx);` — the field holds the callback name.
    CallSync(String),
    /// Synthesized: `<callback>(ctx).await;` — the field holds the callback
    /// name.
    CallAwait(String),
}

/// A function definition: signature plus body.  The parameter list and the
/// return type take no part in the rewrite and are opaque token text; an
/// empty return type stands for none.
#[derive(Debug, PartialEq, Eq)]
pub struct FnDef {
    pub name: String,
    pub is_async: bool,
    pub params: String,
    pub ret: String,
    pub body: Block,
}

/// An item handed to the transformation: either a function definition or
/// anything else, carried as opaque token text.  Only functions are
/// rewritten.
#[derive(Debug, PartialEq, Eq)]
pub enum Item {
    Function(FnDef),
    Other(String),
}

/// The compound control-flow forms whose trailing position is recursed into
/// rather than wrapped whole.
pub open spec fn is_compound(e: Expr) -> bool {
    match e {
        Expr::If(..) => true,
        Expr::Loop(..) => true,
        Expr::While(..) => true,
        Expr::For(..) => true,
        _ => false,
    }
}

} // verus!
