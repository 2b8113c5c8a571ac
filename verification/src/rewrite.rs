//! The exit-point rewriter.
//!
//! Given a function definition and a parsed [`Config`], the rewriter
//! produces a new definition whose body (1) starts with a start-time
//! capture, (2) has every exit point — explicit `return` statements and
//! trailing expressions, including those nested in `if`/`loop`/`while`/`for`
//! but never those inside closure literals — wrapped so that the epilogue
//! (building a context record and reporting it) runs immediately before the
//! exit value escapes, and (3) ends with one more copy of the epilogue, for
//! bodies whose last statement is not a trailing expression (an implicit
//! return of nothing).
//!
//! In synchronous mode a wrap is a plain block `{ <epilogue> <original
//! exit> }`; in asynchronous mode it is `async { <epilogue> <original
//! exit> }.await`, so the epilogue's own suspension completes before the
//! wrapped exit value is produced.

use vstd::prelude::*;

use crate::ast::{Block, Expr, FnDef, Item, Stmt};
use crate::config::{AttrToken, Config, ConfigError, parse_config, spec_parse_config};

verus! {

/// An error of the whole transformation: the attribute tokens do not match
/// the configuration grammar, or the annotated item is not a function
/// definition.  Both are compile-time diagnostics; no code is emitted.
#[derive(Debug, PartialEq, Eq)]
pub enum MarkError {
    Configuration(ConfigError),
    Usage,
}

/// The synthesized epilogue statement sequence: build the context record,
/// then report it — through the configured callback (awaited in
/// asynchronous mode), or by the default console print when no callback is
/// configured.
pub open spec fn is_epilogue(s: Seq<Stmt>, cfg: Config, fname: String) -> bool {
    &&& s.len() == 2
    &&& (s[0] matches Stmt::BuildContext(n) && n == fname)
    &&& match cfg.callback {
        Some(cb) => {
            if cfg.is_async {
                s[1] matches Stmt::CallAwait(c) && c == cb
            } else {
                s[1] matches Stmt::CallSync(c) && c == cb
            }
        },
        None => s[1] == Stmt::PrintReport,
    }
}

/// The statements of a wrap: the epilogue, then the original exit
/// statement, unchanged.
pub open spec fn wrap_body_ok(b: Block, orig: Stmt, cfg: Config, fname: String) -> bool {
    &&& b.stmts@.len() == 3
    &&& is_epilogue(b.stmts@.subrange(0, 2), cfg, fname)
    &&& b.stmts@[2] == orig
}

/// A wrapped exit site: a block expression in synchronous mode, an awaited
/// `async` block in asynchronous mode, running the epilogue before the
/// original exit statement takes effect.
pub open spec fn is_wrap(w: Expr, orig: Stmt, cfg: Config, fname: String) -> bool {
    if cfg.is_async {
        w matches Expr::Await(inner) && (*inner matches Expr::AsyncBlock(b) && wrap_body_ok(
            b,
            orig,
            cfg,
            fname,
        ))
    } else {
        w matches Expr::BlockExpr(b) && wrap_body_ok(b, orig, cfg, fname)
    }
}

/// How one statement is rewritten.
///
/// - An explicit `return` statement has its contained expression replaced
///   by a wrap that embeds the whole original statement; nothing below it
///   is visited.  A trailing `return` is consumed by this rule, not by the
///   trailing-expression rule.
/// - A trailing compound control-flow form (`if`, `loop`, `while`, `for`)
///   is recursed into rather than wrapped whole.
/// - Any other trailing expression is wrapped whole.
/// - Every other statement — bindings, terminated expression statements,
///   and in particular any closure literal, wherever it stands — is left
///   unchanged.
pub open spec fn rewritten_stmt(s: Stmt, r: Stmt, cfg: Config, fname: String) -> bool
    decreases s, 0int,
{
    match s {
        Stmt::Tail(e) => match e {
            Expr::Return(_) => r matches Stmt::Tail(Expr::Return(Some(w))) && is_wrap(
                *w,
                s,
                cfg,
                fname,
            ),
            Expr::If(..) | Expr::Loop(..) | Expr::While(..) | Expr::For(..) => r matches Stmt::Tail(
                e2,
            ) && rewritten_compound(e, e2, cfg, fname),
            _ => r matches Stmt::Tail(w) && is_wrap(w, s, cfg, fname),
        },
        Stmt::Semi(e) => match e {
            Expr::Return(_) => r matches Stmt::Semi(Expr::Return(Some(w))) && is_wrap(
                *w,
                s,
                cfg,
                fname,
            ),
            _ => r == s,
        },
        _ => r == s,
    }
}

/// How a trailing compound control-flow form is rewritten: it stays in
/// place, with the same condition (or loop header), and only its blocks are
/// rewritten.
pub open spec fn rewritten_compound(e: Expr, r: Expr, cfg: Config, fname: String) -> bool
    decreases e, 0int,
{
    match e {
        Expr::If(c, t, els) => r matches Expr::If(c2, t2, els2) && (*c2 == *c && rewritten_block(
            t,
            t2,
            cfg,
            fname,
        ) && rewritten_else_opt(els, els2, cfg, fname)),
        Expr::Loop(b) => r matches Expr::Loop(b2) && rewritten_block(b, b2, cfg, fname),
        Expr::While(c, b) => r matches Expr::While(c2, b2) && (*c2 == *c && rewritten_block(
            b,
            b2,
            cfg,
            fname,
        )),
        Expr::For(p, it, b) => r matches Expr::For(p2, it2, b2) && (p2 == p && *it2 == *it
            && rewritten_block(b, b2, cfg, fname)),
        _ => false,
    }
}

/// How an else branch is rewritten: a further `else if` is recursed into as
/// a compound form, a plain else block has its statements rewritten,
/// anything else is left unchanged.
pub open spec fn rewritten_else_opt(
    o: Option<Box<Expr>>,
    r: Option<Box<Expr>>,
    cfg: Config,
    fname: String,
) -> bool
    decreases o, 2int,
{
    match o {
        None => r is None,
        Some(e) => r matches Some(e2) && rewritten_else(*e, *e2, cfg, fname),
    }
}

/// See [`rewritten_else_opt`].
pub open spec fn rewritten_else(e: Expr, r: Expr, cfg: Config, fname: String) -> bool
    decreases e, 1int,
{
    match e {
        Expr::If(..) => rewritten_compound(e, r, cfg, fname),
        Expr::BlockExpr(b) => r matches Expr::BlockExpr(b2) && rewritten_block(b, b2, cfg, fname),
        _ => r == e,
    }
}

/// How a block is rewritten: statement for statement, in place.
pub open spec fn rewritten_block(b: Block, r: Block, cfg: Config, fname: String) -> bool
    decreases b, 0int,
{
    &&& r.stmts@.len() == b.stmts@.len()
    &&& forall|i: int|
        0 <= i < b.stmts@.len() ==> rewritten_stmt(
            #[trigger] b.stmts@[i],
            r.stmts@[i],
            cfg,
            fname,
        )
}

/// How a whole function definition is rewritten: the signature is kept; the
/// new body is the start-time capture, then the original statements
/// rewritten in place, then one final copy of the epilogue.
pub open spec fn rewritten_fn(f: FnDef, r: FnDef, cfg: Config) -> bool {
    let n = f.body.stmts@.len() as int;
    &&& r.name == f.name
    &&& r.is_async == f.is_async
    &&& r.params == f.params
    &&& r.ret == f.ret
    &&& r.body.stmts@.len() == n + 3
    &&& r.body.stmts@[0] == Stmt::CaptureStart
    &&& forall|i: int|
        0 <= i < n ==> rewritten_stmt(#[trigger] f.body.stmts@[i], r.body.stmts@[i + 1], cfg, f.name)
    &&& is_epilogue(r.body.stmts@.subrange(n + 1, n + 3), cfg, f.name)
}

/// Synthesize the epilogue for this configuration and function name.
fn build_epilogue(cfg: &Config, fname: &String) -> (r: Vec<Stmt>)
    ensures
        is_epilogue(r@, *cfg, *fname),
{
    let mut r: Vec<Stmt> = Vec::new();
    r.push(Stmt::BuildContext(fname.clone()));
    match &cfg.callback {
        Some(cb) => {
            if cfg.is_async {
                r.push(Stmt::CallAwait(cb.clone()));
            } else {
                r.push(Stmt::CallSync(cb.clone()));
            }
        },
        None => {
            r.push(Stmt::PrintReport);
        },
    }
    r
}

/// Wrap one original exit statement: the epilogue runs first, then the
/// original statement takes effect.
fn make_wrap(cfg: &Config, fname: &String, orig: Stmt) -> (w: Expr)
    ensures
        is_wrap(w, orig, *cfg, *fname),
{
    let mut stmts = build_epilogue(cfg, fname);
    let ghost epi = stmts@;
    stmts.push(orig);
    proof {
        assert(stmts@.subrange(0, 2) =~= epi);
    }
    let b = Block { stmts };
    if cfg.is_async {
        Expr::Await(Box::new(Expr::AsyncBlock(b)))
    } else {
        Expr::BlockExpr(b)
    }
}

/// Rewrite one statement; see [`rewritten_stmt`].
fn rewrite_stmt(s: Stmt, cfg: &Config, fname: &String) -> (r: Stmt)
    ensures
        rewritten_stmt(s, r, *cfg, *fname),
    decreases s,
{
    match s {
        Stmt::Tail(e) => match e {
            Expr::Return(inner) => {
                let orig = Stmt::Tail(Expr::Return(inner));
                let w = make_wrap(cfg, fname, orig);
                Stmt::Tail(Expr::Return(Some(Box::new(w))))
            },
            Expr::If(c, t, els) => {
                let t2 = rewrite_block(t, cfg, fname);
                let els2 = match els {
                    None => None,
                    Some(bx) => Some(Box::new(rewrite_else(*bx, cfg, fname))),
                };
                Stmt::Tail(Expr::If(c, t2, els2))
            },
            Expr::Loop(b) => Stmt::Tail(Expr::Loop(rewrite_block(b, cfg, fname))),
            Expr::While(c, b) => Stmt::Tail(Expr::While(c, rewrite_block(b, cfg, fname))),
            Expr::For(p, it, b) => Stmt::Tail(Expr::For(p, it, rewrite_block(b, cfg, fname))),
            other => {
                let orig = Stmt::Tail(other);
                let w = make_wrap(cfg, fname, orig);
                Stmt::Tail(w)
            },
        },
        Stmt::Semi(e) => match e {
            Expr::Return(inner) => {
                let orig = Stmt::Semi(Expr::Return(inner));
                let w = make_wrap(cfg, fname, orig);
                Stmt::Semi(Expr::Return(Some(Box::new(w))))
            },
            other => Stmt::Semi(other),
        },
        other => other,
    }
}

/// Rewrite an else branch; see [`rewritten_else`].
fn rewrite_else(e: Expr, cfg: &Config, fname: &String) -> (r: Expr)
    ensures
        rewritten_else(e, r, *cfg, *fname),
    decreases e,
{
    match e {
        Expr::If(c, t, els) => {
            let t2 = rewrite_block(t, cfg, fname);
            let els2 = match els {
                None => None,
                Some(bx) => Some(Box::new(rewrite_else(*bx, cfg, fname))),
            };
            Expr::If(c, t2, els2)
        },
        Expr::BlockExpr(b) => Expr::BlockExpr(rewrite_block(b, cfg, fname)),
        other => other,
    }
}

/// Rewrite every statement of a block, in place.
fn rewrite_block(b: Block, cfg: &Config, fname: &String) -> (r: Block)
    ensures
        rewritten_block(b, r, *cfg, *fname),
    decreases b,
{
    let ghost b0 = b;
    let mut stmts = b.stmts;
    let ghost orig = stmts@;
    let mut out: Vec<Stmt> = Vec::new();
    #[verifier::loop_isolation(false)]
    while stmts.len() > 0
        invariant
            orig.len() == out@.len() + stmts@.len(),
            stmts@ =~= orig.subrange(out@.len() as int, orig.len() as int),
            forall|j: int|
                0 <= j < out@.len() ==> rewritten_stmt(#[trigger] orig[j], out@[j], *cfg, *fname),
            orig == b0.stmts@,
        decreases stmts@.len(),
    {
        let ghost k = out@.len() as int;
        let s = stmts.remove(0);
        proof {
            assert(s == orig[k]);
            assert(decreases_to!(b0 => s));
            assert(stmts@ =~= orig.subrange(k + 1, orig.len() as int));
        }
        let r = rewrite_stmt(s, cfg, fname);
        out.push(r);
    }
    Block { stmts: out }
}

/// Rewrite a function definition under a parsed configuration: capture the
/// start time first, run the epilogue just before every exit, and once more
/// at the very end of the body.
pub fn rewrite(f: FnDef, cfg: &Config) -> (r: FnDef)
    ensures
        rewritten_fn(f, r, *cfg),
{
    let ghost f0 = f;
    let FnDef { name, is_async, params, ret, body } = f;
    let rb = rewrite_block(body, cfg, &name);
    let mut stmts: Vec<Stmt> = Vec::new();
    stmts.push(Stmt::CaptureStart);
    let mut mid = rb.stmts;
    let ghost midv = mid@;
    stmts.append(&mut mid);
    let mut epi = build_epilogue(cfg, &name);
    let ghost epiv = epi@;
    stmts.append(&mut epi);
    proof {
        let n = f0.body.stmts@.len() as int;
        assert(stmts@ =~= seq![Stmt::CaptureStart] + midv + epiv);
        assert(forall|i: int| 0 <= i < n ==> stmts@[i + 1] == midv[i]);
        assert(stmts@.subrange(n + 1, n + 3) =~= epiv);
    }
    FnDef { name, is_async, params, ret, body: Block { stmts } }
}

/// The whole transformation, as the attribute macro performs it: reject
/// anything that is not a function definition, parse the attribute tokens,
/// and rewrite the function.  The item is examined first, so a malformed
/// attribute on a non-function item is a usage error, not a configuration
/// error.
pub fn performance_mark(attr: Vec<AttrToken>, item: Item) -> (r: Result<FnDef, MarkError>)
    ensures
        match item {
            Item::Other(_) => r matches Err(MarkError::Usage),
            Item::Function(f) => match spec_parse_config(attr@, 0, None::<String>, false) {
                Ok(c) => r matches Ok(out) && rewritten_fn(f, out, c),
                Err(i) => r matches Err(MarkError::Configuration(e)) && e.index as int == i,
            },
        },
{
    let f = match item {
        Item::Function(f) => f,
        Item::Other(_) => {
            return Err(MarkError::Usage);
        },
    };
    let cfg = match parse_config(&attr) {
        Ok(c) => c,
        Err(e) => {
            return Err(MarkError::Configuration(e));
        },
    };
    Ok(rewrite(f, &cfg))
}

} // verus!
