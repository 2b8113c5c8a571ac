//! The laws the rewriter obeys.
//!
//! The counters here measure a body syntactically: [`exits_block`] counts
//! the exit sites the rewriter discovers (explicit `return` statements and
//! wrappable trailing expressions, through compound control-flow forms but
//! never inside closures, bindings or terminated statements), and
//! [`bc_block`] counts the context-construction statements — one per
//! synthesized epilogue — anywhere in a body.  The central law: rewriting a
//! body that carries no instrumentation yet yields a body with exactly one
//! epilogue per exit site, plus the single copy appended at the very end.

use vstd::multiset::Multiset;
use vstd::prelude::*;

use crate::ast::{Block, Expr, FnDef, Stmt, is_compound};
use crate::config::Config;
use crate::rewrite::{
    is_epilogue, is_wrap, rewritten_block, rewritten_compound, rewritten_else, rewritten_else_opt,
    rewritten_fn, rewritten_stmt, wrap_body_ok,
};

verus! {

/// How many context-construction statements ([`Stmt::BuildContext`]) a
/// statement holds, anywhere below it.
pub open spec fn bc_stmt(s: Stmt) -> nat
    decreases s,
{
    match s {
        Stmt::Let(_, e) => bc_expr(e),
        Stmt::Semi(e) => bc_expr(e),
        Stmt::Tail(e) => bc_expr(e),
        Stmt::BuildContext(_) => 1,
        _ => 0,
    }
}

/// See [`bc_stmt`].
pub open spec fn bc_expr(e: Expr) -> nat
    decreases e,
{
    match e {
        Expr::Return(None) => 0,
        Expr::Return(Some(i)) => bc_expr(*i),
        Expr::If(c, t, els) => bc_expr(*c) + bc_block(t) + bc_opt(els),
        Expr::Loop(b) => bc_block(b),
        Expr::While(c, b) => bc_expr(*c) + bc_block(b),
        Expr::For(_, it, b) => bc_expr(*it) + bc_block(b),
        Expr::Closure(_, body) => bc_expr(*body),
        Expr::BlockExpr(b) => bc_block(b),
        Expr::Await(i) => bc_expr(*i),
        Expr::AsyncBlock(b) => bc_block(b),
        Expr::Verbatim(_) => 0,
    }
}

/// See [`bc_stmt`].
pub open spec fn bc_opt(o: Option<Box<Expr>>) -> nat
    decreases o,
{
    match o {
        None => 0,
        Some(e) => bc_expr(*e),
    }
}

/// See [`bc_stmt`].
pub open spec fn bc_seq(ss: Seq<Stmt>) -> nat
    decreases ss,
{
    if ss.len() == 0 {
        0
    } else {
        bc_stmt(ss[0]) + bc_seq(ss.subrange(1, ss.len() as int))
    }
}

/// See [`bc_stmt`].
pub open spec fn bc_block(b: Block) -> nat
    decreases b,
{
    bc_seq(b.stmts@)
}

/// How many exit sites the rewriter discovers in a statement: an explicit
/// `return` (trailing or terminated) is one; a trailing compound form
/// contributes the exit sites of its blocks; any other trailing expression
/// is one; nothing else contributes — in particular, nothing under a
/// binding, a terminated statement or a closure literal.
pub open spec fn exits_stmt(s: Stmt) -> nat
    decreases s,
{
    match s {
        Stmt::Tail(e) => match e {
            Expr::Return(_) => 1,
            Expr::If(_, t, els) => exits_block(t) + exits_opt(els),
            Expr::Loop(b) => exits_block(b),
            Expr::While(_, b) => exits_block(b),
            Expr::For(_, _, b) => exits_block(b),
            _ => 1,
        },
        Stmt::Semi(e) => match e {
            Expr::Return(_) => 1,
            _ => 0,
        },
        _ => 0,
    }
}

/// See [`exits_stmt`].
pub open spec fn exits_opt(o: Option<Box<Expr>>) -> nat
    decreases o,
{
    match o {
        None => 0,
        Some(e) => exits_else(*e),
    }
}

/// See [`exits_stmt`]: an else branch that is a further `else if`
/// contributes the exits of its blocks, a plain else block those of its
/// statements.
pub open spec fn exits_else(e: Expr) -> nat
    decreases e,
{
    match e {
        Expr::If(_, t, els) => exits_block(t) + exits_opt(els),
        Expr::BlockExpr(b) => exits_block(b),
        _ => 0,
    }
}

/// See [`exits_stmt`].
pub open spec fn exits_seq(ss: Seq<Stmt>) -> nat
    decreases ss,
{
    if ss.len() == 0 {
        0
    } else {
        exits_stmt(ss[0]) + exits_seq(ss.subrange(1, ss.len() as int))
    }
}

/// See [`exits_stmt`].
pub open spec fn exits_block(b: Block) -> nat
    decreases b,
{
    exits_seq(b.stmts@)
}

/// An epilogue holds exactly one context-construction statement.
proof fn lemma_bc_epilogue(ss: Seq<Stmt>, cfg: Config, fname: String)
    requires
        is_epilogue(ss, cfg, fname),
    ensures
        bc_seq(ss) == 1,
{
    assert(bc_seq(ss) == bc_stmt(ss[0]) + bc_seq(ss.subrange(1, 2)));
    assert(bc_seq(ss.subrange(1, 2)) == bc_stmt(ss[1]) + bc_seq(ss.subrange(1, 2).subrange(1, 1)))
        by {
        assert(ss.subrange(1, 2)[0] == ss[1]);
    }
    assert(ss.subrange(1, 2).subrange(1, 1) =~= Seq::<Stmt>::empty());
    assert(bc_stmt(ss[0]) == 1);
    assert(bc_stmt(ss[1]) == 0);
}

/// A wrap around an uninstrumented exit statement holds exactly one
/// context-construction statement: the one of its epilogue.
proof fn lemma_bc_wrap(w: Expr, orig: Stmt, cfg: Config, fname: String)
    requires
        is_wrap(w, orig, cfg, fname),
        bc_stmt(orig) == 0,
    ensures
        bc_expr(w) == 1,
{
    match w {
        Expr::Await(inner) => {
            match *inner {
                Expr::AsyncBlock(b) => {
                    lemma_bc_wrap_body(b, orig, cfg, fname);
                    assert(*inner == Expr::AsyncBlock(b));
                    assert(bc_expr(*inner) == bc_block(b));
                    assert(bc_expr(w) == bc_expr(*inner));
                },
                _ => {
                    assert(false);
                },
            }
        },
        Expr::BlockExpr(b) => {
            lemma_bc_wrap_body(b, orig, cfg, fname);
        },
        _ => {
            assert(false);
        },
    }
}

/// The statements of a wrap hold exactly one context-construction
/// statement: the one of the epilogue.
proof fn lemma_bc_wrap_body(b: Block, orig: Stmt, cfg: Config, fname: String)
    requires
        wrap_body_ok(b, orig, cfg, fname),
        bc_stmt(orig) == 0,
    ensures
        bc_block(b) == 1,
{
    let ss = b.stmts@;
    assert(ss.subrange(0, 2)[0] == ss[0]);
    assert(ss.subrange(0, 2)[1] == ss[1]);
    assert(bc_stmt(ss[0]) == 1);
    assert(bc_stmt(ss[1]) == 0);
    assert(bc_stmt(ss[2]) == 0);
    assert(bc_seq(ss) == bc_stmt(ss[0]) + bc_seq(ss.subrange(1, 3)));
    let t1 = ss.subrange(1, 3);
    assert(bc_seq(t1) == bc_stmt(ss[1]) + bc_seq(t1.subrange(1, 2))) by {
        assert(t1[0] == ss[1]);
    }
    let t2 = t1.subrange(1, 2);
    assert(bc_seq(t2) == bc_stmt(ss[2]) + bc_seq(t2.subrange(1, 1))) by {
        assert(t2[0] == ss[2]);
    }
    assert(t2.subrange(1, 1) =~= Seq::<Stmt>::empty());
    assert(bc_seq(Seq::<Stmt>::empty()) == 0);
}

proof fn lemma_bc_stmt(s: Stmt, r: Stmt, cfg: Config, fname: String)
    requires
        rewritten_stmt(s, r, cfg, fname),
        bc_stmt(s) == 0,
    ensures
        bc_stmt(r) == exits_stmt(s),
    decreases s, 0int,
{
    match s {
        Stmt::Tail(e) => match e {
            Expr::Return(_) => {
                match r {
                    Stmt::Tail(Expr::Return(Some(w))) => {
                        lemma_bc_wrap(*w, s, cfg, fname);
                    },
                    _ => {
                        assert(false);
                    },
                }
            },
            Expr::If(..) | Expr::Loop(..) | Expr::While(..) | Expr::For(..) => {
                match r {
                    Stmt::Tail(e2) => {
                        lemma_bc_compound(e, e2, cfg, fname);
                    },
                    _ => {
                        assert(false);
                    },
                }
            },
            _ => {
                match r {
                    Stmt::Tail(w) => {
                        lemma_bc_wrap(w, s, cfg, fname);
                    },
                    _ => {
                        assert(false);
                    },
                }
            },
        },
        Stmt::Semi(e) => match e {
            Expr::Return(_) => {
                match r {
                    Stmt::Semi(Expr::Return(Some(w))) => {
                        lemma_bc_wrap(*w, s, cfg, fname);
                    },
                    _ => {
                        assert(false);
                    },
                }
            },
            _ => {},
        },
        _ => {},
    }
}

proof fn lemma_bc_compound(e: Expr, r: Expr, cfg: Config, fname: String)
    requires
        rewritten_compound(e, r, cfg, fname),
        bc_expr(e) == 0,
    ensures
        bc_expr(r) == exits_stmt(Stmt::Tail(e)),
    decreases e, 0int,
{
    match e {
        Expr::If(c, t, els) => {
            match r {
                Expr::If(c2, t2, els2) => {
                    lemma_bc_block(t, t2, cfg, fname);
                    lemma_bc_opt(els, els2, cfg, fname);
                },
                _ => {
                    assert(false);
                },
            }
        },
        Expr::Loop(b) => {
            match r {
                Expr::Loop(b2) => {
                    lemma_bc_block(b, b2, cfg, fname);
                },
                _ => {
                    assert(false);
                },
            }
        },
        Expr::While(c, b) => {
            match r {
                Expr::While(c2, b2) => {
                    lemma_bc_block(b, b2, cfg, fname);
                },
                _ => {
                    assert(false);
                },
            }
        },
        Expr::For(p, it, b) => {
            match r {
                Expr::For(p2, it2, b2) => {
                    lemma_bc_block(b, b2, cfg, fname);
                },
                _ => {
                    assert(false);
                },
            }
        },
        _ => {
            assert(false);
        },
    }
}

proof fn lemma_bc_opt(o: Option<Box<Expr>>, r: Option<Box<Expr>>, cfg: Config, fname: String)
    requires
        rewritten_else_opt(o, r, cfg, fname),
        bc_opt(o) == 0,
    ensures
        bc_opt(r) == exits_opt(o),
    decreases o, 2int,
{
    match o {
        None => {},
        Some(e) => {
            match r {
                Some(e2) => {
                    lemma_bc_else(*e, *e2, cfg, fname);
                },
                None => {
                    assert(false);
                },
            }
        },
    }
}

proof fn lemma_bc_else(e: Expr, r: Expr, cfg: Config, fname: String)
    requires
        rewritten_else(e, r, cfg, fname),
        bc_expr(e) == 0,
    ensures
        bc_expr(r) == exits_else(e),
    decreases e, 1int,
{
    match e {
        Expr::If(..) => {
            lemma_bc_compound(e, r, cfg, fname);
        },
        Expr::BlockExpr(b) => {
            match r {
                Expr::BlockExpr(b2) => {
                    lemma_bc_block(b, b2, cfg, fname);
                },
                _ => {
                    assert(false);
                },
            }
        },
        _ => {},
    }
}

proof fn lemma_bc_seq_rel(ss: Seq<Stmt>, rr: Seq<Stmt>, cfg: Config, fname: String)
    requires
        ss.len() == rr.len(),
        forall|i: int| 0 <= i < ss.len() ==> rewritten_stmt(#[trigger] ss[i], rr[i], cfg, fname),
        bc_seq(ss) == 0,
    ensures
        bc_seq(rr) == exits_seq(ss),
    decreases ss, 0int,
{
    if ss.len() == 0 {
    } else {
        assert(bc_seq(ss) == bc_stmt(ss[0]) + bc_seq(ss.subrange(1, ss.len() as int)));
        lemma_bc_stmt(ss[0], rr[0], cfg, fname);
        let st = ss.subrange(1, ss.len() as int);
        let rt = rr.subrange(1, rr.len() as int);
        assert(forall|i: int| 0 <= i < st.len() ==> st[i] == ss[i + 1] && rt[i] == rr[i + 1]);
        lemma_bc_seq_rel(st, rt, cfg, fname);
    }
}

proof fn lemma_bc_block(b: Block, r: Block, cfg: Config, fname: String)
    requires
        rewritten_block(b, r, cfg, fname),
        bc_block(b) == 0,
    ensures
        bc_block(r) == exits_block(b),
    decreases b, 0int,
{
    lemma_bc_seq_rel(b.stmts@, r.stmts@, cfg, fname);
}

proof fn lemma_bc_seq_concat(a: Seq<Stmt>, b: Seq<Stmt>)
    ensures
        bc_seq(a + b) == bc_seq(a) + bc_seq(b),
    decreases a,
{
    if a.len() == 0 {
        assert(a + b =~= b);
    } else {
        assert((a + b)[0] == a[0]);
        assert((a + b).subrange(1, (a + b).len() as int) =~= a.subrange(1, a.len() as int) + b);
        lemma_bc_seq_concat(a.subrange(1, a.len() as int), b);
    }
}

/// One epilogue per exit.  Rewriting a body that carries no
/// instrumentation yet gives a body with exactly one synthesized epilogue
/// for each exit site the rewriter discovered — for N explicit early
/// returns plus a trailing expression, N + 1 wrapped exit sites — plus the
/// single copy appended at the very end of the body, which covers a body
/// whose last statement is not a trailing expression and which a trailing
/// expression's escaping value never reaches.
pub proof fn law_one_epilogue_per_exit(f: FnDef, r: FnDef, cfg: Config)
    requires
        rewritten_fn(f, r, cfg),
        bc_block(f.body) == 0,
    ensures
        bc_block(r.body) == exits_block(f.body) + 1,
{
    let n = f.body.stmts@.len() as int;
    let rs = r.body.stmts@;
    let head = seq![Stmt::CaptureStart];
    let mid = rs.subrange(1, n + 1);
    let epi = rs.subrange(n + 1, n + 3);
    assert(rs =~= (head + mid) + epi);
    lemma_bc_seq_concat(head + mid, epi);
    lemma_bc_seq_concat(head, mid);
    assert(bc_seq(head) == bc_stmt(head[0]) + bc_seq(head.subrange(1, 1)));
    assert(head.subrange(1, 1) =~= Seq::<Stmt>::empty());
    assert(forall|i: int| 0 <= i < n ==> mid[i] == rs[i + 1]);
    lemma_bc_seq_rel(f.body.stmts@, mid, cfg, f.name);
    lemma_bc_epilogue(epi, cfg, f.name);
}

/// A trailing expression that is neither a compound control-flow form nor
/// a `return` — the body's escaping value — is wrapped in place: the
/// epilogue runs, then the original statement yields its value.
pub proof fn law_trailing_exit_wrapped(f: FnDef, r: FnDef, cfg: Config)
    requires
        rewritten_fn(f, r, cfg),
        f.body.stmts@.len() > 0,
        f.body.stmts@.last() matches Stmt::Tail(e) && !is_compound(e) && !(e matches Expr::Return(
            _,
        )),
    ensures
        r.body.stmts@[f.body.stmts@.len() as int] matches Stmt::Tail(w) && is_wrap(
            w,
            f.body.stmts@.last(),
            cfg,
            f.name,
        ),
{
    let n = f.body.stmts@.len() as int;
    assert(rewritten_stmt(f.body.stmts@[n - 1], r.body.stmts@[n], cfg, f.name));
}

/// An explicit early return is wrapped in place, still a `return`
/// statement of the same kind, and the wrap embeds the whole original
/// statement unchanged — the returned value is preserved.
pub proof fn law_return_exit_wrapped(s: Stmt, r: Stmt, cfg: Config, fname: String)
    requires
        rewritten_stmt(s, r, cfg, fname),
        (s matches Stmt::Tail(Expr::Return(_))) || (s matches Stmt::Semi(Expr::Return(_))),
    ensures
        s matches Stmt::Tail(_) ==> r matches Stmt::Tail(Expr::Return(Some(w))) && is_wrap(
            *w,
            s,
            cfg,
            fname,
        ),
        s matches Stmt::Semi(_) ==> r matches Stmt::Semi(Expr::Return(Some(w))) && is_wrap(
            *w,
            s,
            cfg,
            fname,
        ),
{
}

/// Exits nested inside `if`/`loop`/`while`/`for` are wrapped individually:
/// the compound construct itself stays in its original position, with its
/// condition untouched; only its blocks are rewritten, statement for
/// statement.
pub proof fn law_compound_not_hoisted(s: Stmt, r: Stmt, cfg: Config, fname: String)
    requires
        rewritten_stmt(s, r, cfg, fname),
        s matches Stmt::Tail(e) && is_compound(e),
    ensures
        r matches Stmt::Tail(e2) && rewritten_compound(s->Tail_0, e2, cfg, fname),
        s matches Stmt::Tail(Expr::If(c, _, _)) ==> (r matches Stmt::Tail(Expr::If(c2, _, _))
            && *c2 == *c),
        s matches Stmt::Tail(Expr::While(c, _)) ==> (r matches Stmt::Tail(Expr::While(c2, _))
            && *c2 == *c),
{
}

/// A closure literal in any non-exit statement position — a binding or a
/// terminated statement — is left unchanged, however many return-like
/// expressions its body holds: the whole statement is carried over as it
/// stands.
pub proof fn law_closure_stmt_unchanged(s: Stmt, r: Stmt, cfg: Config, fname: String)
    requires
        rewritten_stmt(s, r, cfg, fname),
        (s matches Stmt::Let(_, _)) || (s matches Stmt::Semi(Expr::Closure(_, _))),
    ensures
        r == s,
{
}

/// A closure literal that stands as the trailing expression is wrapped
/// whole, never descended into: the wrap embeds the original statement —
/// closure parameters and body byte for byte — unchanged.
pub proof fn law_trailing_closure_opaque(s: Stmt, r: Stmt, cfg: Config, fname: String)
    requires
        rewritten_stmt(s, r, cfg, fname),
        s matches Stmt::Tail(Expr::Closure(_, _)),
    ensures
        r matches Stmt::Tail(w) && is_wrap(w, s, cfg, fname),
        r matches Stmt::Tail(w) && (if cfg.is_async {
            w->Await_0->AsyncBlock_0
        } else {
            w->BlockExpr_0
        }).stmts@[2] == s,
{
}

/// In asynchronous mode every wrap is a suspending nested scope that is
/// awaited: `async { <epilogue> <original exit> }.await`, so the epilogue
/// completes before the wrapped exit value escapes.
pub proof fn law_async_wrap_suspends(w: Expr, orig: Stmt, cfg: Config, fname: String)
    requires
        is_wrap(w, orig, cfg, fname),
        cfg.is_async,
    ensures
        w matches Expr::Await(inner) && (*inner matches Expr::AsyncBlock(b) && b.stmts@.len() == 3
            && is_epilogue(b.stmts@.subrange(0, 2), cfg, fname) && b.stmts@[2] == orig),
{
}

/// The epilogue's reporting step, by configuration: with no callback it is
/// the default console print; with a callback it is one synchronous call
/// to it, or one awaited call when the asynchronous marker was given.  The
/// context construction always comes first and carries the function name.
pub proof fn law_epilogue_dispatch(ss: Seq<Stmt>, cfg: Config, fname: String)
    requires
        is_epilogue(ss, cfg, fname),
    ensures
        cfg.callback is None ==> ss =~= seq![Stmt::BuildContext(fname), Stmt::PrintReport],
        cfg.callback matches Some(cb) ==> (if cfg.is_async {
            ss =~= seq![Stmt::BuildContext(fname), Stmt::CallAwait(cb)]
        } else {
            ss =~= seq![Stmt::BuildContext(fname), Stmt::CallSync(cb)]
        }),
{
}

/// The closure literals a statement holds, as a multiset of the closure
/// expressions themselves, each taken whole (its parameter text and its
/// body, return-like expressions included).
pub open spec fn cl_stmt(s: Stmt) -> Multiset<Expr>
    decreases s,
{
    match s {
        Stmt::Let(_, e) => cl_expr(e),
        Stmt::Semi(e) => cl_expr(e),
        Stmt::Tail(e) => cl_expr(e),
        _ => Multiset::empty(),
    }
}

/// See [`cl_stmt`].  A closure literal contributes itself, whole; nothing
/// below it is counted separately, since it travels as one opaque leaf.
pub open spec fn cl_expr(e: Expr) -> Multiset<Expr>
    decreases e,
{
    match e {
        Expr::Closure(_, _) => Multiset::empty().insert(e),
        Expr::Return(None) => Multiset::empty(),
        Expr::Return(Some(i)) => cl_expr(*i),
        Expr::If(c, t, els) => cl_expr(*c).add(cl_block(t)).add(cl_opt(els)),
        Expr::Loop(b) => cl_block(b),
        Expr::While(c, b) => cl_expr(*c).add(cl_block(b)),
        Expr::For(_, it, b) => cl_expr(*it).add(cl_block(b)),
        Expr::BlockExpr(b) => cl_block(b),
        Expr::Await(i) => cl_expr(*i),
        Expr::AsyncBlock(b) => cl_block(b),
        Expr::Verbatim(_) => Multiset::empty(),
    }
}

/// See [`cl_stmt`].
pub open spec fn cl_opt(o: Option<Box<Expr>>) -> Multiset<Expr>
    decreases o,
{
    match o {
        None => Multiset::empty(),
        Some(e) => cl_expr(*e),
    }
}

/// See [`cl_stmt`].
pub open spec fn cl_seq(ss: Seq<Stmt>) -> Multiset<Expr>
    decreases ss,
{
    if ss.len() == 0 {
        Multiset::empty()
    } else {
        cl_stmt(ss[0]).add(cl_seq(ss.subrange(1, ss.len() as int)))
    }
}

/// See [`cl_stmt`].
pub open spec fn cl_block(b: Block) -> Multiset<Expr>
    decreases b,
{
    cl_seq(b.stmts@)
}

/// The synthesized epilogue holds no closure literal.
proof fn lemma_cl_epilogue(ss: Seq<Stmt>, cfg: Config, fname: String)
    requires
        is_epilogue(ss, cfg, fname),
    ensures
        cl_seq(ss) == Multiset::<Expr>::empty(),
{
    assert(cl_seq(ss) =~= cl_stmt(ss[0]).add(cl_seq(ss.subrange(1, 2))));
    assert(cl_seq(ss.subrange(1, 2)) =~= cl_stmt(ss[1]).add(
        cl_seq(ss.subrange(1, 2).subrange(1, 1)),
    )) by {
        assert(ss.subrange(1, 2)[0] == ss[1]);
    }
    assert(ss.subrange(1, 2).subrange(1, 1) =~= Seq::<Stmt>::empty());
    assert(cl_seq(Seq::<Stmt>::empty()) == Multiset::<Expr>::empty());
    assert(cl_stmt(ss[0]) == Multiset::<Expr>::empty());
    assert(cl_stmt(ss[1]) == Multiset::<Expr>::empty());
    assert(cl_seq(ss) =~= Multiset::<Expr>::empty());
}

/// A wrap holds exactly the closures of the exit statement it embeds.
proof fn lemma_cl_wrap_body(b: Block, orig: Stmt, cfg: Config, fname: String)
    requires
        wrap_body_ok(b, orig, cfg, fname),
    ensures
        cl_block(b) == cl_stmt(orig),
{
    let ss = b.stmts@;
    assert(ss.subrange(0, 2)[0] == ss[0]);
    assert(ss.subrange(0, 2)[1] == ss[1]);
    assert(cl_stmt(ss[0]) =~= Multiset::<Expr>::empty());
    assert(cl_stmt(ss[1]) =~= Multiset::<Expr>::empty());
    assert(cl_seq(ss) =~= cl_stmt(ss[0]).add(cl_seq(ss.subrange(1, 3))));
    let t1 = ss.subrange(1, 3);
    assert(cl_seq(t1) =~= cl_stmt(ss[1]).add(cl_seq(t1.subrange(1, 2)))) by {
        assert(t1[0] == ss[1]);
    }
    let t2 = t1.subrange(1, 2);
    assert(cl_seq(t2) =~= cl_stmt(ss[2]).add(cl_seq(t2.subrange(1, 1)))) by {
        assert(t2[0] == ss[2]);
    }
    assert(t2.subrange(1, 1) =~= Seq::<Stmt>::empty());
    assert(cl_seq(Seq::<Stmt>::empty()) == Multiset::<Expr>::empty());
    assert(cl_block(b) =~= cl_stmt(orig));
}

/// See [`lemma_cl_wrap_body`].
proof fn lemma_cl_wrap(w: Expr, orig: Stmt, cfg: Config, fname: String)
    requires
        is_wrap(w, orig, cfg, fname),
    ensures
        cl_expr(w) == cl_stmt(orig),
{
    match w {
        Expr::Await(inner) => {
            match *inner {
                Expr::AsyncBlock(b) => {
                    lemma_cl_wrap_body(b, orig, cfg, fname);
                    assert(*inner == Expr::AsyncBlock(b));
                    assert(cl_expr(*inner) == cl_block(b));
                    assert(cl_expr(w) == cl_expr(*inner));
                },
                _ => {
                    assert(false);
                },
            }
        },
        Expr::BlockExpr(b) => {
            lemma_cl_wrap_body(b, orig, cfg, fname);
        },
        _ => {
            assert(false);
        },
    }
}

proof fn lemma_cl_stmt(s: Stmt, r: Stmt, cfg: Config, fname: String)
    requires
        rewritten_stmt(s, r, cfg, fname),
    ensures
        cl_stmt(r) == cl_stmt(s),
    decreases s, 0int,
{
    match s {
        Stmt::Tail(e) => match e {
            Expr::Return(_) => {
                match r {
                    Stmt::Tail(Expr::Return(Some(w))) => {
                        lemma_cl_wrap(*w, s, cfg, fname);
                    },
                    _ => {
                        assert(false);
                    },
                }
            },
            Expr::If(..) | Expr::Loop(..) | Expr::While(..) | Expr::For(..) => {
                match r {
                    Stmt::Tail(e2) => {
                        lemma_cl_compound(e, e2, cfg, fname);
                    },
                    _ => {
                        assert(false);
                    },
                }
            },
            _ => {
                match r {
                    Stmt::Tail(w) => {
                        lemma_cl_wrap(w, s, cfg, fname);
                    },
                    _ => {
                        assert(false);
                    },
                }
            },
        },
        Stmt::Semi(e) => match e {
            Expr::Return(_) => {
                match r {
                    Stmt::Semi(Expr::Return(Some(w))) => {
                        lemma_cl_wrap(*w, s, cfg, fname);
                    },
                    _ => {
                        assert(false);
                    },
                }
            },
            _ => {},
        },
        _ => {},
    }
}

proof fn lemma_cl_compound(e: Expr, r: Expr, cfg: Config, fname: String)
    requires
        rewritten_compound(e, r, cfg, fname),
    ensures
        cl_expr(r) == cl_expr(e),
    decreases e, 0int,
{
    match e {
        Expr::If(c, t, els) => {
            match r {
                Expr::If(c2, t2, els2) => {
                    lemma_cl_block(t, t2, cfg, fname);
                    lemma_cl_opt(els, els2, cfg, fname);
                },
                _ => {
                    assert(false);
                },
            }
        },
        Expr::Loop(b) => {
            match r {
                Expr::Loop(b2) => {
                    lemma_cl_block(b, b2, cfg, fname);
                },
                _ => {
                    assert(false);
                },
            }
        },
        Expr::While(c, b) => {
            match r {
                Expr::While(c2, b2) => {
                    lemma_cl_block(b, b2, cfg, fname);
                },
                _ => {
                    assert(false);
                },
            }
        },
        Expr::For(p, it, b) => {
            match r {
                Expr::For(p2, it2, b2) => {
                    lemma_cl_block(b, b2, cfg, fname);
                },
                _ => {
                    assert(false);
                },
            }
        },
        _ => {
            assert(false);
        },
    }
}

proof fn lemma_cl_opt(o: Option<Box<Expr>>, r: Option<Box<Expr>>, cfg: Config, fname: String)
    requires
        rewritten_else_opt(o, r, cfg, fname),
    ensures
        cl_opt(r) == cl_opt(o),
    decreases o, 2int,
{
    match o {
        None => {},
        Some(e) => {
            match r {
                Some(e2) => {
                    lemma_cl_else(*e, *e2, cfg, fname);
                },
                None => {
                    assert(false);
                },
            }
        },
    }
}

proof fn lemma_cl_else(e: Expr, r: Expr, cfg: Config, fname: String)
    requires
        rewritten_else(e, r, cfg, fname),
    ensures
        cl_expr(r) == cl_expr(e),
    decreases e, 1int,
{
    match e {
        Expr::If(..) => {
            lemma_cl_compound(e, r, cfg, fname);
        },
        Expr::BlockExpr(b) => {
            match r {
                Expr::BlockExpr(b2) => {
                    lemma_cl_block(b, b2, cfg, fname);
                },
                _ => {
                    assert(false);
                },
            }
        },
        _ => {},
    }
}

proof fn lemma_cl_seq_rel(ss: Seq<Stmt>, rr: Seq<Stmt>, cfg: Config, fname: String)
    requires
        ss.len() == rr.len(),
        forall|i: int| 0 <= i < ss.len() ==> rewritten_stmt(#[trigger] ss[i], rr[i], cfg, fname),
    ensures
        cl_seq(rr) == cl_seq(ss),
    decreases ss, 0int,
{
    if ss.len() == 0 {
    } else {
        lemma_cl_stmt(ss[0], rr[0], cfg, fname);
        let st = ss.subrange(1, ss.len() as int);
        let rt = rr.subrange(1, rr.len() as int);
        assert(forall|i: int| 0 <= i < st.len() ==> st[i] == ss[i + 1] && rt[i] == rr[i + 1]);
        lemma_cl_seq_rel(st, rt, cfg, fname);
    }
}

proof fn lemma_cl_block(b: Block, r: Block, cfg: Config, fname: String)
    requires
        rewritten_block(b, r, cfg, fname),
    ensures
        cl_block(r) == cl_block(b),
    decreases b, 0int,
{
    lemma_cl_seq_rel(b.stmts@, r.stmts@, cfg, fname);
}

proof fn lemma_cl_seq_concat(a: Seq<Stmt>, b: Seq<Stmt>)
    ensures
        cl_seq(a + b) == cl_seq(a).add(cl_seq(b)),
    decreases a,
{
    if a.len() == 0 {
        assert(a + b =~= b);
        assert(cl_seq(a) == Multiset::<Expr>::empty());
        assert(cl_seq(a).add(cl_seq(b)) =~= cl_seq(b));
    } else {
        assert((a + b)[0] == a[0]);
        assert((a + b).subrange(1, (a + b).len() as int) =~= a.subrange(1, a.len() as int) + b);
        lemma_cl_seq_concat(a.subrange(1, a.len() as int), b);
        assert(cl_seq(a + b) =~= cl_seq(a).add(cl_seq(b)));
    }
}

/// Closures survive the rewrite untouched: the multiset of closure
/// literals of the rewritten body — each taken whole, parameters and body
/// — is exactly that of the original body.  The rewriter never descends
/// into a closure, never drops one, and never synthesizes one.
pub proof fn law_closures_preserved(f: FnDef, r: FnDef, cfg: Config)
    requires
        rewritten_fn(f, r, cfg),
    ensures
        cl_block(r.body) == cl_block(f.body),
{
    let n = f.body.stmts@.len() as int;
    let rs = r.body.stmts@;
    let head = seq![Stmt::CaptureStart];
    let mid = rs.subrange(1, n + 1);
    let epi = rs.subrange(n + 1, n + 3);
    assert(rs =~= (head + mid) + epi);
    lemma_cl_seq_concat(head + mid, epi);
    lemma_cl_seq_concat(head, mid);
    assert(cl_seq(head) =~= cl_stmt(head[0]).add(cl_seq(head.subrange(1, 1))));
    assert(head.subrange(1, 1) =~= Seq::<Stmt>::empty());
    assert(forall|i: int| 0 <= i < n ==> mid[i] == rs[i + 1]);
    lemma_cl_seq_rel(f.body.stmts@, mid, cfg, f.name);
    lemma_cl_epilogue(epi, cfg, f.name);
    assert(cl_block(r.body) =~= cl_block(f.body));
}

} // verus!
