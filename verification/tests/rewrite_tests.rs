use performance_mark::ast::{Block, Expr, FnDef, Item, Stmt};
use performance_mark::config::{AttrToken, Config, ConfigError};
use performance_mark::rewrite::{performance_mark, rewrite, MarkError};

fn verb(s: &str) -> Expr {
    Expr::Verbatim(s.to_string())
}

fn block(stmts: Vec<Stmt>) -> Block {
    Block { stmts }
}

fn fn_def(name: &str, ret: &str, stmts: Vec<Stmt>) -> FnDef {
    FnDef {
        name: name.to_string(),
        is_async: false,
        params: String::new(),
        ret: ret.to_string(),
        body: block(stmts),
    }
}

fn default_config() -> Config {
    Config { callback: None, is_async: false }
}

fn callback_config(name: &str, is_async: bool) -> Config {
    Config { callback: Some(name.to_string()), is_async }
}

/// The default epilogue for a function of this name: build the context,
/// print the report.
fn print_epilogue(name: &str) -> Vec<Stmt> {
    vec![Stmt::BuildContext(name.to_string()), Stmt::PrintReport]
}

/// A synchronous wrap: `{ <epilogue> <orig> }`.
fn sync_wrap(name: &str, orig: Stmt) -> Expr {
    let mut stmts = print_epilogue(name);
    stmts.push(orig);
    Expr::BlockExpr(block(stmts))
}

#[test]
fn early_return_is_wrapped() {
    // fn f() -> i32 { return 1; }  with no attribute: the only exit is the
    // early return; it runs the epilogue, then still returns 1.
    let f = fn_def("f", "i32", vec![Stmt::Semi(Expr::Return(Some(Box::new(verb("1")))))]);
    let r = rewrite(f, &default_config());
    let orig = Stmt::Semi(Expr::Return(Some(Box::new(verb("1")))));
    let wrapped = Stmt::Semi(Expr::Return(Some(Box::new(sync_wrap("f", orig)))));
    let mut expected = vec![Stmt::CaptureStart, wrapped];
    expected.extend(print_epilogue("f"));
    assert_eq!(r, fn_def("f", "i32", expected));
}

#[test]
fn branch_tails_are_wrapped_individually() {
    // fn f() -> i32 { if cond { 1 } else { 2 } }: the trailing `if` is
    // recursed into and each branch value is wrapped on its own.
    let body = Stmt::Tail(Expr::If(
        Box::new(verb("cond")),
        block(vec![Stmt::Tail(verb("1"))]),
        Some(Box::new(Expr::BlockExpr(block(vec![Stmt::Tail(verb("2"))])))),
    ));
    let f = fn_def("f", "i32", vec![body]);
    let r = rewrite(f, &default_config());
    let then_wrapped = block(vec![Stmt::Tail(sync_wrap("f", Stmt::Tail(verb("1"))))]);
    let else_wrapped = Expr::BlockExpr(block(vec![Stmt::Tail(
        sync_wrap("f", Stmt::Tail(verb("2"))),
    )]));
    let rewritten_if = Stmt::Tail(Expr::If(
        Box::new(verb("cond")),
        then_wrapped,
        Some(Box::new(else_wrapped)),
    ));
    let mut expected = vec![Stmt::CaptureStart, rewritten_if];
    expected.extend(print_epilogue("f"));
    assert_eq!(r, fn_def("f", "i32", expected));
}

#[test]
fn async_callback_wraps_with_awaited_scope() {
    // `async log_it` on an async fn: every wrapped exit is an awaited
    // async block whose epilogue awaits the callback.
    let mut f = fn_def("f", "i32", vec![Stmt::Semi(Expr::Return(Some(Box::new(verb("1")))))]);
    f.is_async = true;
    let cfg = callback_config("log_it", true);
    let r = rewrite(f, &cfg);
    let orig = Stmt::Semi(Expr::Return(Some(Box::new(verb("1")))));
    let wrap = Expr::Await(Box::new(Expr::AsyncBlock(block(vec![
        Stmt::BuildContext("f".to_string()),
        Stmt::CallAwait("log_it".to_string()),
        orig,
    ]))));
    let wrapped = Stmt::Semi(Expr::Return(Some(Box::new(wrap))));
    let expected = vec![
        Stmt::CaptureStart,
        wrapped,
        Stmt::BuildContext("f".to_string()),
        Stmt::CallAwait("log_it".to_string()),
    ];
    let mut want = fn_def("f", "i32", expected);
    want.is_async = true;
    assert_eq!(r, want);
}

#[test]
fn sync_callback_epilogue_calls_once() {
    // `log_it` with no async marker: the epilogue issues one synchronous
    // call to log_it instead of the console print.
    let f = fn_def("f", "", vec![Stmt::Semi(verb("work()"))]);
    let r = rewrite(f, &callback_config("log_it", false));
    let expected = vec![
        Stmt::CaptureStart,
        Stmt::Semi(verb("work()")),
        Stmt::BuildContext("f".to_string()),
        Stmt::CallSync("log_it".to_string()),
    ];
    assert_eq!(r, fn_def("f", "", expected));
}

/// A closure literal holding a return-like expression, as an exit-free
/// sample value; built fresh at each call since the syntax tree types are
/// deliberately plain data without `Clone`.
fn returning_closure() -> Expr {
    Expr::Closure("x".to_string(), Box::new(Expr::Return(Some(Box::new(verb("x"))))))
}

#[test]
fn closure_binding_is_untouched() {
    // A closure bound by a `let`, with a return-like expression inside,
    // is left exactly as it stands.
    let f = fn_def(
        "f",
        "",
        vec![Stmt::Let("g".to_string(), returning_closure()), Stmt::Semi(verb("g(1)"))],
    );
    let r = rewrite(f, &default_config());
    assert_eq!(r.body.stmts[1], Stmt::Let("g".to_string(), returning_closure()));
}

#[test]
fn closure_statement_is_untouched() {
    let f = fn_def("f", "", vec![Stmt::Semi(returning_closure())]);
    let r = rewrite(f, &default_config());
    assert_eq!(r.body.stmts[1], Stmt::Semi(returning_closure()));
}

#[test]
fn trailing_closure_is_wrapped_but_unmodified() {
    // A trailing closure is an exit value: it is wrapped whole, and the
    // closure itself — returns inside included — is embedded unchanged.
    let f = fn_def("f", "", vec![Stmt::Tail(returning_closure())]);
    let r = rewrite(f, &default_config());
    assert_eq!(r.body.stmts[1], Stmt::Tail(sync_wrap("f", Stmt::Tail(returning_closure()))));
}

#[test]
fn return_inside_loop_is_wrapped_in_place() {
    // fn f() { loop { return; } }: the loop stays where it was; the
    // return inside is wrapped individually.
    let f = fn_def(
        "f",
        "",
        vec![Stmt::Tail(Expr::Loop(block(vec![Stmt::Semi(Expr::Return(None))])))],
    );
    let r = rewrite(f, &default_config());
    let orig = Stmt::Semi(Expr::Return(None));
    let inner = Stmt::Semi(Expr::Return(Some(Box::new(sync_wrap("f", orig)))));
    let mut expected = vec![Stmt::CaptureStart, Stmt::Tail(Expr::Loop(block(vec![inner])))];
    expected.extend(print_epilogue("f"));
    assert_eq!(r, fn_def("f", "", expected));
}

#[test]
fn return_inside_while_is_wrapped_in_place() {
    let f = fn_def(
        "f",
        "",
        vec![Stmt::Tail(Expr::While(
            Box::new(verb("going")),
            block(vec![Stmt::Semi(Expr::Return(None))]),
        ))],
    );
    let r = rewrite(f, &default_config());
    let orig = Stmt::Semi(Expr::Return(None));
    let inner = Stmt::Semi(Expr::Return(Some(Box::new(sync_wrap("f", orig)))));
    assert_eq!(
        r.body.stmts[1],
        Stmt::Tail(Expr::While(Box::new(verb("going")), block(vec![inner])))
    );
}

#[test]
fn return_inside_for_is_wrapped_in_place() {
    let f = fn_def(
        "f",
        "",
        vec![Stmt::Tail(Expr::For(
            "x".to_string(),
            Box::new(verb("items")),
            block(vec![Stmt::Semi(Expr::Return(None))]),
        ))],
    );
    let r = rewrite(f, &default_config());
    let orig = Stmt::Semi(Expr::Return(None));
    let inner = Stmt::Semi(Expr::Return(Some(Box::new(sync_wrap("f", orig)))));
    assert_eq!(
        r.body.stmts[1],
        Stmt::Tail(Expr::For("x".to_string(), Box::new(verb("items")), block(vec![inner])))
    );
}

#[test]
fn empty_body_gets_capture_and_epilogue() {
    // An empty body has no trailing expression: the appended epilogue is
    // the one copy that runs on the implicit return of nothing.
    let f = fn_def("f", "", vec![]);
    let r = rewrite(f, &default_config());
    let mut expected = vec![Stmt::CaptureStart];
    expected.extend(print_epilogue("f"));
    assert_eq!(r, fn_def("f", "", expected));
}

#[test]
fn terminated_last_statement_keeps_appended_epilogue() {
    let f = fn_def("f", "", vec![Stmt::Semi(verb("work()"))]);
    let r = rewrite(f, &default_config());
    let mut expected = vec![Stmt::CaptureStart, Stmt::Semi(verb("work()"))];
    expected.extend(print_epilogue("f"));
    assert_eq!(r, fn_def("f", "", expected));
}

#[test]
fn signature_is_preserved() {
    let mut f = fn_def("f", "u64", vec![Stmt::Tail(verb("0"))]);
    f.params = "x: u64".to_string();
    let r = rewrite(f, &default_config());
    assert_eq!(r.name, "f");
    assert_eq!(r.params, "x: u64");
    assert_eq!(r.ret, "u64");
    assert!(!r.is_async);
}

#[test]
fn non_function_item_is_usage_error() {
    let r = performance_mark(vec![], Item::Other("struct S;".to_string()));
    assert_eq!(r, Err(MarkError::Usage));
}

#[test]
fn usage_error_takes_precedence_over_bad_attribute() {
    let attr = vec![
        AttrToken::Ident("log_it".to_string()),
        AttrToken::Ident("extra".to_string()),
    ];
    let r = performance_mark(attr, Item::Other("struct S;".to_string()));
    assert_eq!(r, Err(MarkError::Usage));
}

#[test]
fn bad_attribute_on_function_is_configuration_error() {
    let attr = vec![
        AttrToken::Ident("log_it".to_string()),
        AttrToken::Ident("extra".to_string()),
    ];
    let f = fn_def("f", "", vec![]);
    let r = performance_mark(attr, Item::Function(f));
    assert_eq!(r, Err(MarkError::Configuration(ConfigError { index: 1 })));
}

#[test]
fn whole_transformation_applies_parsed_config() {
    let attr = vec![AttrToken::Ident("log_it".to_string())];
    let f = fn_def("f", "", vec![]);
    let r = performance_mark(attr, Item::Function(f)).unwrap();
    let expected = vec![
        Stmt::CaptureStart,
        Stmt::BuildContext("f".to_string()),
        Stmt::CallSync("log_it".to_string()),
    ];
    assert_eq!(r, fn_def("f", "", expected));
}

#[test]
fn async_marker_without_callback_wraps_print() {
    // `async` alone: the wrap is an awaited async scope, but the report
    // inside is still the default console print.
    let mut f = fn_def("f", "", vec![Stmt::Tail(verb("0"))]);
    f.is_async = true;
    let r = rewrite(f, &Config { callback: None, is_async: true });
    let wrap = Expr::Await(Box::new(Expr::AsyncBlock(block(vec![
        Stmt::BuildContext("f".to_string()),
        Stmt::PrintReport,
        Stmt::Tail(verb("0")),
    ]))));
    assert_eq!(r.body.stmts[1], Stmt::Tail(wrap));
}

#[test]
fn early_return_through_entry_point() {
    // The whole transformation on `fn f() -> i32 { return 1; }` with an
    // empty attribute: capture the start time, wrap the only exit, append
    // the final epilogue.
    let f = fn_def("f", "i32", vec![Stmt::Semi(Expr::Return(Some(Box::new(verb("1")))))]);
    let r = performance_mark(vec![], Item::Function(f)).unwrap();
    let orig = Stmt::Semi(Expr::Return(Some(Box::new(verb("1")))));
    let wrapped = Stmt::Semi(Expr::Return(Some(Box::new(sync_wrap("f", orig)))));
    let mut expected = vec![Stmt::CaptureStart, wrapped];
    expected.extend(print_epilogue("f"));
    assert_eq!(r, fn_def("f", "i32", expected));
}
