use auto_span::ast::{Expr, Function, LineInfo, RetDecl};
use auto_span::attr_options::Opt;
use auto_span::line::LineAccess;
use auto_span::transform::{auto_span, insert_function_span, str_contains};

fn lit(s: &str, offset: usize) -> Expr {
    Expr::Lit {
        text: s.to_string(),
        offset,
    }
}

fn path(segs: &[&str], offset: usize) -> Expr {
    Expr::Path {
        segments: segs.iter().map(|s| s.to_string()).collect(),
        offset,
    }
}

fn call(func: Expr, args: Vec<Expr>, offset: usize) -> Expr {
    Expr::Call {
        func: Box::new(func),
        args,
        offset,
    }
}

fn await_of(base: Expr, offset: usize) -> Expr {
    Expr::Await {
        base: Box::new(base),
        offset,
    }
}

fn try_of(inner: Expr, offset: usize) -> Expr {
    Expr::Try {
        inner: Box::new(inner),
        offset,
    }
}

fn default_opt() -> Opt {
    Opt {
        func_span: true,
        all_await: false,
        debug: false,
        name_def: None,
    }
}

fn fallible_fn(name: &str, body: Vec<Expr>) -> Function {
    Function {
        name: name.to_string(),
        is_async: false,
        ret: RetDecl::Named {
            name: String::from("Result"),
        },
        body,
    }
}

#[test]
fn tracked_query_await_gets_db_span_with_statement() {
    let query_call = call(path(&["sqlx", "query"], 10), vec![lit("SELECT 1", 21)], 10);
    let f = Function {
        name: String::from("test_sqlx"),
        is_async: true,
        ret: RetDecl::Default,
        body: vec![await_of(query_call.clone(), 10)],
    };
    let got = auto_span(&default_opt(), &f, None);

    let marked_call = Expr::Attributed {
        key: String::from("db.statement"),
        value: Box::new(lit("SELECT 1", 21)),
        inner: Box::new(query_call),
    };
    let expected = Function {
        name: String::from("test_sqlx"),
        is_async: true,
        ret: RetDecl::Default,
        body: vec![Expr::SpanBlock {
            name: String::from("fn:test_sqlx"),
            line: None,
            inner: Box::new(Expr::Group {
                children: vec![Expr::SpanBlock {
                    name: String::from("db"),
                    line: None,
                    inner: Box::new(await_of(marked_call, 10)),
                }],
                offset: 0,
            }),
        }],
    };
    assert_eq!(got, expected);
}

#[test]
fn tracked_http_await_gets_http_span() {
    let http_call = call(path(&["reqwest", "get"], 5), vec![lit("http://x", 17)], 5);
    let f = Function {
        name: String::from("use_reqwest"),
        is_async: true,
        ret: RetDecl::Default,
        body: vec![await_of(http_call.clone(), 5)],
    };
    let got = auto_span(&default_opt(), &f, None);
    match &got.body[0] {
        Expr::SpanBlock { inner, .. } => match inner.as_ref() {
            Expr::Group { children, .. } => match &children[0] {
                Expr::SpanBlock { name, line, inner } => {
                    assert_eq!(name, "http");
                    assert_eq!(*line, None);
                    assert_eq!(**inner, await_of(http_call, 5));
                }
                other => panic!("expected a span, got {:?}", other),
            },
            other => panic!("expected the body group, got {:?}", other),
        },
        other => panic!("expected the function span, got {:?}", other),
    }
}

#[test]
fn untracked_await_gets_no_span_by_default() {
    let plain = call(path(&["f"], 3), vec![], 3);
    let f = Function {
        name: String::from("anonymous_await"),
        is_async: true,
        ret: RetDecl::Default,
        body: vec![await_of(plain.clone(), 3)],
    };
    let got = auto_span(&default_opt(), &f, None);
    match &got.body[0] {
        Expr::SpanBlock { inner, .. } => match inner.as_ref() {
            Expr::Group { children, .. } => {
                assert_eq!(children[0], await_of(plain, 3));
            }
            other => panic!("expected the body group, got {:?}", other),
        },
        other => panic!("expected the function span, got {:?}", other),
    }
}

#[test]
fn untracked_await_gets_await_span_when_enabled() {
    let plain = call(path(&["f"], 3), vec![], 3);
    let f = Function {
        name: String::from("anonymous_await2"),
        is_async: true,
        ret: RetDecl::Default,
        body: vec![await_of(plain.clone(), 3)],
    };
    let mut opt = default_opt();
    opt.all_await = true;
    let got = auto_span(&opt, &f, None);
    match &got.body[0] {
        Expr::SpanBlock { inner, .. } => match inner.as_ref() {
            Expr::Group { children, .. } => match &children[0] {
                Expr::SpanBlock { name, inner, .. } => {
                    assert_eq!(name, "await");
                    assert_eq!(**inner, await_of(plain, 3));
                }
                other => panic!("expected a span, got {:?}", other),
            },
            other => panic!("expected the body group, got {:?}", other),
        },
        other => panic!("expected the function span, got {:?}", other),
    }
}

#[test]
fn unrecognized_call_is_never_wrapped() {
    let other_call = call(
        path(&["diesel", "query"], 4),
        vec![lit("SELECT 1", 18)],
        4,
    );
    let body = vec![await_of(other_call, 4)];
    let f = Function {
        name: String::from("untouched"),
        is_async: true,
        ret: RetDecl::Default,
        body: body.clone(),
    };
    let mut opt = default_opt();
    opt.func_span = false;
    let got = auto_span(&opt, &f, None);
    assert_eq!(got.body, body);
}

#[test]
fn fallible_early_return_is_marked() {
    let f = fallible_fn(
        "g",
        vec![try_of(call(path(&["f"], 7), vec![path(&["x"], 9)], 7), 7)],
    );
    let got = auto_span(&default_opt(), &f, None);
    match &got.body[0] {
        Expr::SpanBlock { inner, .. } => match inner.as_ref() {
            Expr::Group { children, .. } => match &children[0] {
                Expr::Try { inner, .. } => match inner.as_ref() {
                    Expr::ErrMark { line, inner } => {
                        assert_eq!(*line, None);
                        assert_eq!(
                            **inner,
                            call(path(&["f"], 7), vec![path(&["x"], 9)], 7)
                        );
                    }
                    other => panic!("expected an error mark, got {:?}", other),
                },
                other => panic!("expected the early return, got {:?}", other),
            },
            other => panic!("expected the body group, got {:?}", other),
        },
        other => panic!("expected the function span, got {:?}", other),
    }
}

#[test]
fn optional_early_return_is_not_marked() {
    let body = vec![try_of(path(&["x"], 2), 2)];
    let f = Function {
        name: String::from("h"),
        is_async: false,
        ret: RetDecl::Named {
            name: String::from("Option"),
        },
        body: body.clone(),
    };
    let mut opt = default_opt();
    opt.func_span = false;
    let got = auto_span(&opt, &f, None);
    assert_eq!(got.body, body);
}

#[test]
fn closure_early_return_is_not_marked() {
    let closure = Expr::Closure {
        body: Box::new(try_of(path(&["x"], 8), 8)),
        offset: 6,
    };
    let body = vec![closure];
    let f = fallible_fn("with_closure", body.clone());
    let mut opt = default_opt();
    opt.func_span = false;
    let got = auto_span(&opt, &f, None);
    assert_eq!(got.body, body);
}

#[test]
fn nested_function_is_left_alone() {
    let inner_fn = Function {
        name: String::from("in_h"),
        is_async: false,
        ret: RetDecl::Named {
            name: String::from("Result"),
        },
        body: vec![try_of(path(&["x"], 30), 30)],
    };
    let body = vec![Expr::NestedFn {
        func: Box::new(inner_fn),
        offset: 25,
    }];
    let f = Function {
        name: String::from("h"),
        is_async: false,
        ret: RetDecl::Named {
            name: String::from("Option"),
        },
        body: body.clone(),
    };
    let mut opt = default_opt();
    opt.func_span = false;
    let got = auto_span(&opt, &f, None);
    assert_eq!(got.body, body);
}

#[test]
fn located_source_yields_line_attributes() {
    // the await's offset 13 falls on the second line, whose text is
    // stored with leading whitespace trimmed
    let source = b"fn x() {\n    q().await\n}\n";
    let la = LineAccess::from_bytes(source);
    let query_call = call(path(&["sqlx", "query"], 13), vec![lit("SELECT 1", 13)], 13);
    let f = Function {
        name: String::from("x"),
        is_async: true,
        ret: RetDecl::Default,
        body: vec![await_of(query_call, 13)],
    };
    let mut opt = default_opt();
    opt.func_span = false;
    let got = auto_span(&opt, &f, Some(la));
    match &got.body[0] {
        Expr::SpanBlock { name, line, .. } => {
            assert_eq!(name, "db");
            assert_eq!(
                *line,
                Some(LineInfo {
                    number: 2,
                    text: b"q().await".to_vec(),
                })
            );
        }
        other => panic!("expected a span, got {:?}", other),
    }
}

#[test]
fn function_span_wraps_whole_body() {
    let body = vec![path(&["x"], 1)];
    let f = Function {
        name: String::from("a"),
        is_async: false,
        ret: RetDecl::Default,
        body: body.clone(),
    };
    let wrapped = insert_function_span(f);
    assert_eq!(
        wrapped.body,
        vec![Expr::SpanBlock {
            name: String::from("fn:a"),
            line: None,
            inner: Box::new(Expr::Group {
                children: body,
                offset: 0,
            }),
        }]
    );
}

#[test]
fn str_contains_finds_parts() {
    assert!(str_contains("sqlx::Result<()>", "Result"));
    assert!(str_contains("Result", "Result"));
    assert!(str_contains("anything", ""));
    assert!(!str_contains("Result", "Results"));
    assert!(!str_contains("Option", "Result"));
}
