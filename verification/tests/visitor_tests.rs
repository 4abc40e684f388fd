use auto_span::ast::Expr;
use auto_span::handle_reqwest::{is_reqwest, ReqwestVisitor};
use auto_span::handle_sqlx::{is_sqlx_query, SqlxVisitor};

fn path(segs: &[&str], offset: usize) -> Expr {
    Expr::Path {
        segments: segs.iter().map(|s| s.to_string()).collect(),
        offset,
    }
}

fn lit(s: &str, offset: usize) -> Expr {
    Expr::Lit {
        text: s.to_string(),
        offset,
    }
}

fn call(func: Expr, args: Vec<Expr>, offset: usize) -> Expr {
    Expr::Call {
        func: Box::new(func),
        args,
        offset,
    }
}

#[test]
fn query_function_paths() {
    assert!(is_sqlx_query(&path(&["sqlx", "query"], 0)));
    assert!(is_sqlx_query(&path(&["sqlx", "query_scalar"], 0)));
    assert!(is_sqlx_query(&path(&["sqlx", "raw_sql"], 0)));
    assert!(!is_sqlx_query(&path(&["sqlx", "query", "extra"], 0)));
    assert!(!is_sqlx_query(&path(&["sqlx"], 0)));
    assert!(!is_sqlx_query(&path(&["other", "query"], 0)));
    assert!(!is_sqlx_query(&lit("sqlx::query", 0)));
}

#[test]
fn http_client_paths() {
    assert!(is_reqwest(&path(&["reqwest", "get"], 0)));
    assert!(is_reqwest(&path(&["reqwest", "Client", "new"], 0)));
    assert!(!is_reqwest(&path(&["reqwest"], 0)));
    assert!(!is_reqwest(&path(&["request", "get"], 0)));
}

#[test]
fn query_call_is_annotated_with_its_text() {
    let query = call(path(&["sqlx", "query"], 1), vec![lit("SELECT 1", 12)], 1);
    let mut v = SqlxVisitor::new();
    assert!(!v.is_mutate());
    let got = v.visit_expr(&query);
    assert!(v.is_mutate());
    assert_eq!(
        got,
        Expr::Attributed {
            key: String::from("db.statement"),
            value: Box::new(lit("SELECT 1", 12)),
            inner: Box::new(query),
        }
    );
}

#[test]
fn query_call_with_computed_text_is_not_matched() {
    let computed = call(path(&["format"], 20), vec![lit("{}", 27)], 20);
    let query = call(path(&["sqlx", "query"], 1), vec![computed], 1);
    let mut v = SqlxVisitor::new();
    let got = v.visit_expr(&query);
    assert!(!v.is_mutate());
    assert_eq!(got, query);
}

#[test]
fn search_stops_at_nested_await() {
    let inner_query = call(path(&["sqlx", "query"], 9), vec![lit("SELECT 1", 20)], 9);
    let nested = Expr::Await {
        base: Box::new(inner_query),
        offset: 9,
    };
    let mut v = SqlxVisitor::new();
    let got = v.visit_expr(&nested);
    assert!(!v.is_mutate());
    assert_eq!(got, nested);

    let mut r = ReqwestVisitor::new();
    r.visit_expr(&Expr::Await {
        base: Box::new(call(path(&["reqwest", "get"], 2), vec![], 2)),
        offset: 2,
    });
    assert!(!r.is_mutate());
}

#[test]
fn http_call_is_detected_inside_a_chain() {
    let chain = Expr::Group {
        children: vec![call(
            path(&["reqwest", "Client", "new"], 3),
            vec![],
            3,
        )],
        offset: 3,
    };
    let mut r = ReqwestVisitor::new();
    r.visit_expr(&chain);
    assert!(r.is_mutate());
}
