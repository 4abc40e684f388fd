use auto_span::path::{path_match, path_starts_with, PathPat};

fn p(s: &str) -> Vec<String> {
    s.split("::").map(|x| x.to_string()).collect()
}

fn pat(s: &str) -> PathPat {
    PathPat::single(s.to_string())
}

fn patv(v: Vec<&str>) -> PathPat {
    PathPat::of_alternatives(v.into_iter().map(|s| vec![s.to_string()]).collect())
}

fn patvv(vv: Vec<Vec<&str>>) -> PathPat {
    PathPat::of_alternatives(
        vv.into_iter()
            .map(|v| v.into_iter().map(|s| s.to_string()).collect())
            .collect(),
    )
}

#[test]
fn test_path_match() {
    assert!(path_match(&p("a"), &pat("a")));
    assert!(!path_match(&p("a"), &pat("b")));
    assert!(path_match(&p("a"), &pat("*")));
    assert!(!path_match(&p("a::b"), &pat("a")));
    assert!(path_match(&p("a::b"), &patv(vec!["a", "b"])));
    assert!(!path_match(&p("a::b"), &patv(vec!["a", "b", "c"])));
    assert!(path_match(&p("a::b::c"), &patv(vec!["a", "b", "*"])));
    assert!(path_match(&p("a::b::c"), &patv(vec!["a", "*", "c"])));
    assert!(path_match(&p("a::b::c"), &patv(vec!["*", "b", "c"])));
    assert!(!path_match(&p("a::b::c"), &patv(vec!["*", "*", "d"])));
    assert!(path_match(&p("a"), &patvv(vec![vec!["a"]])));
    assert!(path_match(&p("a"), &patvv(vec![vec!["a", "b"]])));
    assert!(!path_match(&p("a"), &patvv(vec![vec!["b", "c"]])));
}

#[test]
fn test_path_starts_with() {
    assert!(path_starts_with(&p("a"), &pat("a")));
    assert!(!path_starts_with(&p("a"), &pat("b")));
    assert!(path_starts_with(&p("a"), &pat("*")));
    assert!(path_starts_with(&p("a::b"), &pat("a")));
    assert!(!path_starts_with(&p("a::b"), &pat("b")));
    assert!(path_starts_with(&p("a::b"), &patv(vec!["a", "b"])));
    assert!(path_starts_with(&p("a::b"), &patv(vec!["a", "*"])));
    assert!(!path_starts_with(&p("a"), &patv(vec!["a", "*"])));
    assert!(path_starts_with(
        &p("a::b::c"),
        &patvv(vec![vec!["a"], vec!["b", "bb"]])
    ));
    assert!(!path_starts_with(
        &p("a::b::c"),
        &patvv(vec![vec!["a"], vec!["c"]])
    ));
}

#[test]
fn test_string_eq() {
    assert!(auto_span::path::string_eq(
        &String::from("ab"),
        &String::from("ab")
    ));
    assert!(!auto_span::path::string_eq(
        &String::from("ab"),
        &String::from("ba")
    ));
}
