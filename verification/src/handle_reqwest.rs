//! Detection of outbound HTTP-client calls.
//!
//! A call expression is a tracked HTTP call when its callee path starts
//! with `reqwest::` followed by any one segment.  The visitor searches an
//! awaited expression's tree for such a call, without descending past a
//! nested await: only the immediately awaited future's construction
//! counts.

use vstd::prelude::*;

use crate::ast::{Expr, ExprV, view_expr};
use crate::path::{PathPat, path_starts_with, spec_path_starts_with};

verus! {

/// The callee-path pattern of the tracked HTTP client: `reqwest::<any>`.
pub open spec fn reqwest_pattern() -> Seq<Seq<Seq<char>>> {
    seq![seq!["reqwest"@], seq!["*"@]]
}

/// Is this callee expression a path into the tracked HTTP client?
pub open spec fn spec_is_reqwest(func: ExprV) -> bool {
    match func {
        ExprV::Path { segments, offset } => spec_path_starts_with(segments, reqwest_pattern()),
        _ => false,
    }
}

/// Does the tree hold a tracked HTTP call, not separated from the root by
/// an await boundary?
pub open spec fn spec_reqwest_found(e: ExprV) -> bool
    decreases e,
{
    match e {
        ExprV::Lit { .. } => false,
        ExprV::Path { .. } => false,
        ExprV::Call { func, args, .. } => spec_is_reqwest(*func) || spec_reqwest_found(*func)
            || spec_reqwest_found_seq(args),
        ExprV::Await { .. } => false,
        ExprV::Try { inner, .. } => spec_reqwest_found(*inner),
        ExprV::Closure { body, .. } => spec_reqwest_found(*body),
        ExprV::NestedFn { func, .. } => spec_reqwest_found_seq(func.body),
        ExprV::Group { children, .. } => spec_reqwest_found_seq(children),
        ExprV::SpanBlock { inner, .. } => spec_reqwest_found(*inner),
        ExprV::Attributed { value, inner, .. } => spec_reqwest_found(*value)
            || spec_reqwest_found(*inner),
        ExprV::ErrMark { inner, .. } => spec_reqwest_found(*inner),
    }
}

pub open spec fn spec_reqwest_found_seq(v: Seq<ExprV>) -> bool
    decreases v,
{
    if v.len() == 0 {
        false
    } else {
        spec_reqwest_found_seq(v.drop_last()) || spec_reqwest_found(v.last())
    }
}

proof fn lemma_reqwest_found_seq_push(v: Seq<ExprV>, x: ExprV)
    ensures
        spec_reqwest_found_seq(v.push(x)) == (spec_reqwest_found_seq(v) || spec_reqwest_found(x)),
{
    assert(v.push(x).drop_last() =~= v);
    assert(v.push(x).last() == x);
}

/// Build the HTTP-client callee pattern.
fn reqwest_pat() -> (p: PathPat)
    ensures
        p@ == reqwest_pattern(),
{
    let mut a0: Vec<String> = Vec::new();
    a0.push(String::from_str("reqwest"));
    let mut a1: Vec<String> = Vec::new();
    a1.push(String::from_str("*"));
    let mut segs: Vec<Vec<String>> = Vec::new();
    segs.push(a0);
    segs.push(a1);
    proof {
        assert(segs.deep_view()[0] == segs@[0].deep_view());
        assert(segs.deep_view()[1] == segs@[1].deep_view());
        assert(segs@[0].deep_view()[0] == segs@[0]@[0]@);
        assert(segs@[1].deep_view()[0] == segs@[1]@[0]@);
        assert(segs.deep_view() =~~= reqwest_pattern());
    }
    PathPat::of_alternatives(segs)
}

/// Is this callee expression a path into the tracked HTTP client?
pub fn is_reqwest(func: &Expr) -> (r: bool)
    ensures
        r == spec_is_reqwest(func@),
{
    match func {
        Expr::Path { segments, offset } => {
            let pat = reqwest_pat();
            path_starts_with(segments, &pat)
        },
        _ => false,
    }
}

/// Searches an awaited expression for a tracked HTTP call.
pub struct ReqwestVisitor {
    pub mutate: bool,
}

impl ReqwestVisitor {
    pub fn new() -> (s: ReqwestVisitor)
        ensures
            !s.mutate,
    {
        ReqwestVisitor { mutate: false }
    }

    /// Whether any visited tree held a tracked HTTP call.
    pub fn is_mutate(&self) -> (r: bool)
        ensures
            r == self.mutate,
    {
        self.mutate
    }

    /// Record whether the tree holds a tracked HTTP call reachable without
    /// crossing an await boundary.
    pub fn visit_expr(&mut self, e: &Expr)
        ensures
            final(self).mutate == (old(self).mutate || spec_reqwest_found(e@)),
        decreases *e,
    {
        match e {
            Expr::Call { func, args, offset } => {
                if is_reqwest(func) {
                    self.mutate = true;
                } else {
                    self.visit_expr(func);
                    self.visit_expr_vec(args);
                }
            },
            Expr::Await { base, offset } => {},
            Expr::Lit { text, offset } => {},
            Expr::Path { segments, offset } => {},
            Expr::Try { inner, offset } => {
                self.visit_expr(inner);
            },
            Expr::Closure { body, offset } => {
                self.visit_expr(body);
            },
            Expr::NestedFn { func, offset } => {
                self.visit_expr_vec(&func.body);
                proof {
                    assert(e@ == ExprV::NestedFn {
                        func: Box::new(crate::ast::view_function(**func)),
                        offset: *offset,
                    });
                    assert(crate::ast::view_function(**func).body == crate::ast::view_expr_seq(
                        func.body@,
                    ));
                }
            },
            Expr::Group { children, offset } => {
                self.visit_expr_vec(children);
            },
            Expr::SpanBlock { name, line, inner } => {
                self.visit_expr(inner);
            },
            Expr::Attributed { key, value, inner } => {
                self.visit_expr(value);
                self.visit_expr(inner);
            },
            Expr::ErrMark { line, inner } => {
                self.visit_expr(inner);
            },
        }
    }

    fn visit_expr_vec(&mut self, v: &Vec<Expr>)
        ensures
            final(self).mutate == (old(self).mutate || spec_reqwest_found_seq(
                crate::ast::view_expr_seq(v@),
            )),
        decreases *v,
    {
        let n = v.len();
        let mut i: usize = 0;
        while i < n
            invariant
                n == v@.len(),
                0 <= i <= n,
                self.mutate == (old(self).mutate || spec_reqwest_found_seq(
                    crate::ast::view_expr_seq(v@.subrange(0, i as int)),
                )),
            decreases n - i,
        {
            let ghost prefix = v@.subrange(0, i as int);
            self.visit_expr(&v[i]);
            proof {
                assert(v@.subrange(0, i + 1) =~= prefix.push(v@[i as int]));
                crate::ast::lemma_view_expr_seq_push(prefix, v@[i as int]);
                lemma_reqwest_found_seq_push(
                    crate::ast::view_expr_seq(prefix),
                    view_expr(v@[i as int]),
                );
            }
            i += 1;
        }
        proof {
            assert(v@.subrange(0, n as int) =~= v@);
        }
    }
}

} // verus!
