//! Detection and annotation of tracked query-execution calls.
//!
//! A call expression is a tracked query call when its callee path is
//! exactly `sqlx::<one of the query functions>` and its first argument is
//! a literal or a plain identifier — only such an argument is taken as the
//! query text; a call with any other argument shape is not matched at all.
//! The visitor searches an awaited expression's tree, without descending
//! past a nested await, and wraps each matched call so that the query text
//! is recorded as the `db.statement` attribute of the active span.

use vstd::prelude::*;

use crate::ast::{
    Expr, ExprV, Function, FunctionV, clone_expr, copy_line_opt, copy_ret, view_expr,
    view_expr_seq,
};
use crate::path::{PathPat, path_match, spec_path_match};

verus! {

/// The callee paths of the tracked data-access library: `sqlx::` followed
/// by one of its query functions.
pub open spec fn sqlx_pattern() -> Seq<Seq<Seq<char>>> {
    seq![
        seq!["sqlx"@],
        seq![
            "query"@,
            "query_as"@,
            "query_as_with"@,
            "query_scalar"@,
            "query_scalar_with"@,
            "query_with"@,
            "raw_sql"@,
        ],
    ]
}

/// Is this callee expression a path naming a tracked query function?
pub open spec fn spec_is_sqlx_query(func: ExprV) -> bool {
    match func {
        ExprV::Path { segments, offset } => spec_path_match(segments, sqlx_pattern()),
        _ => false,
    }
}

/// The query-text argument of a tracked query call: its first argument,
/// when that is a literal or a plain identifier; anything else makes the
/// call unmatched.
pub open spec fn spec_sqlx_arg(e: ExprV) -> Option<ExprV> {
    match e {
        ExprV::Call { func, args, offset } => if spec_is_sqlx_query(*func) && args.len() >= 1 && (
        args[0] is Lit || args[0] is Path) {
            Option::Some(args[0])
        } else {
            Option::None
        },
        _ => Option::None,
    }
}

/// Does the tree hold a tracked query call, not separated from the root
/// by an await boundary?
pub open spec fn spec_sqlx_found(e: ExprV) -> bool
    decreases e,
{
    match e {
        ExprV::Lit { .. } => false,
        ExprV::Path { .. } => false,
        ExprV::Call { func, args, .. } => spec_sqlx_arg(e) is Some || spec_sqlx_found(*func)
            || spec_sqlx_found_seq(args),
        ExprV::Await { .. } => false,
        ExprV::Try { inner, .. } => spec_sqlx_found(*inner),
        ExprV::Closure { body, .. } => spec_sqlx_found(*body),
        ExprV::NestedFn { func, .. } => spec_sqlx_found_seq(func.body),
        ExprV::Group { children, .. } => spec_sqlx_found_seq(children),
        ExprV::SpanBlock { inner, .. } => spec_sqlx_found(*inner),
        ExprV::Attributed { value, inner, .. } => spec_sqlx_found(*value) || spec_sqlx_found(
            *inner,
        ),
        ExprV::ErrMark { inner, .. } => spec_sqlx_found(*inner),
    }
}

pub open spec fn spec_sqlx_found_seq(v: Seq<ExprV>) -> bool
    decreases v,
{
    if v.len() == 0 {
        false
    } else {
        spec_sqlx_found_seq(v.drop_last()) || spec_sqlx_found(v.last())
    }
}

/// The tree with each tracked query call (reachable without crossing an
/// await) wrapped so its query text is recorded on the active span; the
/// wrapped call's own subtree is left untouched.
pub open spec fn spec_sqlx_mark(e: ExprV) -> ExprV
    decreases e,
{
    match e {
        ExprV::Lit { .. } => e,
        ExprV::Path { .. } => e,
        ExprV::Call { func, args, offset } => match spec_sqlx_arg(e) {
            Option::Some(sql) => ExprV::Attributed {
                key: "db.statement"@,
                value: Box::new(sql),
                inner: Box::new(e),
            },
            Option::None => ExprV::Call {
                func: Box::new(spec_sqlx_mark(*func)),
                args: spec_sqlx_mark_seq(args),
                offset,
            },
        },
        ExprV::Await { .. } => e,
        ExprV::Try { inner, offset } => ExprV::Try {
            inner: Box::new(spec_sqlx_mark(*inner)),
            offset,
        },
        ExprV::Closure { body, offset } => ExprV::Closure {
            body: Box::new(spec_sqlx_mark(*body)),
            offset,
        },
        ExprV::NestedFn { func, offset } => ExprV::NestedFn {
            func: Box::new(
                FunctionV {
                    name: func.name,
                    is_async: func.is_async,
                    ret: func.ret,
                    body: spec_sqlx_mark_seq(func.body),
                },
            ),
            offset,
        },
        ExprV::Group { children, offset } => ExprV::Group {
            children: spec_sqlx_mark_seq(children),
            offset,
        },
        ExprV::SpanBlock { name, line, inner } => ExprV::SpanBlock {
            name,
            line,
            inner: Box::new(spec_sqlx_mark(*inner)),
        },
        ExprV::Attributed { key, value, inner } => ExprV::Attributed {
            key,
            value: Box::new(spec_sqlx_mark(*value)),
            inner: Box::new(spec_sqlx_mark(*inner)),
        },
        ExprV::ErrMark { line, inner } => ExprV::ErrMark {
            line,
            inner: Box::new(spec_sqlx_mark(*inner)),
        },
    }
}

pub open spec fn spec_sqlx_mark_seq(v: Seq<ExprV>) -> Seq<ExprV>
    decreases v,
{
    if v.len() == 0 {
        Seq::empty()
    } else {
        spec_sqlx_mark_seq(v.drop_last()).push(spec_sqlx_mark(v.last()))
    }
}

proof fn lemma_sqlx_found_seq_push(v: Seq<ExprV>, x: ExprV)
    ensures
        spec_sqlx_found_seq(v.push(x)) == (spec_sqlx_found_seq(v) || spec_sqlx_found(x)),
{
    assert(v.push(x).drop_last() =~= v);
    assert(v.push(x).last() == x);
}

proof fn lemma_sqlx_mark_seq_push(v: Seq<ExprV>, x: ExprV)
    ensures
        spec_sqlx_mark_seq(v.push(x)) == spec_sqlx_mark_seq(v).push(spec_sqlx_mark(x)),
{
    assert(v.push(x).drop_last() =~= v);
    assert(v.push(x).last() == x);
}

/// A tree without a tracked query call — in particular one whose calls
/// all name unrecognized library paths, whatever their argument shapes —
/// is never wrapped: the rewrite returns it unchanged.
pub proof fn lemma_sqlx_mark_identity(e: ExprV)
    requires
        !spec_sqlx_found(e),
    ensures
        spec_sqlx_mark(e) == e,
    decreases e,
{
    match e {
        ExprV::Lit { .. } => {},
        ExprV::Path { .. } => {},
        ExprV::Call { func, args, offset } => {
            lemma_sqlx_mark_identity(*func);
            lemma_sqlx_mark_seq_identity(args);
            assert(spec_sqlx_mark(e) =~= e);
        },
        ExprV::Await { .. } => {},
        ExprV::Try { inner, offset } => {
            lemma_sqlx_mark_identity(*inner);
            assert(spec_sqlx_mark(e) =~= e);
        },
        ExprV::Closure { body, offset } => {
            lemma_sqlx_mark_identity(*body);
            assert(spec_sqlx_mark(e) =~= e);
        },
        ExprV::NestedFn { func, offset } => {
            lemma_sqlx_mark_seq_identity(func.body);
            assert(FunctionV {
                name: func.name,
                is_async: func.is_async,
                ret: func.ret,
                body: spec_sqlx_mark_seq(func.body),
            } =~= *func);
            assert(spec_sqlx_mark(e) =~= e);
        },
        ExprV::Group { children, offset } => {
            lemma_sqlx_mark_seq_identity(children);
            assert(spec_sqlx_mark(e) =~= e);
        },
        ExprV::SpanBlock { name, line, inner } => {
            lemma_sqlx_mark_identity(*inner);
            assert(spec_sqlx_mark(e) =~= e);
        },
        ExprV::Attributed { key, value, inner } => {
            lemma_sqlx_mark_identity(*value);
            lemma_sqlx_mark_identity(*inner);
            assert(spec_sqlx_mark(e) =~= e);
        },
        ExprV::ErrMark { line, inner } => {
            lemma_sqlx_mark_identity(*inner);
            assert(spec_sqlx_mark(e) =~= e);
        },
    }
}

pub proof fn lemma_sqlx_mark_seq_identity(v: Seq<ExprV>)
    requires
        !spec_sqlx_found_seq(v),
    ensures
        spec_sqlx_mark_seq(v) == v,
    decreases v,
{
    if v.len() > 0 {
        lemma_sqlx_mark_seq_identity(v.drop_last());
        lemma_sqlx_mark_identity(v.last());
        assert(spec_sqlx_mark_seq(v) =~= v);
    }
}

/// Build the tracked query callee pattern.
fn sqlx_pat() -> (p: PathPat)
    ensures
        p@ == sqlx_pattern(),
{
    let mut a0: Vec<String> = Vec::new();
    a0.push(String::from_str("sqlx"));
    let mut a1: Vec<String> = Vec::new();
    a1.push(String::from_str("query"));
    a1.push(String::from_str("query_as"));
    a1.push(String::from_str("query_as_with"));
    a1.push(String::from_str("query_scalar"));
    a1.push(String::from_str("query_scalar_with"));
    a1.push(String::from_str("query_with"));
    a1.push(String::from_str("raw_sql"));
    let mut segs: Vec<Vec<String>> = Vec::new();
    segs.push(a0);
    segs.push(a1);
    proof {
        assert(segs.deep_view()[0] == segs@[0].deep_view());
        assert(segs.deep_view()[1] == segs@[1].deep_view());
        assert(segs@[0].deep_view()[0] == segs@[0]@[0]@);
        assert forall|j: int| 0 <= j < 7 implies #[trigger] segs@[1].deep_view()[j]
            == segs@[1]@[j]@ by {}
        assert(segs.deep_view() =~~= sqlx_pattern());
    }
    PathPat::of_alternatives(segs)
}

/// Is this callee expression a path naming a tracked query function?
pub fn is_sqlx_query(func: &Expr) -> (r: bool)
    ensures
        r == spec_is_sqlx_query(func@),
{
    match func {
        Expr::Path { segments, offset } => {
            let pat = sqlx_pat();
            path_match(segments, &pat)
        },
        _ => false,
    }
}

/// Searches an awaited expression for tracked query calls and wraps each
/// so its query text is recorded on the active span.
pub struct SqlxVisitor {
    pub mutate: bool,
}

impl SqlxVisitor {
    pub fn new() -> (s: SqlxVisitor)
        ensures
            !s.mutate,
    {
        SqlxVisitor { mutate: false }
    }

    /// Whether any visited tree held a tracked query call.
    pub fn is_mutate(&self) -> (r: bool)
        ensures
            r == self.mutate,
    {
        self.mutate
    }

    /// The query-text argument of a tracked query call, if this is one.
    fn try_sqlx(&self, e: &Expr) -> (r: Option<Expr>)
        ensures
            match spec_sqlx_arg(e@) {
                Option::Some(sql) => r matches Option::Some(x) && x@ == sql,
                Option::None => r is None,
            },
    {
        match e {
            Expr::Call { func, args, offset } => {
                proof {
                    crate::ast::lemma_view_expr_seq_len(args@);
                }
                if !is_sqlx_query(func) {
                    return None;
                }
                if args.len() == 0 {
                    return None;
                }
                proof {
                    crate::ast::lemma_view_expr_seq_index(args@, 0);
                }
                match &args[0] {
                    Expr::Lit { text, offset } => Some(clone_expr(&args[0])),
                    Expr::Path { segments, offset } => Some(clone_expr(&args[0])),
                    _ => None,
                }
            },
            _ => None,
        }
    }

    /// Rewrite the tree, wrapping each tracked query call, and record
    /// whether any was found.
    pub fn visit_expr(&mut self, e: &Expr) -> (r: Expr)
        ensures
            r@ == spec_sqlx_mark(e@),
            final(self).mutate == (old(self).mutate || spec_sqlx_found(e@)),
        decreases *e,
    {
        match e {
            Expr::Call { func, args, offset } => {
                match self.try_sqlx(e) {
                    Option::Some(sql) => {
                        self.mutate = true;
                        let inner = clone_expr(e);
                        Expr::Attributed {
                            key: String::from_str("db.statement"),
                            value: Box::new(sql),
                            inner: Box::new(inner),
                        }
                    },
                    Option::None => {
                        let f = self.visit_expr(func);
                        let a = self.visit_expr_vec(args);
                        Expr::Call { func: Box::new(f), args: a, offset: *offset }
                    },
                }
            },
            Expr::Await { base, offset } => clone_expr(e),
            Expr::Lit { text, offset } => clone_expr(e),
            Expr::Path { segments, offset } => clone_expr(e),
            Expr::Try { inner, offset } => Expr::Try {
                inner: Box::new(self.visit_expr(inner)),
                offset: *offset,
            },
            Expr::Closure { body, offset } => Expr::Closure {
                body: Box::new(self.visit_expr(body)),
                offset: *offset,
            },
            Expr::NestedFn { func, offset } => {
                let body = self.visit_expr_vec(&func.body);
                let ghost body_v = view_expr_seq(body@);
                let nf = Function {
                    name: func.name.clone(),
                    is_async: func.is_async,
                    ret: copy_ret(&func.ret),
                    body,
                };
                let ghost nfv = crate::ast::view_function(nf);
                let r = Expr::NestedFn { func: Box::new(nf), offset: *offset };
                proof {
                    let fv = crate::ast::view_function(**func);
                    assert(e@ == ExprV::NestedFn { func: Box::new(fv), offset: *offset });
                    assert(fv.body == view_expr_seq(func.body@));
                    assert(r@ == ExprV::NestedFn { func: Box::new(nfv), offset: *offset });
                    assert(nfv.body == body_v);
                    assert(nfv =~= FunctionV {
                        name: fv.name,
                        is_async: fv.is_async,
                        ret: fv.ret,
                        body: spec_sqlx_mark_seq(fv.body),
                    });
                }
                r
            },
            Expr::Group { children, offset } => Expr::Group {
                children: self.visit_expr_vec(children),
                offset: *offset,
            },
            Expr::SpanBlock { name, line, inner } => Expr::SpanBlock {
                name: name.clone(),
                line: copy_line_opt(line),
                inner: Box::new(self.visit_expr(inner)),
            },
            Expr::Attributed { key, value, inner } => {
                let v = self.visit_expr(value);
                let i = self.visit_expr(inner);
                Expr::Attributed { key: key.clone(), value: Box::new(v), inner: Box::new(i) }
            },
            Expr::ErrMark { line, inner } => Expr::ErrMark {
                line: copy_line_opt(line),
                inner: Box::new(self.visit_expr(inner)),
            },
        }
    }

    fn visit_expr_vec(&mut self, v: &Vec<Expr>) -> (r: Vec<Expr>)
        ensures
            view_expr_seq(r@) == spec_sqlx_mark_seq(view_expr_seq(v@)),
            final(self).mutate == (old(self).mutate || spec_sqlx_found_seq(view_expr_seq(v@))),
        decreases *v,
    {
        let n = v.len();
        let mut out: Vec<Expr> = Vec::new();
        let mut i: usize = 0;
        while i < n
            invariant
                n == v@.len(),
                0 <= i <= n,
                out@.len() == i,
                view_expr_seq(out@) == spec_sqlx_mark_seq(view_expr_seq(v@.subrange(0, i as int))),
                self.mutate == (old(self).mutate || spec_sqlx_found_seq(
                    view_expr_seq(v@.subrange(0, i as int)),
                )),
            decreases n - i,
        {
            let ghost prefix = v@.subrange(0, i as int);
            let ghost out_before = out@;
            let x = self.visit_expr(&v[i]);
            out.push(x);
            proof {
                assert(v@.subrange(0, i + 1) =~= prefix.push(v@[i as int]));
                crate::ast::lemma_view_expr_seq_push(prefix, v@[i as int]);
                crate::ast::lemma_view_expr_seq_push(out_before, out@.last());
                assert(out@ =~= out_before.push(out@.last()));
                lemma_sqlx_found_seq_push(view_expr_seq(prefix), view_expr(v@[i as int]));
                lemma_sqlx_mark_seq_push(view_expr_seq(prefix), view_expr(v@[i as int]));
            }
            i += 1;
        }
        proof {
            assert(v@.subrange(0, n as int) =~= v@);
        }
        out
    }
}

} // verus!
