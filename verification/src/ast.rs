//! The expression tree that the instrumentation works on.
//!
//! A function body is modelled as a tree of `Expr` nodes holding exactly
//! what the span-placement rules read: call paths, literal and identifier
//! arguments, await points, early-return points, closures, nested function
//! definitions, and an opaque `Group` for every other composite node.  Each
//! node carries the byte offset of its source text.  Three synthetic
//! variants exist only in rewritten trees: a named span opened around an
//! expression, an attribute recorded on the active span, and an
//! error-status mark on an early return.
//!
//! Every exec type has a spec-level view (`ExprV` and friends) over `Seq`,
//! and the contracts of this crate speak of those views.

use vstd::prelude::*;

verus! {

/// Diagnostic position: 1-based line number and the line's text with
/// leading whitespace removed.
#[derive(Clone, Debug, PartialEq, Eq)]
pub struct LineInfo {
    pub number: usize,
    pub text: Vec<u8>,
}

#[verifier::ext_equal]
pub struct LineInfoV {
    pub number: usize,
    pub text: Seq<u8>,
}

impl View for LineInfo {
    type V = LineInfoV;

    open spec fn view(&self) -> LineInfoV {
        LineInfoV { number: self.number, text: self.text@ }
    }
}

/// The declared return type of a function, reduced to what the rules read:
/// absent, a path type's last segment name, or anything else.
#[derive(Clone, Debug, PartialEq, Eq)]
pub enum RetDecl {
    Default,
    Named { name: String },
    Other,
}

#[verifier::ext_equal]
pub enum RetDeclV {
    Default,
    Named { name: Seq<char> },
    Other,
}

impl View for RetDecl {
    type V = RetDeclV;

    open spec fn view(&self) -> RetDeclV {
        match self {
            RetDecl::Default => RetDeclV::Default,
            RetDecl::Named { name } => RetDeclV::Named { name: name@ },
            RetDecl::Other => RetDeclV::Other,
        }
    }
}

#[derive(Debug, PartialEq, Eq)]
pub enum Expr {
    /// A literal expression.
    Lit { text: String, offset: usize },
    /// A plain path expression, one string per segment.
    Path { segments: Vec<String>, offset: usize },
    /// A function call: callee expression and arguments.
    Call { func: Box<Expr>, args: Vec<Expr>, offset: usize },
    /// An await of the base expression.
    Await { base: Box<Expr>, offset: usize },
    /// An early-return (`?`) applied to the inner expression.
    Try { inner: Box<Expr>, offset: usize },
    /// A closure with the given body.
    Closure { body: Box<Expr>, offset: usize },
    /// A function item defined inside a body.
    NestedFn { func: Box<Function>, offset: usize },
    /// Any other node, kept only as the list of its child expressions.
    Group { children: Vec<Expr>, offset: usize },
    /// Synthetic: open a span with this name (and line attributes) around
    /// the inner expression; the span ends when the inner expression is
    /// done.
    SpanBlock { name: String, line: Option<LineInfo>, inner: Box<Expr> },
    /// Synthetic: record an attribute on the active span, then evaluate the
    /// inner expression; the value expression supplies the attribute text.
    Attributed { key: String, value: Box<Expr>, inner: Box<Expr> },
    /// Synthetic: on an error result of the inner expression, set error
    /// status (and line attributes) on the active span before propagating.
    ErrMark { line: Option<LineInfo>, inner: Box<Expr> },
}

/// A function definition: its name, asyncness, declared return type, and
/// body statements.
#[derive(Debug, PartialEq, Eq)]
pub struct Function {
    pub name: String,
    pub is_async: bool,
    pub ret: RetDecl,
    pub body: Vec<Expr>,
}

#[verifier::ext_equal]
pub enum ExprV {
    Lit { text: Seq<char>, offset: usize },
    Path { segments: Seq<Seq<char>>, offset: usize },
    Call { func: Box<ExprV>, args: Seq<ExprV>, offset: usize },
    Await { base: Box<ExprV>, offset: usize },
    Try { inner: Box<ExprV>, offset: usize },
    Closure { body: Box<ExprV>, offset: usize },
    NestedFn { func: Box<FunctionV>, offset: usize },
    Group { children: Seq<ExprV>, offset: usize },
    SpanBlock { name: Seq<char>, line: Option<LineInfoV>, inner: Box<ExprV> },
    Attributed { key: Seq<char>, value: Box<ExprV>, inner: Box<ExprV> },
    ErrMark { line: Option<LineInfoV>, inner: Box<ExprV> },
}

#[verifier::ext_equal]
pub struct FunctionV {
    pub name: Seq<char>,
    pub is_async: bool,
    pub ret: RetDeclV,
    pub body: Seq<ExprV>,
}

pub open spec fn view_line_opt(l: Option<LineInfo>) -> Option<LineInfoV> {
    match l {
        Option::None => Option::None,
        Option::Some(li) => Option::Some(li@),
    }
}

pub open spec fn view_expr(e: Expr) -> ExprV
    decreases e,
{
    match e {
        Expr::Lit { text, offset } => ExprV::Lit { text: text@, offset },
        Expr::Path { segments, offset } => ExprV::Path { segments: segments.deep_view(), offset },
        Expr::Call { func, args, offset } => ExprV::Call {
            func: Box::new(view_expr(*func)),
            args: view_expr_seq(args@),
            offset,
        },
        Expr::Await { base, offset } => ExprV::Await { base: Box::new(view_expr(*base)), offset },
        Expr::Try { inner, offset } => ExprV::Try { inner: Box::new(view_expr(*inner)), offset },
        Expr::Closure { body, offset } => ExprV::Closure {
            body: Box::new(view_expr(*body)),
            offset,
        },
        Expr::NestedFn { func, offset } => ExprV::NestedFn {
            func: Box::new(view_function(*func)),
            offset,
        },
        Expr::Group { children, offset } => ExprV::Group {
            children: view_expr_seq(children@),
            offset,
        },
        Expr::SpanBlock { name, line, inner } => ExprV::SpanBlock {
            name: name@,
            line: view_line_opt(line),
            inner: Box::new(view_expr(*inner)),
        },
        Expr::Attributed { key, value, inner } => ExprV::Attributed {
            key: key@,
            value: Box::new(view_expr(*value)),
            inner: Box::new(view_expr(*inner)),
        },
        Expr::ErrMark { line, inner } => ExprV::ErrMark {
            line: view_line_opt(line),
            inner: Box::new(view_expr(*inner)),
        },
    }
}

pub open spec fn view_expr_seq(v: Seq<Expr>) -> Seq<ExprV>
    decreases v,
{
    if v.len() == 0 {
        Seq::empty()
    } else {
        view_expr_seq(v.drop_last()).push(view_expr(v.last()))
    }
}

pub open spec fn view_function(f: Function) -> FunctionV
    decreases f,
{
    FunctionV { name: f.name@, is_async: f.is_async, ret: f.ret@, body: view_expr_seq(f.body@) }
}

impl View for Expr {
    type V = ExprV;

    open spec fn view(&self) -> ExprV {
        view_expr(*self)
    }
}

impl View for Function {
    type V = FunctionV;

    open spec fn view(&self) -> FunctionV {
        view_function(*self)
    }
}

pub broadcast proof fn lemma_view_expr_seq_len(v: Seq<Expr>)
    ensures
        (#[trigger] view_expr_seq(v)).len() == v.len(),
    decreases v,
{
    if v.len() > 0 {
        lemma_view_expr_seq_len(v.drop_last());
    }
}

pub broadcast proof fn lemma_view_expr_seq_index(v: Seq<Expr>, i: int)
    requires
        0 <= i < v.len(),
    ensures
        #[trigger] view_expr_seq(v)[i] == view_expr(v[i]),
    decreases v,
{
    lemma_view_expr_seq_len(v);
    if v.len() > 0 {
        if i == v.len() - 1 {
            lemma_view_expr_seq_len(v.drop_last());
        } else {
            lemma_view_expr_seq_index(v.drop_last(), i);
        }
    }
}

pub proof fn lemma_view_expr_seq_push(v: Seq<Expr>, x: Expr)
    ensures
        view_expr_seq(v.push(x)) == view_expr_seq(v).push(view_expr(x)),
{
    assert(v.push(x).drop_last() =~= v);
    assert(v.push(x).last() == x);
}

pub fn copy_ret(r: &RetDecl) -> (c: RetDecl)
    ensures
        c@ == r@,
{
    match r {
        RetDecl::Default => RetDecl::Default,
        RetDecl::Named { name } => RetDecl::Named { name: name.clone() },
        RetDecl::Other => RetDecl::Other,
    }
}

pub fn copy_line_opt(l: &Option<LineInfo>) -> (r: Option<LineInfo>)
    ensures
        view_line_opt(r) == view_line_opt(*l),
{
    match l {
        Option::None => Option::None,
        Option::Some(li) => {
            let mut text: Vec<u8> = Vec::new();
            let mut i: usize = 0;
            while i < li.text.len()
                invariant
                    0 <= i <= li.text@.len(),
                    text@ =~= li.text@.subrange(0, i as int),
                decreases li.text@.len() - i,
            {
                text.push(li.text[i]);
                i += 1;
            }
            proof {
                assert(text@ =~= li.text@);
            }
            Option::Some(LineInfo { number: li.number, text })
        },
    }
}

pub fn copy_strings(v: &Vec<String>) -> (r: Vec<String>)
    ensures
        r.deep_view() == v.deep_view(),
{
    let mut out: Vec<String> = Vec::new();
    let mut i: usize = 0;
    while i < v.len()
        invariant
            0 <= i <= v@.len(),
            out@.len() == i,
            forall|k: int| 0 <= k < i ==> #[trigger] out@[k]@ == v@[k]@,
        decreases v@.len() - i,
    {
        out.push(v[i].clone());
        i += 1;
    }
    proof {
        assert(out.deep_view() =~~= v.deep_view());
    }
    out
}

/// A structural copy; the copy has the same view as the original.
pub fn clone_expr(e: &Expr) -> (r: Expr)
    ensures
        r@ == e@,
    decreases *e,
{
    match e {
        Expr::Lit { text, offset } => Expr::Lit { text: text.clone(), offset: *offset },
        Expr::Path { segments, offset } => Expr::Path {
            segments: copy_strings(segments),
            offset: *offset,
        },
        Expr::Call { func, args, offset } => {
            let f = clone_expr(func);
            let a = clone_expr_vec(args);
            proof {
                lemma_view_expr_seq_of_views(a@, args@);
            }
            Expr::Call { func: Box::new(f), args: a, offset: *offset }
        },
        Expr::Await { base, offset } => Expr::Await {
            base: Box::new(clone_expr(base)),
            offset: *offset,
        },
        Expr::Try { inner, offset } => Expr::Try {
            inner: Box::new(clone_expr(inner)),
            offset: *offset,
        },
        Expr::Closure { body, offset } => Expr::Closure {
            body: Box::new(clone_expr(body)),
            offset: *offset,
        },
        Expr::NestedFn { func, offset } => Expr::NestedFn {
            func: Box::new(clone_function(func)),
            offset: *offset,
        },
        Expr::Group { children, offset } => {
            let c = clone_expr_vec(children);
            proof {
                lemma_view_expr_seq_of_views(c@, children@);
            }
            Expr::Group { children: c, offset: *offset }
        },
        Expr::SpanBlock { name, line, inner } => Expr::SpanBlock {
            name: name.clone(),
            line: copy_line_opt(line),
            inner: Box::new(clone_expr(inner)),
        },
        Expr::Attributed { key, value, inner } => Expr::Attributed {
            key: key.clone(),
            value: Box::new(clone_expr(value)),
            inner: Box::new(clone_expr(inner)),
        },
        Expr::ErrMark { line, inner } => Expr::ErrMark {
            line: copy_line_opt(line),
            inner: Box::new(clone_expr(inner)),
        },
    }
}

/// Two expression lists whose members have pairwise equal views have equal
/// view sequences.
proof fn lemma_view_expr_seq_of_views(a: Seq<Expr>, b: Seq<Expr>)
    requires
        a.len() == b.len(),
        forall|k: int| 0 <= k < a.len() ==> #[trigger] view_expr(a[k]) == view_expr(b[k]),
    ensures
        view_expr_seq(a) == view_expr_seq(b),
    decreases a,
{
    if a.len() > 0 {
        lemma_view_expr_seq_of_views(a.drop_last(), b.drop_last());
        assert(view_expr(a.last()) == view_expr(b.last()));
    }
}

fn clone_expr_vec(v: &Vec<Expr>) -> (r: Vec<Expr>)
    ensures
        r@.len() == v@.len(),
        forall|k: int| 0 <= k < v@.len() ==> #[trigger] view_expr(r@[k]) == view_expr(v@[k]),
    decreases v,
{
    let mut out: Vec<Expr> = Vec::new();
    let n = v.len();
    let mut i: usize = 0;
    while i < n
        invariant
            n == v@.len(),
            0 <= i <= n,
            out@.len() == i,
            forall|k: int| 0 <= k < i ==> #[trigger] view_expr(out@[k]) == view_expr(v@[k]),
        decreases n - i,
    {
        let c = clone_expr(&v[i]);
        out.push(c);
        i += 1;
    }
    out
}

/// A structural copy; the copy has the same view as the original.
pub fn clone_function(f: &Function) -> (r: Function)
    ensures
        r@ == f@,
    decreases *f,
{
    let ret = copy_ret(&f.ret);
    let body = clone_expr_vec(&f.body);
    proof {
        lemma_view_expr_seq_of_views(body@, f.body@);
    }
    Function { name: f.name.clone(), is_async: f.is_async, ret, body }
}

impl Clone for Expr {
    /// A structural copy; the copy has the same view as the original.
    fn clone(&self) -> (r: Expr)
        ensures
            r@ == self@,
    {
        clone_expr(self)
    }
}

impl Clone for Function {
    /// A structural copy; the copy has the same view as the original.
    fn clone(&self) -> (r: Function)
        ensures
            r@ == self@,
    {
        clone_function(self)
    }
}

} // verus!
