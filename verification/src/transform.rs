//! The transformation core: where spans are inserted in a function body.
//!
//! A depth-first visitor rewrites three kinds of node.  An await whose
//! awaited expression holds a tracked query call becomes a span named
//! `db` (with the query text recorded); one holding a tracked HTTP call
//! becomes a span named `http`; with every-await instrumentation enabled,
//! any other await becomes a span named `await`.  An early return under a
//! fallible return shape is rewritten to mark the active span with error
//! status first.  Closures get the unconstrained shape (a span opened
//! outside is not theirs to own), and nested function definitions are
//! left for their own expansion.  Wrapped nodes carry the line number and
//! trimmed text of their source line when the source was located.
//!
//! `auto_span` runs the visitor over a whole function and then wraps the
//! rewritten body in a function-level span named `fn:<name>`, unless the
//! configuration says otherwise.

use vstd::prelude::*;

use crate::ast::{
    Expr, ExprV, Function, FunctionV, LineInfo, LineInfoV, RetDecl, RetDeclV, clone_expr,
    copy_ret, view_expr, view_expr_seq, view_line_opt,
};
use crate::attr_options::Opt;
use crate::handle_reqwest::{ReqwestVisitor, spec_reqwest_found};
use crate::handle_sqlx::{SqlxVisitor, spec_sqlx_found, spec_sqlx_mark};
use crate::line::{LineAccess, spec_find_line};

verus! {

/// Is `needle` a contiguous part of `hay`?
pub open spec fn spec_str_contains(hay: Seq<char>, needle: Seq<char>) -> bool {
    exists|i: int|
        0 <= i && i + needle.len() <= hay.len() && #[trigger] hay.subrange(i, i + needle.len())
            == needle
}

fn match_at(hay: &str, needle: &str, i: usize) -> (r: bool)
    requires
        i + needle@.len() <= hay@.len(),
    ensures
        r == (hay@.subrange(i as int, i as int + needle@.len() as int) == needle@),
{
    let n = hay.unicode_len();
    let m = needle.unicode_len();
    let mut j: usize = 0;
    while j < m
        invariant
            n == hay@.len(),
            m == needle@.len(),
            i + m <= n,
            0 <= j <= m,
            forall|k: int| 0 <= k < j ==> hay@[i + k] == needle@[k],
        decreases m - j,
    {
        if hay.get_char(i + j) != needle.get_char(j) {
            proof {
                assert(hay@.subrange(i as int, i as int + m as int)[j as int] == hay@[i + j]);
            }
            return false;
        }
        j += 1;
    }
    proof {
        assert(hay@.subrange(i as int, i as int + m as int) =~= needle@);
    }
    true
}

/// Does `hay` contain `needle` as a contiguous part?
pub fn str_contains(hay: &str, needle: &str) -> (r: bool)
    ensures
        r == spec_str_contains(hay@, needle@),
{
    let n = hay.unicode_len();
    let m = needle.unicode_len();
    if m > n {
        return false;
    }
    if m == 0 {
        proof {
            assert(hay@.subrange(0, 0 + needle@.len() as int) =~= needle@);
        }
        return true;
    }
    let mut i: usize = 0;
    while i <= n - m
        invariant
            n == hay@.len(),
            m == needle@.len(),
            0 < m <= n,
            0 <= i <= n - m + 1,
            forall|k: int|
                0 <= k < i ==> #[trigger] hay@.subrange(k, k + needle@.len() as int) != needle@,
        decreases n - i,
    {
        if match_at(hay, needle, i) {
            return true;
        }
        i += 1;
    }
    false
}

/// The classification of a declared return type: carries an error case,
/// carries an absent case, or neither.
#[derive(Clone, Copy, Debug, PartialEq, Eq, Structural)]
pub enum ReturnShape {
    Unconstrained,
    Fallible,
    Optional,
}

/// The shape of a declared return type, read from its head name: one that
/// mentions `Result` is fallible, one that mentions `Option` is optional,
/// anything else is unconstrained.
pub open spec fn spec_shape_of(ret: RetDeclV) -> ReturnShape {
    match ret {
        RetDeclV::Default => ReturnShape::Unconstrained,
        RetDeclV::Other => ReturnShape::Unconstrained,
        RetDeclV::Named { name } => if spec_str_contains(name, "Result"@) {
            ReturnShape::Fallible
        } else if spec_str_contains(name, "Option"@) {
            ReturnShape::Optional
        } else {
            ReturnShape::Unconstrained
        },
    }
}

pub fn shape_of(ret: &RetDecl) -> (r: ReturnShape)
    ensures
        r == spec_shape_of(ret@),
{
    match ret {
        RetDecl::Default => ReturnShape::Unconstrained,
        RetDecl::Other => ReturnShape::Unconstrained,
        RetDecl::Named { name } => {
            if str_contains(name.as_str(), "Result") {
                ReturnShape::Fallible
            } else if str_contains(name.as_str(), "Option") {
                ReturnShape::Optional
            } else {
                ReturnShape::Unconstrained
            }
        },
    }
}

/// The byte offset of an expression's source text; synthetic nodes have
/// none and yield zero.
pub open spec fn spec_offset_of(e: ExprV) -> usize {
    match e {
        ExprV::Lit { offset, .. } => offset,
        ExprV::Path { offset, .. } => offset,
        ExprV::Call { offset, .. } => offset,
        ExprV::Await { offset, .. } => offset,
        ExprV::Try { offset, .. } => offset,
        ExprV::Closure { offset, .. } => offset,
        ExprV::NestedFn { offset, .. } => offset,
        ExprV::Group { offset, .. } => offset,
        ExprV::SpanBlock { .. } => 0,
        ExprV::Attributed { .. } => 0,
        ExprV::ErrMark { .. } => 0,
    }
}

fn offset_of(e: &Expr) -> (r: usize)
    ensures
        r == spec_offset_of(e@),
{
    match e {
        Expr::Lit { text, offset } => *offset,
        Expr::Path { segments, offset } => *offset,
        Expr::Call { func, args, offset } => *offset,
        Expr::Await { base, offset } => *offset,
        Expr::Try { inner, offset } => *offset,
        Expr::Closure { body, offset } => *offset,
        Expr::NestedFn { func, offset } => *offset,
        Expr::Group { children, offset } => *offset,
        Expr::SpanBlock { name, line, inner } => 0,
        Expr::Attributed { key, value, inner } => 0,
        Expr::ErrMark { line, inner } => 0,
    }
}

/// The line number and trimmed text at a byte offset, when the source was
/// located and some line contains the offset.
pub open spec fn spec_line_info_at(la: Option<LineAccess>, off: int) -> Option<LineInfoV> {
    match la {
        Option::None => Option::None,
        Option::Some(a) => match spec_find_line(a.lines@, off) {
            Option::None => Option::None,
            Option::Some(l) => Option::Some(
                LineInfoV { number: l.line_number, text: l.data@ },
            ),
        },
    }
}

/// The instrumented form of one expression, under a return shape, the
/// every-await flag, and the located source.
pub open spec fn spec_instrument(
    e: ExprV,
    shape: ReturnShape,
    all_await: bool,
    la: Option<LineAccess>,
) -> ExprV
    decreases e,
{
    match e {
        ExprV::Lit { .. } => e,
        ExprV::Path { .. } => e,
        ExprV::Call { func, args, offset } => ExprV::Call {
            func: Box::new(spec_instrument(*func, shape, all_await, la)),
            args: spec_instrument_seq(args, shape, all_await, la),
            offset,
        },
        ExprV::Await { base, offset } => if spec_sqlx_found(*base) {
            ExprV::SpanBlock {
                name: "db"@,
                line: spec_line_info_at(la, offset as int),
                inner: Box::new(ExprV::Await { base: Box::new(spec_sqlx_mark(*base)), offset }),
            }
        } else if spec_reqwest_found(*base) {
            ExprV::SpanBlock {
                name: "http"@,
                line: spec_line_info_at(la, offset as int),
                inner: Box::new(e),
            }
        } else if all_await {
            ExprV::SpanBlock {
                name: "await"@,
                line: spec_line_info_at(la, offset as int),
                inner: Box::new(e),
            }
        } else {
            ExprV::Await { base: Box::new(spec_instrument(*base, shape, all_await, la)), offset }
        },
        ExprV::Try { inner, offset } => if shape is Fallible {
            ExprV::Try {
                inner: Box::new(
                    ExprV::ErrMark {
                        line: spec_line_info_at(la, spec_offset_of(*inner) as int),
                        inner: Box::new(spec_instrument(*inner, shape, all_await, la)),
                    },
                ),
                offset,
            }
        } else {
            ExprV::Try { inner: Box::new(spec_instrument(*inner, shape, all_await, la)), offset }
        },
        ExprV::Closure { body, offset } => ExprV::Closure {
            body: Box::new(spec_instrument(*body, ReturnShape::Unconstrained, all_await, la)),
            offset,
        },
        ExprV::NestedFn { .. } => e,
        ExprV::Group { children, offset } => ExprV::Group {
            children: spec_instrument_seq(children, shape, all_await, la),
            offset,
        },
        ExprV::SpanBlock { .. } => e,
        ExprV::Attributed { .. } => e,
        ExprV::ErrMark { .. } => e,
    }
}

pub open spec fn spec_instrument_seq(
    v: Seq<ExprV>,
    shape: ReturnShape,
    all_await: bool,
    la: Option<LineAccess>,
) -> Seq<ExprV>
    decreases v,
{
    if v.len() == 0 {
        Seq::empty()
    } else {
        spec_instrument_seq(v.drop_last(), shape, all_await, la).push(
            spec_instrument(v.last(), shape, all_await, la),
        )
    }
}

proof fn lemma_instrument_seq_push(
    v: Seq<ExprV>,
    x: ExprV,
    shape: ReturnShape,
    all_await: bool,
    la: Option<LineAccess>,
)
    ensures
        spec_instrument_seq(v.push(x), shape, all_await, la) == spec_instrument_seq(
            v,
            shape,
            all_await,
            la,
        ).push(spec_instrument(x, shape, all_await, la)),
{
    assert(v.push(x).drop_last() =~= v);
    assert(v.push(x).last() == x);
}

/// The instrumented function: at the top of an expansion its body is
/// rewritten under its own return shape; a function reached inside
/// another's expansion is left for its own.
pub open spec fn spec_visit_fn(
    fv: FunctionV,
    at_top: bool,
    all_await: bool,
    la: Option<LineAccess>,
) -> FunctionV {
    if at_top {
        FunctionV {
            name: fv.name,
            is_async: fv.is_async,
            ret: fv.ret,
            body: spec_instrument_seq(fv.body, spec_shape_of(fv.ret), all_await, la),
        }
    } else {
        fv
    }
}

/// The function with its whole body enclosed in a span named
/// `fn:<name>`.
pub open spec fn spec_insert_function_span(fv: FunctionV) -> FunctionV {
    FunctionV {
        name: fv.name,
        is_async: fv.is_async,
        ret: fv.ret,
        body: seq![
            ExprV::SpanBlock {
                name: "fn:"@ + fv.name,
                line: Option::None,
                inner: Box::new(ExprV::Group { children: fv.body, offset: 0 }),
            },
        ],
    }
}

/// The whole transformation: instrument the body, and enclose it in a
/// function-level span unless the configuration disables that.
pub open spec fn spec_auto_span(
    o: crate::attr_options::OptV,
    fv: FunctionV,
    la: Option<LineAccess>,
) -> FunctionV {
    let visited = spec_visit_fn(fv, true, o.all_await, la);
    if o.func_span {
        spec_insert_function_span(visited)
    } else {
        visited
    }
}

/// The span-insertion visitor: the located source, the stack of enclosing
/// return shapes, and the every-await flag.
pub struct AutoSpanVisitor {
    pub line_access: Option<LineAccess>,
    pub context: Vec<ReturnShape>,
    pub all_await: bool,
}

impl AutoSpanVisitor {
    /// A located source, when present, has a well-formed line table.
    pub open spec fn wf(&self) -> bool {
        match self.line_access {
            Option::Some(la) => la.wf(),
            Option::None => true,
        }
    }

    pub fn new(line_access: Option<LineAccess>, all_await: bool) -> (v: AutoSpanVisitor)
        requires
            match line_access {
                Option::Some(la) => la.wf(),
                Option::None => true,
            },
        ensures
            v.wf(),
            v.line_access == line_access,
            v.context@ == Seq::<ReturnShape>::empty(),
            v.all_await == all_await,
    {
        let v = AutoSpanVisitor { line_access, context: Vec::new(), all_await };
        proof {
            assert(v.context@ =~= Seq::<ReturnShape>::empty());
        }
        v
    }

    /// Enter a function scope: its declared return type's shape becomes
    /// the current one.
    pub fn push_fn_context(&mut self, ret: &RetDecl)
        ensures
            final(self).context@ == old(self).context@.push(spec_shape_of(ret@)),
            final(self).line_access == old(self).line_access,
            final(self).all_await == old(self).all_await,
    {
        let shape = shape_of(ret);
        self.context.push(shape);
    }

    /// Enter a closure scope: a span opened in the enclosing scope is not
    /// valid there, so the shape is unconstrained.
    pub fn push_closure_context(&mut self)
        ensures
            final(self).context@ == old(self).context@.push(ReturnShape::Unconstrained),
            final(self).line_access == old(self).line_access,
            final(self).all_await == old(self).all_await,
    {
        self.context.push(ReturnShape::Unconstrained);
    }

    /// Leave the innermost scope.
    pub fn pop_context(&mut self)
        requires
            old(self).context@.len() > 0,
        ensures
            final(self).context@ == old(self).context@.drop_last(),
            final(self).line_access == old(self).line_access,
            final(self).all_await == old(self).all_await,
    {
        let _ = self.context.pop();
    }

    /// The shape of the innermost scope.
    pub fn current_context(&self) -> (r: ReturnShape)
        requires
            self.context@.len() > 0,
        ensures
            r == self.context@.last(),
    {
        self.context[self.context.len() - 1]
    }

    /// Line number and trimmed text at a byte offset of the located
    /// source.
    pub fn get_line_info(&self, offset: usize) -> (r: Option<LineInfo>)
        requires
            self.wf(),
        ensures
            view_line_opt(r) == spec_line_info_at(self.line_access, offset as int),
    {
        match &self.line_access {
            Option::None => Option::None,
            Option::Some(la) => {
                proof {
                    la.lemma_ordered();
                    crate::line::lemma_spec_find_line(la.lines@, offset as int);
                }
                match la.find_line(offset) {
                    Option::None => Option::None,
                    Option::Some(line) => Option::Some(
                        LineInfo {
                            number: line.line_number,
                            text: crate::line::copy_bytes(&line.data),
                        },
                    ),
                }
            },
        }
    }

    /// Rewrite one expression under the current scope's shape.
    pub fn visit_expr(&mut self, e: &Expr) -> (r: Expr)
        requires
            old(self).wf(),
            old(self).context@.len() > 0,
        ensures
            r@ == spec_instrument(
                e@,
                old(self).context@.last(),
                old(self).all_await,
                old(self).line_access,
            ),
            final(self).context@ == old(self).context@,
            final(self).line_access == old(self).line_access,
            final(self).all_await == old(self).all_await,
        decreases *e,
    {
        match e {
            Expr::Await { base, offset } => {
                let mut sv = SqlxVisitor::new();
                let base2 = sv.visit_expr(base);
                if sv.is_mutate() {
                    let line = self.get_line_info(*offset);
                    let ghost lv = view_line_opt(line);
                    let aw = Expr::Await { base: Box::new(base2), offset: *offset };
                    let ghost awv = view_expr(aw);
                    let r = Expr::SpanBlock {
                        name: String::from_str("db"),
                        line,
                        inner: Box::new(aw),
                    };
                    proof {
                        assert(awv == ExprV::Await {
                            base: Box::new(spec_sqlx_mark(view_expr(**base))),
                            offset: *offset,
                        });
                        assert(r@ == ExprV::SpanBlock {
                            name: "db"@,
                            line: lv,
                            inner: Box::new(awv),
                        });
                    }
                    r
                } else {
                    let mut rv = ReqwestVisitor::new();
                    rv.visit_expr(base);
                    if rv.is_mutate() {
                        let line = self.get_line_info(*offset);
                        Expr::SpanBlock {
                            name: String::from_str("http"),
                            line,
                            inner: Box::new(clone_expr(e)),
                        }
                    } else if self.all_await {
                        let line = self.get_line_info(*offset);
                        Expr::SpanBlock {
                            name: String::from_str("await"),
                            line,
                            inner: Box::new(clone_expr(e)),
                        }
                    } else {
                        Expr::Await {
                            base: Box::new(self.visit_expr(base)),
                            offset: *offset,
                        }
                    }
                }
            },
            Expr::Try { inner, offset } => {
                let inner_off = offset_of(inner);
                let done = self.visit_expr(inner);
                match self.current_context() {
                    ReturnShape::Fallible => {
                        let line = self.get_line_info(inner_off);
                        let ghost lv = view_line_opt(line);
                        let marked = Expr::ErrMark { line, inner: Box::new(done) };
                        let ghost mv = view_expr(marked);
                        let r = Expr::Try { inner: Box::new(marked), offset: *offset };
                        proof {
                            assert(mv == ExprV::ErrMark {
                                line: lv,
                                inner: Box::new(
                                    spec_instrument(
                                        view_expr(**inner),
                                        old(self).context@.last(),
                                        old(self).all_await,
                                        old(self).line_access,
                                    ),
                                ),
                            });
                            assert(r@ == ExprV::Try { inner: Box::new(mv), offset: *offset });
                        }
                        r
                    },
                    _ => Expr::Try { inner: Box::new(done), offset: *offset },
                }
            },
            Expr::Closure { body, offset } => {
                self.push_closure_context();
                let b = self.visit_expr(body);
                self.pop_context();
                proof {
                    assert(final(self).context@ =~= old(self).context@);
                }
                Expr::Closure { body: Box::new(b), offset: *offset }
            },
            Expr::NestedFn { func, offset } => {
                // a nested definition is instrumented by its own
                // expansion, not this one: the span here is not shared
                clone_expr(e)
            },
            Expr::Call { func, args, offset } => {
                let f = self.visit_expr(func);
                let a = self.visit_expr_vec(args);
                Expr::Call { func: Box::new(f), args: a, offset: *offset }
            },
            Expr::Group { children, offset } => Expr::Group {
                children: self.visit_expr_vec(children),
                offset: *offset,
            },
            Expr::Lit { text, offset } => clone_expr(e),
            Expr::Path { segments, offset } => clone_expr(e),
            Expr::SpanBlock { name, line, inner } => clone_expr(e),
            Expr::Attributed { key, value, inner } => clone_expr(e),
            Expr::ErrMark { line, inner } => clone_expr(e),
        }
    }

    fn visit_expr_vec(&mut self, v: &Vec<Expr>) -> (r: Vec<Expr>)
        requires
            old(self).wf(),
            old(self).context@.len() > 0,
        ensures
            view_expr_seq(r@) == spec_instrument_seq(
                view_expr_seq(v@),
                old(self).context@.last(),
                old(self).all_await,
                old(self).line_access,
            ),
            final(self).context@ == old(self).context@,
            final(self).line_access == old(self).line_access,
            final(self).all_await == old(self).all_await,
        decreases *v,
    {
        let ghost shape = old(self).context@.last();
        let n = v.len();
        let mut out: Vec<Expr> = Vec::new();
        let mut i: usize = 0;
        while i < n
            invariant
                n == v@.len(),
                0 <= i <= n,
                self.wf(),
                self.context@.len() > 0,
                self.context@ == old(self).context@,
                self.line_access == old(self).line_access,
                self.all_await == old(self).all_await,
                shape == old(self).context@.last(),
                out@.len() == i,
                view_expr_seq(out@) == spec_instrument_seq(
                    view_expr_seq(v@.subrange(0, i as int)),
                    shape,
                    self.all_await,
                    self.line_access,
                ),
            decreases n - i,
        {
            let ghost prefix = v@.subrange(0, i as int);
            let ghost out_before = out@;
            let x = self.visit_expr(&v[i]);
            out.push(x);
            proof {
                assert(v@.subrange(0, i + 1) =~= prefix.push(v@[i as int]));
                crate::ast::lemma_view_expr_seq_push(prefix, v@[i as int]);
                crate::ast::lemma_view_expr_seq_push(out_before, out@.last());
                assert(out@ =~= out_before.push(out@.last()));
                lemma_instrument_seq_push(
                    view_expr_seq(prefix),
                    view_expr(v@[i as int]),
                    shape,
                    self.all_await,
                    self.line_access,
                );
            }
            i += 1;
        }
        proof {
            assert(v@.subrange(0, n as int) =~= v@);
        }
        out
    }

    /// Rewrite a whole function definition.  Only the outermost one of an
    /// expansion is instrumented; one reached inside another's body is
    /// left for its own expansion.
    pub fn visit_item_fn(&mut self, f: &Function) -> (r: Function)
        requires
            old(self).wf(),
        ensures
            r@ == spec_visit_fn(
                f@,
                old(self).context@.len() == 0,
                old(self).all_await,
                old(self).line_access,
            ),
            final(self).context@ == old(self).context@,
            final(self).line_access == old(self).line_access,
            final(self).all_await == old(self).all_await,
    {
        self.push_fn_context(&f.ret);
        let r = if self.context.len() == 1 {
            let body = self.visit_expr_vec(&f.body);
            proof {
                assert(self.context@.last() == spec_shape_of(f@.ret));
            }
            Function {
                name: f.name.clone(),
                is_async: f.is_async,
                ret: copy_ret(&f.ret),
                body,
            }
        } else {
            crate::ast::clone_function(f)
        };
        self.pop_context();
        proof {
            assert(final(self).context@ =~= old(self).context@);
            assert(r@ =~= spec_visit_fn(
                f@,
                old(self).context@.len() == 0,
                old(self).all_await,
                old(self).line_access,
            ));
        }
        r
    }
}

/// Enclose the function's body in a single span named `fn:<name>`,
/// covering the whole body for its full asynchronous lifetime.
pub fn insert_function_span(f: Function) -> (r: Function)
    ensures
        r@ == spec_insert_function_span(f@),
{
    let Function { name, is_async, ret, body } = f;
    let ghost fbody = body@;
    let span_name = String::from_str("fn:").concat(name.as_str());
    let ghost sn = span_name@;
    let inner = Expr::Group { children: body, offset: 0 };
    let ghost iv = view_expr(inner);
    let wrapped = Expr::SpanBlock { name: span_name, line: Option::None, inner: Box::new(inner) };
    let ghost wv = view_expr(wrapped);
    let mut new_body: Vec<Expr> = Vec::new();
    new_body.push(wrapped);
    proof {
        assert(iv == ExprV::Group { children: view_expr_seq(fbody), offset: 0 });
        assert(wv == ExprV::SpanBlock { name: sn, line: Option::None, inner: Box::new(iv) });
        assert(new_body@.drop_last() =~= Seq::<Expr>::empty());
        assert(view_expr_seq(Seq::<Expr>::empty()) =~= Seq::<ExprV>::empty());
        assert(view_expr_seq(new_body@) =~= seq![wv]);
    }
    Function { name, is_async, ret, body: new_body }
}

/// The whole transformation of one annotated function: run the visitor
/// over the body, then wrap it in a function-level span unless the
/// configuration disables that.  Locating the source, parsing, emission
/// and the debug dump belong to the host around this.
pub fn auto_span(opt: &Opt, f: &Function, line_access: Option<LineAccess>) -> (r: Function)
    requires
        match line_access {
            Option::Some(la) => la.wf(),
            Option::None => true,
        },
    ensures
        r@ == spec_auto_span(opt@, f@, line_access),
{
    let mut visitor = AutoSpanVisitor::new(line_access, opt.all_await);
    let visited = visitor.visit_item_fn(f);
    if opt.func_span {
        insert_function_span(visited)
    } else {
        visited
    }
}

} // verus!
