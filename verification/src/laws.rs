//! What holds of every instrumented tree.
//!
//! These proofs state the library's guarantees over the transformation's
//! specification: which awaits get which spans, that untracked code gains
//! nothing, that early returns are marked exactly under a fallible shape,
//! and that without a located source no line attributes appear.

use vstd::prelude::*;

use crate::ast::ExprV;
use crate::handle_reqwest::spec_reqwest_found;
use crate::handle_sqlx::{spec_sqlx_found, spec_sqlx_mark};
use crate::line::LineAccess;
use crate::transform::{
    ReturnShape, spec_instrument, spec_instrument_seq, spec_line_info_at,
};

verus! {

/// A tree as it comes from the host: none of the synthetic instrumentation
/// nodes appear in it.
pub open spec fn pristine(e: ExprV) -> bool
    decreases e,
{
    match e {
        ExprV::Lit { .. } => true,
        ExprV::Path { .. } => true,
        ExprV::Call { func, args, .. } => pristine(*func) && pristine_seq(args),
        ExprV::Await { base, .. } => pristine(*base),
        ExprV::Try { inner, .. } => pristine(*inner),
        ExprV::Closure { body, .. } => pristine(*body),
        ExprV::NestedFn { func, .. } => pristine_seq(func.body),
        ExprV::Group { children, .. } => pristine_seq(children),
        ExprV::SpanBlock { .. } => false,
        ExprV::Attributed { .. } => false,
        ExprV::ErrMark { .. } => false,
    }
}

pub open spec fn pristine_seq(v: Seq<ExprV>) -> bool
    decreases v,
{
    if v.len() == 0 {
        true
    } else {
        pristine_seq(v.drop_last()) && pristine(v.last())
    }
}

proof fn lemma_pristine_seq_index(v: Seq<ExprV>, i: int)
    requires
        pristine_seq(v),
        0 <= i < v.len(),
    ensures
        pristine(v[i]),
    decreases v,
{
    if i == v.len() - 1 {
    } else {
        lemma_pristine_seq_index(v.drop_last(), i);
    }
}

/// The number of span-opening nodes in a tree.
pub open spec fn count_spans(e: ExprV) -> nat
    decreases e,
{
    match e {
        ExprV::Lit { .. } => 0,
        ExprV::Path { .. } => 0,
        ExprV::Call { func, args, .. } => count_spans(*func) + count_spans_seq(args),
        ExprV::Await { base, .. } => count_spans(*base),
        ExprV::Try { inner, .. } => count_spans(*inner),
        ExprV::Closure { body, .. } => count_spans(*body),
        ExprV::NestedFn { func, .. } => count_spans_seq(func.body),
        ExprV::Group { children, .. } => count_spans_seq(children),
        ExprV::SpanBlock { inner, .. } => 1 + count_spans(*inner),
        ExprV::Attributed { value, inner, .. } => count_spans(*value) + count_spans(*inner),
        ExprV::ErrMark { inner, .. } => count_spans(*inner),
    }
}

pub open spec fn count_spans_seq(v: Seq<ExprV>) -> nat
    decreases v,
{
    if v.len() == 0 {
        0
    } else {
        count_spans_seq(v.drop_last()) + count_spans(v.last())
    }
}

/// Does any await in the tree — nested definitions included — await a
/// tracked query or HTTP call?
pub open spec fn any_tracked_await(e: ExprV) -> bool
    decreases e,
{
    match e {
        ExprV::Lit { .. } => false,
        ExprV::Path { .. } => false,
        ExprV::Call { func, args, .. } => any_tracked_await(*func) || any_tracked_await_seq(args),
        ExprV::Await { base, .. } => spec_sqlx_found(*base) || spec_reqwest_found(*base)
            || any_tracked_await(*base),
        ExprV::Try { inner, .. } => any_tracked_await(*inner),
        ExprV::Closure { body, .. } => any_tracked_await(*body),
        ExprV::NestedFn { func, .. } => any_tracked_await_seq(func.body),
        ExprV::Group { children, .. } => any_tracked_await_seq(children),
        ExprV::SpanBlock { inner, .. } => any_tracked_await(*inner),
        ExprV::Attributed { value, inner, .. } => any_tracked_await(*value) || any_tracked_await(
            *inner,
        ),
        ExprV::ErrMark { inner, .. } => any_tracked_await(*inner),
    }
}

pub open spec fn any_tracked_await_seq(v: Seq<ExprV>) -> bool
    decreases v,
{
    if v.len() == 0 {
        false
    } else {
        any_tracked_await_seq(v.drop_last()) || any_tracked_await(v.last())
    }
}

/// An await whose awaited chain holds a tracked query call — however
/// deeply nested in method chains or conditionals, with no intervening
/// await — becomes a span named `db` around the await, with the query
/// text recorded inside and the await's line attributes on the span.
pub proof fn lemma_tracked_query_await_span(
    base: ExprV,
    offset: usize,
    shape: ReturnShape,
    all_await: bool,
    la: Option<LineAccess>,
)
    requires
        spec_sqlx_found(base),
    ensures
        spec_instrument(ExprV::Await { base: Box::new(base), offset }, shape, all_await, la)
            == (ExprV::SpanBlock {
            name: "db"@,
            line: spec_line_info_at(la, offset as int),
            inner: Box::new(ExprV::Await { base: Box::new(spec_sqlx_mark(base)), offset }),
        }),
{
}

/// An await whose awaited chain holds a tracked HTTP call (and no tracked
/// query call) becomes a span named `http` around the unchanged await.
pub proof fn lemma_tracked_http_await_span(
    base: ExprV,
    offset: usize,
    shape: ReturnShape,
    all_await: bool,
    la: Option<LineAccess>,
)
    requires
        !spec_sqlx_found(base),
        spec_reqwest_found(base),
    ensures
        spec_instrument(ExprV::Await { base: Box::new(base), offset }, shape, all_await, la)
            == (ExprV::SpanBlock {
            name: "http"@,
            line: spec_line_info_at(la, offset as int),
            inner: Box::new(ExprV::Await { base: Box::new(base), offset }),
        }),
{
}

/// With every-await instrumentation off, an untracked await gains no span
/// of its own: only its awaited expression is rewritten further.  With it
/// on, it becomes a span named `await` around the unchanged await.
pub proof fn lemma_untracked_await(
    base: ExprV,
    offset: usize,
    shape: ReturnShape,
    la: Option<LineAccess>,
)
    requires
        !spec_sqlx_found(base),
        !spec_reqwest_found(base),
    ensures
        spec_instrument(ExprV::Await { base: Box::new(base), offset }, shape, false, la)
            == (ExprV::Await { base: Box::new(spec_instrument(base, shape, false, la)), offset }),
        spec_instrument(ExprV::Await { base: Box::new(base), offset }, shape, true, la)
            == (ExprV::SpanBlock {
            name: "await"@,
            line: spec_line_info_at(la, offset as int),
            inner: Box::new(ExprV::Await { base: Box::new(base), offset }),
        }),
{
}

/// With every-await instrumentation off, a tree without tracked awaits
/// gains no span at all.
pub proof fn lemma_no_tracked_no_new_spans(
    e: ExprV,
    shape: ReturnShape,
    la: Option<LineAccess>,
)
    requires
        !any_tracked_await(e),
    ensures
        count_spans(spec_instrument(e, shape, false, la)) == count_spans(e),
    decreases e,
{
    match e {
        ExprV::Call { func, args, offset } => {
            lemma_no_tracked_no_new_spans(*func, shape, la);
            lemma_no_tracked_no_new_spans_seq(args, shape, la);
        },
        ExprV::Await { base, offset } => {
            lemma_no_tracked_no_new_spans(*base, shape, la);
        },
        ExprV::Try { inner, offset } => {
            lemma_no_tracked_no_new_spans(*inner, shape, la);
            let done = spec_instrument(*inner, shape, false, la);
            if shape is Fallible {
                let em = ExprV::ErrMark {
                    line: spec_line_info_at(
                        la,
                        crate::transform::spec_offset_of(*inner) as int,
                    ),
                    inner: Box::new(done),
                };
                assert(count_spans(em) == count_spans(done));
            }
        },
        ExprV::Closure { body, offset } => {
            lemma_no_tracked_no_new_spans(*body, ReturnShape::Unconstrained, la);
        },
        ExprV::Group { children, offset } => {
            lemma_no_tracked_no_new_spans_seq(children, shape, la);
        },
        _ => {},
    }
}

proof fn lemma_no_tracked_no_new_spans_seq(
    v: Seq<ExprV>,
    shape: ReturnShape,
    la: Option<LineAccess>,
)
    requires
        !any_tracked_await_seq(v),
    ensures
        count_spans_seq(spec_instrument_seq(v, shape, false, la)) == count_spans_seq(v),
    decreases v,
{
    if v.len() > 0 {
        lemma_no_tracked_no_new_spans_seq(v.drop_last(), shape, la);
        lemma_no_tracked_no_new_spans(v.last(), shape, la);
        let out = spec_instrument_seq(v, shape, false, la);
        assert(out.drop_last() =~= spec_instrument_seq(v.drop_last(), shape, false, la));
        assert(out.last() == spec_instrument(v.last(), shape, false, la));
    }
}

/// In an instrumented tree, every early return at the scope of a
/// fallible function marks the active span before propagating: each
/// `?`-node's operand is an error mark.  Scopes with their own shape
/// (closures, nested definitions) and the untraversed operand of a span
/// around a tracked await are exempt.
pub open spec fn tries_marked(e: ExprV) -> bool
    decreases e,
{
    match e {
        ExprV::Lit { .. } => true,
        ExprV::Path { .. } => true,
        ExprV::Call { func, args, .. } => tries_marked(*func) && tries_marked_seq(args),
        ExprV::Await { base, .. } => tries_marked(*base),
        ExprV::Try { inner, .. } => match *inner {
            ExprV::ErrMark { inner: marked, .. } => tries_marked(*marked),
            _ => false,
        },
        ExprV::Closure { .. } => true,
        ExprV::NestedFn { .. } => true,
        ExprV::Group { children, .. } => tries_marked_seq(children),
        ExprV::SpanBlock { inner, .. } => match *inner {
            ExprV::Await { .. } => true,
            _ => tries_marked(*inner),
        },
        ExprV::Attributed { value, inner, .. } => tries_marked(*value) && tries_marked(*inner),
        ExprV::ErrMark { inner, .. } => tries_marked(*inner),
    }
}

pub open spec fn tries_marked_seq(v: Seq<ExprV>) -> bool
    decreases v,
{
    if v.len() == 0 {
        true
    } else {
        tries_marked_seq(v.drop_last()) && tries_marked(v.last())
    }
}

/// Under a fallible return shape, instrumentation marks every early
/// return the traversal reaches.
pub proof fn lemma_fallible_tries_marked(
    e: ExprV,
    all_await: bool,
    la: Option<LineAccess>,
)
    requires
        pristine(e),
    ensures
        tries_marked(spec_instrument(e, ReturnShape::Fallible, all_await, la)),
    decreases e,
{
    match e {
        ExprV::Call { func, args, offset } => {
            lemma_fallible_tries_marked(*func, all_await, la);
            lemma_fallible_tries_marked_seq(args, all_await, la);
        },
        ExprV::Await { base, offset } => {
            if !spec_sqlx_found(*base) && !spec_reqwest_found(*base) && !all_await {
                lemma_fallible_tries_marked(*base, all_await, la);
            }
        },
        ExprV::Try { inner, offset } => {
            lemma_fallible_tries_marked(*inner, all_await, la);
        },
        ExprV::Group { children, offset } => {
            lemma_fallible_tries_marked_seq(children, all_await, la);
        },
        _ => {},
    }
}

proof fn lemma_fallible_tries_marked_seq(
    v: Seq<ExprV>,
    all_await: bool,
    la: Option<LineAccess>,
)
    requires
        pristine_seq(v),
    ensures
        tries_marked_seq(spec_instrument_seq(v, ReturnShape::Fallible, all_await, la)),
    decreases v,
{
    if v.len() > 0 {
        lemma_fallible_tries_marked_seq(v.drop_last(), all_await, la);
        lemma_fallible_tries_marked(v.last(), all_await, la);
        let out = spec_instrument_seq(v, ReturnShape::Fallible, all_await, la);
        assert(out.drop_last() =~= spec_instrument_seq(
            v.drop_last(),
            ReturnShape::Fallible,
            all_await,
            la,
        ));
        assert(out.last() == spec_instrument(v.last(), ReturnShape::Fallible, all_await, la));
    }
}

/// No error-status mark anywhere in a tree.
pub open spec fn no_err_marks(e: ExprV) -> bool
    decreases e,
{
    match e {
        ExprV::Lit { .. } => true,
        ExprV::Path { .. } => true,
        ExprV::Call { func, args, .. } => no_err_marks(*func) && no_err_marks_seq(args),
        ExprV::Await { base, .. } => no_err_marks(*base),
        ExprV::Try { inner, .. } => no_err_marks(*inner),
        ExprV::Closure { body, .. } => no_err_marks(*body),
        ExprV::NestedFn { func, .. } => no_err_marks_seq(func.body),
        ExprV::Group { children, .. } => no_err_marks_seq(children),
        ExprV::SpanBlock { inner, .. } => no_err_marks(*inner),
        ExprV::Attributed { value, inner, .. } => no_err_marks(*value) && no_err_marks(*inner),
        ExprV::ErrMark { .. } => false,
    }
}

pub open spec fn no_err_marks_seq(v: Seq<ExprV>) -> bool
    decreases v,
{
    if v.len() == 0 {
        true
    } else {
        no_err_marks_seq(v.drop_last()) && no_err_marks(v.last())
    }
}

/// An optional or unconstrained return shape never gets its early
/// returns marked: propagating an absent value is not an error.
pub proof fn lemma_non_fallible_no_err_marks(
    e: ExprV,
    shape: ReturnShape,
    all_await: bool,
    la: Option<LineAccess>,
)
    requires
        pristine(e),
        shape != ReturnShape::Fallible,
    ensures
        no_err_marks(spec_instrument(e, shape, all_await, la)),
    decreases e,
{
    match e {
        ExprV::Call { func, args, offset } => {
            lemma_non_fallible_no_err_marks(*func, shape, all_await, la);
            lemma_non_fallible_no_err_marks_seq(args, shape, all_await, la);
        },
        ExprV::Await { base, offset } => {
            if spec_sqlx_found(*base) {
                lemma_sqlx_mark_no_err_marks(*base);
                let aw = ExprV::Await { base: Box::new(spec_sqlx_mark(*base)), offset };
                assert(no_err_marks(aw) == no_err_marks(spec_sqlx_mark(*base)));
            } else if spec_reqwest_found(*base) || all_await {
                lemma_pristine_no_err_marks(*base);
                assert(no_err_marks(e) == no_err_marks(*base));
            } else {
                lemma_non_fallible_no_err_marks(*base, shape, all_await, la);
            }
        },
        ExprV::Try { inner, offset } => {
            lemma_non_fallible_no_err_marks(*inner, shape, all_await, la);
        },
        ExprV::Closure { body, offset } => {
            lemma_non_fallible_no_err_marks(
                *body,
                ReturnShape::Unconstrained,
                all_await,
                la,
            );
        },
        ExprV::Group { children, offset } => {
            lemma_non_fallible_no_err_marks_seq(children, shape, all_await, la);
        },
        ExprV::NestedFn { func, offset } => {
            lemma_pristine_no_err_marks(e);
        },
        _ => {},
    }
}

proof fn lemma_non_fallible_no_err_marks_seq(
    v: Seq<ExprV>,
    shape: ReturnShape,
    all_await: bool,
    la: Option<LineAccess>,
)
    requires
        pristine_seq(v),
        shape != ReturnShape::Fallible,
    ensures
        no_err_marks_seq(spec_instrument_seq(v, shape, all_await, la)),
    decreases v,
{
    if v.len() > 0 {
        lemma_non_fallible_no_err_marks_seq(v.drop_last(), shape, all_await, la);
        lemma_non_fallible_no_err_marks(v.last(), shape, all_await, la);
        let out = spec_instrument_seq(v, shape, all_await, la);
        assert(out.drop_last() =~= spec_instrument_seq(v.drop_last(), shape, all_await, la));
        assert(out.last() == spec_instrument(v.last(), shape, all_await, la));
    }
}

/// Annotating a tracked query call adds no error mark.
proof fn lemma_sqlx_mark_no_err_marks(e: ExprV)
    requires
        pristine(e),
    ensures
        no_err_marks(spec_sqlx_mark(e)),
    decreases e,
{
    match e {
        ExprV::Call { func, args, offset } => {
            if crate::handle_sqlx::spec_sqlx_arg(e) is Some {
                lemma_pristine_no_err_marks(e);
                lemma_pristine_seq_index(args, 0);
                lemma_pristine_no_err_marks(args[0]);
            } else {
                lemma_sqlx_mark_no_err_marks(*func);
                lemma_sqlx_mark_no_err_marks_seq(args);
            }
        },
        ExprV::Await { base, offset } => {
            lemma_pristine_no_err_marks(e);
        },
        ExprV::Try { inner, offset } => {
            lemma_sqlx_mark_no_err_marks(*inner);
        },
        ExprV::Closure { body, offset } => {
            lemma_sqlx_mark_no_err_marks(*body);
        },
        ExprV::NestedFn { func, offset } => {
            lemma_sqlx_mark_no_err_marks_seq(func.body);
        },
        ExprV::Group { children, offset } => {
            lemma_sqlx_mark_no_err_marks_seq(children);
        },
        _ => {},
    }
}

proof fn lemma_sqlx_mark_no_err_marks_seq(v: Seq<ExprV>)
    requires
        pristine_seq(v),
    ensures
        no_err_marks_seq(crate::handle_sqlx::spec_sqlx_mark_seq(v)),
    decreases v,
{
    if v.len() > 0 {
        lemma_sqlx_mark_no_err_marks_seq(v.drop_last());
        lemma_sqlx_mark_no_err_marks(v.last());
        let out = crate::handle_sqlx::spec_sqlx_mark_seq(v);
        assert(out.drop_last() =~= crate::handle_sqlx::spec_sqlx_mark_seq(v.drop_last()));
        assert(out.last() == spec_sqlx_mark(v.last()));
    }
}

/// A tree from the host holds no error mark to begin with.
proof fn lemma_pristine_no_err_marks(e: ExprV)
    requires
        pristine(e),
    ensures
        no_err_marks(e),
    decreases e,
{
    match e {
        ExprV::Call { func, args, offset } => {
            lemma_pristine_no_err_marks(*func);
            lemma_pristine_no_err_marks_seq(args);
        },
        ExprV::Await { base, offset } => {
            lemma_pristine_no_err_marks(*base);
        },
        ExprV::Try { inner, offset } => {
            lemma_pristine_no_err_marks(*inner);
        },
        ExprV::Closure { body, offset } => {
            lemma_pristine_no_err_marks(*body);
        },
        ExprV::NestedFn { func, offset } => {
            lemma_pristine_no_err_marks_seq(func.body);
        },
        ExprV::Group { children, offset } => {
            lemma_pristine_no_err_marks_seq(children);
        },
        _ => {},
    }
}

proof fn lemma_pristine_no_err_marks_seq(v: Seq<ExprV>)
    requires
        pristine_seq(v),
    ensures
        no_err_marks_seq(v),
    decreases v,
{
    if v.len() > 0 {
        lemma_pristine_no_err_marks_seq(v.drop_last());
        lemma_pristine_no_err_marks(v.last());
    }
}

/// No line attributes anywhere in a tree.
pub open spec fn no_line_attrs(e: ExprV) -> bool
    decreases e,
{
    match e {
        ExprV::Lit { .. } => true,
        ExprV::Path { .. } => true,
        ExprV::Call { func, args, .. } => no_line_attrs(*func) && no_line_attrs_seq(args),
        ExprV::Await { base, .. } => no_line_attrs(*base),
        ExprV::Try { inner, .. } => no_line_attrs(*inner),
        ExprV::Closure { body, .. } => no_line_attrs(*body),
        ExprV::NestedFn { func, .. } => no_line_attrs_seq(func.body),
        ExprV::Group { children, .. } => no_line_attrs_seq(children),
        ExprV::SpanBlock { line, inner, .. } => line is None && no_line_attrs(*inner),
        ExprV::Attributed { value, inner, .. } => no_line_attrs(*value) && no_line_attrs(*inner),
        ExprV::ErrMark { line, inner, .. } => line is None && no_line_attrs(*inner),
    }
}

pub open spec fn no_line_attrs_seq(v: Seq<ExprV>) -> bool
    decreases v,
{
    if v.len() == 0 {
        true
    } else {
        no_line_attrs_seq(v.drop_last()) && no_line_attrs(v.last())
    }
}

/// When the original file could not be located, no wrapped expression
/// carries line attributes — and the rest of the transform is the same,
/// its specification being a function of the located source.
pub proof fn lemma_unlocated_no_line_attrs(
    e: ExprV,
    shape: ReturnShape,
    all_await: bool,
)
    requires
        pristine(e),
    ensures
        no_line_attrs(spec_instrument(e, shape, all_await, Option::None)),
    decreases e,
{
    match e {
        ExprV::Call { func, args, offset } => {
            lemma_unlocated_no_line_attrs(*func, shape, all_await);
            lemma_unlocated_no_line_attrs_seq(args, shape, all_await);
        },
        ExprV::Await { base, offset } => {
            if spec_sqlx_found(*base) {
                lemma_sqlx_mark_no_line_attrs(*base);
                let aw = ExprV::Await { base: Box::new(spec_sqlx_mark(*base)), offset };
                assert(no_line_attrs(aw) == no_line_attrs(spec_sqlx_mark(*base)));
            } else if spec_reqwest_found(*base) || all_await {
                lemma_pristine_no_line_attrs(*base);
                assert(no_line_attrs(e) == no_line_attrs(*base));
            } else {
                lemma_unlocated_no_line_attrs(*base, shape, all_await);
            }
        },
        ExprV::Try { inner, offset } => {
            lemma_unlocated_no_line_attrs(*inner, shape, all_await);
            let done = spec_instrument(*inner, shape, all_await, Option::None);
            let em = ExprV::ErrMark {
                line: spec_line_info_at(
                    Option::None,
                    crate::transform::spec_offset_of(*inner) as int,
                ),
                inner: Box::new(done),
            };
            assert(no_line_attrs(em) == no_line_attrs(done));
        },
        ExprV::Closure { body, offset } => {
            lemma_unlocated_no_line_attrs(*body, ReturnShape::Unconstrained, all_await);
        },
        ExprV::NestedFn { func, offset } => {
            lemma_pristine_no_line_attrs_seq(func.body);
        },
        ExprV::Group { children, offset } => {
            lemma_unlocated_no_line_attrs_seq(children, shape, all_await);
        },
        _ => {},
    }
}

proof fn lemma_unlocated_no_line_attrs_seq(v: Seq<ExprV>, shape: ReturnShape, all_await: bool)
    requires
        pristine_seq(v),
    ensures
        no_line_attrs_seq(spec_instrument_seq(v, shape, all_await, Option::None)),
    decreases v,
{
    if v.len() > 0 {
        lemma_unlocated_no_line_attrs_seq(v.drop_last(), shape, all_await);
        lemma_unlocated_no_line_attrs(v.last(), shape, all_await);
        let out = spec_instrument_seq(v, shape, all_await, Option::None);
        assert(out.drop_last() =~= spec_instrument_seq(
            v.drop_last(),
            shape,
            all_await,
            Option::None,
        ));
        assert(out.last() == spec_instrument(v.last(), shape, all_await, Option::None));
    }
}

proof fn lemma_sqlx_mark_no_line_attrs(e: ExprV)
    requires
        pristine(e),
    ensures
        no_line_attrs(spec_sqlx_mark(e)),
    decreases e,
{
    match e {
        ExprV::Call { func, args, offset } => {
            if crate::handle_sqlx::spec_sqlx_arg(e) is Some {
                lemma_pristine_no_line_attrs(e);
                lemma_pristine_seq_index(args, 0);
                lemma_pristine_no_line_attrs(args[0]);
            } else {
                lemma_sqlx_mark_no_line_attrs(*func);
                lemma_sqlx_mark_no_line_attrs_seq(args);
            }
        },
        ExprV::Await { base, offset } => {
            lemma_pristine_no_line_attrs(e);
        },
        ExprV::Try { inner, offset } => {
            lemma_sqlx_mark_no_line_attrs(*inner);
        },
        ExprV::Closure { body, offset } => {
            lemma_sqlx_mark_no_line_attrs(*body);
        },
        ExprV::NestedFn { func, offset } => {
            lemma_sqlx_mark_no_line_attrs_seq(func.body);
        },
        ExprV::Group { children, offset } => {
            lemma_sqlx_mark_no_line_attrs_seq(children);
        },
        _ => {},
    }
}

proof fn lemma_sqlx_mark_no_line_attrs_seq(v: Seq<ExprV>)
    requires
        pristine_seq(v),
    ensures
        no_line_attrs_seq(crate::handle_sqlx::spec_sqlx_mark_seq(v)),
    decreases v,
{
    if v.len() > 0 {
        lemma_sqlx_mark_no_line_attrs_seq(v.drop_last());
        lemma_sqlx_mark_no_line_attrs(v.last());
        let out = crate::handle_sqlx::spec_sqlx_mark_seq(v);
        assert(out.drop_last() =~= crate::handle_sqlx::spec_sqlx_mark_seq(v.drop_last()));
        assert(out.last() == spec_sqlx_mark(v.last()));
    }
}

proof fn lemma_pristine_no_line_attrs(e: ExprV)
    requires
        pristine(e),
    ensures
        no_line_attrs(e),
    decreases e,
{
    match e {
        ExprV::Call { func, args, offset } => {
            lemma_pristine_no_line_attrs(*func);
            lemma_pristine_no_line_attrs_seq(args);
        },
        ExprV::Await { base, offset } => {
            lemma_pristine_no_line_attrs(*base);
        },
        ExprV::Try { inner, offset } => {
            lemma_pristine_no_line_attrs(*inner);
        },
        ExprV::Closure { body, offset } => {
            lemma_pristine_no_line_attrs(*body);
        },
        ExprV::NestedFn { func, offset } => {
            lemma_pristine_no_line_attrs_seq(func.body);
        },
        ExprV::Group { children, offset } => {
            lemma_pristine_no_line_attrs_seq(children);
        },
        _ => {},
    }
}

proof fn lemma_pristine_no_line_attrs_seq(v: Seq<ExprV>)
    requires
        pristine_seq(v),
    ensures
        no_line_attrs_seq(v),
    decreases v,
{
    if v.len() > 0 {
        lemma_pristine_no_line_attrs_seq(v.drop_last());
        lemma_pristine_no_line_attrs(v.last());
    }
}


proof fn lemma_instrument_seq_len(
    v: Seq<ExprV>,
    shape: ReturnShape,
    all_await: bool,
    la: Option<LineAccess>,
)
    ensures
        spec_instrument_seq(v, shape, all_await, la).len() == v.len(),
    decreases v,
{
    if v.len() > 0 {
        lemma_instrument_seq_len(v.drop_last(), shape, all_await, la);
    }
}

proof fn lemma_instrument_seq_index(
    v: Seq<ExprV>,
    shape: ReturnShape,
    all_await: bool,
    la: Option<LineAccess>,
    i: int,
)
    requires
        0 <= i < v.len(),
    ensures
        spec_instrument_seq(v, shape, all_await, la).len() == v.len(),
        spec_instrument_seq(v, shape, all_await, la)[i] == spec_instrument(
            v[i],
            shape,
            all_await,
            la,
        ),
    decreases v,
{
    lemma_instrument_seq_len(v, shape, all_await, la);
    if v.len() > 0 {
        if i == v.len() - 1 {
            lemma_instrument_seq_len(v.drop_last(), shape, all_await, la);
        } else {
            lemma_instrument_seq_index(v.drop_last(), shape, all_await, la, i);
        }
    }
}

/// Instrumentation within an awaited expression's reach introduces no
/// tracked call where none was: the rewrite never creates a new match.
proof fn lemma_instrument_preserves_untracked(
    e: ExprV,
    shape: ReturnShape,
    all_await: bool,
    la: Option<LineAccess>,
)
    requires
        !spec_sqlx_found(e),
        !spec_reqwest_found(e),
    ensures
        !spec_sqlx_found(spec_instrument(e, shape, all_await, la)),
        !spec_reqwest_found(spec_instrument(e, shape, all_await, la)),
    decreases e,
{
    match e {
        ExprV::Call { func, args, offset } => {
            lemma_instrument_preserves_untracked(*func, shape, all_await, la);
            lemma_instrument_preserves_untracked_seq(args, shape, all_await, la);
            let out_args = spec_instrument_seq(args, shape, all_await, la);
            let out = ExprV::Call {
                func: Box::new(spec_instrument(*func, shape, all_await, la)),
                args: out_args,
                offset,
            };
            lemma_instrument_seq_len(args, shape, all_await, la);
            if args.len() >= 1 {
                lemma_instrument_seq_index(args, shape, all_await, la, 0);
                assert(out_args[0] == spec_instrument(args[0], shape, all_await, la));
            }
            assert(crate::handle_sqlx::spec_sqlx_arg(out) is None);
        },
        ExprV::Try { inner, offset } => {
            lemma_instrument_preserves_untracked(*inner, shape, all_await, la);
            let done = spec_instrument(*inner, shape, all_await, la);
            if shape is Fallible {
                let em = ExprV::ErrMark {
                    line: spec_line_info_at(
                        la,
                        crate::transform::spec_offset_of(*inner) as int,
                    ),
                    inner: Box::new(done),
                };
                assert(!spec_sqlx_found(em));
                assert(!spec_reqwest_found(em));
            }
        },
        ExprV::Closure { body, offset } => {
            lemma_instrument_preserves_untracked(
                *body,
                ReturnShape::Unconstrained,
                all_await,
                la,
            );
        },
        ExprV::Group { children, offset } => {
            lemma_instrument_preserves_untracked_seq(children, shape, all_await, la);
        },
        ExprV::Await { base, offset } => {
            if spec_sqlx_found(*base) {
                let aw = ExprV::Await { base: Box::new(spec_sqlx_mark(*base)), offset };
                assert(!spec_sqlx_found(aw));
                assert(!spec_reqwest_found(aw));
            } else if spec_reqwest_found(*base) || all_await {
                assert(!spec_sqlx_found(e));
                assert(!spec_reqwest_found(e));
            }
        },
        ExprV::Attributed { value, inner, .. } => {
            assert(spec_instrument(e, shape, all_await, la) == e);
        },
        _ => {},
    }
}

/// Annotating the query call keeps the chain recognizably tracked.
proof fn lemma_sqlx_mark_still_found(e: ExprV)
    requires
        spec_sqlx_found(e),
    ensures
        spec_sqlx_found(spec_sqlx_mark(e)),
    decreases e,
{
    match e {
        ExprV::Call { func, args, offset } => {
            match crate::handle_sqlx::spec_sqlx_arg(e) {
                Option::Some(sql) => {
                    let marked = ExprV::Attributed {
                        key: "db.statement"@,
                        value: Box::new(sql),
                        inner: Box::new(e),
                    };
                    assert(spec_sqlx_found(marked));
                },
                Option::None => {
                    if spec_sqlx_found(*func) {
                        lemma_sqlx_mark_still_found(*func);
                    } else {
                        lemma_sqlx_mark_seq_still_found(args);
                    }
                },
            }
        },
        ExprV::Try { inner, offset } => {
            lemma_sqlx_mark_still_found(*inner);
        },
        ExprV::Closure { body, offset } => {
            lemma_sqlx_mark_still_found(*body);
        },
        ExprV::NestedFn { func, offset } => {
            lemma_sqlx_mark_seq_still_found(func.body);
        },
        ExprV::Group { children, offset } => {
            lemma_sqlx_mark_seq_still_found(children);
        },
        ExprV::SpanBlock { name, line, inner } => {
            lemma_sqlx_mark_still_found(*inner);
        },
        ExprV::Attributed { key, value, inner } => {
            if spec_sqlx_found(*value) {
                lemma_sqlx_mark_still_found(*value);
            } else {
                lemma_sqlx_mark_still_found(*inner);
            }
        },
        ExprV::ErrMark { line, inner } => {
            lemma_sqlx_mark_still_found(*inner);
        },
        _ => {},
    }
}

proof fn lemma_sqlx_mark_seq_still_found(v: Seq<ExprV>)
    requires
        crate::handle_sqlx::spec_sqlx_found_seq(v),
    ensures
        crate::handle_sqlx::spec_sqlx_found_seq(crate::handle_sqlx::spec_sqlx_mark_seq(v)),
    decreases v,
{
    if v.len() > 0 {
        let out = crate::handle_sqlx::spec_sqlx_mark_seq(v);
        assert(out.drop_last() =~= crate::handle_sqlx::spec_sqlx_mark_seq(v.drop_last()));
        assert(out.last() == spec_sqlx_mark(v.last()));
        if crate::handle_sqlx::spec_sqlx_found_seq(v.drop_last()) {
            lemma_sqlx_mark_seq_still_found(v.drop_last());
        } else {
            lemma_sqlx_mark_still_found(v.last());
        }
    }
}

proof fn lemma_instrument_preserves_untracked_seq(
    v: Seq<ExprV>,
    shape: ReturnShape,
    all_await: bool,
    la: Option<LineAccess>,
)
    requires
        !crate::handle_sqlx::spec_sqlx_found_seq(v),
        !crate::handle_reqwest::spec_reqwest_found_seq(v),
    ensures
        !crate::handle_sqlx::spec_sqlx_found_seq(
            spec_instrument_seq(v, shape, all_await, la),
        ),
        !crate::handle_reqwest::spec_reqwest_found_seq(
            spec_instrument_seq(v, shape, all_await, la),
        ),
    decreases v,
{
    if v.len() > 0 {
        lemma_instrument_preserves_untracked_seq(v.drop_last(), shape, all_await, la);
        lemma_instrument_preserves_untracked(v.last(), shape, all_await, la);
        let out = spec_instrument_seq(v, shape, all_await, la);
        assert(out.drop_last() =~= spec_instrument_seq(v.drop_last(), shape, all_await, la));
        assert(out.last() == spec_instrument(v.last(), shape, all_await, la));
    }
}

/// Every await standing bare in a tree awaits nothing tracked, and every
/// await under a span awaits what the span's name says: a query chain
/// only under `db`, an HTTP chain only under `http`.
pub open spec fn awaits_wrapped(e: ExprV) -> bool
    decreases e,
{
    match e {
        ExprV::Lit { .. } => true,
        ExprV::Path { .. } => true,
        ExprV::Call { func, args, .. } => awaits_wrapped(*func) && awaits_wrapped_seq(args),
        ExprV::Await { base, .. } => !spec_sqlx_found(*base) && !spec_reqwest_found(*base)
            && awaits_wrapped(*base),
        ExprV::Try { inner, .. } => awaits_wrapped(*inner),
        ExprV::Closure { body, .. } => awaits_wrapped(*body),
        ExprV::NestedFn { .. } => true,
        ExprV::Group { children, .. } => awaits_wrapped_seq(children),
        ExprV::SpanBlock { name, inner, .. } => match *inner {
            ExprV::Await { base, .. } => (spec_sqlx_found(*base) ==> name == "db"@) && (
            !spec_sqlx_found(*base) && spec_reqwest_found(*base) ==> name == "http"@),
            _ => awaits_wrapped(*inner),
        },
        ExprV::Attributed { value, inner, .. } => awaits_wrapped(*value) && awaits_wrapped(
            *inner,
        ),
        ExprV::ErrMark { inner, .. } => awaits_wrapped(*inner),
    }
}

pub open spec fn awaits_wrapped_seq(v: Seq<ExprV>) -> bool
    decreases v,
{
    if v.len() == 0 {
        true
    } else {
        awaits_wrapped_seq(v.drop_last()) && awaits_wrapped(v.last())
    }
}

/// In an instrumented tree, an await whose chain holds a tracked query
/// call sits only directly under a span named `db`, one whose chain
/// holds a tracked HTTP call only under `http`, and no tracked await is
/// left bare — however deeply the call sits in its chain.
pub proof fn lemma_tracked_awaits_wrapped(
    e: ExprV,
    shape: ReturnShape,
    all_await: bool,
    la: Option<LineAccess>,
)
    requires
        pristine(e),
    ensures
        awaits_wrapped(spec_instrument(e, shape, all_await, la)),
    decreases e,
{
    match e {
        ExprV::Call { func, args, offset } => {
            lemma_tracked_awaits_wrapped(*func, shape, all_await, la);
            lemma_tracked_awaits_wrapped_seq(args, shape, all_await, la);
        },
        ExprV::Try { inner, offset } => {
            lemma_tracked_awaits_wrapped(*inner, shape, all_await, la);
            let done = spec_instrument(*inner, shape, all_await, la);
            if shape is Fallible {
                let em = ExprV::ErrMark {
                    line: spec_line_info_at(
                        la,
                        crate::transform::spec_offset_of(*inner) as int,
                    ),
                    inner: Box::new(done),
                };
                assert(awaits_wrapped(em) == awaits_wrapped(done));
            }
        },
        ExprV::Closure { body, offset } => {
            lemma_tracked_awaits_wrapped(*body, ReturnShape::Unconstrained, all_await, la);
        },
        ExprV::Group { children, offset } => {
            lemma_tracked_awaits_wrapped_seq(children, shape, all_await, la);
        },
        ExprV::Await { base, offset } => {
            if spec_sqlx_found(*base) {
                lemma_sqlx_mark_still_found(*base);
                let aw = ExprV::Await { base: Box::new(spec_sqlx_mark(*base)), offset };
                let out = spec_instrument(e, shape, all_await, la);
                assert(out == (ExprV::SpanBlock {
                    name: "db"@,
                    line: spec_line_info_at(la, offset as int),
                    inner: Box::new(aw),
                }));
                assert(awaits_wrapped(out));
            } else if spec_reqwest_found(*base) || all_await {
                let out = spec_instrument(e, shape, all_await, la);
                assert(out is SpanBlock);
                assert(awaits_wrapped(out));
            } else {
                lemma_tracked_awaits_wrapped(*base, shape, all_await, la);
                lemma_instrument_preserves_untracked(*base, shape, all_await, la);
                let out_base = spec_instrument(*base, shape, all_await, la);
                assert(awaits_wrapped(ExprV::Await { base: Box::new(out_base), offset }));
            }
        },
        _ => {},
    }
}

proof fn lemma_tracked_awaits_wrapped_seq(
    v: Seq<ExprV>,
    shape: ReturnShape,
    all_await: bool,
    la: Option<LineAccess>,
)
    requires
        pristine_seq(v),
    ensures
        awaits_wrapped_seq(spec_instrument_seq(v, shape, all_await, la)),
    decreases v,
{
    if v.len() > 0 {
        lemma_tracked_awaits_wrapped_seq(v.drop_last(), shape, all_await, la);
        lemma_tracked_awaits_wrapped(v.last(), shape, all_await, la);
        let out = spec_instrument_seq(v, shape, all_await, la);
        assert(out.drop_last() =~= spec_instrument_seq(v.drop_last(), shape, all_await, la));
        assert(out.last() == spec_instrument(v.last(), shape, all_await, la));
    }
}

} // verus!
