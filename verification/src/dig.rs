//! Locating an annotated function's original source file.
//!
//! The instrumentation receives a function whose own annotation has
//! already been consumed, but diagnostics need the original on-disk bytes.
//! The host walks a source tree in a fixed order, parses each candidate
//! file, and hands the parsed items here: a file matches when it holds a
//! top-level function of the same name whose attributes, once everything
//! up to and including the instrumentation annotation is stripped, and
//! whose remaining serialized text agree with the input's.  The first
//! matching file wins; absence of a match is not an error.

use vstd::prelude::*;

use crate::path::{PathPat, path_match, spec_path_match};

verus! {

/// One attribute of a candidate function: the path of its meta item (to
/// recognize the instrumentation annotation), whether it is a bare-path or
/// list meta (only those are recognized), and its serialized text.
#[derive(Debug, PartialEq, Eq)]
pub struct Attr {
    pub path: Vec<String>,
    pub is_name_value: bool,
    pub text: String,
}

#[verifier::ext_equal]
pub struct AttrV {
    pub path: Seq<Seq<char>>,
    pub is_name_value: bool,
    pub text: Seq<char>,
}

impl View for Attr {
    type V = AttrV;

    open spec fn view(&self) -> AttrV {
        AttrV { path: self.path.deep_view(), is_name_value: self.is_name_value, text: self.text@ }
    }
}

impl DeepView for Attr {
    type V = AttrV;

    open spec fn deep_view(&self) -> AttrV {
        self.view()
    }
}

/// A top-level function item of a candidate file: its name, its
/// attributes, and the serialized text of everything else (signature and
/// body).
#[derive(Debug, PartialEq, Eq)]
pub struct FnItem {
    pub name: String,
    pub attrs: Vec<Attr>,
    pub rest: String,
}

#[verifier::ext_equal]
pub struct FnItemV {
    pub name: Seq<char>,
    pub attrs: Seq<AttrV>,
    pub rest: Seq<char>,
}

impl View for FnItem {
    type V = FnItemV;

    open spec fn view(&self) -> FnItemV {
        FnItemV { name: self.name@, attrs: self.attrs.deep_view(), rest: self.rest@ }
    }
}

impl DeepView for FnItem {
    type V = FnItemV;

    open spec fn deep_view(&self) -> FnItemV {
        self.view()
    }
}

/// A parsed candidate file: its path and its top-level function items.
#[derive(Debug, PartialEq, Eq)]
pub struct SourceFile {
    pub path: String,
    pub fns: Vec<FnItem>,
}

#[verifier::ext_equal]
pub struct SourceFileV {
    pub path: Seq<char>,
    pub fns: Seq<FnItemV>,
}

impl View for SourceFile {
    type V = SourceFileV;

    open spec fn view(&self) -> SourceFileV {
        SourceFileV { path: self.path@, fns: self.fns.deep_view() }
    }
}

impl DeepView for SourceFile {
    type V = SourceFileV;

    open spec fn deep_view(&self) -> SourceFileV {
        self.view()
    }
}

/// Is this attribute the instrumentation annotation?  Only a bare-path or
/// list meta named `auto_span` counts; a key-value meta never does.
pub open spec fn spec_is_auto_span_attr(a: AttrV) -> bool {
    !a.is_name_value && spec_path_match(a.path, seq![seq!["auto_span"@]])
}

/// The first index holding the instrumentation annotation, if any.
pub open spec fn spec_auto_span_index(attrs: Seq<AttrV>) -> Option<int> {
    if exists|i: int| 0 <= i < attrs.len() && spec_is_auto_span_attr(#[trigger] attrs[i]) {
        Option::Some(
            choose|i: int|
                #![auto]
                0 <= i < attrs.len() && spec_is_auto_span_attr(attrs[i]) && forall|j: int|
                    0 <= j < i ==> !spec_is_auto_span_attr(#[trigger] attrs[j]),
        )
    } else {
        Option::None
    }
}

/// The attributes after the instrumentation annotation, when it is
/// present: everything before it (documentation, other annotations the
/// macro machinery consumed first) is dropped along with it.
pub open spec fn spec_strip_attrs(attrs: Seq<AttrV>) -> Option<Seq<AttrV>> {
    match spec_auto_span_index(attrs) {
        Option::Some(i) => Option::Some(attrs.subrange(i + 1, attrs.len() as int)),
        Option::None => Option::None,
    }
}

fn is_auto_span_attr(a: &Attr) -> (r: bool)
    ensures
        r == spec_is_auto_span_attr(a@),
{
    if a.is_name_value {
        return false;
    }
    let pat = PathPat::single(String::from_str("auto_span"));
    path_match(&a.path, &pat)
}

/// The attributes after the first instrumentation annotation, or none
/// when the function carries no such annotation.
pub fn strip_attrs(attrs: &Vec<Attr>) -> (r: Option<Vec<Attr>>)
    ensures
        match spec_strip_attrs(attrs.deep_view()) {
            Option::Some(tail) => r matches Option::Some(v) && v.deep_view() == tail,
            Option::None => r is None,
        },
{
    let ghost av = attrs.deep_view();
    let n = attrs.len();
    let mut i: usize = 0;
    while i < n
        invariant
            n == attrs@.len(),
            av == attrs.deep_view(),
            av.len() == n,
            0 <= i <= n,
            forall|j: int| 0 <= j < i ==> !spec_is_auto_span_attr(#[trigger] av[j]),
        decreases n - i,
    {
        proof {
            assert(av[i as int] == attrs@[i as int]@);
        }
        if is_auto_span_attr(&attrs[i]) {
            let mut out: Vec<Attr> = Vec::new();
            let mut k: usize = i + 1;
            while k < n
                invariant
                    n == attrs@.len(),
                    av == attrs.deep_view(),
                    av.len() == n,
                    i + 1 <= k <= n,
                    out.deep_view() =~~= av.subrange(i + 1, k as int),
                decreases n - k,
            {
                let ghost out_before = out.deep_view();
                out.push(copy_attr(&attrs[k]));
                proof {
                    assert forall|j: int| 0 <= j < out.deep_view().len()
                        implies #[trigger] out.deep_view()[j] == av.subrange(i + 1, k + 1)[j] by {
                        assert(out.deep_view()[j] == out@[j]@);
                        if j < out_before.len() {
                            assert(out@[j] == out@.subrange(0, out@.len() - 1)[j]);
                            assert(out_before[j] == av.subrange(i + 1, k as int)[j]);
                        } else {
                            assert(out@[j]@ == attrs@[k as int]@);
                        }
                    }
                    assert(out.deep_view() =~~= av.subrange(i + 1, k + 1));
                }
                k += 1;
            }
            proof {
                assert(spec_is_auto_span_attr(av[i as int]));
                assert(spec_auto_span_index(av) == Option::<int>::Some(i as int)) by {
                    let w = choose|w: int|
                        #![auto]
                        0 <= w < av.len() && spec_is_auto_span_attr(av[w]) && forall|j: int|
                            0 <= j < w ==> !spec_is_auto_span_attr(#[trigger] av[j]);
                }
            }
            return Option::Some(out);
        }
        i += 1;
    }
    proof {
        assert(spec_auto_span_index(av) is None);
    }
    Option::None
}

fn copy_attr(a: &Attr) -> (r: Attr)
    ensures
        r@ == a@,
{
    Attr {
        path: crate::ast::copy_strings(&a.path),
        is_name_value: a.is_name_value,
        text: a.text.clone(),
    }
}

/// Do two attribute lists serialize to the same text, item for item?
pub open spec fn spec_attrs_text_eq(a: Seq<AttrV>, b: Seq<AttrV>) -> bool {
    a.len() == b.len() && forall|i: int| 0 <= i < a.len() ==> #[trigger] a[i].text == b[i].text
}

fn attrs_text_eq(a: &Vec<Attr>, b: &Vec<Attr>) -> (r: bool)
    ensures
        r == spec_attrs_text_eq(a.deep_view(), b.deep_view()),
{
    proof {
        assert(a.deep_view().len() == a@.len());
        assert(b.deep_view().len() == b@.len());
    }
    if a.len() != b.len() {
        return false;
    }
    let n = a.len();
    let mut i: usize = 0;
    while i < n
        invariant
            n == a@.len() == b@.len(),
            a.deep_view().len() == n,
            b.deep_view().len() == n,
            0 <= i <= n,
            forall|j: int|
                0 <= j < i ==> #[trigger] a.deep_view()[j].text == b.deep_view()[j].text,
        decreases n - i,
    {
        proof {
            assert(a.deep_view()[i as int] == a@[i as int]@);
            assert(b.deep_view()[i as int] == b@[i as int]@);
        }
        if !crate::path::string_eq(&a[i].text, &b[i].text) {
            proof {
                assert(a.deep_view()[i as int].text != b.deep_view()[i as int].text);
            }
            return false;
        }
        i += 1;
    }
    true
}

/// Does this candidate function match the instrumented one?  An
/// instrumentation annotation to strip, and the remaining attributes and
/// the rest serialize to the same text.
pub open spec fn spec_fn_matches(cand: FnItemV, target: FnItemV) -> bool {
    &&& match spec_strip_attrs(cand.attrs) {
        Option::Some(tail) => spec_attrs_text_eq(tail, target.attrs) && cand.rest == target.rest,
        Option::None => false,
    }
}

/// Does the file hold a top-level function matching the instrumented one?
pub open spec fn spec_file_contains(file: SourceFileV, name: Seq<char>, target: FnItemV) -> bool {
    exists|i: int|
        0 <= i < file.fns.len() && (#[trigger] file.fns[i]).name == name && spec_fn_matches(
            file.fns[i],
            target,
        )
}

/// Does the file hold a top-level function of this name whose stripped
/// serialized form agrees with the instrumented function's?
pub fn is_contain_target_func(file: &SourceFile, name: &String, target: &FnItem) -> (r: bool)
    ensures
        r == spec_file_contains(file@, name@, target@),
{
    let n = file.fns.len();
    let mut i: usize = 0;
    while i < n
        invariant
            n == file.fns@.len(),
            file@.fns.len() == n,
            0 <= i <= n,
            forall|j: int|
                0 <= j < i ==> !((#[trigger] file@.fns[j]).name == name@ && spec_fn_matches(
                    file@.fns[j],
                    target@,
                )),
        decreases n - i,
    {
        proof {
            assert(file@.fns[i as int] == file.fns@[i as int]@);
        }
        let cand = &file.fns[i];
        if crate::path::string_eq(&cand.name, name) {
            match strip_attrs(&cand.attrs) {
                Option::Some(tail) => {
                    if attrs_text_eq(&tail, &target.attrs) && crate::path::string_eq(
                        &cand.rest,
                        &target.rest,
                    ) {
                        proof {
                            assert(file@.fns[i as int].attrs == cand.attrs.deep_view());
                            assert(target@.attrs == target.attrs.deep_view());
                            assert(spec_fn_matches(file@.fns[i as int], target@));
                        }
                        return true;
                    }
                },
                Option::None => {},
            }
        }
        i += 1;
    }
    false
}

/// The first file, in the host's fixed traversal order, containing a
/// match; none when no file does.
pub fn find_source_path(files: &Vec<SourceFile>, name: &String, target: &FnItem) -> (r: Option<
    String,
>)
    ensures
        match r {
            Option::Some(p) => exists|i: int|
                0 <= i < files.deep_view().len() && (#[trigger] files.deep_view()[i]).path == p@
                    && spec_file_contains(files.deep_view()[i], name@, target@) && forall|j: int|
                    0 <= j < i ==> !spec_file_contains(
                        #[trigger] files.deep_view()[j],
                        name@,
                        target@,
                    ),
            Option::None => forall|i: int|
                0 <= i < files.deep_view().len() ==> !spec_file_contains(
                    #[trigger] files.deep_view()[i],
                    name@,
                    target@,
                ),
        },
{
    let n = files.len();
    let mut i: usize = 0;
    while i < n
        invariant
            n == files@.len(),
            files.deep_view().len() == n,
            0 <= i <= n,
            forall|j: int|
                0 <= j < i ==> !spec_file_contains(
                    #[trigger] files.deep_view()[j],
                    name@,
                    target@,
                ),
        decreases n - i,
    {
        proof {
            assert(files.deep_view()[i as int] == files@[i as int]@);
        }
        if is_contain_target_func(&files[i], name, target) {
            return Option::Some(files[i].path.clone());
        }
        i += 1;
    }
    Option::None
}

} // verus!
