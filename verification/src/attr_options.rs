//! The annotation's argument grammar.
//!
//! The annotation takes a flat list of already-parsed arguments: the flags
//! `debug`, `no_func_span` and `all_await`, and the key-values
//! `name = "<literal>"` (a literal tracer-name expression) and
//! `name_def = "<expression source>"` (tracer-name expression source).  An
//! unknown argument, a non-string value, or a second tracer name is a
//! configuration error naming the offending argument; arguments are
//! processed left to right and the first error stops processing.

use vstd::prelude::*;

use crate::path::{PathPat, path_match, spec_path_match};

verus! {

/// A literal value in an annotation argument.
#[derive(Debug, PartialEq, Eq)]
pub enum MetaLit {
    Str { value: String },
    Other,
}

#[verifier::ext_equal]
pub enum MetaLitV {
    Str { value: Seq<char> },
    Other,
}

impl View for MetaLit {
    type V = MetaLitV;

    open spec fn view(&self) -> MetaLitV {
        match self {
            MetaLit::Str { value } => MetaLitV::Str { value: value@ },
            MetaLit::Other => MetaLitV::Other,
        }
    }
}

/// One already-parsed annotation argument: a bare path, a parenthesized
/// list, or a key-value pair.
#[derive(Debug, PartialEq, Eq)]
pub enum Meta {
    Path { path: Vec<String> },
    List { path: Vec<String>, items: Vec<Meta> },
    NameValue { path: Vec<String>, lit: MetaLit },
}

#[verifier::ext_equal]
pub enum MetaV {
    Path { path: Seq<Seq<char>> },
    List { path: Seq<Seq<char>>, items: Seq<MetaV> },
    NameValue { path: Seq<Seq<char>>, lit: MetaLitV },
}

pub open spec fn view_meta(m: Meta) -> MetaV
    decreases m,
{
    match m {
        Meta::Path { path } => MetaV::Path { path: path.deep_view() },
        Meta::List { path, items } => MetaV::List {
            path: path.deep_view(),
            items: view_meta_seq(items@),
        },
        Meta::NameValue { path, lit } => MetaV::NameValue { path: path.deep_view(), lit: lit@ },
    }
}

pub open spec fn view_meta_seq(v: Seq<Meta>) -> Seq<MetaV>
    decreases v,
{
    if v.len() == 0 {
        Seq::empty()
    } else {
        view_meta_seq(v.drop_last()).push(view_meta(v.last()))
    }
}

impl View for Meta {
    type V = MetaV;

    open spec fn view(&self) -> MetaV {
        view_meta(*self)
    }
}

/// The expression that names the tracer: taken verbatim from a string
/// literal, or given as expression source text to be parsed by the host.
#[derive(Debug, PartialEq, Eq)]
pub enum TracerName {
    LitStr { source: String },
    Source { source: String },
}

#[verifier::ext_equal]
pub enum TracerNameV {
    LitStr { source: Seq<char> },
    Source { source: Seq<char> },
}

impl View for TracerName {
    type V = TracerNameV;

    open spec fn view(&self) -> TracerNameV {
        match self {
            TracerName::LitStr { source } => TracerNameV::LitStr { source: source@ },
            TracerName::Source { source } => TracerNameV::Source { source: source@ },
        }
    }
}

/// The configuration built from the annotation's arguments.
#[derive(Debug, PartialEq, Eq)]
pub struct Opt {
    pub func_span: bool,
    pub all_await: bool,
    pub debug: bool,
    pub name_def: Option<TracerName>,
}

#[verifier::ext_equal]
pub struct OptV {
    pub func_span: bool,
    pub all_await: bool,
    pub debug: bool,
    pub name_def: Option<TracerNameV>,
}

impl View for Opt {
    type V = OptV;

    open spec fn view(&self) -> OptV {
        OptV {
            func_span: self.func_span,
            all_await: self.all_await,
            debug: self.debug,
            name_def: match self.name_def {
                Option::None => Option::None,
                Option::Some(n) => Option::Some(n@),
            },
        }
    }
}

/// A configuration error, carrying the offending argument's path.
#[derive(Debug, PartialEq, Eq)]
pub enum ConfigError {
    UnknownOption { path: Vec<String> },
    UnexpectedLiteral { path: Vec<String> },
    ConflictingName { path: Vec<String> },
}

#[verifier::ext_equal]
pub enum ConfigErrorV {
    UnknownOption { path: Seq<Seq<char>> },
    UnexpectedLiteral { path: Seq<Seq<char>> },
    ConflictingName { path: Seq<Seq<char>> },
}

impl View for ConfigError {
    type V = ConfigErrorV;

    open spec fn view(&self) -> ConfigErrorV {
        match self {
            ConfigError::UnknownOption { path } => ConfigErrorV::UnknownOption {
                path: path.deep_view(),
            },
            ConfigError::UnexpectedLiteral { path } => ConfigErrorV::UnexpectedLiteral {
                path: path.deep_view(),
            },
            ConfigError::ConflictingName { path } => ConfigErrorV::ConflictingName {
                path: path.deep_view(),
            },
        }
    }
}

/// Does an argument path name this option (a one-segment path)?
pub open spec fn spec_opt_is(path: Seq<Seq<char>>, name: Seq<char>) -> bool {
    spec_path_match(path, seq![seq![name]])
}

/// The default configuration: a function-level span, only tracked awaits
/// instrumented, no debug dump, the default tracer name.
pub open spec fn spec_default_opt() -> OptV {
    OptV { func_span: true, all_await: false, debug: false, name_def: Option::None }
}

/// The configuration after one argument, and the error it raises, if any.
pub open spec fn spec_apply_meta(o: OptV, m: MetaV) -> (OptV, Option<ConfigErrorV>)
    decreases m,
{
    match m {
        MetaV::Path { path } => if spec_opt_is(path, "debug"@) {
            (OptV { debug: true, ..o }, Option::None)
        } else if spec_opt_is(path, "no_func_span"@) {
            (OptV { func_span: false, ..o }, Option::None)
        } else if spec_opt_is(path, "all_await"@) {
            (OptV { all_await: true, ..o }, Option::None)
        } else {
            (o, Option::Some(ConfigErrorV::UnknownOption { path }))
        },
        MetaV::NameValue { path, lit } => if spec_opt_is(path, "name"@) {
            if o.name_def is Some {
                (o, Option::Some(ConfigErrorV::ConflictingName { path }))
            } else {
                match lit {
                    MetaLitV::Str { value } => (
                        OptV {
                            name_def: Option::Some(TracerNameV::LitStr { source: value }),
                            ..o
                        },
                        Option::None,
                    ),
                    MetaLitV::Other => (
                        o,
                        Option::Some(ConfigErrorV::UnexpectedLiteral { path }),
                    ),
                }
            }
        } else if spec_opt_is(path, "name_def"@) {
            if o.name_def is Some {
                (o, Option::Some(ConfigErrorV::ConflictingName { path }))
            } else {
                match lit {
                    MetaLitV::Str { value } => (
                        OptV {
                            name_def: Option::Some(TracerNameV::Source { source: value }),
                            ..o
                        },
                        Option::None,
                    ),
                    MetaLitV::Other => (
                        o,
                        Option::Some(ConfigErrorV::UnexpectedLiteral { path }),
                    ),
                }
            }
        } else {
            (o, Option::Some(ConfigErrorV::UnknownOption { path }))
        },
        MetaV::List { path, items } => spec_apply_metas(o, items),
    }
}

/// The configuration after a list of arguments, processed left to right,
/// stopping at the first error.
pub open spec fn spec_apply_metas(o: OptV, items: Seq<MetaV>) -> (OptV, Option<ConfigErrorV>)
    decreases items,
{
    if items.len() == 0 {
        (o, Option::None)
    } else {
        let front = spec_apply_metas(o, items.drop_last());
        if front.1 is Some {
            front
        } else {
            spec_apply_meta(front.0, items.last())
        }
    }
}

proof fn lemma_apply_metas_push(o: OptV, items: Seq<MetaV>, x: MetaV)
    ensures
        spec_apply_metas(o, items.push(x)) == (if spec_apply_metas(o, items).1 is Some {
            spec_apply_metas(o, items)
        } else {
            spec_apply_meta(spec_apply_metas(o, items).0, x)
        }),
{
    assert(items.push(x).drop_last() =~= items);
    assert(items.push(x).last() == x);
}

proof fn lemma_apply_metas_error_stop(o: OptV, items: Seq<MetaV>, k: int)
    requires
        0 <= k <= items.len(),
        spec_apply_metas(o, items.subrange(0, k)).1 is Some,
    ensures
        spec_apply_metas(o, items) == spec_apply_metas(o, items.subrange(0, k)),
    decreases items.len(),
{
    if items.len() == k {
        assert(items.subrange(0, k) =~= items);
    } else {
        assert(items.drop_last() =~= items.subrange(0, items.len() - 1));
        assert(items.subrange(0, items.len() - 1).subrange(0, k) =~= items.subrange(0, k));
        lemma_apply_metas_error_stop(o, items.subrange(0, items.len() - 1), k);
    }
}

fn opt_is(path: &Vec<String>, name: &str) -> (r: bool)
    ensures
        r == spec_opt_is(path.deep_view(), name@),
{
    let pat = PathPat::single(String::from_str(name));
    path_match(path, &pat)
}

fn copy_path(path: &Vec<String>) -> (r: Vec<String>)
    ensures
        r.deep_view() == path.deep_view(),
{
    crate::ast::copy_strings(path)
}

/// Builds the configuration from the annotation's arguments.
pub struct AttrVisitor {
    pub opt: Opt,
}

impl AttrVisitor {
    pub fn new() -> (v: AttrVisitor)
        ensures
            v.opt@ == spec_default_opt(),
    {
        AttrVisitor {
            opt: Opt { func_span: true, all_await: false, debug: false, name_def: Option::None },
        }
    }

    /// Apply one argument; an unknown option, a non-string value, or a
    /// second tracer name is reported as a configuration error.
    pub fn visit_meta(&mut self, m: &Meta) -> (r: Result<(), ConfigError>)
        ensures
            final(self).opt@ == spec_apply_meta(old(self).opt@, m@).0,
            match spec_apply_meta(old(self).opt@, m@).1 {
                Option::Some(e) => r matches Result::Err(x) && x@ == e,
                Option::None => r is Ok,
            },
        decreases *m,
    {
        match m {
            Meta::Path { path } => {
                if opt_is(path, "debug") {
                    self.opt.debug = true;
                    Result::Ok(())
                } else if opt_is(path, "no_func_span") {
                    self.opt.func_span = false;
                    Result::Ok(())
                } else if opt_is(path, "all_await") {
                    self.opt.all_await = true;
                    Result::Ok(())
                } else {
                    Result::Err(ConfigError::UnknownOption { path: copy_path(path) })
                }
            },
            Meta::NameValue { path, lit } => {
                if opt_is(path, "name") {
                    if self.opt.name_def.is_some() {
                        Result::Err(ConfigError::ConflictingName { path: copy_path(path) })
                    } else {
                        match lit {
                            MetaLit::Str { value } => {
                                self.opt.name_def = Option::Some(
                                    TracerName::LitStr { source: value.clone() },
                                );
                                Result::Ok(())
                            },
                            MetaLit::Other => Result::Err(
                                ConfigError::UnexpectedLiteral { path: copy_path(path) },
                            ),
                        }
                    }
                } else if opt_is(path, "name_def") {
                    if self.opt.name_def.is_some() {
                        Result::Err(ConfigError::ConflictingName { path: copy_path(path) })
                    } else {
                        match lit {
                            MetaLit::Str { value } => {
                                self.opt.name_def = Option::Some(
                                    TracerName::Source { source: value.clone() },
                                );
                                Result::Ok(())
                            },
                            MetaLit::Other => Result::Err(
                                ConfigError::UnexpectedLiteral { path: copy_path(path) },
                            ),
                        }
                    }
                } else {
                    Result::Err(ConfigError::UnknownOption { path: copy_path(path) })
                }
            },
            Meta::List { path, items } => self.visit_metas(items),
        }
    }

    /// Apply a whole argument list, left to right, stopping at the first
    /// error.
    pub fn visit_metas(&mut self, items: &Vec<Meta>) -> (r: Result<(), ConfigError>)
        ensures
            final(self).opt@ == spec_apply_metas(old(self).opt@, view_meta_seq(items@)).0,
            match spec_apply_metas(old(self).opt@, view_meta_seq(items@)).1 {
                Option::Some(e) => r matches Result::Err(x) && x@ == e,
                Option::None => r is Ok,
            },
        decreases *items,
    {
        let n = items.len();
        let mut i: usize = 0;
        while i < n
            invariant
                n == items@.len(),
                0 <= i <= n,
                spec_apply_metas(old(self).opt@, view_meta_seq(items@.subrange(0, i as int))).1
                    is None,
                self.opt@ == spec_apply_metas(
                    old(self).opt@,
                    view_meta_seq(items@.subrange(0, i as int)),
                ).0,
            decreases n - i,
        {
            let ghost prefix = items@.subrange(0, i as int);
            let ghost metas_prefix = view_meta_seq(prefix);
            let r = self.visit_meta(&items[i]);
            proof {
                assert(items@.subrange(0, i + 1) =~= prefix.push(items@[i as int]));
                lemma_view_meta_seq_push(prefix, items@[i as int]);
                lemma_apply_metas_push(old(self).opt@, metas_prefix, view_meta(items@[i as int]));
            }
            match r {
                Result::Err(e) => {
                    proof {
                        lemma_view_meta_seq_len(items@);
                        lemma_view_meta_seq_subrange(items@, i as int + 1);
                        lemma_apply_metas_error_stop(
                            old(self).opt@,
                            view_meta_seq(items@),
                            i as int + 1,
                        );
                    }
                    return Result::Err(e);
                },
                Result::Ok(u) => {},
            }
            i += 1;
        }
        proof {
            assert(items@.subrange(0, n as int) =~= items@);
        }
        Result::Ok(())
    }

}

pub broadcast proof fn lemma_view_meta_seq_len(v: Seq<Meta>)
    ensures
        (#[trigger] view_meta_seq(v)).len() == v.len(),
    decreases v,
{
    if v.len() > 0 {
        lemma_view_meta_seq_len(v.drop_last());
    }
}

proof fn lemma_view_meta_seq_push(v: Seq<Meta>, x: Meta)
    ensures
        view_meta_seq(v.push(x)) == view_meta_seq(v).push(view_meta(x)),
{
    assert(v.push(x).drop_last() =~= v);
    assert(v.push(x).last() == x);
}

/// The view of a prefix is the prefix of the view.
proof fn lemma_view_meta_seq_subrange(v: Seq<Meta>, k: int)
    requires
        0 <= k <= v.len(),
    ensures
        view_meta_seq(v.subrange(0, k)) == view_meta_seq(v).subrange(0, k),
    decreases v.len(),
{
    lemma_view_meta_seq_len(v);
    if k == v.len() {
        assert(v.subrange(0, k) =~= v);
        assert(view_meta_seq(v).subrange(0, k) =~= view_meta_seq(v));
    } else {
        assert(v.drop_last() =~= v.subrange(0, v.len() - 1));
        lemma_view_meta_seq_len(v.drop_last());
        lemma_view_meta_seq_subrange(v.drop_last(), k);
        assert(v.drop_last().subrange(0, k) =~= v.subrange(0, k));
        assert(view_meta_seq(v.drop_last()) =~= view_meta_seq(v).drop_last());
        assert(view_meta_seq(v).drop_last().subrange(0, k) =~= view_meta_seq(v).subrange(0, k));
    }
}

} // verus!
