//! Structural matching of qualified call paths against patterns.
//!
//! A path is a sequence of segment names (`a::b::c`); a pattern gives, for
//! each position, a set of acceptable names, where the name `*` accepts any
//! one segment.  `path_match` asks for the whole path to be covered,
//! `path_starts_with` only for a prefix.

use vstd::prelude::*;

verus! {

/// A pattern over a qualified path: one entry per segment position, each a
/// list of alternatives; the alternative `"*"` matches any one segment.
pub struct PathPat {
    pub segments: Vec<Vec<String>>,
}

impl View for PathPat {
    type V = Seq<Seq<Seq<char>>>;

    open spec fn view(&self) -> Seq<Seq<Seq<char>>> {
        self.segments.deep_view()
    }
}

/// One pattern position accepts a segment when some alternative is the
/// wildcard or the segment's own text.
pub open spec fn seg_matches(seg: Seq<char>, alts: Seq<Seq<char>>) -> bool {
    exists|j: int| 0 <= j < alts.len() && (alts[j] == "*"@ || alts[j] == seg)
}

/// The pattern covers the path exactly: same length, every position accepted.
pub open spec fn spec_path_match(path: Seq<Seq<char>>, pat: Seq<Seq<Seq<char>>>) -> bool {
    &&& path.len() == pat.len()
    &&& forall|i: int| 0 <= i < path.len() ==> seg_matches(path[i], pat[i])
}

/// The pattern covers a prefix of the path: the path is at least as long,
/// and every pattern position accepts the corresponding segment.
pub open spec fn spec_path_starts_with(path: Seq<Seq<char>>, pat: Seq<Seq<Seq<char>>>) -> bool {
    &&& pat.len() <= path.len()
    &&& forall|i: int| 0 <= i < pat.len() ==> seg_matches(path[i], pat[i])
}

pub fn string_eq(a: &String, b: &String) -> (r: bool)
    ensures
        r == (a@ == b@),
{
    a.eq(b)
}

fn seg_matches_exec(seg: &String, alts: &Vec<String>) -> (r: bool)
    ensures
        r == seg_matches(seg@, alts.deep_view()),
{
    let star: String = String::from_str("*");
    let mut j: usize = 0;
    while j < alts.len()
        invariant
            0 <= j <= alts.len(),
            star@ == "*"@,
            forall|k: int|
                0 <= k < j ==> !(alts.deep_view()[k] == "*"@ || alts.deep_view()[k] == seg@),
        decreases alts.len() - j,
    {
        assert(alts.deep_view()[j as int] == alts[j as int]@);
        if string_eq(&alts[j], &star) || string_eq(&alts[j], seg) {
            return true;
        }
        j += 1;
    }
    false
}

impl PathPat {
    /// A one-position pattern with a single acceptable name.
    pub fn single(name: String) -> (r: PathPat)
        ensures
            r@ =~~= seq![seq![name@]],
    {
        let mut alts: Vec<String> = Vec::new();
        alts.push(name);
        let mut segments: Vec<Vec<String>> = Vec::new();
        segments.push(alts);
        PathPat { segments }
    }

    /// The general form: a list of alternatives for each position.
    pub fn of_alternatives(segments: Vec<Vec<String>>) -> (r: PathPat)
        ensures
            r@ == segments.deep_view(),
    {
        PathPat { segments }
    }
}

/// Does the pattern cover the whole path, position by position?
pub fn path_match(path: &Vec<String>, pat: &PathPat) -> (r: bool)
    ensures
        r == spec_path_match(path.deep_view(), pat@),
{
    if path.len() != pat.segments.len() {
        return false;
    }
    let mut i: usize = 0;
    while i < path.len()
        invariant
            0 <= i <= path@.len(),
            path@.len() == pat.segments@.len(),
            forall|k: int| 0 <= k < i ==> seg_matches(path.deep_view()[k], pat@[k]),
        decreases path@.len() - i,
    {
        assert(path.deep_view()[i as int] == path[i as int]@);
        assert(pat@[i as int] == pat.segments[i as int].deep_view());
        if !seg_matches_exec(&path[i], &pat.segments[i]) {
            return false;
        }
        i += 1;
    }
    true
}

/// Does the pattern cover a prefix of the path?
pub fn path_starts_with(path: &Vec<String>, pat: &PathPat) -> (r: bool)
    ensures
        r == spec_path_starts_with(path.deep_view(), pat@),
{
    if path.len() < pat.segments.len() {
        return false;
    }
    let mut i: usize = 0;
    while i < pat.segments.len()
        invariant
            0 <= i <= pat.segments@.len(),
            pat.segments@.len() <= path@.len(),
            forall|k: int| 0 <= k < i ==> seg_matches(path.deep_view()[k], pat@[k]),
        decreases pat.segments@.len() - i,
    {
        assert(path.deep_view()[i as int] == path[i as int]@);
        assert(pat@[i as int] == pat.segments[i as int].deep_view());
        if !seg_matches_exec(&path[i], &pat.segments[i]) {
            return false;
        }
        i += 1;
    }
    true
}

} // verus!
