//! A line index over raw source bytes.
//!
//! `LineAccess::from_bytes` scans a byte buffer once and records one entry
//! per line terminator: the byte range of the line, its 1-based number, and
//! its text with leading ASCII whitespace removed.  `find_line` answers, by
//! binary search, which recorded line contains a byte offset.  `span`
//! combines that with `parse_span_offset`, which reads the start offset out
//! of a rendered span description of the shape `#12 bytes(34..56)`.

use vstd::prelude::*;
use vstd::slice::slice_index_get;

verus! {

/// One terminator-delimited line: its byte range in the buffer (the end is
/// the terminator's own index), its 1-based number, and its text with
/// leading ASCII whitespace stripped.
#[derive(Debug, PartialEq, Eq)]
pub struct Line {
    pub start_bytes: usize,
    pub end_bytes: usize,
    pub line_number: usize,
    pub data: Vec<u8>,
}

/// An ordered table of the lines of one source buffer.
pub struct LineAccess {
    pub lines: Vec<Line>,
}

pub open spec fn is_line_sep(b: u8) -> bool {
    b == 10
}

pub open spec fn is_space_byte(b: u8) -> bool {
    b == 32 || b == 9 || b == 10 || b == 12 || b == 13
}

/// The indices of the line terminators among the first `n` bytes, in order.
pub open spec fn newline_positions(buf: Seq<u8>, n: int) -> Seq<int>
    decreases n,
{
    if n <= 0 {
        Seq::empty()
    } else if is_line_sep(buf[n - 1]) {
        newline_positions(buf, n - 1).push(n - 1)
    } else {
        newline_positions(buf, n - 1)
    }
}

/// A byte sequence with its leading ASCII whitespace removed.
pub open spec fn spec_trim_start(s: Seq<u8>) -> Seq<u8>
    decreases s.len(),
{
    if s.len() > 0 && is_space_byte(s[0]) {
        spec_trim_start(s.drop_first())
    } else {
        s
    }
}

proof fn lemma_newline_positions_bounds(buf: Seq<u8>, n: int)
    ensures
        forall|k: int|
            0 <= k < newline_positions(buf, n).len() ==> 0 <= #[trigger] newline_positions(
                buf,
                n,
            )[k] < n,
    decreases n,
{
    if n > 0 {
        lemma_newline_positions_bounds(buf, n - 1);
        let prev = newline_positions(buf, n - 1);
        if is_line_sep(buf[n - 1]) {
            assert(newline_positions(buf, n) == prev.push(n - 1));
            assert forall|k: int| 0 <= k < newline_positions(buf, n).len() implies 0
                <= #[trigger] newline_positions(buf, n)[k] < n by {
                if k < prev.len() {
                    assert(newline_positions(buf, n)[k] == prev[k]);
                } else {
                    assert(newline_positions(buf, n)[k] == n - 1);
                }
            }
        }
    }
}

proof fn lemma_trim_start_skip(s: Seq<u8>, k: int)
    requires
        0 <= k <= s.len(),
        forall|m: int| 0 <= m < k ==> is_space_byte(s[m]),
        k == s.len() || !is_space_byte(s[k]),
    ensures
        spec_trim_start(s) == s.subrange(k, s.len() as int),
    decreases k,
{
    if k == 0 {
        assert(spec_trim_start(s) == s);
        assert(s.subrange(0, s.len() as int) =~= s);
    } else {
        assert(is_space_byte(s[0]));
        lemma_trim_start_skip(s.drop_first(), k - 1);
        assert(s.drop_first().subrange(k - 1, s.drop_first().len() as int) =~= s.subrange(
            k,
            s.len() as int,
        ));
    }
}

impl LineAccess {
    /// Ranges are contiguous from 0, each line ends no earlier than it
    /// starts, and line numbers count up from 1.
    pub open spec fn wf(&self) -> bool {
        &&& forall|i: int|
            0 <= i < self.lines@.len() ==> #[trigger] self.lines@[i].start_bytes
                <= self.lines@[i].end_bytes
        &&& forall|i: int|
            0 <= i < self.lines@.len() ==> #[trigger] self.lines@[i].line_number == i + 1
        &&& forall|i: int|
            0 <= i < self.lines@.len() ==> #[trigger] self.lines@[i].start_bytes as int == (if i
                == 0 {
                0int
            } else {
                self.lines@[i - 1].end_bytes + 1
            })
    }

    /// The table is exactly the lines of `buf`: one entry per terminator,
    /// ending at it, holding the trimmed text before it.
    pub open spec fn matches_buffer(&self, buf: Seq<u8>) -> bool {
        &&& self.lines@.len() == newline_positions(buf, buf.len() as int).len()
        &&& forall|k: int|
            0 <= k < self.lines@.len() ==> #[trigger] self.lines@[k].end_bytes as int
                == newline_positions(buf, buf.len() as int)[k]
        &&& forall|k: int|
            0 <= k < self.lines@.len() ==> #[trigger] self.lines@[k].data@ == spec_trim_start(
                buf.subrange(self.lines@[k].start_bytes as int, self.lines@[k].end_bytes as int),
            )
    }

    /// Scan the buffer once, recording a line for each terminator found.
    /// Bytes after the last terminator form no line.
    pub fn from_bytes(buf: &[u8]) -> (r: LineAccess)
        ensures
            r.wf(),
            r.matches_buffer(buf@),
    {
        let n = buf.len();
        let mut lines: Vec<Line> = Vec::new();
        let mut i: usize = 0;
        while i < n
            invariant
                n == buf@.len(),
                0 <= i <= n,
                lines@.len() <= i,
                forall|k: int|
                    0 <= k < lines@.len() ==> #[trigger] lines@[k].start_bytes
                        <= lines@[k].end_bytes,
                forall|k: int| 0 <= k < lines@.len() ==> #[trigger] lines@[k].line_number == k + 1,
                forall|k: int|
                    0 <= k < lines@.len() ==> #[trigger] lines@[k].start_bytes as int == (if k == 0 {
                        0int
                    } else {
                        lines@[k - 1].end_bytes + 1
                    }),
                lines@.len() == newline_positions(buf@, i as int).len(),
                forall|k: int|
                    0 <= k < lines@.len() ==> #[trigger] lines@[k].end_bytes as int
                        == newline_positions(buf@, i as int)[k],
                forall|k: int|
                    0 <= k < lines@.len() ==> #[trigger] lines@[k].data@ == spec_trim_start(
                        buf@.subrange(lines@[k].start_bytes as int, lines@[k].end_bytes as int),
                    ),
            decreases n - i,
        {
            if *slice_index_get(buf, i) == 10 {
                proof {
                    lemma_newline_positions_bounds(buf@, i as int);
                }
                let start: usize = if lines.len() == 0 {
                    0
                } else {
                    lines[lines.len() - 1].end_bytes + 1
                };
                let mut j: usize = start;
                while j < i && is_space(*slice_index_get(buf, j))
                    invariant
                        n == buf@.len(),
                        i < n,
                        start <= j <= i,
                        forall|m: int| start <= m < j ==> is_space_byte(buf@[m]),
                    decreases i - j,
                {
                    j += 1;
                }
                let mut data: Vec<u8> = Vec::new();
                let mut m: usize = j;
                while m < i
                    invariant
                        n == buf@.len(),
                        i < n,
                        j <= m <= i,
                        data@ =~= buf@.subrange(j as int, m as int),
                    decreases i - m,
                {
                    data.push(*slice_index_get(buf, m));
                    m += 1;
                }
                proof {
                    lemma_trim_start_skip(
                        buf@.subrange(start as int, i as int),
                        j as int - start as int,
                    );
                    assert(buf@.subrange(start as int, i as int).subrange(
                        j as int - start as int,
                        i as int - start as int,
                    ) =~= buf@.subrange(j as int, i as int));
                }
                let number = lines.len() + 1;
                let ghost old_lines = lines@;
                lines.push(Line { start_bytes: start, end_bytes: i, line_number: number, data });
                proof {
                    assert(lines@ == old_lines.push(
                        Line {
                            start_bytes: start,
                            end_bytes: i,
                            line_number: number,
                            data: lines@[old_lines.len() as int].data,
                        },
                    ));
                    assert(newline_positions(buf@, i + 1) == newline_positions(buf@, i as int).push(
                        i as int,
                    ));
                    assert forall|k: int| 0 <= k < lines@.len() implies {
                        &&& #[trigger] lines@[k].start_bytes <= lines@[k].end_bytes
                        &&& lines@[k].line_number == k + 1
                        &&& lines@[k].start_bytes as int == (if k == 0 {
                            0int
                        } else {
                            lines@[k - 1].end_bytes + 1
                        })
                        &&& lines@[k].end_bytes as int == newline_positions(buf@, i + 1)[k]
                        &&& lines@[k].data@ == spec_trim_start(
                            buf@.subrange(lines@[k].start_bytes as int, lines@[k].end_bytes as int),
                        )
                    } by {
                        if k < old_lines.len() {
                            assert(lines@[k] == old_lines[k]);
                            assert(newline_positions(buf@, i + 1)[k] == newline_positions(
                                buf@,
                                i as int,
                            )[k]);
                        } else {
                            assert(lines@[k].end_bytes == i);
                            if k > 0 {
                                assert(lines@[k - 1] == old_lines[k - 1]);
                            }
                        }
                    }
                }
            }
            i += 1;
        }
        LineAccess { lines }
    }

    /// Binary search for the line whose byte range contains `bytes`.
    pub fn find_line(&self, bytes: usize) -> (r: Option<&Line>)
        requires
            self.wf(),
        ensures
            match r {
                Option::Some(line) => exists|i: int|
                    0 <= i < self.lines@.len() && *line == self.lines@[i] && line.start_bytes
                        <= bytes <= line.end_bytes,
                Option::None => forall|i: int|
                    0 <= i < self.lines@.len() ==> !(#[trigger] self.lines@[i].start_bytes <= bytes
                        <= self.lines@[i].end_bytes),
            },
    {
        proof {
            self.lemma_ordered();
        }
        let mut lo: usize = 0;
        let mut hi: usize = self.lines.len();
        while lo < hi
            invariant
                self.wf(),
                lo <= hi <= self.lines@.len(),
                forall|i: int| 0 <= i < lo ==> #[trigger] self.lines@[i].end_bytes < bytes,
                forall|i: int|
                    hi <= i < self.lines@.len() ==> bytes < #[trigger] self.lines@[i].start_bytes,
                forall|i: int, j: int|
                    0 <= i < j < self.lines@.len() ==> #[trigger] self.lines@[i].end_bytes
                        < #[trigger] self.lines@[j].start_bytes,
            decreases hi - lo,
        {
            let mid = lo + (hi - lo) / 2;
            if bytes < self.lines[mid].start_bytes {
                hi = mid;
            } else if self.lines[mid].end_bytes < bytes {
                lo = mid + 1;
            } else {
                return Some(&self.lines[mid]);
            }
        }
        None
    }

    /// Ranges of distinct lines do not overlap and come in order.
    pub proof fn lemma_ordered(&self)
        requires
            self.wf(),
        ensures
            forall|i: int, j: int|
                0 <= i < j < self.lines@.len() ==> #[trigger] self.lines@[i].end_bytes
                    < #[trigger] self.lines@[j].start_bytes,
    {
        assert forall|i: int, j: int|
            0 <= i < j < self.lines@.len() implies #[trigger] self.lines@[i].end_bytes
            < #[trigger] self.lines@[j].start_bytes by {
            self.lemma_ordered_pair(i, j);
        }
    }

    proof fn lemma_ordered_pair(&self, i: int, j: int)
        requires
            self.wf(),
            0 <= i < j < self.lines@.len(),
        ensures
            self.lines@[i].end_bytes < self.lines@[j].start_bytes,
        decreases j - i,
    {
        if i + 1 == j {
            assert(self.lines@[j].start_bytes as int == self.lines@[i].end_bytes + 1);
        } else {
            self.lemma_ordered_pair(i, j - 1);
            assert(self.lines@[j].start_bytes as int == self.lines@[j - 1].end_bytes + 1);
        }
    }

    /// Line number and trimmed text of the line containing the byte offset
    /// read out of a rendered span description; none when the description
    /// does not parse or no line contains the offset.
    pub fn span(&self, span_debug: &str) -> (r: Option<(usize, Vec<u8>)>)
        requires
            self.wf(),
        ensures
            match spec_span_offset(span_debug@) {
                Option::None => r is None,
                Option::Some(v) => if v > usize::MAX as nat {
                    r is None
                } else {
                    match r {
                        Option::Some(p) => exists|i: int|
                            0 <= i < self.lines@.len() && (#[trigger] self.lines@[i].start_bytes
                                <= v <= self.lines@[i].end_bytes) && p.0
                                == self.lines@[i].line_number && p.1@ == self.lines@[i].data@,
                        Option::None => forall|i: int|
                            0 <= i < self.lines@.len() ==> !(#[trigger] self.lines@[i].start_bytes
                                <= v <= self.lines@[i].end_bytes),
                    }
                },
            },
    {
        if self.lines.len() == 0 {
            return None;
        }
        match parse_span_offset(span_debug) {
            Option::None => None,
            Option::Some(off) => match self.find_line(off) {
                Option::None => None,
                Option::Some(line) => Some((line.line_number, copy_bytes(&line.data))),
            },
        }
    }
}

/// The first line, in order, whose byte range contains the offset.
pub open spec fn spec_find_line(lines: Seq<Line>, off: int) -> Option<Line>
    decreases lines.len(),
{
    if lines.len() == 0 {
        Option::None
    } else if lines[0].start_bytes <= off <= lines[0].end_bytes {
        Option::Some(lines[0])
    } else {
        spec_find_line(lines.drop_first(), off)
    }
}

/// Over ordered, disjoint ranges, `spec_find_line` answers exactly which
/// line contains the offset.
pub proof fn lemma_spec_find_line(lines: Seq<Line>, off: int)
    requires
        forall|i: int, j: int|
            0 <= i < j < lines.len() ==> #[trigger] lines[i].end_bytes
                < #[trigger] lines[j].start_bytes,
    ensures
        match spec_find_line(lines, off) {
            Option::Some(l) => exists|i: int|
                0 <= i < lines.len() && lines[i] == l && l.start_bytes <= off <= l.end_bytes,
            Option::None => forall|i: int|
                0 <= i < lines.len() ==> !(#[trigger] lines[i].start_bytes <= off
                    <= lines[i].end_bytes),
        },
    decreases lines.len(),
{
    if lines.len() > 0 && !(lines[0].start_bytes <= off <= lines[0].end_bytes) {
        lemma_spec_find_line(lines.drop_first(), off);
        match spec_find_line(lines.drop_first(), off) {
            Option::Some(l) => {
                let i = choose|i: int|
                    0 <= i < lines.drop_first().len() && lines.drop_first()[i] == l
                        && l.start_bytes <= off <= l.end_bytes;
                assert(lines[i + 1] == l);
            },
            Option::None => {
                assert forall|i: int| 0 <= i < lines.len() implies !(
                #[trigger] lines[i].start_bytes <= off <= lines[i].end_bytes) by {
                    if i > 0 {
                        assert(lines.drop_first()[i - 1] == lines[i]);
                    }
                }
            },
        }
    }
}

fn is_space(b: u8) -> (r: bool)
    ensures
        r == is_space_byte(b),
{
    b == 32 || b == 9 || b == 10 || b == 12 || b == 13
}

pub(crate) fn copy_bytes(v: &Vec<u8>) -> (r: Vec<u8>)
    ensures
        r@ == v@,
{
    let mut out: Vec<u8> = Vec::new();
    let mut i: usize = 0;
    while i < v.len()
        invariant
            0 <= i <= v@.len(),
            out@ =~= v@.subrange(0, i as int),
        decreases v@.len() - i,
    {
        out.push(v[i]);
        i += 1;
    }
    proof {
        assert(out@ =~= v@);
    }
    out
}

pub open spec fn is_digit(c: char) -> bool {
    '0' <= c && c <= '9'
}

pub open spec fn digit_of(c: char) -> nat {
    if is_digit(c) {
        (c as int - 48) as nat
    } else {
        0
    }
}

/// The first index at or after `i` holding no decimal digit.
pub open spec fn skip_digits(s: Seq<char>, i: int) -> int
    decreases s.len() - i,
{
    if 0 <= i < s.len() && is_digit(s[i]) {
        skip_digits(s, i + 1)
    } else {
        i
    }
}

/// The numeric value of the digit run `s[i..j)`.
pub open spec fn digits_val(s: Seq<char>, i: int, j: int) -> nat
    decreases j - i,
{
    if i >= j {
        0
    } else {
        digits_val(s, i, j - 1) * 10 + digit_of(s[j - 1])
    }
}

proof fn lemma_skip_digits_range(s: Seq<char>, i: int)
    requires
        0 <= i <= s.len(),
    ensures
        i <= skip_digits(s, i) <= s.len(),
        forall|m: int| i <= m < skip_digits(s, i) ==> is_digit(s[m]),
        skip_digits(s, i) == s.len() || !is_digit(s[skip_digits(s, i)]),
    decreases s.len() - i,
{
    if i < s.len() && is_digit(s[i]) {
        lemma_skip_digits_range(s, i + 1);
    }
}

proof fn lemma_digits_val_monotone(s: Seq<char>, i: int, j: int, k: int)
    requires
        i <= j <= k,
    ensures
        digits_val(s, i, j) <= digits_val(s, i, k),
    decreases k - j,
{
    if j < k {
        lemma_digits_val_monotone(s, i, j, k - 1);
        assert(digits_val(s, i, k) == digits_val(s, i, k - 1) * 10 + digit_of(s[k - 1]));
        assert(digits_val(s, i, k - 1) * 10 >= digits_val(s, i, k - 1));
    }
}

/// The start offset named by a rendered span description: the text must
/// begin `#<digits> bytes(<digits>..<digits>)`, and the value is the second
/// digit run, the range's start.
pub open spec fn spec_span_offset(s: Seq<char>) -> Option<nat> {
    if s.len() < 1 || s[0] != '#' {
        None
    } else {
        let d1 = skip_digits(s, 1);
        if d1 == 1 || !spec_has_bytes_kw(s, d1) {
            None
        } else {
            let p = d1 + 7;
            let d2 = skip_digits(s, p);
            if d2 == p {
                None
            } else if !(d2 + 2 <= s.len() && s[d2] == '.' && s[d2 + 1] == '.') {
                None
            } else {
                let d3 = skip_digits(s, d2 + 2);
                if d3 == d2 + 2 || !(d3 < s.len() && s[d3] == ')') {
                    None
                } else {
                    Some(digits_val(s, p, d2))
                }
            }
        }
    }
}

pub open spec fn spec_has_bytes_kw(s: Seq<char>, i: int) -> bool {
    &&& i + 7 <= s.len()
    &&& s[i] == ' '
    &&& s[i + 1] == 'b'
    &&& s[i + 2] == 'y'
    &&& s[i + 3] == 't'
    &&& s[i + 4] == 'e'
    &&& s[i + 5] == 's'
    &&& s[i + 6] == '('
}

fn is_digit_char(c: char) -> (r: bool)
    ensures
        r == is_digit(c),
{
    '0' <= c && c <= '9'
}

fn scan_digits(s: &str, from: usize) -> (r: usize)
    requires
        from <= s@.len(),
    ensures
        r == skip_digits(s@, from as int),
        from <= r <= s@.len(),
        forall|m: int| from <= m < r ==> is_digit(s@[m]),
        r == s@.len() || !is_digit(s@[r as int]),
{
    let n = s.unicode_len();
    let mut j = from;
    while j < n && is_digit_char(s.get_char(j))
        invariant
            n == s@.len(),
            from <= j <= n,
            skip_digits(s@, from as int) == skip_digits(s@, j as int),
            forall|m: int| from <= m < j ==> is_digit(s@[m]),
        decreases n - j,
    {
        j += 1;
    }
    proof {
        assert(skip_digits(s@, j as int) == j);
    }
    j
}

fn digits_value(s: &str, from: usize, to: usize) -> (r: Option<usize>)
    requires
        from <= to <= s@.len(),
        forall|m: int| from <= m < to ==> is_digit(s@[m]),
    ensures
        match r {
            Option::Some(v) => v == digits_val(s@, from as int, to as int),
            Option::None => digits_val(s@, from as int, to as int) > usize::MAX as nat,
        },
{
    let mut acc: usize = 0;
    let mut j = from;
    while j < to
        invariant
            from <= j <= to <= s@.len(),
            forall|m: int| from <= m < to ==> is_digit(s@[m]),
            acc == digits_val(s@, from as int, j as int),
        decreases to - j,
    {
        let c = s.get_char(j);
        let d: usize = (c as u32 as usize) - 48;
        assert(d == digit_of(s@[j as int]));
        match acc.checked_mul(10) {
            Option::None => {
                proof {
                    lemma_digits_val_monotone(s@, from as int, j as int + 1, to as int);
                }
                return None;
            },
            Option::Some(m10) => match m10.checked_add(d) {
                Option::None => {
                    proof {
                        lemma_digits_val_monotone(s@, from as int, j as int + 1, to as int);
                    }
                    return None;
                },
                Option::Some(next) => {
                    acc = next;
                },
            },
        }
        j += 1;
    }
    Some(acc)
}

/// Read the start offset out of a rendered span description, if it has the
/// expected shape and the value fits the machine.
pub fn parse_span_offset(s: &str) -> (r: Option<usize>)
    ensures
        match spec_span_offset(s@) {
            Option::None => r is None,
            Option::Some(v) => if v <= usize::MAX as nat {
                r == Option::Some(v as usize)
            } else {
                r is None
            },
        },
{
    let n = s.unicode_len();
    if n < 1 || s.get_char(0) != '#' {
        return None;
    }
    let d1 = scan_digits(s, 1);
    if d1 == 1 {
        return None;
    }
    if n - d1 < 7 {
        return None;
    }
    if !(s.get_char(d1) == ' ' && s.get_char(d1 + 1) == 'b' && s.get_char(d1 + 2) == 'y'
        && s.get_char(d1 + 3) == 't' && s.get_char(d1 + 4) == 'e' && s.get_char(d1 + 5) == 's'
        && s.get_char(d1 + 6) == '(') {
        return None;
    }
    let p = d1 + 7;
    let d2 = scan_digits(s, p);
    if d2 == p {
        return None;
    }
    if n - d2 < 2 {
        return None;
    }
    if !(s.get_char(d2) == '.' && s.get_char(d2 + 1) == '.') {
        return None;
    }
    let d3 = scan_digits(s, d2 + 2);
    if d3 == d2 + 2 {
        return None;
    }
    if d3 == n || s.get_char(d3) != ')' {
        return None;
    }
    digits_value(s, p, d2)
}

} // verus!
