//! A model of span recording under cooperative suspension.
//!
//! The active span is not ambient state: it is the top of an explicit
//! stack that the instrumented code pushes when a span opens and pops
//! when its scope ends, so that resuming a suspended computation finds
//! its own span current.  A span's identifiers come from one counter:
//! a span started under an open parent joins the parent's trace, a root
//! span starts a fresh trace.  Ended spans are appended, in ending
//! order, to the finished record — so a span can only be recorded after
//! everything started inside it has been recorded.  Attributes and
//! error status always go to the innermost open span, the one a
//! `?`-rewrite or a query-text annotation sees as active.

use vstd::prelude::*;

verus! {

/// An attribute value: text, raw line text, or a number.
#[derive(Debug, PartialEq, Eq)]
pub enum AttrValue {
    Text { value: String },
    Bytes { value: Vec<u8> },
    Int { value: i64 },
}

/// A span's status: unset until something marks it, error with a message.
#[derive(Debug, PartialEq, Eq)]
pub enum SpanStatus {
    Unset,
    Error { message: String },
}

/// A span still open: it has started and not yet ended.
#[derive(Debug, PartialEq, Eq)]
pub struct OpenSpan {
    pub name: String,
    pub trace_id: u64,
    pub span_id: u64,
    pub attributes: Vec<(String, AttrValue)>,
    pub status: SpanStatus,
    pub start_seq: u64,
}

/// A finished span as recorded: its data plus when it started and ended
/// in the global event order.
#[derive(Debug, PartialEq, Eq)]
pub struct SpanRecord {
    pub name: String,
    pub trace_id: u64,
    pub span_id: u64,
    pub attributes: Vec<(String, AttrValue)>,
    pub status: SpanStatus,
    pub start_seq: u64,
    pub end_seq: u64,
}

/// The recorder: an identifier counter, an event clock, the stack of
/// open spans (innermost last), and the finished records in ending
/// order.
#[derive(Debug)]
pub struct TraceLog {
    pub id: u64,
    pub seq: u64,
    pub open: Vec<OpenSpan>,
    pub finished: Vec<SpanRecord>,
}

impl TraceLog {
    /// Starts are ordered on the stack, ends are ordered in the record,
    /// every finished span either ended before a still-open one started
    /// or started inside it, and any two finished spans are nested or
    /// disjoint in event order.
    pub open spec fn wf(&self) -> bool {
        &&& forall|i: int|
            0 <= i < self.open@.len() ==> #[trigger] self.open@[i].start_seq < self.seq
        &&& forall|i: int, j: int|
            0 <= i < j < self.open@.len() ==> #[trigger] self.open@[i].start_seq
                < #[trigger] self.open@[j].start_seq
        &&& forall|i: int|
            0 <= i < self.finished@.len() ==> #[trigger] self.finished@[i].start_seq
                < self.finished@[i].end_seq < self.seq
        &&& forall|i: int, j: int|
            0 <= i < j < self.finished@.len() ==> #[trigger] self.finished@[i].end_seq
                < #[trigger] self.finished@[j].end_seq
        &&& forall|i: int, j: int|
            0 <= i < self.finished@.len() && 0 <= j < self.open@.len() ==> (
            #[trigger] self.open@[j].start_seq < #[trigger] self.finished@[i].start_seq
                || self.finished@[i].end_seq < self.open@[j].start_seq)
        &&& forall|i: int, j: int|
            0 <= i < self.finished@.len() && 0 <= j < self.finished@.len()
                && #[trigger] self.finished@[i].start_seq < #[trigger] self.finished@[j].start_seq
                ==> (self.finished@[j].end_seq < self.finished@[i].end_seq
                || self.finished@[i].end_seq < self.finished@[j].start_seq)
    }

    /// An empty recorder.
    pub fn new() -> (log: TraceLog)
        ensures
            log.wf(),
            log.open@.len() == 0,
            log.finished@.len() == 0,
            log.seq == 0,
            log.id == 1,
    {
        TraceLog { id: 1, seq: 0, open: Vec::new(), finished: Vec::new() }
    }

    /// Open a span and make it the active one.  Under an open parent it
    /// joins the parent's trace; at the root it starts a fresh trace.
    pub fn start(&mut self, name: String)
        requires
            old(self).wf(),
            old(self).id <= u64::MAX - 2,
            old(self).seq < u64::MAX,
        ensures
            final(self).wf(),
            final(self).finished@ == old(self).finished@,
            final(self).open@.len() == old(self).open@.len() + 1,
            forall|k: int|
                0 <= k < old(self).open@.len() ==> #[trigger] final(self).open@[k] == old(
                    self,
                ).open@[k],
            final(self).open@.last().name == name,
            final(self).open@.last().status == SpanStatus::Unset,
            final(self).open@.last().attributes@.len() == 0,
            final(self).open@.last().start_seq == old(self).seq,
            old(self).open@.len() > 0 ==> final(self).open@.last().trace_id == old(
                self,
            ).open@.last().trace_id && final(self).open@.last().span_id == old(self).id,
            old(self).open@.len() == 0 ==> final(self).open@.last().trace_id == old(self).id
                && final(self).open@.last().span_id == old(self).id + 1,
            final(self).seq == old(self).seq + 1,
    {
        let trace_id: u64;
        if self.open.len() > 0 {
            trace_id = self.open[self.open.len() - 1].trace_id;
        } else {
            trace_id = self.id;
            self.id = self.id + 1;
        }
        let span_id = self.id;
        self.id = self.id + 1;
        let span = OpenSpan {
            name,
            trace_id,
            span_id,
            attributes: Vec::new(),
            status: SpanStatus::Unset,
            start_seq: self.seq,
        };
        self.open.push(span);
        self.seq = self.seq + 1;
    }

    /// End the active span: it leaves the stack and is appended to the
    /// finished record.  Only the innermost open span can end, so
    /// everything started inside a span is recorded before it.
    pub fn end(&mut self)
        requires
            old(self).wf(),
            old(self).open@.len() > 0,
            old(self).seq < u64::MAX,
        ensures
            final(self).wf(),
            final(self).open@ == old(self).open@.drop_last(),
            final(self).finished@.len() == old(self).finished@.len() + 1,
            forall|k: int|
                0 <= k < old(self).finished@.len() ==> #[trigger] final(self).finished@[k] == old(
                    self,
                ).finished@[k],
            final(self).finished@.last().name == old(self).open@.last().name,
            final(self).finished@.last().trace_id == old(self).open@.last().trace_id,
            final(self).finished@.last().span_id == old(self).open@.last().span_id,
            final(self).finished@.last().attributes == old(self).open@.last().attributes,
            final(self).finished@.last().status == old(self).open@.last().status,
            final(self).finished@.last().start_seq == old(self).open@.last().start_seq,
            final(self).finished@.last().end_seq == old(self).seq,
            final(self).seq == old(self).seq + 1,
    {
        let top = self.open.pop().unwrap();
        let OpenSpan { name, trace_id, span_id, attributes, status, start_seq } = top;
        let record = SpanRecord {
            name,
            trace_id,
            span_id,
            attributes,
            status,
            start_seq,
            end_seq: self.seq,
        };
        self.finished.push(record);
        self.seq = self.seq + 1;
        proof {
            let of = old(self).finished@;
            let oo = old(self).open@;
            let t = oo.last();
            let nf = self.finished@;
            assert(oo[oo.len() - 1] == t);
            assert(nf[nf.len() - 1].start_seq == t.start_seq);
            assert(nf[nf.len() - 1].end_seq == old(self).seq);
            assert forall|i: int, j: int| 0 <= i < j < nf.len() implies #[trigger] nf[i].end_seq
                < #[trigger] nf[j].end_seq by {
                assert(nf[i] == of[i]);
                if j < of.len() {
                    assert(nf[j] == of[j]);
                } else {
                    assert(of[i].start_seq < of[i].end_seq < old(self).seq);
                    assert(nf[j].end_seq == old(self).seq);
                }
            }
            assert forall|i: int, j: int|
                0 <= i < nf.len() && 0 <= j < self.open@.len() implies (
            #[trigger] self.open@[j].start_seq < #[trigger] nf[i].start_seq || nf[i].end_seq
                < self.open@[j].start_seq) by {
                assert(self.open@[j] == oo[j]);
                if i < of.len() {
                    assert(nf[i] == of[i]);
                } else {
                    assert(oo[j].start_seq < t.start_seq);
                }
            }
            assert forall|i: int, j: int|
                0 <= i < nf.len() && 0 <= j < nf.len() && #[trigger] nf[i].start_seq
                    < #[trigger] nf[j].start_seq implies (nf[j].end_seq < nf[i].end_seq
                || nf[i].end_seq < nf[j].start_seq) by {
                if i < of.len() && j < of.len() {
                    assert(nf[i] == of[i]);
                    assert(nf[j] == of[j]);
                } else if i < of.len() && j == of.len() {
                    assert(nf[i] == of[i]);
                    assert(t.start_seq < of[i].start_seq || of[i].end_seq < t.start_seq);
                } else if j < of.len() && i == of.len() {
                    assert(nf[j] == of[j]);
                }
            }
        }
    }

    /// Record an attribute on the active span; without one, nothing is
    /// recorded.
    pub fn set_attribute(&mut self, key: String, value: AttrValue)
        requires
            old(self).wf(),
        ensures
            final(self).wf(),
            final(self).finished@ == old(self).finished@,
            final(self).seq == old(self).seq,
            final(self).id == old(self).id,
            old(self).open@.len() == 0 ==> final(self).open@ == old(self).open@,
            old(self).open@.len() > 0 ==> {
                &&& final(self).open@.len() == old(self).open@.len()
                &&& (forall|k: int|
                    0 <= k < old(self).open@.len() - 1 ==> #[trigger] final(self).open@[k] == old(
                        self,
                    ).open@[k])
                &&& final(self).open@.last().name == old(self).open@.last().name
                &&& final(self).open@.last().trace_id == old(self).open@.last().trace_id
                &&& final(self).open@.last().span_id == old(self).open@.last().span_id
                &&& final(self).open@.last().status == old(self).open@.last().status
                &&& final(self).open@.last().start_seq == old(self).open@.last().start_seq
                &&& final(self).open@.last().attributes@ == old(
                    self,
                ).open@.last().attributes@.push((key, value))
            },
    {
        if self.open.len() == 0 {
            return ;
        }
        let mut top = self.open.pop().unwrap();
        top.attributes.push((key, value));
        self.open.push(top);
        proof {
            assert(self.open@ =~= old(self).open@.drop_last().push(self.open@.last()));
        }
    }

    /// Mark the active span — the nearest enclosing one — with error
    /// status carrying the message; without one, nothing is recorded.
    pub fn set_status_error(&mut self, message: String)
        requires
            old(self).wf(),
        ensures
            final(self).wf(),
            final(self).finished@ == old(self).finished@,
            final(self).seq == old(self).seq,
            final(self).id == old(self).id,
            old(self).open@.len() == 0 ==> final(self).open@ == old(self).open@,
            old(self).open@.len() > 0 ==> {
                &&& final(self).open@.len() == old(self).open@.len()
                &&& (forall|k: int|
                    0 <= k < old(self).open@.len() - 1 ==> #[trigger] final(self).open@[k] == old(
                        self,
                    ).open@[k])
                &&& final(self).open@.last().name == old(self).open@.last().name
                &&& final(self).open@.last().trace_id == old(self).open@.last().trace_id
                &&& final(self).open@.last().span_id == old(self).open@.last().span_id
                &&& final(self).open@.last().attributes == old(self).open@.last().attributes
                &&& final(self).open@.last().start_seq == old(self).open@.last().start_seq
                &&& final(self).open@.last().status == (SpanStatus::Error { message })
            },
    {
        if self.open.len() == 0 {
            return ;
        }
        let mut top = self.open.pop().unwrap();
        top.status = SpanStatus::Error { message };
        self.open.push(top);
        proof {
            assert(self.open@ =~= old(self).open@.drop_last().push(self.open@.last()));
        }
    }
}

/// Child spans are recorded before their parent: a finished span whose
/// lifetime lies inside another's stands earlier in the record.
pub proof fn lemma_child_recorded_before_parent(log: TraceLog, child: int, parent: int)
    requires
        log.wf(),
        0 <= child < log.finished@.len(),
        0 <= parent < log.finished@.len(),
        log.finished@[parent].start_seq < log.finished@[child].start_seq,
        log.finished@[child].end_seq < log.finished@[parent].end_seq,
    ensures
        child < parent,
{
    if parent < child {
        assert(log.finished@[parent].end_seq < log.finished@[child].end_seq);
    } else if parent == child {
        assert(false);
    }
}

} // verus!
