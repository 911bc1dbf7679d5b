//! The sink that takes the records of ended spans.

use vstd::prelude::*;
use crate::span::{FinishedSpan, FinishedSpanView};

verus! {

/// What an [`ExportSink`] holds, as mathematical values.
pub struct ExportSinkView {
    pub capacity: nat,
    pub spans: Seq<FinishedSpanView>,
    pub dropped: nat,
}

/// The sink after a record has been handed to it.
///
/// A record of a span that is not sampled is not kept. A sampled one is
/// kept while there is room; when the sink is full it is dropped and
/// counted, and the count stops at the largest number it can hold.
pub open spec fn after_export(sink: ExportSinkView, span: FinishedSpanView) -> ExportSinkView {
    if !span.span.context.sampled {
        sink
    } else if sink.spans.len() < sink.capacity {
        ExportSinkView { spans: sink.spans.push(span), ..sink }
    } else if sink.dropped < u64::MAX {
        ExportSinkView { dropped: sink.dropped + 1, ..sink }
    } else {
        sink
    }
}

/// The sink after a run of records has been handed to it, first to last.
pub open spec fn after_export_all(
    sink: ExportSinkView,
    spans: Seq<FinishedSpanView>,
) -> ExportSinkView
    decreases spans.len(),
{
    if spans.len() == 0 {
        sink
    } else {
        after_export(after_export_all(sink, spans.drop_last()), spans.last())
    }
}

/// While there is room, every sampled record is kept, in the order of
/// arrival, and none is dropped.
pub proof fn lemma_export_all_kept(sink: ExportSinkView, spans: Seq<FinishedSpanView>)
    requires
        forall|i: int| 0 <= i < spans.len() ==> spans[i].span.context.sampled,
        sink.spans.len() + spans.len() <= sink.capacity,
    ensures
        after_export_all(sink, spans) == (ExportSinkView { spans: sink.spans + spans, ..sink }),
    decreases spans.len(),
{
    if spans.len() > 0 {
        lemma_export_all_kept(sink, spans.drop_last());
        assert((sink.spans + spans.drop_last()).push(spans.last()) =~= sink.spans + spans);
    } else {
        assert(sink.spans + spans =~= sink.spans);
    }
}

/// A bounded buffer of span records that stands between the traced work
/// and whatever stores the records. Handing a record over never fails and
/// never waits: what cannot be kept is dropped and counted.
#[derive(Debug)]
pub struct ExportSink {
    capacity: usize,
    spans: Vec<FinishedSpan>,
    dropped: u64,
}

spec fn views(spans: Seq<FinishedSpan>) -> Seq<FinishedSpanView> {
    Seq::new(spans.len(), |i: int| spans[i]@)
}

impl View for ExportSink {
    type V = ExportSinkView;

    closed spec fn view(&self) -> ExportSinkView {
        ExportSinkView {
            capacity: self.capacity as nat,
            spans: views(self.spans@),
            dropped: self.dropped as nat,
        }
    }
}

impl ExportSink {
    #[verifier::type_invariant]
    spec fn well_formed(self) -> bool {
        self.spans@.len() <= self.capacity
    }

    /// An empty sink with room for `capacity` records.
    pub fn new(capacity: usize) -> (sink: Self)
        ensures
            sink@ == (ExportSinkView { capacity: capacity as nat, spans: Seq::empty(), dropped: 0 }),
    {
        let sink = ExportSink { capacity, spans: Vec::new(), dropped: 0 };
        assert(sink@.spans =~= Seq::empty());
        sink
    }

    pub fn capacity(&self) -> (capacity: usize)
        ensures
            capacity == self@.capacity,
    {
        self.capacity
    }

    /// The number of records that are kept. It never exceeds the capacity.
    pub fn len(&self) -> (n: usize)
        ensures
            n == self@.spans.len(),
            n <= self@.capacity,
    {
        proof {
            use_type_invariant(self);
        }
        self.spans.len()
    }

    /// The number of records that were dropped for want of room.
    pub fn dropped(&self) -> (dropped: u64)
        ensures
            dropped == self@.dropped,
    {
        self.dropped
    }

    /// The record at a position, in the order of arrival.
    pub fn get(&self, position: usize) -> (span: Option<&FinishedSpan>)
        ensures
            match span {
                Some(record) => position < self@.spans.len() && record@ == self@.spans[position as int],
                None => position >= self@.spans.len(),
            },
    {
        if position < self.spans.len() {
            Some(&self.spans[position])
        } else {
            None
        }
    }

    /// Takes a record. The caller learns nothing of what became of it.
    pub fn export(&mut self, span: FinishedSpan)
        ensures
            final(self)@ == after_export(old(self)@, span@),
    {
        proof {
            use_type_invariant(&*self);
        }
        if span.context().is_sampled() {
            if self.spans.len() < self.capacity {
                let mut spans: Vec<FinishedSpan> = Vec::new();
                std::mem::swap(&mut spans, &mut self.spans);
                spans.push(span);
                self.spans = spans;
                assert(self@.spans =~= old(self)@.spans.push(span@));
            } else if self.dropped < u64::MAX {
                self.dropped = self.dropped + 1;
            }
        }
    }

    /// Hands out the kept records, in the order of arrival, and leaves the
    /// sink empty. The count of dropped records stays.
    pub fn drain(&mut self) -> (spans: Vec<FinishedSpan>)
        ensures
            final(self)@ == (ExportSinkView { spans: Seq::empty(), ..old(self)@ }),
            spans@.len() == old(self)@.spans.len(),
            forall|i: int| 0 <= i < spans@.len() ==> (#[trigger] spans@[i])@ == old(self)@.spans[i],
    {
        let mut spans: Vec<FinishedSpan> = Vec::new();
        std::mem::swap(&mut spans, &mut self.spans);
        assert(self@.spans =~= Seq::empty());
        spans
    }
}

} // verus!
