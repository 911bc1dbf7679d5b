//! Starting and ending spans.

use vstd::prelude::*;
use crate::context::{TraceContext, TraceContextView};
use crate::dict::Duplicate;
use crate::ids::{random_span_id, random_trace_id};
use crate::sink::{
    after_export, after_export_all, lemma_export_all_kept, ExportSink, ExportSinkView,
};
use crate::span::{FinishedSpan, FinishedSpanView, Span, SpanKind, SpanView};
use crate::stack::SpanStack;

verus! {

/// How the sampling decision of a new span is made.
#[derive(Debug, Clone, Copy, PartialEq, Eq, Structural)]
pub enum SamplingPolicy {
    /// A span with a parent takes the parent's decision; a root span takes
    /// `root`.
    ParentBased { root: bool },
    /// Every span is sampled, whatever its parent's decision.
    AlwaysOn,
    /// No span is sampled.
    AlwaysOff,
}

impl SamplingPolicy {
    /// The decision for a span whose parent, if it has one, was decided as
    /// `parent` says.
    pub open spec fn decision(self, parent: Option<bool>) -> bool {
        match self {
            SamplingPolicy::ParentBased { root } => match parent {
                Some(sampled) => sampled,
                None => root,
            },
            SamplingPolicy::AlwaysOn => true,
            SamplingPolicy::AlwaysOff => false,
        }
    }

    pub fn decide(&self, parent: Option<bool>) -> (sampled: bool)
        ensures
            sampled == self.decision(parent),
    {
        match self {
            SamplingPolicy::ParentBased { root } => match parent {
                Some(sampled) => sampled,
                None => *root,
            },
            SamplingPolicy::AlwaysOn => true,
            SamplingPolicy::AlwaysOff => false,
        }
    }
}

impl Default for SamplingPolicy {
    /// Spans follow their parents, and root spans are sampled.
    fn default() -> (policy: Self)
        ensures
            policy == (SamplingPolicy::ParentBased { root: true }),
    {
        SamplingPolicy::ParentBased { root: true }
    }
}

/// The parent of a new span: the one that is named, else the innermost
/// entered span, else none.
pub open spec fn parent_of(
    explicit_parent: Option<TraceContextView>,
    stack: Seq<SpanView>,
) -> Option<TraceContextView> {
    match explicit_parent {
        Some(parent) => Some(parent),
        None => if stack.len() > 0 {
            Some(stack.last().context)
        } else {
            None
        },
    }
}

/// The span id of a new span: the id that was drawn, unless it is the
/// parent's own; the next number takes its place there.
pub open spec fn distinct_span_id(drawn: u64, parent: Option<TraceContextView>) -> u64 {
    match parent {
        Some(p) => if drawn != p.span_id {
            drawn
        } else if drawn == u64::MAX {
            0
        } else {
            (drawn + 1) as u64
        },
        None => drawn,
    }
}

/// The context of a new span. Under a parent it stays in the parent's
/// trace, links to the parent and carries the parent's vendor state; a root
/// span opens the trace that was drawn, with empty vendor state.
pub open spec fn new_context(
    policy: SamplingPolicy,
    parent: Option<TraceContextView>,
    drawn_trace_id: u128,
    drawn_span_id: u64,
) -> TraceContextView {
    match parent {
        Some(p) => TraceContextView {
            trace_id: p.trace_id,
            span_id: distinct_span_id(drawn_span_id, parent),
            parent_span_id: Some(p.span_id),
            sampled: policy.decision(Some(p.sampled)),
            trace_state: p.trace_state,
        },
        None => TraceContextView {
            trace_id: drawn_trace_id,
            span_id: drawn_span_id,
            parent_span_id: None,
            sampled: policy.decision(None),
            trace_state: Seq::empty(),
        },
    }
}

/// Whether `child` is a context that a span started under `parent` can
/// have, under some policy and with some drawn identifiers.
pub open spec fn is_child_of(child: TraceContextView, parent: TraceContextView) -> bool {
    exists|policy: SamplingPolicy, drawn_trace_id: u128, drawn_span_id: u64|
        child == #[trigger] new_context(policy, Some(parent), drawn_trace_id, drawn_span_id)
}

/// Whether every context of the chain, from the second on, is a child of
/// the one before it.
pub open spec fn is_lineage(chain: Seq<TraceContextView>) -> bool {
    forall|i: int| 0 < i < chain.len() ==> is_child_of(#[trigger] chain[i], chain[i - 1])
}

/// The trace id is fixed when the root span is made: every descendant of a
/// span is in that span's trace and carries its vendor state, and each
/// links to the span before it under an id of its own.
pub proof fn lemma_lineage_keeps_trace(chain: Seq<TraceContextView>, i: int)
    requires
        is_lineage(chain),
        0 <= i < chain.len(),
    ensures
        chain[i].trace_id == chain[0].trace_id,
        chain[i].trace_state == chain[0].trace_state,
        i > 0 ==> chain[i].parent_span_id == Some(chain[i - 1].span_id),
        i > 0 ==> chain[i].span_id != chain[i - 1].span_id,
    decreases i,
{
    if i > 0 {
        lemma_lineage_keeps_trace(chain, i - 1);
        assert(is_child_of(chain[i], chain[i - 1]));
    }
}

/// Once a span is not sampled, no span that follows its parent's decision
/// under it is sampled, and the sink keeps no record of such a span.
pub proof fn lemma_unsampled_stays_unsampled(
    root: bool,
    parent: TraceContextView,
    drawn_trace_id: u128,
    drawn_span_id: u64,
    span: SpanView,
    end_time: u64,
    sink: ExportSinkView,
)
    requires
        !parent.sampled,
        span.context == new_context(
            SamplingPolicy::ParentBased { root },
            Some(parent),
            drawn_trace_id,
            drawn_span_id,
        ),
    ensures
        !span.context.sampled,
        after_export(sink, FinishedSpanView { span, end_time }) == sink,
{
}

/// The view of an optional reference to a context.
pub open spec fn context_view(context: Option<&TraceContext>) -> Option<TraceContextView> {
    match context {
        Some(c) => Some(c@),
        None => None,
    }
}

/// The records of the spans of `stack`, innermost first, all ended at
/// `end_time`.
pub open spec fn ended_innermost_first(stack: Seq<SpanView>, end_time: u64) -> Seq<
    FinishedSpanView,
> {
    Seq::new(
        stack.len(),
        |i: int| FinishedSpanView { span: stack[stack.len() - 1 - i], end_time },
    )
}

/// Cancellation: where every entered span is sampled and the sink has
/// room, ending all of them adds to the sink one record for each entered
/// span, innermost first and each with its end time set, and drops none.
pub proof fn lemma_end_all_complete(stack: Seq<SpanView>, end_time: u64, sink: ExportSinkView)
    requires
        forall|i: int| 0 <= i < stack.len() ==> stack[i].context.sampled,
        sink.spans.len() + stack.len() <= sink.capacity,
    ensures
        ({
            let records = ended_innermost_first(stack, end_time);
            let after = after_export_all(sink, records);
            &&& records.len() == stack.len()
            &&& after.spans == sink.spans + records
            &&& after.dropped == sink.dropped
            &&& after.capacity == sink.capacity
        }),
{
    let records = ended_innermost_first(stack, end_time);
    lemma_export_all_kept(sink, records);
}

/// Starts and ends spans under one sampling policy. A tracer is made once
/// and handed to whoever starts spans.
#[derive(Debug)]
pub struct Tracer {
    policy: SamplingPolicy,
}

impl View for Tracer {
    type V = SamplingPolicy;

    closed spec fn view(&self) -> SamplingPolicy {
        self.policy
    }
}

impl Tracer {
    pub fn new(policy: SamplingPolicy) -> (tracer: Self)
        ensures
            tracer@ == policy,
    {
        Tracer { policy }
    }

    pub fn policy(&self) -> (policy: SamplingPolicy)
        ensures
            policy == self@,
    {
        self.policy
    }

    /// The span that `start_span_with_ids` yields.
    pub open spec fn started(
        &self,
        name: Seq<char>,
        kind: SpanKind,
        explicit_parent: Option<TraceContextView>,
        stack: Seq<SpanView>,
        drawn_trace_id: u128,
        drawn_span_id: u64,
        start_time: u64,
    ) -> SpanView {
        SpanView {
            name,
            kind,
            context: new_context(
                self@,
                parent_of(explicit_parent, stack),
                drawn_trace_id,
                drawn_span_id,
            ),
            start_time,
            attributes: Map::empty(),
        }
    }

    /// Starts a span from identifiers that the caller has drawn.
    ///
    /// The parent is `explicit_parent` where it is given, else the innermost
    /// span entered on `stack`, else there is none and the span is a root.
    /// Under a parent the span stays in the parent's trace, links to the
    /// parent, and has a span id that differs from the parent's. The span is
    /// not entered on the stack.
    pub fn start_span_with_ids(
        &self,
        name: &str,
        kind: SpanKind,
        explicit_parent: Option<&TraceContext>,
        stack: &SpanStack,
        drawn_trace_id: u128,
        drawn_span_id: u64,
        start_time: u64,
    ) -> (span: Span)
        ensures
            span@ == self.started(
                name@,
                kind,
                context_view(explicit_parent),
                stack@,
                drawn_trace_id,
                drawn_span_id,
                start_time,
            ),
            match parent_of(context_view(explicit_parent), stack@) {
                Some(parent) => {
                    &&& span@.context.trace_id == parent.trace_id
                    &&& span@.context.parent_span_id == Some(parent.span_id)
                    &&& span@.context.span_id != parent.span_id
                },
                None => {
                    &&& span@.context.trace_id == drawn_trace_id
                    &&& span@.context.span_id == drawn_span_id
                    &&& span@.context.parent_span_id is None
                },
            },
    {
        let parent: Option<&TraceContext> = match explicit_parent {
            Some(context) => Some(context),
            None => match stack.current() {
                Some(top) => Some(top.context()),
                None => None,
            },
        };
        let context = match parent {
            Some(p) => {
                let span_id: u64 = if drawn_span_id != p.span_id() {
                    drawn_span_id
                } else if drawn_span_id == u64::MAX {
                    0
                } else {
                    drawn_span_id + 1
                };
                TraceContext::new(
                    p.trace_id(),
                    span_id,
                    Some(p.span_id()),
                    self.policy.decide(Some(p.is_sampled())),
                    String::from_str(p.trace_state()),
                )
            },
            None => TraceContext::new(
                drawn_trace_id,
                drawn_span_id,
                None,
                self.policy.decide(None),
                String::new(),
            ),
        };
        Span::new(String::from_str(name), kind, context, start_time)
    }

    /// Starts a span with freshly drawn random identifiers.
    ///
    /// The span is the one that `start_span_with_ids` yields for some pair
    /// of drawn identifiers; what holds of the parent link holds whatever
    /// was drawn.
    pub fn start_span(
        &self,
        name: &str,
        kind: SpanKind,
        explicit_parent: Option<&TraceContext>,
        stack: &SpanStack,
        start_time: u64,
    ) -> (span: Span)
        ensures
            exists|drawn_trace_id: u128, drawn_span_id: u64|
                span@ == self.started(
                    name@,
                    kind,
                    context_view(explicit_parent),
                    stack@,
                    drawn_trace_id,
                    drawn_span_id,
                    start_time,
                ),
            match parent_of(context_view(explicit_parent), stack@) {
                Some(parent) => {
                    &&& span@.context.trace_id == parent.trace_id
                    &&& span@.context.parent_span_id == Some(parent.span_id)
                    &&& span@.context.span_id != parent.span_id
                },
                None => span@.context.parent_span_id is None,
            },
    {
        let drawn_trace_id: u128 = random_trace_id();
        let drawn_span_id: u64 = random_span_id();
        self.start_span_with_ids(
            name,
            kind,
            explicit_parent,
            stack,
            drawn_trace_id,
            drawn_span_id,
            start_time,
        )
    }

    /// Ends a span: stamps its end time and hands the record to the sink.
    /// The span is given away, so it cannot end a second time. The caller
    /// gets a copy of the record.
    pub fn end_span(&self, span: Span, end_time: u64, sink: &mut ExportSink) -> (finished:
        FinishedSpan)
        ensures
            finished@ == (FinishedSpanView { span: span@, end_time }),
            final(sink)@ == after_export(old(sink)@, finished@),
    {
        let finished = span.finish(end_time);
        let copy = finished.duplicate();
        sink.export(finished);
        copy
    }

    /// Ends every span that is still entered on `stack`, innermost first,
    /// and hands the records to the sink. This is what a unit of execution
    /// that is cut short owes: no entered span is left without an end.
    pub fn end_all(&self, stack: &mut SpanStack, end_time: u64, sink: &mut ExportSink) -> (ended:
        usize)
        ensures
            ended == old(stack)@.len(),
            final(stack)@ == Seq::<SpanView>::empty(),
            final(sink)@ == after_export_all(
                old(sink)@,
                ended_innermost_first(old(stack)@, end_time),
            ),
    {
        let mut spans = stack.unwind();
        let ghost records = ended_innermost_first(old(stack)@, end_time);
        let total: usize = spans.len();
        while spans.len() > 0
            invariant
                spans@.len() <= total,
                total == old(stack)@.len(),
                records == ended_innermost_first(old(stack)@, end_time),
                forall|j: int| 0 <= j < spans@.len() ==> (#[trigger] spans@[j])@ == old(stack)@[j],
                sink@ == after_export_all(old(sink)@, records.subrange(0, total - spans@.len())),
            decreases spans.len(),
        {
            let ghost done = total - spans@.len();
            let span = spans.pop().unwrap();
            let finished = span.finish(end_time);
            assert(finished@ == records[done]);
            assert(records.subrange(0, done + 1).drop_last() =~= records.subrange(0, done));
            sink.export(finished);
        }
        assert(records.subrange(0, total as int) =~= records);
        total
    }
}

} // verus!
