//! The serving side of an exchange: a span round the handling of one
//! request, and spans round the work done on its behalf.
//!
//! Every request gets a span stack of its own from `begin_request`.
//! Requests that are handled at the same time never share one.

use vstd::prelude::*;
use crate::carrier::Carrier;
use crate::context::{TraceContext, TraceContextView};
use crate::ids::{random_span_id, random_trace_id};
use crate::propagator::{
    extract_model, inject_model, lemma_extract_inject, PropagationError, Propagator,
};
use crate::sink::{after_export, ExportSink};
use crate::span::{FinishedSpanView, SpanKind, SpanView};
use crate::stack::{
    after_release, guard_of, release_check, ScopeGuard, SpanMisuseError, SpanStack,
};
use crate::tracer::{new_context, SamplingPolicy, Tracer};

verus! {

/// The parent that a request brings along: the context that its carrier
/// holds. A carrier that holds none, or a malformed one, gives no parent,
/// and the request starts a trace of its own.
pub open spec fn remote_parent(
    extracted: Result<Option<TraceContextView>, PropagationError>,
) -> Option<TraceContextView> {
    match extracted {
        Ok(Some(context)) => Some(context),
        _ => None,
    }
}

/// The trace goes on across the boundary: a span that is started under
/// what was read from a carrier stays in the trace of the context that was
/// written into the carrier, and links to that context's span.
pub proof fn lemma_trace_continues(
    carrier: Map<Seq<char>, Seq<char>>,
    sent: TraceContextView,
    policy: SamplingPolicy,
    drawn_trace_id: u128,
    drawn_span_id: u64,
)
    ensures
        ({
            let parent = remote_parent(extract_model(inject_model(carrier, sent)));
            let context = new_context(policy, parent, drawn_trace_id, drawn_span_id);
            &&& parent == Some(sent.propagated())
            &&& context.trace_id == sent.trace_id
            &&& context.parent_span_id == Some(sent.span_id)
            &&& context.span_id != sent.span_id
            &&& context.trace_state == sent.trace_state
        }),
{
    lemma_extract_inject(carrier, sent);
}

/// The span of a request: a server span under the parent that the carrier
/// brings along, started on an empty stack.
pub open spec fn request_span(
    tracer: &Tracer,
    name: Seq<char>,
    carrier: Map<Seq<char>, Seq<char>>,
    drawn_trace_id: u128,
    drawn_span_id: u64,
    start_time: u64,
) -> SpanView {
    tracer.started(
        name,
        SpanKind::Server,
        remote_parent(extract_model(carrier)),
        Seq::empty(),
        drawn_trace_id,
        drawn_span_id,
        start_time,
    )
}

/// The span of a piece of work: an internal span under the innermost
/// entered span of `stack`.
pub open spec fn work_span(
    tracer: &Tracer,
    name: Seq<char>,
    stack: Seq<SpanView>,
    drawn_trace_id: u128,
    drawn_span_id: u64,
    start_time: u64,
) -> SpanView {
    tracer.started(
        name,
        SpanKind::Internal,
        None,
        stack,
        drawn_trace_id,
        drawn_span_id,
        start_time,
    )
}

/// Begins the handling of a request from identifiers that the caller has
/// drawn: reads the carrier, starts a server span under the context that
/// was read, or as a root where there is none or it is malformed, and
/// enters the span on a new stack.
pub fn begin_request_with_ids(
    tracer: &Tracer,
    propagator: &Propagator,
    name: &str,
    carrier: &Carrier,
    drawn_trace_id: u128,
    drawn_span_id: u64,
    start_time: u64,
) -> (entered: (SpanStack, ScopeGuard))
    ensures
        entered.0@ == seq![
            request_span(tracer, name@, carrier@, drawn_trace_id, drawn_span_id, start_time),
        ],
        entered.1@ == guard_of(
            Seq::empty(),
            request_span(tracer, name@, carrier@, drawn_trace_id, drawn_span_id, start_time),
        ),
{
    let parent: Option<TraceContext> = match propagator.extract(carrier) {
        Ok(Some(context)) => Some(context),
        Ok(None) => None,
        Err(_) => None,
    };
    let mut stack = SpanStack::new();
    let span = tracer.start_span_with_ids(
        name,
        SpanKind::Server,
        parent.as_ref(),
        &stack,
        drawn_trace_id,
        drawn_span_id,
        start_time,
    );
    let guard = stack.enter(span);
    assert(stack@ =~= seq![span@]);
    (stack, guard)
}

/// Begins the handling of a request with freshly drawn random identifiers.
pub fn begin_request(
    tracer: &Tracer,
    propagator: &Propagator,
    name: &str,
    carrier: &Carrier,
    start_time: u64,
) -> (entered: (SpanStack, ScopeGuard))
    ensures
        exists|drawn_trace_id: u128, drawn_span_id: u64|
            {
                &&& entered.0@ == seq![
                    #[trigger] request_span(
                        tracer,
                        name@,
                        carrier@,
                        drawn_trace_id,
                        drawn_span_id,
                        start_time,
                    ),
                ]
                &&& entered.1@ == guard_of(
                    Seq::empty(),
                    request_span(
                        tracer,
                        name@,
                        carrier@,
                        drawn_trace_id,
                        drawn_span_id,
                        start_time,
                    ),
                )
            },
{
    let drawn_trace_id: u128 = random_trace_id();
    let drawn_span_id: u64 = random_span_id();
    begin_request_with_ids(
        tracer,
        propagator,
        name,
        carrier,
        drawn_trace_id,
        drawn_span_id,
        start_time,
    )
}

/// Begins a piece of work on behalf of the request, from identifiers that
/// the caller has drawn: starts an internal span under the innermost
/// entered span and enters it.
pub fn begin_work_with_ids(
    tracer: &Tracer,
    name: &str,
    stack: &mut SpanStack,
    drawn_trace_id: u128,
    drawn_span_id: u64,
    start_time: u64,
) -> (guard: ScopeGuard)
    ensures
        final(stack)@ == old(stack)@.push(
            work_span(tracer, name@, old(stack)@, drawn_trace_id, drawn_span_id, start_time),
        ),
        guard@ == guard_of(
            old(stack)@,
            work_span(tracer, name@, old(stack)@, drawn_trace_id, drawn_span_id, start_time),
        ),
{
    let span = tracer.start_span_with_ids(
        name,
        SpanKind::Internal,
        None,
        stack,
        drawn_trace_id,
        drawn_span_id,
        start_time,
    );
    stack.enter(span)
}

/// Begins a piece of work with freshly drawn random identifiers.
pub fn begin_work(tracer: &Tracer, name: &str, stack: &mut SpanStack, start_time: u64) -> (guard:
    ScopeGuard)
    ensures
        exists|drawn_trace_id: u128, drawn_span_id: u64|
            {
                &&& final(stack)@ == old(stack)@.push(
                    #[trigger] work_span(
                        tracer,
                        name@,
                        old(stack)@,
                        drawn_trace_id,
                        drawn_span_id,
                        start_time,
                    ),
                )
                &&& guard@ == guard_of(
                    old(stack)@,
                    work_span(
                        tracer,
                        name@,
                        old(stack)@,
                        drawn_trace_id,
                        drawn_span_id,
                        start_time,
                    ),
                )
            },
{
    let drawn_trace_id: u128 = random_trace_id();
    let drawn_span_id: u64 = random_span_id();
    begin_work_with_ids(tracer, name, stack, drawn_trace_id, drawn_span_id, start_time)
}

/// Finishes what `begin_request` or `begin_work` began: releases the
/// guard's span, ends it and hands its record to the sink.
///
/// A guard that is not the innermost one is a misuse. It is reported, and
/// neither the stack nor the sink changes.
pub fn finish(
    tracer: &Tracer,
    stack: &mut SpanStack,
    guard: ScopeGuard,
    end_time: u64,
    sink: &mut ExportSink,
) -> (result: Result<(), SpanMisuseError>)
    ensures
        result == release_check(old(stack)@, guard@),
        final(stack)@ == after_release(old(stack)@, guard@),
        final(sink)@ == if result is Ok {
            after_export(
                old(sink)@,
                FinishedSpanView { span: old(stack)@.last(), end_time },
            )
        } else {
            old(sink)@
        },
{
    match stack.exit(guard) {
        Ok(span) => {
            let _ = tracer.end_span(span, end_time, sink);
            Ok(())
        },
        Err(misuse) => Err(misuse),
    }
}

} // verus!
