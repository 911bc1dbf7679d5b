//! The calling side of an exchange: a span round one outbound call.
//!
//! The call itself is not made here. `begin_call` prepares it, the caller
//! sends the carrier with the request and comes back with what the
//! transport gave, and `finish_call` closes the span and hands that
//! outcome on as it is.

use vstd::prelude::*;
use crate::carrier::Carrier;
use crate::context::TraceContextView;
use crate::ids::{random_span_id, random_trace_id};
use crate::propagator::{
    extract_model, inject_model, lemma_extract_inject, PropagationError, Propagator,
};
use crate::sink::{after_export, ExportSink};
use crate::span::{AttributeValue, AttributeValueView, FinishedSpanView, Span, SpanKind, SpanView};
use crate::stack::SpanStack;
use crate::tracer::Tracer;

verus! {

/// The attribute under which the status of the response is recorded.
pub open spec fn status_key() -> Seq<char> {
    "response.status"@
}

/// The attribute that marks a call that the transport failed.
pub open spec fn error_key() -> Seq<char> {
    "error"@
}

/// The span of a call with the call's outcome recorded: the status of the
/// response, or the mark of a failed call.
pub open spec fn with_outcome(span: SpanView, status: Option<u16>) -> SpanView {
    match status {
        Some(code) => SpanView {
            attributes: span.attributes.insert(
                status_key(),
                AttributeValueView::Integer(code as i64),
            ),
            ..span
        },
        None => SpanView {
            attributes: span.attributes.insert(error_key(), AttributeValueView::Flag(true)),
            ..span
        },
    }
}

/// The status that a transport outcome carries, if the call came through.
pub open spec fn status_of<E>(outcome: Result<u16, E>) -> Option<u16> {
    match outcome {
        Ok(code) => Some(code),
        Err(_) => None,
    }
}

/// A call that has begun and whose outcome is awaited.
#[derive(Debug)]
pub struct ClientCall {
    span: Span,
}

impl View for ClientCall {
    type V = SpanView;

    closed spec fn view(&self) -> SpanView {
        self.span@
    }
}

impl ClientCall {
    /// The span of the call.
    pub fn span(&self) -> (span: &Span)
        ensures
            span@ == self@,
    {
        &self.span
    }
}

/// Begins a call from identifiers that the caller has drawn: starts a
/// client span, under the innermost entered span if there is one and as a
/// root otherwise, and writes its context into the carrier that goes out
/// with the request.
pub fn begin_call_with_ids(
    tracer: &Tracer,
    propagator: &Propagator,
    name: &str,
    stack: &SpanStack,
    carrier: &mut Carrier,
    drawn_trace_id: u128,
    drawn_span_id: u64,
    start_time: u64,
) -> (call: ClientCall)
    ensures
        call@ == tracer.started(
            name@,
            SpanKind::Client,
            None,
            stack@,
            drawn_trace_id,
            drawn_span_id,
            start_time,
        ),
        final(carrier)@ == inject_model(old(carrier)@, call@.context),
{
    let span = tracer.start_span_with_ids(
        name,
        SpanKind::Client,
        None,
        stack,
        drawn_trace_id,
        drawn_span_id,
        start_time,
    );
    propagator.inject(span.context(), carrier);
    ClientCall { span }
}

/// Begins a call with freshly drawn random identifiers. Whatever was
/// drawn, the carrier holds the context of the call's span, and reading
/// the carrier yields that context without its parent link.
pub fn begin_call(
    tracer: &Tracer,
    propagator: &Propagator,
    name: &str,
    stack: &SpanStack,
    carrier: &mut Carrier,
    start_time: u64,
) -> (call: ClientCall)
    ensures
        exists|drawn_trace_id: u128, drawn_span_id: u64|
            call@ == tracer.started(
                name@,
                SpanKind::Client,
                None,
                stack@,
                drawn_trace_id,
                drawn_span_id,
                start_time,
            ),
        final(carrier)@ == inject_model(old(carrier)@, call@.context),
        extract_model(final(carrier)@) == Ok::<Option<TraceContextView>, PropagationError>(
            Some(call@.context.propagated()),
        ),
{
    let drawn_trace_id: u128 = random_trace_id();
    let drawn_span_id: u64 = random_span_id();
    proof {
        lemma_extract_inject(
            carrier@,
            tracer.started(
                name@,
                SpanKind::Client,
                None,
                stack@,
                drawn_trace_id,
                drawn_span_id,
                start_time,
            ).context,
        );
    }
    begin_call_with_ids(
        tracer,
        propagator,
        name,
        stack,
        carrier,
        drawn_trace_id,
        drawn_span_id,
        start_time,
    )
}

/// Finishes a call with what the transport gave: records the status of the
/// response, or the failure, on the span, ends the span and hands its
/// record to the sink. The outcome goes back to the caller unchanged, a
/// transport error as much as a response.
pub fn finish_call<E>(
    tracer: &Tracer,
    call: ClientCall,
    outcome: Result<u16, E>,
    end_time: u64,
    sink: &mut ExportSink,
) -> (result: Result<u16, E>)
    ensures
        result == outcome,
        final(sink)@ == after_export(
            old(sink)@,
            FinishedSpanView { span: with_outcome(call@, status_of(outcome)), end_time },
        ),
{
    let mut span = call.span;
    match &outcome {
        Ok(code) => {
            span.set_attribute("response.status", AttributeValue::Integer(*code as i64));
        },
        Err(_) => {
            span.set_attribute("error", AttributeValue::Flag(true));
        },
    }
    let _ = tracer.end_span(span, end_time, sink);
    outcome
}

} // verus!
