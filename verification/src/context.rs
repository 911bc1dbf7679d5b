//! The identity of a span within a trace.

use vstd::prelude::*;

verus! {

/// What a [`TraceContext`] holds, as mathematical values.
pub struct TraceContextView {
    pub trace_id: u128,
    pub span_id: u64,
    pub parent_span_id: Option<u64>,
    pub sampled: bool,
    pub trace_state: Seq<char>,
}

impl TraceContextView {
    /// The part of a context that crosses a process boundary: everything but
    /// the link to the span's own parent, which stays with the span.
    pub open spec fn propagated(self) -> TraceContextView {
        TraceContextView { parent_span_id: None, ..self }
    }
}

/// The identity of one span: the trace it belongs to, its own id, the id of
/// the span that caused it, the sampling decision and the vendor state that
/// travels with the trace.
///
/// A context is never edited in place. Every change yields a new value.
#[derive(Debug, PartialEq, Eq)]
pub struct TraceContext {
    trace_id: u128,
    span_id: u64,
    parent_span_id: Option<u64>,
    sampled: bool,
    trace_state: String,
}

impl View for TraceContext {
    type V = TraceContextView;

    closed spec fn view(&self) -> TraceContextView {
        TraceContextView {
            trace_id: self.trace_id,
            span_id: self.span_id,
            parent_span_id: self.parent_span_id,
            sampled: self.sampled,
            trace_state: self.trace_state@,
        }
    }
}

impl Clone for TraceContext {
    fn clone(&self) -> (copy: Self)
        ensures
            copy@ == self@,
    {
        TraceContext {
            trace_id: self.trace_id,
            span_id: self.span_id,
            parent_span_id: self.parent_span_id,
            sampled: self.sampled,
            trace_state: self.trace_state.clone(),
        }
    }
}

impl TraceContext {
    pub fn new(
        trace_id: u128,
        span_id: u64,
        parent_span_id: Option<u64>,
        sampled: bool,
        trace_state: String,
    ) -> (context: Self)
        ensures
            context@ == (TraceContextView {
                trace_id,
                span_id,
                parent_span_id,
                sampled,
                trace_state: trace_state@,
            }),
    {
        TraceContext { trace_id, span_id, parent_span_id, sampled, trace_state }
    }

    pub fn trace_id(&self) -> (id: u128)
        ensures
            id == self@.trace_id,
    {
        self.trace_id
    }

    pub fn span_id(&self) -> (id: u64)
        ensures
            id == self@.span_id,
    {
        self.span_id
    }

    pub fn parent_span_id(&self) -> (id: Option<u64>)
        ensures
            id == self@.parent_span_id,
    {
        self.parent_span_id
    }

    pub fn is_sampled(&self) -> (sampled: bool)
        ensures
            sampled == self@.sampled,
    {
        self.sampled
    }

    pub fn trace_state(&self) -> (state: &str)
        ensures
            state@ == self@.trace_state,
    {
        self.trace_state.as_str()
    }

    /// Whether this context starts a trace.
    pub fn is_root(&self) -> (root: bool)
        ensures
            root == (self@.parent_span_id is None),
    {
        self.parent_span_id.is_none()
    }

    /// The same context under another sampling decision.
    pub fn with_sampled(&self, sampled: bool) -> (context: Self)
        ensures
            context@ == (TraceContextView { sampled, ..self@ }),
    {
        TraceContext {
            trace_id: self.trace_id,
            span_id: self.span_id,
            parent_span_id: self.parent_span_id,
            sampled,
            trace_state: self.trace_state.clone(),
        }
    }

    /// Whether two contexts hold the same values.
    pub fn same_as(&self, other: &TraceContext) -> (same: bool)
        ensures
            same == (self@ == other@),
    {
        let parents: bool = match (self.parent_span_id, other.parent_span_id) {
            (Some(a), Some(b)) => a == b,
            (None, None) => true,
            _ => false,
        };
        self.trace_id == other.trace_id && self.span_id == other.span_id && parents
            && self.sampled == other.sampled && self.trace_state == other.trace_state
    }
}

} // verus!
