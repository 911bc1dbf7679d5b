//! Spans: timed records of one unit of traced work.
//!
//! Times are readings of the caller's clock. They are kept as they are
//! given and never read from a clock here.

use vstd::prelude::*;
use crate::context::{TraceContext, TraceContextView};
use crate::dict::{Dict, Duplicate};

verus! {

/// The side of an exchange on which a span's work is done.
#[derive(Debug, Clone, Copy, PartialEq, Eq, Structural)]
pub enum SpanKind {
    Client,
    Server,
    Internal,
}

/// What an [`AttributeValue`] holds, as a mathematical value.
pub enum AttributeValueView {
    Text(Seq<char>),
    Integer(i64),
    Flag(bool),
}

/// A scalar that a span records under a name.
#[derive(Debug, PartialEq, Eq)]
pub enum AttributeValue {
    Text(String),
    Integer(i64),
    Flag(bool),
}

impl View for AttributeValue {
    type V = AttributeValueView;

    open spec fn view(&self) -> AttributeValueView {
        match self {
            AttributeValue::Text(text) => AttributeValueView::Text(text@),
            AttributeValue::Integer(number) => AttributeValueView::Integer(*number),
            AttributeValue::Flag(flag) => AttributeValueView::Flag(*flag),
        }
    }
}

impl Duplicate for AttributeValue {
    fn duplicate(&self) -> (copy: AttributeValue) {
        match self {
            AttributeValue::Text(text) => AttributeValue::Text(text.clone()),
            AttributeValue::Integer(number) => AttributeValue::Integer(*number),
            AttributeValue::Flag(flag) => AttributeValue::Flag(*flag),
        }
    }
}

/// What a [`Span`] holds, as mathematical values.
pub struct SpanView {
    pub name: Seq<char>,
    pub kind: SpanKind,
    pub context: TraceContextView,
    pub start_time: u64,
    pub attributes: Map<Seq<char>, AttributeValueView>,
}

/// A span that has started and has not ended. It belongs to the unit of
/// execution that started it, and it ends by being given away: a span
/// cannot end twice.
#[derive(Debug)]
pub struct Span {
    name: String,
    kind: SpanKind,
    context: TraceContext,
    start_time: u64,
    attributes: Dict<AttributeValue>,
}

impl View for Span {
    type V = SpanView;

    closed spec fn view(&self) -> SpanView {
        SpanView {
            name: self.name@,
            kind: self.kind,
            context: self.context@,
            start_time: self.start_time,
            attributes: self.attributes@,
        }
    }
}

/// What a [`FinishedSpan`] holds, as mathematical values.
pub struct FinishedSpanView {
    pub span: SpanView,
    pub end_time: u64,
}

/// The record of a span that has ended. Nothing in it changes any more.
#[derive(Debug)]
pub struct FinishedSpan {
    name: String,
    kind: SpanKind,
    context: TraceContext,
    start_time: u64,
    end_time: u64,
    attributes: Dict<AttributeValue>,
}

impl View for FinishedSpan {
    type V = FinishedSpanView;

    closed spec fn view(&self) -> FinishedSpanView {
        FinishedSpanView {
            span: SpanView {
                name: self.name@,
                kind: self.kind,
                context: self.context@,
                start_time: self.start_time,
                attributes: self.attributes@,
            },
            end_time: self.end_time,
        }
    }
}

impl Span {
    /// A span without attributes that starts at `start_time`.
    pub fn new(name: String, kind: SpanKind, context: TraceContext, start_time: u64) -> (span:
        Self)
        ensures
            span@ == (SpanView {
                name: name@,
                kind,
                context: context@,
                start_time,
                attributes: Map::empty(),
            }),
    {
        Span { name, kind, context, start_time, attributes: Dict::new() }
    }

    pub fn name(&self) -> (name: &str)
        ensures
            name@ == self@.name,
    {
        self.name.as_str()
    }

    pub fn kind(&self) -> (kind: SpanKind)
        ensures
            kind == self@.kind,
    {
        self.kind
    }

    pub fn context(&self) -> (context: &TraceContext)
        ensures
            context@ == self@.context,
    {
        &self.context
    }

    pub fn start_time(&self) -> (time: u64)
        ensures
            time == self@.start_time,
    {
        self.start_time
    }

    /// The value recorded under `key`, if there is one.
    pub fn attribute(&self, key: &str) -> (value: Option<&AttributeValue>)
        ensures
            match value {
                Some(v) => self@.attributes.contains_key(key@) && self@.attributes[key@] == v@,
                None => !self@.attributes.contains_key(key@),
            },
    {
        self.attributes.get(key)
    }

    /// Records `value` under `key`, in place of what stood there.
    pub fn set_attribute(&mut self, key: &str, value: AttributeValue)
        ensures
            final(self)@ == (SpanView {
                attributes: old(self)@.attributes.insert(key@, value@),
                ..old(self)@
            }),
    {
        self.attributes.insert(key, value);
    }

    /// Ends the span at `end_time` and yields its record.
    pub fn finish(self, end_time: u64) -> (finished: FinishedSpan)
        ensures
            finished@ == (FinishedSpanView { span: self@, end_time }),
    {
        FinishedSpan {
            name: self.name,
            kind: self.kind,
            context: self.context,
            start_time: self.start_time,
            end_time,
            attributes: self.attributes,
        }
    }
}

impl FinishedSpan {
    pub fn name(&self) -> (name: &str)
        ensures
            name@ == self@.span.name,
    {
        self.name.as_str()
    }

    pub fn kind(&self) -> (kind: SpanKind)
        ensures
            kind == self@.span.kind,
    {
        self.kind
    }

    pub fn context(&self) -> (context: &TraceContext)
        ensures
            context@ == self@.span.context,
    {
        &self.context
    }

    pub fn start_time(&self) -> (time: u64)
        ensures
            time == self@.span.start_time,
    {
        self.start_time
    }

    pub fn end_time(&self) -> (time: u64)
        ensures
            time == self@.end_time,
    {
        self.end_time
    }

    /// The value recorded under `key`, if there is one.
    pub fn attribute(&self, key: &str) -> (value: Option<&AttributeValue>)
        ensures
            match value {
                Some(v) => self@.span.attributes.contains_key(key@) && self@.span.attributes[key@]
                    == v@,
                None => !self@.span.attributes.contains_key(key@),
            },
    {
        self.attributes.get(key)
    }

    /// The attributes, for a reader that walks them by position.
    pub fn attributes(&self) -> (attributes: &Dict<AttributeValue>)
        ensures
            attributes@ == self@.span.attributes,
    {
        &self.attributes
    }
}

impl Duplicate for FinishedSpan {
    fn duplicate(&self) -> (copy: FinishedSpan) {
        FinishedSpan {
            name: self.name.clone(),
            kind: self.kind,
            context: self.context.clone(),
            start_time: self.start_time,
            end_time: self.end_time,
            attributes: self.attributes.duplicate(),
        }
    }
}

} // verus!
