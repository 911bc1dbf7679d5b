//! The wire format of a trace context, and the propagator that writes a
//! context into a carrier and reads it back.
//!
//! Two names are reserved. Under `traceparent` stands the packed header
//! `vv-tttttttttttttttttttttttttttttttt-ssssssssssssssss-ff`: the version
//! `00`, the trace id in 32 and the span id in 16 lower-case hexadecimal
//! digits, and the flags `01` (sampled) or `00` (not sampled), 55 characters
//! in all. Under `tracestate` stands the vendor state, passed through as it
//! is; where the name is missing the state is empty.

use vstd::prelude::*;
use crate::carrier::{fold_key, Carrier};
use crate::context::{TraceContext, TraceContextView};
use crate::hex::{
    hex_digits, hex_number, lemma_digits_of_number, lemma_hex_digits_len, lemma_number_of_digits,
    lemma_pow16_widths, parse_hex, push_hex,
};

verus! {

/// Why a carrier's trace context could not be read.
#[derive(Debug, Clone, Copy, PartialEq, Eq, Structural)]
pub enum PropagationError {
    /// The packed header is present but is not one that `inject` writes.
    MalformedContext,
}

/// The name under which the packed header travels.
pub open spec fn traceparent_key() -> Seq<char> {
    seq!['t', 'r', 'a', 'c', 'e', 'p', 'a', 'r', 'e', 'n', 't']
}

/// The name under which the vendor state travels.
pub open spec fn tracestate_key() -> Seq<char> {
    seq!['t', 'r', 'a', 'c', 'e', 's', 't', 'a', 't', 'e']
}

/// The packed header of a trace id, a span id and a sampling decision.
pub open spec fn encode_header(trace_id: u128, span_id: u64, sampled: bool) -> Seq<char> {
    seq!['0', '0', '-'] + hex_digits(trace_id as nat, 32) + seq!['-'] + hex_digits(
        span_id as nat,
        16,
    ) + seq!['-', '0', if sampled { '1' } else { '0' }]
}

/// What a packed header holds; `None` where the text is no packed header.
pub open spec fn decode_header(header: Seq<char>) -> Option<(u128, u64, bool)> {
    if header.len() == 55 && header[0] == '0' && header[1] == '0' && header[2] == '-' && header[35]
        == '-' && header[52] == '-' && header[53] == '0' && (header[54] == '0' || header[54]
        == '1') {
        match (hex_number(header.subrange(3, 35)), hex_number(header.subrange(36, 52))) {
            (Some(trace_id), Some(span_id)) => Some(
                (trace_id as u128, span_id as u64, header[54] == '1'),
            ),
            _ => None,
        }
    } else {
        None
    }
}

/// The carrier after a context has been written into it.
pub open spec fn inject_model(
    carrier: Map<Seq<char>, Seq<char>>,
    context: TraceContextView,
) -> Map<Seq<char>, Seq<char>> {
    carrier.insert(
        traceparent_key(),
        encode_header(context.trace_id, context.span_id, context.sampled),
    ).insert(tracestate_key(), context.trace_state)
}

/// What reading a carrier yields: nothing where the packed header is
/// missing, an error where it is present and malformed, and else the
/// context of the remote span, which has no parent link.
pub open spec fn extract_model(carrier: Map<Seq<char>, Seq<char>>) -> Result<
    Option<TraceContextView>,
    PropagationError,
> {
    if !carrier.contains_key(traceparent_key()) {
        Ok(None)
    } else {
        match decode_header(carrier[traceparent_key()]) {
            None => Err(PropagationError::MalformedContext),
            Some((trace_id, span_id, sampled)) => Ok(
                Some(
                    TraceContextView {
                        trace_id,
                        span_id,
                        parent_span_id: None,
                        sampled,
                        trace_state: if carrier.contains_key(tracestate_key()) {
                            carrier[tracestate_key()]
                        } else {
                            Seq::empty()
                        },
                    },
                ),
            ),
        }
    }
}

/// The outcome of `extract`, as mathematical values.
pub open spec fn outcome_view(outcome: Result<Option<TraceContext>, PropagationError>) -> Result<
    Option<TraceContextView>,
    PropagationError,
> {
    match outcome {
        Ok(Some(context)) => Ok(Some(context@)),
        Ok(None) => Ok(None),
        Err(e) => Err(e),
    }
}

/// A packed header reads back as the values it was written from.
pub proof fn lemma_decode_encode(trace_id: u128, span_id: u64, sampled: bool)
    ensures
        decode_header(encode_header(trace_id, span_id, sampled)) == Some(
            (trace_id, span_id, sampled),
        ),
{
    let header = encode_header(trace_id, span_id, sampled);
    lemma_pow16_widths();
    lemma_hex_digits_len(trace_id as nat, 32);
    lemma_hex_digits_len(span_id as nat, 16);
    lemma_number_of_digits(trace_id as nat, 32);
    lemma_number_of_digits(span_id as nat, 16);
    assert(header.subrange(3, 35) =~= hex_digits(trace_id as nat, 32));
    assert(header.subrange(36, 52) =~= hex_digits(span_id as nat, 16));
}

/// Only the text that `encode_header` writes is read as a packed header.
pub proof fn lemma_encode_decode(header: Seq<char>)
    requires
        decode_header(header) is Some,
    ensures
        ({
            let (trace_id, span_id, sampled) = decode_header(header)->0;
            encode_header(trace_id, span_id, sampled) == header
        }),
{
    let (trace_id, span_id, sampled) = decode_header(header)->0;
    lemma_pow16_widths();
    lemma_digits_of_number(header.subrange(3, 35));
    lemma_digits_of_number(header.subrange(36, 52));
    assert(encode_header(trace_id, span_id, sampled) =~= header);
}

/// The reserved names are in folded form and differ from each other.
pub proof fn lemma_reserved_keys()
    ensures
        fold_key(traceparent_key()) == traceparent_key(),
        fold_key(tracestate_key()) == tracestate_key(),
        traceparent_key() != tracestate_key(),
{
    assert(fold_key(traceparent_key()) =~= traceparent_key());
    assert(fold_key(tracestate_key()) =~= tracestate_key());
    assert(traceparent_key().len() != tracestate_key().len());
}

/// Round trip: what is written into any carrier is read back as the same
/// context without its parent link, which the wire format does not carry.
/// For a context that has no parent, that is the context itself.
pub proof fn lemma_extract_inject(carrier: Map<Seq<char>, Seq<char>>, context: TraceContextView)
    ensures
        extract_model(inject_model(carrier, context)) == Ok::<
            Option<TraceContextView>,
            PropagationError,
        >(Some(context.propagated())),
        context.parent_span_id is None ==> extract_model(inject_model(carrier, context)) == Ok::<
            Option<TraceContextView>,
            PropagationError,
        >(Some(context)),
{
    lemma_reserved_keys();
    lemma_decode_encode(context.trace_id, context.span_id, context.sampled);
}

/// Writing the same context a second time changes nothing.
pub proof fn lemma_inject_idempotent(carrier: Map<Seq<char>, Seq<char>>, context: TraceContextView)
    ensures
        inject_model(inject_model(carrier, context), context) == inject_model(carrier, context),
{
    assert(inject_model(inject_model(carrier, context), context) =~= inject_model(
        carrier,
        context,
    ));
}

/// Writing a context leaves every name but the two reserved ones as it was.
pub proof fn lemma_inject_keeps_others(
    carrier: Map<Seq<char>, Seq<char>>,
    context: TraceContextView,
    key: Seq<char>,
)
    requires
        key != traceparent_key(),
        key != tracestate_key(),
    ensures
        inject_model(carrier, context).contains_key(key) == carrier.contains_key(key),
        carrier.contains_key(key) ==> inject_model(carrier, context)[key] == carrier[key],
{
}

/// The name under which the packed header travels.
pub fn traceparent() -> (key: &'static str)
    ensures
        key@ == traceparent_key(),
{
    proof {
        reveal_strlit("traceparent");
    }
    let key: &'static str = "traceparent";
    assert(key@ =~= traceparent_key());
    key
}

/// The name under which the vendor state travels.
pub fn tracestate() -> (key: &'static str)
    ensures
        key@ == tracestate_key(),
{
    proof {
        reveal_strlit("tracestate");
    }
    let key: &'static str = "tracestate";
    assert(key@ =~= tracestate_key());
    key
}

/// The packed header of a context.
pub fn format_header(trace_id: u128, span_id: u64, sampled: bool) -> (header: String)
    ensures
        header@ == encode_header(trace_id, span_id, sampled),
{
    proof {
        reveal_strlit("00-");
        reveal_strlit("-");
        reveal_strlit("-01");
        reveal_strlit("-00");
    }
    let mut header = String::from_str("00-");
    push_hex(&mut header, trace_id, 32);
    header.append("-");
    push_hex(&mut header, span_id as u128, 16);
    if sampled {
        header.append("-01");
    } else {
        header.append("-00");
    }
    assert(header@ =~= encode_header(trace_id, span_id, sampled));
    header
}

/// Reads a packed header. Every field has its fixed width; nothing but the
/// exact text that `format_header` writes is accepted.
pub fn parse_header(header: &str) -> (fields: Option<(u128, u64, bool)>)
    ensures
        fields == decode_header(header@),
{
    let n: usize = header.unicode_len();
    if n != 55 {
        return None;
    }
    if header.get_char(0) != '0' || header.get_char(1) != '0' || header.get_char(2) != '-'
        || header.get_char(35) != '-' || header.get_char(52) != '-' || header.get_char(53) != '0' {
        return None;
    }
    let flag: char = header.get_char(54);
    if flag != '0' && flag != '1' {
        return None;
    }
    match parse_hex(header, 3, 32) {
        None => None,
        Some(trace_id) => match parse_hex(header, 36, 16) {
            None => None,
            Some(span_id) => {
                proof {
                    lemma_pow16_widths();
                    lemma_digits_of_number(header@.subrange(36, 52));
                }
                Some((trace_id, span_id as u64, flag == '1'))
            },
        },
    }
}

/// Writes trace contexts into carriers and reads them back.
pub struct Propagator {}

impl Propagator {
    pub fn new() -> Self {
        Propagator {  }
    }

    /// Writes `context` into `carrier` under the two reserved names. The
    /// entries depend on the context alone, so a second call with the same
    /// context changes nothing, and no other name is touched.
    pub fn inject(&self, context: &TraceContext, carrier: &mut Carrier)
        ensures
            final(carrier)@ == inject_model(old(carrier)@, context@),
            forall|key: Seq<char>|
                key != traceparent_key() && key != tracestate_key() ==> {
                    &&& final(carrier)@.contains_key(key) == old(carrier)@.contains_key(key)
                    &&& old(carrier)@.contains_key(key) ==> final(carrier)@[key] == old(carrier)@[key]
                },
    {
        proof {
            lemma_reserved_keys();
        }
        let header = format_header(context.trace_id(), context.span_id(), context.is_sampled());
        carrier.insert(traceparent(), header.as_str());
        carrier.insert(tracestate(), context.trace_state());
    }

    /// Reads the context that a carrier holds.
    ///
    /// A carrier without the packed header holds none: the request has no
    /// upstream trace, which is no error. A packed header that is present
    /// and malformed is reported as `MalformedContext`. The context read
    /// is that of the remote span and has no parent link.
    pub fn extract(&self, carrier: &Carrier) -> (outcome: Result<
        Option<TraceContext>,
        PropagationError,
    >)
        ensures
            outcome_view(outcome) == extract_model(carrier@),
            !carrier@.contains_key(traceparent_key()) ==> outcome == Ok::<
                Option<TraceContext>,
                PropagationError,
            >(None),
    {
        proof {
            lemma_reserved_keys();
        }
        match carrier.get(traceparent()) {
            None => Ok(None),
            Some(header) => match parse_header(header) {
                None => Err(PropagationError::MalformedContext),
                Some((trace_id, span_id, sampled)) => {
                    let state = match carrier.get(tracestate()) {
                        Some(text) => String::from_str(text),
                        None => String::new(),
                    };
                    Ok(Some(TraceContext::new(trace_id, span_id, None, sampled, state)))
                },
            },
        }
    }
}

} // verus!
