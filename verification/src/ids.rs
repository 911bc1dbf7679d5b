//! Random identifiers for traces and spans.

use vstd::prelude::*;
use opentelemetry::trace::IdGenerator;

verus! {

/// `new_trace_id` of `opentelemetry::sdk::trace::IdGenerator`: 128 bits from
/// the thread's random number generator. Nothing is known of the value.
#[verifier::external_body]
pub(crate) fn random_trace_id() -> (id: u128) {
    opentelemetry::sdk::trace::IdGenerator::default().new_trace_id().to_u128()
}

/// `new_span_id` of `opentelemetry::sdk::trace::IdGenerator`: 64 bits from
/// the thread's random number generator. Nothing is known of the value.
#[verifier::external_body]
pub(crate) fn random_span_id() -> (id: u64) {
    opentelemetry::sdk::trace::IdGenerator::default().new_span_id().to_u64()
}

} // verus!
