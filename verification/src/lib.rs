//! Propagation of a distributed trace context across a process boundary,
//! together with the span lifecycle that the propagation serves.
//!
//! A client starts a span, writes the span's context into the carrier of an
//! outbound request, and a server reads the context back and starts its own
//! span under it, so that both sides record one trace.
//!
//! - `context`: the identity of a span within a trace.
//! - `carrier`: the key/value bag that crosses the boundary.
//! - `propagator`: the wire format; writing a context and reading it back.
//! - `span`, `stack`, `tracer`: starting spans, entering and releasing
//!   them in stack order, ending them.
//! - `sink`: where the records of ended spans go.
//! - `client`, `server`: the two sides of an exchange.
//! - `hex`, `dict`: numerals and the small map that the rest is built on.

pub mod carrier;
pub mod client;
pub mod context;
pub mod dict;
pub mod hex;
mod ids;
pub mod propagator;
pub mod server;
pub mod sink;
pub mod span;
pub mod stack;
pub mod tracer;
