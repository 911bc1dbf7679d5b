use trace_propagation::carrier::Carrier;
use trace_propagation::client::{begin_call, begin_call_with_ids, finish_call};
use trace_propagation::context::TraceContext;
use trace_propagation::dict::{Dict, Duplicate};
use trace_propagation::propagator::Propagator;
use trace_propagation::server::{
    begin_request, begin_request_with_ids, begin_work, begin_work_with_ids, finish,
};
use trace_propagation::sink::ExportSink;
use trace_propagation::span::{AttributeValue, Span, SpanKind};
use trace_propagation::stack::{SpanMisuseError, SpanStack};
use trace_propagation::tracer::{SamplingPolicy, Tracer};

const T: u128 = 0x1111_2222_3333_4444_5555_6666_7777_8888;
const S: u64 = 0x9999_aaaa_bbbb_cccc;

fn tracer() -> Tracer {
    Tracer::new(SamplingPolicy::default())
}

fn parent(sampled: bool) -> TraceContext {
    TraceContext::new(T, S, Some(1), sampled, "k=v".to_string())
}

fn span(trace_id: u128, span_id: u64) -> Span {
    Span::new(
        "work".to_string(),
        SpanKind::Internal,
        TraceContext::new(trace_id, span_id, None, true, String::new()),
        0,
    )
}

#[test]
fn span_under_an_explicit_parent() {
    let stack = SpanStack::new();
    let p = parent(true);
    let span =
        tracer().start_span_with_ids("child", SpanKind::Server, Some(&p), &stack, 77, 88, 1000);
    assert_eq!(span.name(), "child");
    assert_eq!(span.kind(), SpanKind::Server);
    assert_eq!(span.start_time(), 1000);
    assert_eq!(span.context().trace_id(), T);
    assert_eq!(span.context().parent_span_id(), Some(S));
    assert_eq!(span.context().span_id(), 88);
    assert!(span.context().is_sampled());
    assert_eq!(span.context().trace_state(), "k=v");
    assert_eq!(stack.depth(), 0);
}

#[test]
fn span_id_differs_from_the_parents() {
    let stack = SpanStack::new();
    let p = parent(true);
    let span = tracer().start_span_with_ids("child", SpanKind::Internal, Some(&p), &stack, 0, S, 0);
    assert_eq!(span.context().span_id(), S + 1);
    assert_eq!(span.context().parent_span_id(), Some(S));
    let last = TraceContext::new(T, u64::MAX, None, true, String::new());
    let span =
        tracer().start_span_with_ids("child", SpanKind::Internal, Some(&last), &stack, 0, u64::MAX, 0);
    assert_eq!(span.context().span_id(), 0);
    assert_eq!(span.context().parent_span_id(), Some(u64::MAX));
}

#[test]
fn span_under_the_innermost_entered_span() {
    let mut stack = SpanStack::new();
    let _outer = stack.enter(span(1, 10));
    let _inner = stack.enter(span(2, 20));
    let child = tracer().start_span_with_ids("child", SpanKind::Internal, None, &stack, 3, 30, 5);
    assert_eq!(child.context().trace_id(), 2);
    assert_eq!(child.context().parent_span_id(), Some(20));
    assert_eq!(child.context().span_id(), 30);
    assert_eq!(stack.depth(), 2);
}

#[test]
fn explicit_parent_comes_before_the_stack() {
    let mut stack = SpanStack::new();
    let _entered = stack.enter(span(1, 10));
    let p = parent(false);
    let child = tracer().start_span_with_ids("child", SpanKind::Internal, Some(&p), &stack, 3, 30, 5);
    assert_eq!(child.context().trace_id(), T);
    assert_eq!(child.context().parent_span_id(), Some(S));
    assert!(!child.context().is_sampled());
}

#[test]
fn span_without_a_parent_is_a_root() {
    let stack = SpanStack::new();
    let root = tracer().start_span_with_ids("root", SpanKind::Client, None, &stack, 3, 30, 5);
    assert_eq!(root.context().trace_id(), 3);
    assert_eq!(root.context().span_id(), 30);
    assert_eq!(root.context().parent_span_id(), None);
    assert!(root.context().is_sampled());
    assert_eq!(root.context().trace_state(), "");
    assert_eq!(root.attribute("anything"), None);
}

#[test]
fn sampling_policies_decide() {
    let follow = SamplingPolicy::ParentBased { root: false };
    assert!(follow.decide(Some(true)));
    assert!(!follow.decide(Some(false)));
    assert!(!follow.decide(None));
    assert!(SamplingPolicy::default().decide(None));
    assert_eq!(SamplingPolicy::default(), SamplingPolicy::ParentBased { root: true });
    assert!(SamplingPolicy::AlwaysOn.decide(Some(false)));
    assert!(SamplingPolicy::AlwaysOn.decide(None));
    assert!(!SamplingPolicy::AlwaysOff.decide(Some(true)));
    assert!(!SamplingPolicy::AlwaysOff.decide(None));
    assert_eq!(Tracer::new(SamplingPolicy::AlwaysOff).policy(), SamplingPolicy::AlwaysOff);
    let stack = SpanStack::new();
    let p = parent(true);
    let off = Tracer::new(SamplingPolicy::AlwaysOff)
        .start_span_with_ids("s", SpanKind::Internal, Some(&p), &stack, 1, 2, 3);
    assert!(!off.context().is_sampled());
}

#[test]
fn random_identifiers_keep_the_parent_link() {
    let stack = SpanStack::new();
    let p = parent(true);
    for _ in 0..64 {
        let child = tracer().start_span("child", SpanKind::Internal, Some(&p), &stack, 9);
        assert_eq!(child.context().trace_id(), T);
        assert_eq!(child.context().parent_span_id(), Some(S));
        assert_ne!(child.context().span_id(), S);
        assert_eq!(child.start_time(), 9);
    }
    let root = tracer().start_span("root", SpanKind::Client, None, &stack, 9);
    assert_eq!(root.context().parent_span_id(), None);
}

#[test]
fn stack_discipline() {
    let mut stack = SpanStack::new();
    assert!(stack.current().is_none());
    let a = stack.enter(span(1, 10));
    assert_eq!(stack.current().unwrap().context().span_id(), 10);
    let b = stack.enter(span(1, 20));
    assert_eq!(stack.current().unwrap().context().span_id(), 20);
    assert_eq!(stack.depth(), 2);
    let released = stack.exit(b).unwrap();
    assert_eq!(released.context().span_id(), 20);
    assert_eq!(stack.current().unwrap().context().span_id(), 10);
    let released = stack.exit(a).unwrap();
    assert_eq!(released.context().span_id(), 10);
    assert_eq!(stack.depth(), 0);
    assert!(stack.current().is_none());
}

#[test]
fn release_out_of_order_is_detected() {
    let mut stack = SpanStack::new();
    let a = stack.enter(span(1, 10));
    let b = stack.enter(span(1, 20));
    assert_eq!(stack.exit(a).unwrap_err(), SpanMisuseError::OutOfOrder);
    assert_eq!(stack.depth(), 2);
    assert_eq!(stack.current().unwrap().context().span_id(), 20);
    assert!(stack.exit(b).is_ok());
    assert_eq!(stack.depth(), 1);
}

#[test]
fn release_of_a_guard_from_elsewhere_is_detected() {
    let mut first = SpanStack::new();
    let mut second = SpanStack::new();
    let _a = first.enter(span(1, 10));
    let b = first.enter(span(1, 20));
    let c = second.enter(span(1, 30));
    // no span at the guard's place
    assert_eq!(second.exit(b).unwrap_err(), SpanMisuseError::NotEntered);
    // another span at the guard's place
    assert_eq!(first.exit(c).unwrap_err(), SpanMisuseError::NotEntered);
    assert_eq!(first.depth(), 2);
    assert_eq!(second.depth(), 1);
}

#[test]
fn unwind_hands_out_every_entered_span() {
    let mut stack = SpanStack::new();
    let _a = stack.enter(span(1, 10));
    let _b = stack.enter(span(1, 20));
    let _c = stack.enter(span(1, 30));
    let spans = stack.unwind();
    let ids: Vec<u64> = spans.iter().map(|s| s.context().span_id()).collect();
    assert_eq!(ids, vec![10, 20, 30]);
    assert_eq!(stack.depth(), 0);
    assert!(stack.unwind().is_empty());
}

#[test]
fn attributes_are_recorded_by_name() {
    let mut s = span(1, 10);
    s.set_attribute("peer", AttributeValue::Text("localhost".to_string()));
    s.set_attribute("retries", AttributeValue::Integer(-2));
    s.set_attribute("cached", AttributeValue::Flag(false));
    s.set_attribute("retries", AttributeValue::Integer(3));
    assert_eq!(s.attribute("peer"), Some(&AttributeValue::Text("localhost".to_string())));
    assert_eq!(s.attribute("retries"), Some(&AttributeValue::Integer(3)));
    assert_eq!(s.attribute("cached"), Some(&AttributeValue::Flag(false)));
    assert_eq!(s.attribute("Peer"), None);
    let done = s.finish(50);
    assert_eq!(done.end_time(), 50);
    assert_eq!(done.start_time(), 0);
    assert_eq!(done.name(), "work");
    assert_eq!(done.kind(), SpanKind::Internal);
    assert_eq!(done.context().span_id(), 10);
    assert_eq!(done.attribute("retries"), Some(&AttributeValue::Integer(3)));
    assert_eq!(done.attributes().len(), 3);
    assert_eq!(done.attributes().key_at(1), "retries");
    assert_eq!(done.attributes().value_at(1), &AttributeValue::Integer(3));
}

#[test]
fn dict_copies_hold_the_same_entries() {
    let mut dict: Dict<String> = Dict::new();
    dict.insert("b", "2".to_string());
    dict.insert("a", "1".to_string());
    let mut copy = dict.duplicate();
    assert_eq!(copy.len(), 2);
    assert_eq!(copy.key_at(0), "b");
    assert_eq!(copy.get("a"), Some(&"1".to_string()));
    assert_eq!(copy.get("b"), Some(&"2".to_string()));
    copy.insert("a", "9".to_string());
    assert_eq!(dict.get("a"), Some(&"1".to_string()));
    assert_eq!(dict.get("A"), None);
}

#[test]
fn end_span_stamps_and_exports() {
    let mut sink = ExportSink::new(4);
    let finished = tracer().end_span(span(1, 10), 99, &mut sink);
    assert_eq!(finished.end_time(), 99);
    assert_eq!(finished.context().span_id(), 10);
    assert_eq!(sink.len(), 1);
    let kept = sink.get(0).unwrap();
    assert_eq!(kept.end_time(), 99);
    assert_eq!(kept.context().span_id(), 10);
    assert_eq!(kept.name(), "work");
    assert!(sink.get(1).is_none());
}

#[test]
fn sink_keeps_sampled_records_while_there_is_room() {
    let mut sink = ExportSink::new(2);
    assert_eq!(sink.capacity(), 2);
    let unsampled = Span::new(
        "quiet".to_string(),
        SpanKind::Internal,
        TraceContext::new(1, 5, None, false, String::new()),
        0,
    );
    sink.export(unsampled.finish(1));
    assert_eq!((sink.len(), sink.dropped()), (0, 0));
    sink.export(span(1, 10).finish(1));
    sink.export(span(1, 20).finish(2));
    assert_eq!((sink.len(), sink.dropped()), (2, 0));
    sink.export(span(1, 30).finish(3));
    sink.export(span(1, 40).finish(4));
    assert_eq!((sink.len(), sink.dropped()), (2, 2));
    let records = sink.drain();
    let ids: Vec<u64> = records.iter().map(|r| r.context().span_id()).collect();
    assert_eq!(ids, vec![10, 20]);
    assert_eq!((sink.len(), sink.dropped(), sink.capacity()), (0, 2, 2));
    sink.export(span(1, 50).finish(5));
    assert_eq!(sink.len(), 1);
}

#[test]
fn sink_without_room_drops_everything() {
    let mut sink = ExportSink::new(0);
    sink.export(span(1, 10).finish(1));
    assert_eq!((sink.len(), sink.dropped()), (0, 1));
    assert!(sink.drain().is_empty());
}

#[test]
fn cancelled_unit_still_ends_its_spans() {
    let tracer = tracer();
    let mut sink = ExportSink::new(8);
    let mut stack = SpanStack::new();
    let outer = tracer.start_span_with_ids("outer", SpanKind::Server, None, &stack, 1, 10, 100);
    let _outer_guard = stack.enter(outer);
    let _inner_guard = begin_work_with_ids(&tracer, "inner", &mut stack, 2, 20, 110);
    // the unit is cut short here: no guard is released
    let ended = tracer.end_all(&mut stack, 150, &mut sink);
    assert_eq!(ended, 2);
    assert_eq!(stack.depth(), 0);
    assert_eq!(sink.len(), 2);
    let inner = sink.get(0).unwrap();
    let outer = sink.get(1).unwrap();
    assert_eq!((inner.name(), inner.start_time(), inner.end_time()), ("inner", 110, 150));
    assert_eq!((outer.name(), outer.start_time(), outer.end_time()), ("outer", 100, 150));
    assert_eq!(inner.context().parent_span_id(), Some(10));
    assert_eq!(tracer.end_all(&mut stack, 160, &mut sink), 0);
    assert_eq!(sink.len(), 2);
}

#[test]
fn client_call_records_the_response() {
    let tracer = tracer();
    let propagator = Propagator::new();
    let stack = SpanStack::new();
    let mut carrier = Carrier::new();
    let mut sink = ExportSink::new(4);
    let call =
        begin_call_with_ids(&tracer, &propagator, "client handle", &stack, &mut carrier, T, S, 10);
    assert_eq!(call.span().kind(), SpanKind::Client);
    assert_eq!(call.span().context().trace_id(), T);
    assert_eq!(call.span().context().parent_span_id(), None);
    assert_eq!(
        carrier.get("traceparent"),
        Some("00-11112222333344445555666677778888-9999aaaabbbbcccc-01")
    );
    let outcome: Result<u16, String> = Ok(200);
    assert_eq!(finish_call(&tracer, call, outcome, 20, &mut sink), Ok(200));
    let record = sink.get(0).unwrap();
    assert_eq!(record.attribute("response.status"), Some(&AttributeValue::Integer(200)));
    assert_eq!(record.attribute("error"), None);
    assert_eq!((record.start_time(), record.end_time()), (10, 20));
}

#[test]
fn client_call_hands_a_transport_error_on() {
    let tracer = tracer();
    let propagator = Propagator::new();
    let stack = SpanStack::new();
    let mut carrier = Carrier::new();
    let mut sink = ExportSink::new(4);
    let call = begin_call_with_ids(&tracer, &propagator, "call", &stack, &mut carrier, T, S, 10);
    let outcome: Result<u16, String> = Err("connection refused".to_string());
    assert_eq!(
        finish_call(&tracer, call, outcome, 20, &mut sink),
        Err("connection refused".to_string())
    );
    assert_eq!(sink.len(), 1);
    let record = sink.get(0).unwrap();
    assert_eq!(record.attribute("error"), Some(&AttributeValue::Flag(true)));
    assert_eq!(record.attribute("response.status"), None);
    assert_eq!(record.end_time(), 20);
}

#[test]
fn client_call_inside_an_entered_span_is_its_child() {
    let tracer = tracer();
    let propagator = Propagator::new();
    let mut stack = SpanStack::new();
    let _guard = stack.enter(span(4, 40));
    let mut carrier = Carrier::new();
    let call = begin_call_with_ids(&tracer, &propagator, "call", &stack, &mut carrier, T, S, 10);
    assert_eq!(call.span().context().trace_id(), 4);
    assert_eq!(call.span().context().parent_span_id(), Some(40));
    assert_eq!(
        carrier.get("traceparent"),
        Some("00-00000000000000000000000000000004-9999aaaabbbbcccc-01")
    );
}

#[test]
fn client_call_with_random_identifiers_propagates_its_context() {
    let tracer = tracer();
    let propagator = Propagator::new();
    let stack = SpanStack::new();
    let mut carrier = Carrier::new();
    let call = begin_call(&tracer, &propagator, "call", &stack, &mut carrier, 10);
    let read = propagator.extract(&carrier).unwrap().unwrap();
    assert!(read.same_as(call.span().context()));
}

#[test]
fn malformed_context_falls_back_to_a_root() {
    let tracer = tracer();
    let propagator = Propagator::new();
    let mut carrier = Carrier::new();
    // the trace id of the would-be parent is one digit short
    carrier.insert("traceparent", "00-1111222233334444555566667777888-9999aaaabbbbcccc-01");
    assert!(propagator.extract(&carrier).is_err());
    let (stack, _guard) =
        begin_request_with_ids(&tracer, &propagator, "server handle", &carrier, 0xabc, 0xdef, 1);
    let root = stack.current().unwrap().context();
    assert_eq!(root.trace_id(), 0xabc);
    assert_ne!(root.trace_id(), T);
    assert_eq!(root.parent_span_id(), None);
    let (stack, _guard) = begin_request(&tracer, &propagator, "server handle", &carrier, 1);
    assert_eq!(stack.current().unwrap().context().parent_span_id(), None);
    assert_eq!(stack.depth(), 1);
}

#[test]
fn request_without_context_starts_a_trace() {
    let tracer = tracer();
    let propagator = Propagator::new();
    let (stack, _guard) =
        begin_request_with_ids(&tracer, &propagator, "server handle", &Carrier::new(), 5, 6, 1);
    let root = stack.current().unwrap();
    assert_eq!(root.kind(), SpanKind::Server);
    assert_eq!(root.context().trace_id(), 5);
    assert_eq!(root.context().span_id(), 6);
    assert_eq!(root.context().parent_span_id(), None);
}

#[test]
fn finish_out_of_order_changes_nothing() {
    let tracer = tracer();
    let propagator = Propagator::new();
    let mut sink = ExportSink::new(4);
    let (mut stack, request) =
        begin_request_with_ids(&tracer, &propagator, "server handle", &Carrier::new(), 5, 6, 1);
    let work = begin_work(&tracer, "doing something", &mut stack, 2);
    assert_eq!(
        finish(&tracer, &mut stack, request, 3, &mut sink),
        Err(SpanMisuseError::OutOfOrder)
    );
    assert_eq!(stack.depth(), 2);
    assert_eq!(sink.len(), 0);
    assert_eq!(finish(&tracer, &mut stack, work, 4, &mut sink), Ok(()));
    assert_eq!(stack.depth(), 1);
    assert_eq!(sink.len(), 1);
}

#[test]
fn trace_spans_client_and_server() {
    let tracer = tracer();
    let propagator = Propagator::new();
    let x: u128 = 0xfeed_0000_0000_0000_0000_0000_0000_beef;

    // client side
    let mut client_sink = ExportSink::new(16);
    let client_stack = SpanStack::new();
    let mut carrier = Carrier::new();
    let call = begin_call_with_ids(
        &tracer, &propagator, "client handle", &client_stack, &mut carrier, x, 0x100, 1000,
    );
    let client_span_id = call.span().context().span_id();

    // the carrier crosses the boundary under the transport's spelling
    let mut received = Carrier::new();
    for i in 0..carrier.len() {
        received.insert(&carrier.key_at(i).to_uppercase(), carrier.value_at(i));
    }

    // server side
    let mut server_sink = ExportSink::new(16);
    let (mut stack, request) = begin_request_with_ids(
        &tracer, &propagator, "server handle", &received, 0x9999, 0x200, 1100,
    );
    let server_span_id = stack.current().unwrap().context().span_id();
    let work = begin_work_with_ids(&tracer, "doing something", &mut stack, 0x8888, 0x300, 1200);
    assert_eq!(finish(&tracer, &mut stack, work, 1300, &mut server_sink), Ok(()));
    assert_eq!(finish(&tracer, &mut stack, request, 1400, &mut server_sink), Ok(()));
    assert_eq!(stack.depth(), 0);

    // back on the client
    let outcome: Result<u16, String> = Ok(200);
    assert_eq!(finish_call(&tracer, call, outcome, 1500, &mut client_sink), Ok(200));

    let mut exported = server_sink.drain();
    exported.extend(client_sink.drain());
    assert_eq!(exported.len(), 3);
    let names: Vec<&str> = exported.iter().map(|s| s.name()).collect();
    assert_eq!(names, vec!["doing something", "server handle", "client handle"]);
    for record in &exported {
        assert_eq!(record.context().trace_id(), x);
        assert!(record.context().is_sampled());
        assert!(record.end_time() >= record.start_time());
    }
    let (internal, server, client) = (&exported[0], &exported[1], &exported[2]);
    assert_eq!(internal.kind(), SpanKind::Internal);
    assert_eq!(server.kind(), SpanKind::Server);
    assert_eq!(client.kind(), SpanKind::Client);
    assert_eq!(client.context().parent_span_id(), None);
    assert_eq!(server.context().parent_span_id(), Some(client_span_id));
    assert_eq!(internal.context().parent_span_id(), Some(server_span_id));
    assert_eq!(server.context().span_id(), 0x200);
    assert_eq!(internal.context().span_id(), 0x300);
    assert_eq!((internal.end_time(), server.end_time(), client.end_time()), (1300, 1400, 1500));
}

#[test]
fn unsampled_trace_is_not_exported_downstream() {
    let tracer = Tracer::new(SamplingPolicy::ParentBased { root: false });
    let propagator = Propagator::new();
    let mut sink = ExportSink::new(4);
    let mut carrier = Carrier::new();
    let stack = SpanStack::new();
    let call = begin_call_with_ids(&tracer, &propagator, "call", &stack, &mut carrier, 1, 2, 0);
    assert_eq!(
        carrier.get("traceparent"),
        Some("00-00000000000000000000000000000001-0000000000000002-00")
    );
    let (mut server_stack, request) =
        begin_request_with_ids(&tracer, &propagator, "handle", &carrier, 8, 9, 0);
    assert!(!server_stack.current().unwrap().context().is_sampled());
    assert_eq!(finish(&tracer, &mut server_stack, request, 1, &mut sink), Ok(()));
    let outcome: Result<u16, ()> = Ok(204);
    assert_eq!(finish_call(&tracer, call, outcome, 2, &mut sink), Ok(204));
    assert_eq!((sink.len(), sink.dropped()), (0, 0));
}
