use auto_span::trace::{AttrValue, SpanStatus, TraceLog};

#[test]
fn spans_record_in_ending_order_with_error_on_the_caller() {
    // what instrumented f and g do for g(12): g calls f twice, both
    // succeed, then g's own early return fails
    let mut log = TraceLog::new();
    log.start(String::from("fn:g"));
    log.start(String::from("fn:f"));
    log.end();
    log.start(String::from("fn:f"));
    log.end();
    log.set_status_error(String::from("x is negative"));
    log.end();

    assert_eq!(log.finished.len(), 3);
    assert_eq!(log.finished[0].name, "fn:f");
    assert_eq!(log.finished[0].status, SpanStatus::Unset);
    assert_eq!(log.finished[1].name, "fn:f");
    assert_eq!(log.finished[1].status, SpanStatus::Unset);
    assert_eq!(log.finished[2].name, "fn:g");
    assert_eq!(
        log.finished[2].status,
        SpanStatus::Error {
            message: String::from("x is negative")
        }
    );
}

#[test]
fn child_spans_end_before_their_parent() {
    let mut log = TraceLog::new();
    log.start(String::from("outer"));
    log.start(String::from("inner"));
    log.end();
    log.end();
    assert_eq!(log.finished[0].name, "inner");
    assert_eq!(log.finished[1].name, "outer");
    assert!(log.finished[0].start_seq > log.finished[1].start_seq);
    assert!(log.finished[0].end_seq < log.finished[1].end_seq);
}

#[test]
fn error_status_goes_to_the_nearest_enclosing_span() {
    let mut log = TraceLog::new();
    log.start(String::from("fn:h"));
    log.start(String::from("fn:in_h"));
    log.set_status_error(String::from("in_h err"));
    log.end();
    log.end();
    assert_eq!(
        log.finished[0].status,
        SpanStatus::Error {
            message: String::from("in_h err")
        }
    );
    assert_eq!(log.finished[1].status, SpanStatus::Unset);
}

#[test]
fn statement_attribute_lands_on_the_active_span() {
    let mut log = TraceLog::new();
    log.start(String::from("db"));
    log.set_attribute(
        String::from("db.statement"),
        AttrValue::Text {
            value: String::from("SELECT 1"),
        },
    );
    log.end();
    assert_eq!(log.finished[0].attributes.len(), 1);
    assert_eq!(log.finished[0].attributes[0].0, "db.statement");
    assert_eq!(
        log.finished[0].attributes[0].1,
        AttrValue::Text {
            value: String::from("SELECT 1")
        }
    );
}

#[test]
fn status_without_an_active_span_is_dropped() {
    let mut log = TraceLog::new();
    log.set_status_error(String::from("nobody listens"));
    log.set_attribute(
        String::from("k"),
        AttrValue::Int { value: 1 },
    );
    assert!(log.open.is_empty());
    assert!(log.finished.is_empty());
}

#[test]
fn nested_span_joins_parent_trace() {
    let mut log = TraceLog::new();
    log.start(String::from("root"));
    log.start(String::from("child"));
    log.end();
    log.end();
    assert_eq!(log.finished[0].trace_id, log.finished[1].trace_id);
    assert!(log.finished[0].span_id != log.finished[1].span_id);

    log.start(String::from("second root"));
    log.end();
    assert!(log.finished[2].trace_id != log.finished[0].trace_id);
}
