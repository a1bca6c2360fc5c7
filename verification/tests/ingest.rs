use logtail::ingest::App;
use logtail::ingest::IngestError;
use logtail::log::StructuredLogItem;
use logtail::runtime::LoopDirective;
use logtail::runtime::StopReason;
use logtail::runtime::loop_directive;

fn fresh_app() -> App {
    App::new(100, 60_000)
}

#[test]
fn scenario_trivial_record() {
    let mut app = fresh_app();
    let r = app.ingest_line("{\"type\":\"log\",\"payload\":\"worker: started\"}", 1_000);
    let item = r.expect("a well-formed envelope should ingest");
    assert_eq!(item.log_type, "log");
    match item.payload {
        StructuredLogItem::Trivial(t) => {
            assert_eq!(t.tag, "worker");
            assert_eq!(t.content, "started");
        }
        _ => panic!("expected a trivial payload"),
    }
    assert_eq!(app.traces.settled_entry_count(), 0, "a trivial record must not touch the cache");
}

#[test]
fn scenario_trace_record() {
    let mut app = fresh_app();
    let r = app.ingest_line("{\"type\":\"log\",\"payload\":\"[42 120ms] db: query ok\"}", 7_000);
    let item = r.expect("a well-formed envelope should ingest");
    match item.payload {
        StructuredLogItem::Trace(t) => assert_eq!(t.trace_id, 42),
        _ => panic!("expected a trace payload"),
    }
    let entry = app.traces.get(42).expect("the trace should be correlated into the cache");
    assert_eq!(entry.time, 7_000);
    assert_eq!(entry.duration, "120ms");
    assert_eq!(entry.content.tag, "db");
    assert_eq!(entry.content.content, "query ok");
}

#[test]
fn scenario_garbled_payload() {
    let mut app = fresh_app();
    let r = app.ingest_line("{\"type\":\"log\",\"payload\":\"garbled nonsense\"}", 0);
    let item = r.expect("a well-formed envelope should ingest");
    match item.payload {
        StructuredLogItem::Raw(s) => assert_eq!(s, "garbled nonsense"),
        _ => panic!("expected the raw fallback"),
    }
    assert_eq!(app.traces.settled_entry_count(), 0, "a raw record must not touch the cache");
}

#[test]
fn scenario_connection_closed() {
    let mut app = fresh_app();
    match app.ingest_line("", 0) {
        Err(IngestError::ConnectionClosed) => {}
        _ => panic!("an empty read must mean the connection closed"),
    }
    let d = loop_directive(false, false, false);
    assert_eq!(d, LoopDirective::Stop(StopReason::UpdateFailed));
}

#[test]
fn malformed_line_reports_raw_text() {
    let mut app = fresh_app();
    match app.ingest_line("not json at all", 0) {
        Err(IngestError::MalformedRecord { raw }) => assert_eq!(raw, "not json at all"),
        _ => panic!("a non-envelope line must be malformed"),
    }
}

#[test]
fn malformed_envelope_missing_field() {
    let mut app = fresh_app();
    match app.ingest_line("{\"type\":\"log\"}", 0) {
        Err(IngestError::MalformedRecord { .. }) => {}
        _ => panic!("an envelope without payload must be malformed"),
    }
}

#[test]
fn malformed_envelope_wrong_type() {
    let mut app = fresh_app();
    match app.ingest_line("{\"type\":\"log\",\"payload\":3}", 0) {
        Err(IngestError::MalformedRecord { .. }) => {}
        _ => panic!("a non-string payload must be malformed"),
    }
}

#[test]
fn envelope_with_extra_fields() {
    let mut app = fresh_app();
    let r = app.ingest_line(
        "{\"type\":\"log\",\"payload\":\"a: b\",\"extra\":true}",
        0,
    );
    assert!(r.is_ok(), "extra envelope fields are ignored");
}

#[test]
fn error_messages() {
    assert_eq!(
        IngestError::ConnectionClosed.message(),
        "connection closed by the remote end"
    );
    assert_eq!(
        IngestError::MalformedRecord { raw: "x".to_string() }.message(),
        "malformed record: x"
    );
}

#[test]
fn new_app_state() {
    let app = fresh_app();
    assert_eq!(app.counter, 0);
    assert!(!app.should_quit);
}
