use logtail::log::LogItem;
use logtail::log::StructuredLogItem;
use logtail::log::TraceLogItem;
use logtail::log::TrivialLogItem;
use logtail::log::parse_u32_str;

#[test]
fn trivial_parse() {
    match StructuredLogItem::from("worker: started".to_string()) {
        StructuredLogItem::Trivial(t) => {
            assert_eq!(t.tag, "worker");
            assert_eq!(t.content, "started");
        }
        _ => panic!("expected a trivial record"),
    }
}

#[test]
fn trivial_splits_on_first_separator() {
    match StructuredLogItem::from("a: b: c".to_string()) {
        StructuredLogItem::Trivial(t) => {
            assert_eq!(t.tag, "a");
            assert_eq!(t.content, "b: c");
        }
        _ => panic!("expected a trivial record"),
    }
}

#[test]
fn raw_without_separator() {
    match StructuredLogItem::from("garbled nonsense".to_string()) {
        StructuredLogItem::Raw(s) => assert_eq!(s, "garbled nonsense"),
        _ => panic!("expected the raw fallback"),
    }
}

#[test]
fn raw_empty_line() {
    match StructuredLogItem::from(String::new()) {
        StructuredLogItem::Raw(s) => assert_eq!(s, ""),
        _ => panic!("expected the raw fallback"),
    }
}

#[test]
fn trace_parse() {
    match StructuredLogItem::from("[42 120ms] db: query ok".to_string()) {
        StructuredLogItem::Trace(t) => {
            assert_eq!(t.trace_id, 42);
            assert_eq!(t.duration, "120ms");
            assert_eq!(t.content.tag, "db");
            assert_eq!(t.content.content, "query ok");
        }
        _ => panic!("expected a trace record"),
    }
}

#[test]
fn trace_bad_id_falls_back_to_raw() {
    match StructuredLogItem::from("[x7 120ms] db: query ok".to_string()) {
        StructuredLogItem::Raw(s) => assert_eq!(s, "[x7 120ms] db: query ok"),
        _ => panic!("expected the raw fallback"),
    }
}

#[test]
fn trace_id_at_limit() {
    match StructuredLogItem::from("[4294967295 1ms] a: b".to_string()) {
        StructuredLogItem::Trace(t) => assert_eq!(t.trace_id, u32::MAX),
        _ => panic!("expected a trace record"),
    }
}

#[test]
fn trace_id_overflow_falls_back_to_raw() {
    match StructuredLogItem::from("[4294967296 1ms] a: b".to_string()) {
        StructuredLogItem::Raw(s) => assert_eq!(s, "[4294967296 1ms] a: b"),
        _ => panic!("expected the raw fallback"),
    }
}

#[test]
fn trace_id_with_plus_sign() {
    match StructuredLogItem::from("[+42 1ms] a: b".to_string()) {
        StructuredLogItem::Trace(t) => assert_eq!(t.trace_id, 42),
        _ => panic!("expected a trace record"),
    }
}

#[test]
fn trace_without_bracket_separator() {
    match StructuredLogItem::from("[42 120ms|db: query ok".to_string()) {
        StructuredLogItem::Raw(_) => {}
        _ => panic!("expected the raw fallback"),
    }
}

#[test]
fn trace_without_space_in_bracket() {
    match StructuredLogItem::from("[42] db: query ok".to_string()) {
        StructuredLogItem::Raw(_) => {}
        _ => panic!("expected the raw fallback"),
    }
}

#[test]
fn trace_without_trivial_tail() {
    match StructuredLogItem::from("[42 1ms] nocolon".to_string()) {
        StructuredLogItem::Raw(_) => {}
        _ => panic!("expected the raw fallback"),
    }
}

#[test]
fn trivial_try_from_direct() {
    let t = TrivialLogItem::try_from("db: query ok").expect("should parse");
    assert_eq!(t.tag, "db");
    assert_eq!(t.content, "query ok");
    assert!(TrivialLogItem::try_from("no separator").is_none());
}

#[test]
fn trace_try_from_direct() {
    let t = TraceLogItem::try_from("[7 3ms] net: sent").expect("should parse");
    assert_eq!(t.trace_id, 7);
    assert_eq!(t.duration, "3ms");
    assert_eq!(t.content.tag, "net");
    assert!(TraceLogItem::try_from("7 3ms] net: sent").is_none());
}

#[test]
fn unsigned_decimal_parsing() {
    assert_eq!(parse_u32_str("42"), Some(42));
    assert_eq!(parse_u32_str("0"), Some(0));
    assert_eq!(parse_u32_str("+0"), Some(0));
    assert_eq!(parse_u32_str("4294967295"), Some(u32::MAX));
    assert_eq!(parse_u32_str("4294967296"), None);
    assert_eq!(parse_u32_str(""), None);
    assert_eq!(parse_u32_str("+"), None);
    assert_eq!(parse_u32_str("1 2"), None);
    assert_eq!(parse_u32_str("-1"), None);
    assert_eq!(parse_u32_str("12a"), None);
    assert_eq!(parse_u32_str("00042"), Some(42));
}

#[test]
fn envelope_from_parts() {
    let item = LogItem::from_parts("log".to_string(), "db: ok".to_string());
    assert_eq!(item.log_type, "log");
    match item.payload {
        StructuredLogItem::Trivial(t) => {
            assert_eq!(t.tag, "db");
            assert_eq!(t.content, "ok");
        }
        _ => panic!("expected a trivial payload"),
    }
}

#[test]
fn parser_agrees_with_standard_library() {
    for s in ["42", "+42", "", "+", "4294967295", "4294967296", "007", "9x"] {
        assert_eq!(parse_u32_str(s), s.parse::<u32>().ok(), "input {:?}", s);
    }
}
