use logtail::cache::TraceCache;
use logtail::cache::TraceItem;
use logtail::log::TrivialLogItem;
use std::time::Duration;
use std::time::Instant;

fn item(time: u64, duration: &str, tag: &str, content: &str) -> TraceItem {
    TraceItem {
        time,
        duration: duration.to_string(),
        content: TrivialLogItem { tag: tag.to_string(), content: content.to_string() },
    }
}

fn wait_millis(ms: u64) {
    let t0 = Instant::now();
    while t0.elapsed() < Duration::from_millis(ms) {}
}

#[test]
fn insert_then_get() {
    let mut c = TraceCache::new(10, 60_000);
    c.insert(1, item(5, "2ms", "db", "ok"));
    let got = c.get(1).expect("entry should be present");
    assert_eq!(got.time, 5);
    assert_eq!(got.duration, "2ms");
    assert_eq!(got.content.tag, "db");
    assert_eq!(got.content.content, "ok");
    assert!(c.get(2).is_none());
}

#[test]
fn second_insert_wins() {
    let mut c = TraceCache::new(10, 60_000);
    c.insert(1, item(5, "2ms", "db", "first"));
    c.insert(1, item(9, "7ms", "db", "second"));
    let got = c.get(1).expect("entry should be present");
    assert_eq!(got.time, 9);
    assert_eq!(got.duration, "7ms");
    assert_eq!(got.content.content, "second");
}

#[test]
fn idle_entry_expires() {
    let mut c = TraceCache::new(10, 100);
    c.insert(1, item(0, "1ms", "a", "b"));
    wait_millis(500);
    assert!(c.get(1).is_none(), "an idle entry should expire");
}

#[test]
fn access_resets_idle_timer() {
    let mut c = TraceCache::new(10, 800);
    c.insert(1, item(0, "1ms", "a", "b"));
    for _ in 0..6 {
        wait_millis(250);
        assert!(c.get(1).is_some(), "an accessed entry should stay alive");
    }
}

#[test]
fn capacity_is_never_exceeded() {
    let mut c = TraceCache::new(2, 60_000);
    for id in 0..10u32 {
        c.insert(id, item(id as u64, "1ms", "a", "b"));
    }
    assert!(c.settled_entry_count() <= 2, "live entries must stay within capacity");
}
