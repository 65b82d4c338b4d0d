use testevents::api::{open_child, open_root};
use testevents::span::QueryAttributes;
use testevents::span_store::SpanStore;

fn attrs(name: &str, ttl: Option<i64>) -> QueryAttributes {
    QueryAttributes { name: String::from(name), ttl, extra: Vec::new() }
}

#[test]
fn reaper_times_out_an_unclosed_root_span() {
    let mut store = SpanStore::new();
    let trace_id = String::from("0000000000000000000000000000000a");
    let span_id = String::from("000000000000000b");
    store.insert_at(trace_id.clone(), span_id.clone(), None, attrs("root", Some(500)), 0);
    // no scan fires while the window is open
    assert_eq!(store.reap_expired_at(400).len(), 0);
    // 600 ms in, the reaper removes it, stamps it, and hands off exactly one span
    let reaped = store.reap_expired_at(600);
    assert_eq!(reaped.len(), 1);
    let sp = &reaped[0];
    assert_eq!(sp.name, "root");
    assert_eq!(sp.status_code, 2);
    assert_eq!(sp.status_message, "testevents timeout: TTL was 500");
    assert_eq!(sp.duration_ms, 600);
    assert_eq!(sp.trace_trace_id, trace_id);
    assert_eq!(sp.trace_span_id, span_id);
    // the span is gone: nothing is reaped or removable a second time
    assert_eq!(store.reap_expired_at(700).len(), 0);
    assert!(store.remove_at(trace_id, span_id, 700).is_none());
}

#[test]
fn explicit_close_between_scan_and_reap_is_not_double_reported() {
    let mut store = SpanStore::new();
    store.insert_at(String::from("t"), String::from("s"), None, attrs("root", Some(500)), 0);
    // a scan lists the span as expired
    let keys = store.expired_keys_at(600);
    assert_eq!(keys.len(), 1);
    // the caller closes it explicitly before the reaper gets to it
    assert!(store.remove_at(String::from("t"), String::from("s"), 600).is_some());
    // the reaper's removal misses silently: no second hand-off
    assert_eq!(store.reap_expired_at(600).len(), 0);
}

#[test]
fn reaper_takes_only_the_expired_spans() {
    let mut store = SpanStore::new();
    store.insert_at(String::from("t"), String::from("s1"), None, attrs("a", Some(100)), 0);
    store.insert_at(String::from("t"), String::from("s2"), None, attrs("b", Some(5000)), 0);
    let reaped = store.reap_expired_at(200);
    assert_eq!(reaped.len(), 1);
    assert_eq!(reaped[0].trace_span_id, "s1");
    // the survivor is untouched and still removable
    let sp = store.remove_at(String::from("t"), String::from("s2"), 300).unwrap();
    assert_eq!(sp.name, "b");
}

#[test]
fn child_span_points_at_its_parent_and_closes_once() {
    let mut store = SpanStore::new();
    let root = open_root(&mut store, 0xa, 0xb, attrs("root", None));
    assert_eq!(root.trace_id, "0000000000000000000000000000000a");
    assert_eq!(root.span_id, "000000000000000b");
    assert_eq!(
        root.traceparent,
        "00-0000000000000000000000000000000a-000000000000000b-01"
    );

    let child = open_child(
        &mut store,
        root.trace_id.clone(),
        root.span_id.clone(),
        0xc,
        attrs("child", None),
    );
    assert_eq!(child.trace_id, root.trace_id);
    assert_eq!(child.span_id, "000000000000000c");
    assert_eq!(
        child.traceparent,
        "00-0000000000000000000000000000000a-000000000000000c-01"
    );

    // the child records the path's span id as its parent
    let closed_child = store.remove(child.trace_id.clone(), child.span_id.clone()).unwrap();
    assert_eq!(closed_child.trace_parent_id, Some(root.span_id.clone()));
    assert_eq!(closed_child.name, "child");

    // then the parent closes; a root span has no parent
    let closed_root = store.remove(root.trace_id.clone(), root.span_id.clone()).unwrap();
    assert_eq!(closed_root.trace_parent_id, None);

    // a further close of either is not found
    assert!(store.remove(child.trace_id, child.span_id).is_none());
    assert!(store.remove(root.trace_id, root.span_id).is_none());
}

#[test]
fn reopened_key_after_reap_is_a_fresh_span() {
    let mut store = SpanStore::new();
    store.insert_at(String::from("t"), String::from("s"), None, attrs("first", Some(10)), 0);
    assert_eq!(store.reap_expired_at(100).len(), 1);
    store.insert_at(String::from("t"), String::from("s"), None, attrs("second", None), 200);
    let sp = store.remove_at(String::from("t"), String::from("s"), 300).unwrap();
    assert_eq!(sp.name, "second");
    assert_eq!(sp.status_code, 0);
    assert_eq!(sp.duration_ms, 100);
}
