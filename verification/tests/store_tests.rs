use testevents::attrs::AttrValue;
use testevents::span::QueryAttributes;
use testevents::span_store::SpanStore;

fn attrs(name: &str, ttl: Option<i64>) -> QueryAttributes {
    QueryAttributes { name: String::from(name), ttl, extra: Vec::new() }
}

/// All keys of the store, observed through an expiry scan far in the future
/// (the default window is 10 seconds, so everything has expired by then).
fn all_keys(store: &SpanStore) -> Vec<(String, String)> {
    store.expired_keys_at(i64::MAX)
}

#[test]
fn insert_distinct_keys_grows_store() {
    let mut store = SpanStore::new();
    store.insert_at(String::from("t1"), String::from("s1"), None, attrs("a", None), 0);
    store.insert_at(String::from("t1"), String::from("s2"), None, attrs("b", None), 0);
    store.insert_at(String::from("t2"), String::from("s1"), None, attrs("c", None), 0);
    assert_eq!(all_keys(&store).len(), 3);
}

#[test]
fn insert_duplicate_key_overwrites() {
    let mut store = SpanStore::new();
    store.insert_at(String::from("t"), String::from("s"), None, attrs("first", None), 0);
    store.insert_at(String::from("t"), String::from("s"), None, attrs("second", None), 5);
    assert_eq!(all_keys(&store).len(), 1);
    let sp = store.remove_at(String::from("t"), String::from("s"), 10).unwrap();
    assert_eq!(sp.name, "second");
    assert_eq!(sp.timestamp, 5);
}

#[test]
fn remove_succeeds_exactly_once() {
    let mut store = SpanStore::new();
    store.insert_at(String::from("t"), String::from("s"), None, attrs("x", None), 0);
    assert!(store.remove_at(String::from("t"), String::from("s"), 1).is_some());
    assert!(store.remove_at(String::from("t"), String::from("s"), 2).is_none());
}

#[test]
fn remove_unknown_key_is_not_found() {
    let mut store = SpanStore::new();
    assert!(store.remove_at(String::from("t"), String::from("s"), 1).is_none());
}

#[test]
fn update_unknown_key_is_not_found() {
    let mut store = SpanStore::new();
    let merge = vec![(String::from("name"), AttrValue::Str(String::from("y")))];
    assert!(!store.update_at(String::from("t"), String::from("s"), merge, 1));
}

#[test]
fn duration_is_nonnegative_and_grows() {
    let mut store = SpanStore::new();
    store.insert_at(String::from("t"), String::from("s1"), None, attrs("a", None), 1000);
    store.insert_at(String::from("t"), String::from("s2"), None, attrs("b", None), 1000);
    let early = store.remove_at(String::from("t"), String::from("s1"), 1500).unwrap();
    let late = store.remove_at(String::from("t"), String::from("s2"), 2500).unwrap();
    assert_eq!(early.duration_ms, 500);
    assert_eq!(late.duration_ms, 1500);
    assert!(early.duration_ms >= 0);
    assert!(late.duration_ms > early.duration_ms);
}

#[test]
fn duration_clamps_when_clock_steps_back() {
    let mut store = SpanStore::new();
    store.insert_at(String::from("t"), String::from("s"), None, attrs("a", None), 1000);
    // a clock reading before the span's start never yields a negative duration
    let sp = store.remove_at(String::from("t"), String::from("s"), 200).unwrap();
    assert_eq!(sp.duration_ms, 0);
}

#[test]
fn ttl_rebases_from_update_time() {
    let mut store = SpanStore::new();
    store.insert_at(String::from("t"), String::from("s"), None, attrs("a", Some(1000)), 0);
    let merge = vec![(String::from("ttl"), AttrValue::Int(500))];
    assert!(store.update_at(String::from("t"), String::from("s"), merge, 200));
    // the span now expires once the clock passes 700: not at 500, not at 700,
    // and well before 1200
    assert_eq!(store.expired_keys_at(500).len(), 0);
    assert_eq!(store.expired_keys_at(700).len(), 0);
    assert_eq!(store.expired_keys_at(701).len(), 1);
    assert_eq!(store.expired_keys_at(1200).len(), 1);
}

#[test]
fn merge_degrades_wrongly_typed_reserved_fields() {
    let mut store = SpanStore::new();
    store.insert_at(String::from("t"), String::from("s"), None, attrs("a", None), 0);
    let merge = vec![
        (String::from("status_code"), AttrValue::Str(String::from("not a number"))),
        (String::from("name"), AttrValue::Int(7)),
        (String::from("status_message"), AttrValue::Str(String::from("fine"))),
    ];
    assert!(store.update_at(String::from("t"), String::from("s"), merge, 1));
    let sp = store.remove_at(String::from("t"), String::from("s"), 2).unwrap();
    assert_eq!(sp.status_code, 0);
    assert_eq!(sp.name, "");
    assert_eq!(sp.status_message, "fine");
}

#[test]
fn merge_routes_open_attributes_verbatim() {
    let mut store = SpanStore::new();
    store.insert_at(String::from("t"), String::from("s"), None, attrs("a", None), 0);
    let merge = vec![
        (String::from("service"), AttrValue::Str(String::from("checkout"))),
        (String::from("retries"), AttrValue::Int(3)),
    ];
    assert!(store.update_at(String::from("t"), String::from("s"), merge, 1));
    let merge2 = vec![(String::from("retries"), AttrValue::Int(4))];
    assert!(store.update_at(String::from("t"), String::from("s"), merge2, 2));
    let sp = store.remove_at(String::from("t"), String::from("s"), 3).unwrap();
    assert_eq!(sp.extra.len(), 2);
    assert!(sp.extra.contains(&(String::from("service"), AttrValue::Str(String::from("checkout")))));
    assert!(sp.extra.contains(&(String::from("retries"), AttrValue::Int(4))));
}

#[test]
fn ttl_update_saturates_at_the_i64_bound() {
    let mut store = SpanStore::new();
    store.insert_at(String::from("t"), String::from("s"), None, attrs("a", None), 0);
    let merge = vec![(String::from("ttl"), AttrValue::Int(i64::MAX))];
    assert!(store.update_at(String::from("t"), String::from("s"), merge, 100));
    let sp = store.remove_at(String::from("t"), String::from("s"), 200).unwrap();
    assert_eq!(sp.ttl, i64::MAX);
}

#[test]
fn default_ttl_is_ten_seconds() {
    let mut store = SpanStore::new();
    store.insert_at(String::from("t"), String::from("s"), None, attrs("a", None), 0);
    assert_eq!(store.expired_keys_at(10000).len(), 0);
    assert_eq!(store.expired_keys_at(10001).len(), 1);
}

#[test]
fn scan_does_not_mutate() {
    let mut store = SpanStore::new();
    store.insert_at(String::from("t"), String::from("s"), None, attrs("a", Some(5)), 0);
    assert_eq!(store.expired_keys_at(100).len(), 1);
    assert_eq!(store.expired_keys_at(100).len(), 1);
    assert!(store.remove_at(String::from("t"), String::from("s"), 100).is_some());
}

#[test]
fn clockless_operations_round_trip() {
    let mut store = SpanStore::new();
    store.insert(String::from("t"), String::from("s"), None, attrs("a", None));
    let merge = vec![(String::from("k"), AttrValue::Bool(true))];
    assert!(store.update(String::from("t"), String::from("s"), merge));
    let sp = store.remove(String::from("t"), String::from("s")).unwrap();
    assert!(sp.duration_ms >= 0);
    assert!(sp.extra.contains(&(String::from("k"), AttrValue::Bool(true))));
    assert!(store.remove(String::from("t"), String::from("s")).is_none());
}

#[test]
fn clockless_scan_sees_immediately_expired_span() {
    let mut store = SpanStore::new();
    store.insert(String::from("t"), String::from("s"), None, attrs("a", Some(-1)));
    let keys = store.get_expired_keys();
    assert_eq!(keys.len(), 1);
    assert_eq!(keys[0], (String::from("t"), String::from("s")));
}
