use url_shortener::error::AppError;
use url_shortener::record::Timestamp;
use url_shortener::{Registry, Url};

fn record(code: &str, url: &str) -> Url {
    Url::new(format!("id-{}", code), url.to_string(), code.to_string(), Timestamp::new(7, 8))
}

#[test]
fn new_registry_is_empty() {
    let registry = Registry::new();
    assert_eq!(registry.count(), 0);
    assert_eq!(registry.sum_access_counts(), 0);
    assert!(registry.list_all().is_empty());
    assert!(registry.get("abc123").is_none());
}

#[test]
fn inserted_record_is_found_under_its_code() {
    let mut registry = Registry::new();
    registry.insert(record("abc123", "https://example.com"));
    let found = registry.get("abc123").expect("the record was stored");
    assert_eq!(found.id(), "id-abc123");
    assert_eq!(found.original_url(), "https://example.com");
    assert_eq!(found.short_code(), "abc123");
    assert_eq!(found.created_at(), Timestamp::new(7, 8));
    assert_eq!(found.access_count(), 0);
    assert!(registry.get("abc12").is_none());
    assert!(registry.get("abc1234").is_none());
    assert_eq!(registry.count(), 1);
}

#[test]
fn get_does_not_count_an_access() {
    let mut registry = Registry::new();
    registry.insert(record("abc123", "https://example.com"));
    for _ in 0..3 {
        assert_eq!(registry.get("abc123").unwrap().access_count(), 0);
    }
    assert_eq!(registry.sum_access_counts(), 0);
}

#[test]
fn get_and_increment_returns_the_record_after_the_count() {
    let mut registry = Registry::new();
    registry.insert(record("abc123", "https://example.com"));
    let first = registry.get_and_increment("abc123").expect("the code is known");
    assert_eq!(first.access_count(), 1);
    assert_eq!(first.original_url(), "https://example.com");
    assert_eq!(first.id(), "id-abc123");
    let second = registry.get_and_increment("abc123").expect("the code is known");
    assert_eq!(second.access_count(), 2);
    assert_eq!(registry.get("abc123").unwrap().access_count(), 2);
    assert_eq!(registry.sum_access_counts(), 2);
    assert_eq!(registry.count(), 1);
}

#[test]
fn get_and_increment_of_an_unknown_code_is_not_found() {
    let mut registry = Registry::new();
    assert_eq!(registry.get_and_increment("abc123").err(), Some(AppError::NotFound));
    registry.insert(record("abc123", "https://example.com"));
    assert_eq!(registry.get_and_increment("abc12").err(), Some(AppError::NotFound));
    assert_eq!(registry.sum_access_counts(), 0);
    assert_eq!(registry.count(), 1);
}

#[test]
fn list_all_holds_every_record_once() {
    let mut registry = Registry::new();
    let codes = vec!["a", "b", "c", "d", "e", "f", "g", "h"];
    for code in &codes {
        registry.insert(record(code, "https://example.com"));
    }
    registry.get_and_increment("c").expect("the code is known");
    let mut listed: Vec<(String, i64)> = registry
        .list_all()
        .iter()
        .map(|r| (r.short_code().to_string(), r.access_count()))
        .collect();
    listed.sort();
    let expected: Vec<(String, i64)> = codes
        .iter()
        .map(|code| (code.to_string(), if *code == "c" { 1 } else { 0 }))
        .collect();
    assert_eq!(listed, expected);
    assert_eq!(registry.count(), 8);
}

#[test]
fn inserting_a_counted_record_adds_its_count() {
    let mut source = Registry::new();
    source.insert(record("abc123", "https://example.com"));
    source.get_and_increment("abc123").expect("the code is known");
    let counted = source.get_and_increment("abc123").expect("the code is known");
    assert_eq!(counted.access_count(), 2);

    let mut registry = Registry::new();
    registry.insert(record("xyz789", "https://example.org"));
    registry.get_and_increment("xyz789").expect("the code is known");
    registry.insert(counted);
    assert_eq!(registry.sum_access_counts(), 3);
    assert_eq!(registry.count(), 2);

    registry.insert(record("abc123", "https://example.net"));
    assert_eq!(registry.sum_access_counts(), 1);
    assert_eq!(registry.count(), 2);
    assert_eq!(registry.get("abc123").unwrap().original_url(), "https://example.net");
}

#[test]
fn visited_raises_the_count_by_one() {
    let fresh = record("abc123", "https://example.com");
    assert_eq!(fresh.access_count(), 0);
    let once = fresh.clone().visited();
    assert_eq!(once.access_count(), 1);
    assert_eq!(once.short_code(), "abc123");
    assert_eq!(once.original_url(), "https://example.com");
    assert_eq!(once.id(), "id-abc123");
    assert_eq!(once.created_at(), Timestamp::new(7, 8));
    assert_eq!(fresh.access_count(), 0);
}

#[test]
fn timestamps_order_by_second_then_nanosecond() {
    let early = Timestamp::new(10, 999_999_999);
    let late = Timestamp::new(11, 0);
    assert!(late.not_before(&early));
    assert!(!early.not_before(&late));
    assert!(early.not_before(&early));
    assert!(Timestamp::new(10, 1).not_before(&Timestamp::new(10, 0)));
    assert!(!Timestamp::new(10, 0).not_before(&Timestamp::new(10, 1)));
    assert!(Timestamp::new(0, 0).not_before(&Timestamp::new(-1, u32::MAX)));
    assert!(!Timestamp::new(i64::MIN, u32::MAX).not_before(&Timestamp::new(i64::MAX, 0)));
    assert!(Timestamp::new(i64::MAX, 0).not_before(&Timestamp::new(i64::MIN, u32::MAX)));
}
