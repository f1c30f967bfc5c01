use url_shortener::error::AppError;
use url_shortener::record::Timestamp;
use url_shortener::service::{base_url_or_default, page_or_fallback, to_responses, AppState};
use url_shortener::{Url, UrlResponse};

fn code_alphabet(c: char) -> bool {
    c.is_ascii_alphanumeric() || c == '_' || c == '-'
}

fn create(state: &mut AppState, url: &str, code: &str, secs: i64, nanos: u32) -> UrlResponse {
    state
        .create_short_url_with(
            url.to_string(),
            code.to_string(),
            format!("id-{}", code),
            Timestamp::new(secs, nanos),
            "http://sho.rt",
        )
        .expect("a valid URL is accepted")
}

#[test]
fn created_code_resolves_to_the_submitted_url() {
    let mut state = AppState::new(String::new());
    let urls = vec!["http://a", "https://b.example/path?q=1#frag", "http://", "https://"];
    let mut codes = Vec::new();
    for url in &urls {
        let response = state
            .create_short_url(url.to_string(), "http://sho.rt")
            .expect("a valid URL is accepted");
        assert_eq!(response.original_url, *url);
        codes.push(response.short_code);
    }
    for (url, code) in urls.iter().zip(codes.iter()) {
        assert_eq!(state.redirect_to_original(code), Ok(url.to_string()));
    }
}

#[test]
fn generated_code_and_id_have_their_lengths_and_alphabet() {
    let mut state = AppState::new(String::new());
    for _ in 0..50 {
        let response = state
            .create_short_url("https://example.com".to_string(), "http://sho.rt")
            .expect("a valid URL is accepted");
        assert_eq!(response.short_code.chars().count(), 6);
        assert!(response.short_code.chars().all(code_alphabet));
        let record = state
            .registry()
            .get(&response.short_code)
            .expect("the record was stored");
        assert_eq!(record.id().chars().count(), 10);
        assert!(record.id().chars().all(code_alphabet));
        assert_eq!(record.short_code(), response.short_code);
        assert_eq!(record.original_url(), "https://example.com");
        assert_eq!(record.access_count(), 0);
        assert_eq!(record.created_at(), response.created_at);
    }
}

#[test]
fn creation_time_is_after_the_year_2020() {
    let mut state = AppState::new(String::new());
    let response = state
        .create_short_url("https://example.com".to_string(), "http://sho.rt")
        .expect("a valid URL is accepted");
    assert!(response.created_at.secs > 1_577_836_800);
    assert!(response.created_at.nanos < 2_000_000_000);
}

#[test]
fn urls_without_the_prefix_are_rejected_and_nothing_is_stored() {
    let mut state = AppState::new(String::new());
    let rejected = vec![
        "",
        "h",
        "http:/",
        "http:/x/",
        "https:/",
        "https:/x/",
        "HTTP://example.com",
        "Https://example.com",
        " http://example.com",
        "ftp://example.com",
        "example.com",
        "//example.com",
        "httpx://example.com",
        "htt\u{70}s//example.com",
    ];
    for url in rejected {
        let random = state.create_short_url(url.to_string(), "http://sho.rt");
        assert_eq!(random, Err(AppError::InvalidUrl));
        let given = state.create_short_url_with(
            url.to_string(),
            "abcdef".to_string(),
            "0123456789".to_string(),
            Timestamp::new(1, 0),
            "http://sho.rt",
        );
        assert_eq!(given, Err(AppError::InvalidUrl));
        assert_eq!(state.total_urls(), 0);
        assert!(state.get_all_urls("http://sho.rt").is_empty());
        assert!(state.registry().get("abcdef").is_none());
    }
}

#[test]
fn resolving_an_unknown_code_fails_and_changes_nothing() {
    let mut state = AppState::new(String::new());
    create(&mut state, "https://example.com", "abc123", 1, 0);
    assert_eq!(state.redirect_to_original("abc124"), Err(AppError::NotFound));
    assert_eq!(state.redirect_to_original(""), Err(AppError::NotFound));
    assert_eq!(state.redirect_to_original("ABC123"), Err(AppError::NotFound));
    assert_eq!(state.total_clicks(), 0);
    assert_eq!(state.total_urls(), 1);
    assert_eq!(state.registry().get("abc123").unwrap().access_count(), 0);
}

#[test]
fn each_resolve_counts_exactly_once() {
    let mut state = AppState::new(String::new());
    create(&mut state, "https://example.com", "abc123", 1, 0);
    create(&mut state, "https://example.org", "xyz789", 2, 0);
    for expected in 1..=25i64 {
        assert_eq!(
            state.redirect_to_original("abc123"),
            Ok("https://example.com".to_string())
        );
        assert_eq!(state.registry().get("abc123").unwrap().access_count(), expected);
        assert_eq!(state.registry().get("xyz789").unwrap().access_count(), 0);
        assert_eq!(state.total_clicks(), expected);
    }
}

#[test]
fn listing_shows_the_newest_record_first() {
    let mut state = AppState::new(String::new());
    create(&mut state, "https://first.example", "first1", 100, 0);
    create(&mut state, "https://second.example", "second", 200, 0);
    let list = state.get_all_urls("http://sho.rt");
    assert_eq!(list.len(), 2);
    assert_eq!(list[0].short_code, "second");
    assert_eq!(list[1].short_code, "first1");
}

#[test]
fn listing_orders_within_one_second_by_nanoseconds() {
    let mut state = AppState::new(String::new());
    create(&mut state, "https://b.example", "bbbbbb", 100, 5);
    create(&mut state, "https://d.example", "dddddd", 101, 0);
    create(&mut state, "https://a.example", "aaaaaa", 100, 4);
    create(&mut state, "https://c.example", "cccccc", 100, 999_999_999);
    create(&mut state, "https://e.example", "eeeeee", -1, 999_999_999);
    let list = state.get_all_urls("http://sho.rt");
    let codes: Vec<&str> = list.iter().map(|r| r.short_code.as_str()).collect();
    assert_eq!(codes, vec!["dddddd", "cccccc", "bbbbbb", "aaaaaa", "eeeeee"]);
}

#[test]
fn listing_of_an_empty_registry_is_empty() {
    let state = AppState::new(String::new());
    assert!(state.get_all_urls("http://sho.rt").is_empty());
    let report = state.get_analytics("http://sho.rt");
    assert_eq!(report.total_urls, 0);
    assert_eq!(report.total_clicks, 0);
    assert!(report.urls.is_empty());
}

#[test]
fn analytics_after_two_creations_and_three_resolves() {
    let mut state = AppState::new(String::new());
    create(&mut state, "https://quiet.example", "quiet1", 1, 0);
    create(&mut state, "https://busy.example", "busy01", 2, 0);
    for _ in 0..3 {
        assert!(state.redirect_to_original("busy01").is_ok());
    }
    let report = state.get_analytics("http://sho.rt");
    assert_eq!(report.total_urls, 2);
    assert_eq!(report.total_clicks, 3);
    assert_eq!(report.urls.len(), 2);
    assert_eq!(report.urls[0].short_code, "busy01");
    assert_eq!(report.urls[0].access_count, 3);
    assert_eq!(report.urls[1].short_code, "quiet1");
    assert_eq!(report.urls[1].access_count, 0);
}

#[test]
fn analytics_orders_by_access_count() {
    let mut state = AppState::new(String::new());
    let visits = vec![("aaaaaa", 2), ("bbbbbb", 7), ("cccccc", 0), ("dddddd", 4), ("eeeeee", 1)];
    for (i, (code, _)) in visits.iter().enumerate() {
        create(&mut state, "https://example.com", code, i as i64, 0);
    }
    for (code, times) in &visits {
        for _ in 0..*times {
            assert!(state.redirect_to_original(code).is_ok());
        }
    }
    let report = state.get_analytics("http://sho.rt");
    let shown: Vec<(&str, i64)> =
        report.urls.iter().map(|r| (r.short_code.as_str(), r.access_count)).collect();
    assert_eq!(
        shown,
        vec![("bbbbbb", 7), ("dddddd", 4), ("aaaaaa", 2), ("eeeeee", 1), ("cccccc", 0)]
    );
    assert_eq!(report.total_urls, 5);
    assert_eq!(report.total_clicks, 14);
    let sum: i64 = report.urls.iter().map(|r| r.access_count).sum();
    assert_eq!(sum, report.total_clicks);
}

#[test]
fn scenario_create_then_three_redirects_then_analytics() {
    let mut state = AppState::new(String::new());
    let response = state
        .create_short_url("https://example.com".to_string(), "http://localhost:3000")
        .expect("a valid URL is accepted");
    assert_eq!(response.short_code.chars().count(), 6);
    assert_eq!(response.access_count, 0);
    for _ in 0..3 {
        assert_eq!(
            state.redirect_to_original(&response.short_code),
            Ok("https://example.com".to_string())
        );
    }
    let report = state.get_analytics("http://localhost:3000");
    assert_eq!(report.total_clicks, 3);
}

#[test]
fn response_shows_the_record_with_its_short_url() {
    let mut state = AppState::new(String::new());
    let response = state
        .create_short_url_with(
            "https://example.com/a".to_string(),
            "Ab_-09".to_string(),
            "0123456789".to_string(),
            Timestamp::new(1_700_000_000, 123_456_789),
            "https://sho.rt:8080",
        )
        .expect("a valid URL is accepted");
    assert_eq!(
        response,
        UrlResponse {
            original_url: "https://example.com/a".to_string(),
            short_code: "Ab_-09".to_string(),
            short_url: "https://sho.rt:8080/Ab_-09".to_string(),
            created_at: Timestamp::new(1_700_000_000, 123_456_789),
            access_count: 0,
        }
    );
    let record = state.registry().get("Ab_-09").expect("the record was stored");
    assert_eq!(record.id(), "0123456789");
}

#[test]
fn short_url_uses_the_base_url_as_it_is_given() {
    let mut state = AppState::new(String::new());
    create(&mut state, "https://example.com", "abc123", 1, 0);
    assert_eq!(state.get_all_urls("")[0].short_url, "/abc123");
    assert_eq!(state.get_all_urls("http://x/")[0].short_url, "http://x//abc123");
    assert_eq!(state.get_analytics("http://y").urls[0].short_url, "http://y/abc123");
}

#[test]
fn creating_under_a_used_code_replaces_the_record() {
    let mut state = AppState::new(String::new());
    create(&mut state, "https://old.example", "same01", 1, 0);
    create(&mut state, "https://other.example", "other1", 2, 0);
    assert!(state.redirect_to_original("same01").is_ok());
    assert!(state.redirect_to_original("same01").is_ok());
    assert!(state.redirect_to_original("other1").is_ok());
    assert_eq!(state.total_clicks(), 3);

    create(&mut state, "https://new.example", "same01", 3, 0);
    assert_eq!(state.total_urls(), 2);
    assert_eq!(state.total_clicks(), 1);
    let record = state.registry().get("same01").expect("the record was stored");
    assert_eq!(record.original_url(), "https://new.example");
    assert_eq!(record.access_count(), 0);
    assert_eq!(record.created_at(), Timestamp::new(3, 0));
    assert_eq!(
        state.redirect_to_original("same01"),
        Ok("https://new.example".to_string())
    );
    assert_eq!(state.total_clicks(), 2);
}

#[test]
fn start_page_is_served_as_given() {
    let state = AppState::new("<html>hello</html>".to_string());
    assert_eq!(state.index_page(), "<html>hello</html>");
    assert_eq!(state.total_urls(), 0);
}

#[test]
fn missing_start_page_falls_back() {
    assert_eq!(page_or_fallback(None), "<h1>Failed to load index.html</h1>");
    assert_eq!(page_or_fallback(Some("<p>x</p>".to_string())), "<p>x</p>");
    assert_eq!(page_or_fallback(Some(String::new())), "");
}

#[test]
fn base_url_defaults_to_localhost() {
    assert_eq!(base_url_or_default(None), "http://localhost:3000");
    assert_eq!(base_url_or_default(Some("https://sho.rt".to_string())), "https://sho.rt");
    assert_eq!(base_url_or_default(Some(String::new())), "");
}

#[test]
fn errors_have_their_status_and_message() {
    assert_eq!(AppError::NotFound.status_code(), 404);
    assert_eq!(AppError::NotFound.message(), "URL not found");
    assert_eq!(AppError::NotFound.description(), "Not found");
    assert_eq!(AppError::NotFound.response_parts(), (404, "URL not found".to_string()));
    assert_eq!(AppError::InvalidUrl.status_code(), 400);
    assert_eq!(AppError::InvalidUrl.message(), "Invalid URL provided");
    assert_eq!(AppError::InvalidUrl.description(), "Invalid URL");
    assert_eq!(
        AppError::InvalidUrl.response_parts(),
        (400, "Invalid URL provided".to_string())
    );
}

#[test]
fn responses_keep_the_order_of_the_records() {
    let records = vec![
        Url::new("id-1".to_string(), "http://one".to_string(), "one".to_string(), Timestamp::new(5, 6)),
        Url::new("id-2".to_string(), "http://two".to_string(), "two".to_string(), Timestamp::new(3, 4)),
    ];
    let responses = to_responses(&records, "http://b");
    assert_eq!(
        responses,
        vec![
            UrlResponse {
                original_url: "http://one".to_string(),
                short_code: "one".to_string(),
                short_url: "http://b/one".to_string(),
                created_at: Timestamp::new(5, 6),
                access_count: 0,
            },
            UrlResponse {
                original_url: "http://two".to_string(),
                short_code: "two".to_string(),
                short_url: "http://b/two".to_string(),
                created_at: Timestamp::new(3, 4),
                access_count: 0,
            },
        ]
    );
    assert!(to_responses(&Vec::new(), "http://b").is_empty());
}
