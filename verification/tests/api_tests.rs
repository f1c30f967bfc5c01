use url_shortener::error::AppError;
use url_shortener::service::{base_url_or_default, AppState};

fn is_code_char(c: char) -> bool {
    c.is_ascii_alphanumeric() || c == '_' || c == '-'
}

#[test]
fn test_create_short_url() {
    let mut state = AppState::new(String::new());
    let base_url = base_url_or_default(None);

    let response = state
        .create_short_url("https://www.rust-lang.org".to_string(), &base_url)
        .expect("a valid URL is accepted");

    assert!(!response.short_code.is_empty());
    assert!(!response.short_url.is_empty());
    assert_eq!(response.original_url, "https://www.rust-lang.org");
    assert_eq!(response.short_url, format!("http://localhost:3000/{}", response.short_code));
    assert_eq!(response.short_code.chars().count(), 6);
    assert!(response.short_code.chars().all(is_code_char));
    assert_eq!(response.access_count, 0);

    let target = state.redirect_to_original(&response.short_code);
    assert_eq!(target, Ok("https://www.rust-lang.org".to_string()));
}

#[test]
fn test_analytics() {
    let mut state = AppState::new(String::new());
    let base_url = base_url_or_default(None);

    let response = state
        .create_short_url("https://www.rust-lang.org".to_string(), &base_url)
        .expect("a valid URL is accepted");
    let short_code = response.short_code;

    let target = state.redirect_to_original(&short_code);
    assert!(target.is_ok());

    let report = state.get_analytics(&base_url);
    assert_eq!(report.total_urls, 1);
    assert_eq!(report.total_clicks, 1);
    assert_eq!(report.urls.len(), 1);
    assert_eq!(report.urls[0].short_code, short_code);
    assert_eq!(report.urls[0].access_count, 1);
}

#[test]
fn test_invalid_url() {
    let mut state = AppState::new(String::new());
    let result = state.create_short_url("invalid-url".to_string(), "http://localhost:3000");
    assert_eq!(result, Err(AppError::InvalidUrl));
    assert_eq!(AppError::InvalidUrl.status_code(), 400);
    assert_eq!(state.total_urls(), 0);
}

#[test]
fn test_not_found() {
    let mut state = AppState::new(String::new());
    let result = state.redirect_to_original("nonexistent");
    assert_eq!(result, Err(AppError::NotFound));
    assert_eq!(AppError::NotFound.status_code(), 404);
}
