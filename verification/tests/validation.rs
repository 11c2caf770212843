use url_shortener::codes::{allocate, validate};
use url_shortener::db::UrlDb;
use url_shortener::error::{classify_database_error, contains_str, AppError};
use url_shortener::models::ShortenRequest;
use url_shortener::service::shorten_url;

fn request(url: &str, code: Option<&str>, ttl: Option<i64>) -> ShortenRequest {
    ShortenRequest {
        url: String::from(url),
        code: code.map(String::from),
        ttl,
    }
}

#[test]
fn malformed_url_is_rejected() {
    let r = validate(&request("not-a-url", None, None));
    match r {
        Err(AppError::ValidationError(m)) => assert_eq!(m, "invalid url"),
        _ => panic!("expected a validation error"),
    }
}

#[test]
fn malformed_url_never_reaches_the_store() {
    let mut db = UrlDb::new();
    let r = shorten_url(&mut db, request("not-a-url", None, None), 0);
    assert!(matches!(r, Err(AppError::ValidationError(_))));
    assert_eq!(db.list_urls().unwrap().len(), 0);
}

#[test]
fn short_code_is_rejected() {
    let r = validate(&request("https://example.com", Some("abc"), None));
    match r {
        Err(AppError::ValidationError(m)) => assert_eq!(m, "code too short"),
        _ => panic!("expected a validation error"),
    }
}

#[test]
fn well_formed_requests_pass_validation() {
    assert!(validate(&request("https://example.com", None, None)).is_ok());
    assert!(validate(&request("https://example.com", Some("abcdef"), Some(60))).is_ok());
    // the URL is checked before the code
    let r = validate(&request("not-a-url", Some("abc"), None));
    match r {
        Err(AppError::ValidationError(m)) => assert_eq!(m, "invalid url"),
        _ => panic!("expected a validation error"),
    }
}

#[test]
fn allocate_keeps_a_supplied_code() {
    assert_eq!(allocate(Some(String::from("chosen"))), "chosen");
    let generated = allocate(None);
    assert_eq!(generated.chars().count(), 6);
    assert!(generated
        .chars()
        .all(|c| c.is_ascii_alphanumeric() || c == '_' || c == '-'));
}

#[test]
fn uniqueness_violations_are_told_apart_from_other_failures() {
    let dup = classify_database_error(String::from(
        "error returned from database: UNIQUE constraint failed: urls.short_code",
    ));
    assert!(matches!(dup, AppError::CodeAlreadyExists));
    let other = classify_database_error(String::from("error returned from database: disk full"));
    match other {
        AppError::DatabaseError(m) => {
            assert_eq!(m, "error returned from database: disk full")
        }
        _ => panic!("expected a backend error"),
    }
}

#[test]
fn substring_search_finds_runs() {
    assert!(contains_str("abcdef", "cde"));
    assert!(contains_str("abcdef", ""));
    assert!(contains_str("abcdef", "abcdef"));
    assert!(!contains_str("abcdef", "abcdefg"));
    assert!(!contains_str("abcdef", "xyz"));
    assert!(!contains_str("", "a"));
}

#[test]
fn failures_map_to_status_and_message() {
    assert_eq!(AppError::CodeAlreadyExists.status_code(), 409);
    assert_eq!(AppError::CodeAlreadyExists.message(), "The short_code already taken");
    assert_eq!(AppError::UrlNotFound.status_code(), 404);
    assert_eq!(AppError::UrlNotFound.message(), "Url expired or does not exists");
    let v = AppError::ValidationError(String::from("invalid url"));
    assert_eq!(v.status_code(), 400);
    assert_eq!(v.message(), "Validation Error: invalid url");
    let d = AppError::DatabaseError(String::from("disk full"));
    assert_eq!(d.status_code(), 500);
    assert_eq!(d.message(), "Database Error: disk full");
}
