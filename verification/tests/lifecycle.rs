use url_shortener::db::UrlDb;
use url_shortener::error::AppError;
use url_shortener::models::ShortenRequest;
use url_shortener::service::{redirect_url, remove_url, shorten_url};

fn request(url: &str, code: Option<&str>, ttl: Option<i64>) -> ShortenRequest {
    ShortenRequest {
        url: String::from(url),
        code: code.map(String::from),
        ttl,
    }
}

fn is_url_safe(c: char) -> bool {
    c.is_ascii_alphanumeric() || c == '_' || c == '-'
}

#[test]
fn generated_code_is_six_url_safe_chars() {
    let mut db = UrlDb::new();
    let code = db
        .create_url(request("https://example.com", None, None), 1000)
        .unwrap();
    assert_eq!(code.chars().count(), 6);
    assert!(code.chars().all(is_url_safe));
}

#[test]
fn explicit_code_is_used_verbatim() {
    let mut db = UrlDb::new();
    let code = db
        .create_url(request("https://example.com", Some("mycode"), None), 1000)
        .unwrap();
    assert_eq!(code, "mycode");
}

#[test]
fn duplicate_explicit_code_fails_once() {
    let mut db = UrlDb::new();
    let first = db.create_url(request("https://a.example", Some("abcdef"), None), 10);
    let second = db.create_url(request("https://b.example", Some("abcdef"), None), 20);
    assert!(first.is_ok());
    assert!(matches!(second, Err(AppError::CodeAlreadyExists)));
    // the losing create changed nothing: the stored target is the first one
    let row = db.get_url(&String::from("abcdef")).unwrap();
    assert_eq!(row.original_url, "https://a.example");
    assert_eq!(db.list_urls().unwrap().len(), 1);
}

#[test]
fn no_ttl_never_expires() {
    let mut db = UrlDb::new();
    let code = String::from("stable");
    db.create_url(request("https://example.com", Some("stable"), None), 0)
        .unwrap();
    assert_eq!(redirect_url(&mut db, &code, 0).unwrap(), "https://example.com");
    assert_eq!(
        redirect_url(&mut db, &code, i64::MAX).unwrap(),
        "https://example.com"
    );
}

#[test]
fn expired_mapping_resolves_to_not_found_and_is_reclaimed() {
    let mut db = UrlDb::new();
    let code = String::from("gone99");
    db.create_url(request("https://example.com", Some("gone99"), Some(5)), 100)
        .unwrap();
    let r = redirect_url(&mut db, &code, 200);
    assert!(matches!(r, Err(AppError::UrlNotFound)));
    // lazy reclamation: the row no longer shows up anywhere
    assert!(matches!(db.get_url(&code), Err(AppError::UrlNotFound)));
    assert_eq!(db.list_urls().unwrap().len(), 0);
    // a second resolve still reports it absent
    assert!(matches!(
        redirect_url(&mut db, &code, 200),
        Err(AppError::UrlNotFound)
    ));
}

#[test]
fn expiration_is_strict() {
    // a mapping is live up to and including its expiration instant
    let mut db = UrlDb::new();
    let code = String::from("edge42");
    db.create_url(request("https://example.com", Some("edge42"), Some(1)), 1000)
        .unwrap();
    assert!(redirect_url(&mut db, &code, 1001).is_ok());
    assert!(matches!(
        redirect_url(&mut db, &code, 1002),
        Err(AppError::UrlNotFound)
    ));
}

#[test]
fn each_resolve_counts_one_visit() {
    let mut db = UrlDb::new();
    let code = String::from("counts");
    db.create_url(request("https://example.com", Some("counts"), None), 0)
        .unwrap();
    assert_eq!(db.get_url(&code).unwrap().visits, 0);
    for _ in 0..3 {
        redirect_url(&mut db, &code, 50).unwrap();
    }
    assert_eq!(db.get_url(&code).unwrap().visits, 3);
}

#[test]
fn stats_ignore_expiration_and_count_nothing() {
    // stats stay readable on an expired-but-present row and do not
    // change the counter
    let mut db = UrlDb::new();
    let code = String::from("peeked");
    db.create_url(request("https://example.com", Some("peeked"), Some(1)), 100)
        .unwrap();
    let row = db.get_url(&code).unwrap();
    assert_eq!(row.created_at, 100);
    assert_eq!(row.expires_at, Some(101));
    assert_eq!(row.visits, 0);
    let again = db.get_url(&code).unwrap();
    assert_eq!(again.visits, 0);
}

#[test]
fn delete_is_idempotent_and_final() {
    let mut db = UrlDb::new();
    let code = String::from("victim");
    assert_eq!(db.delete_url(&code).unwrap(), false);
    assert!(matches!(remove_url(&mut db, &code), Err(AppError::UrlNotFound)));
    db.create_url(request("https://example.com", Some("victim"), None), 0)
        .unwrap();
    assert_eq!(db.delete_url(&code).unwrap(), true);
    assert!(matches!(db.get_url(&code), Err(AppError::UrlNotFound)));
    assert!(matches!(
        redirect_url(&mut db, &code, 0),
        Err(AppError::UrlNotFound)
    ));
}

#[test]
fn remove_url_deletes_existing_rows() {
    let mut db = UrlDb::new();
    let code = String::from("doomed");
    db.create_url(request("https://example.com", Some("doomed"), None), 0)
        .unwrap();
    assert!(remove_url(&mut db, &code).is_ok());
    assert_eq!(db.list_urls().unwrap().len(), 0);
}

#[test]
fn short_lived_mapping_round_trip() {
    let mut db = UrlDb::new();
    let resp = shorten_url(&mut db, request("https://example.com", None, Some(1)), 1000).unwrap();
    let code = resp.short_code.clone();
    assert_eq!(
        redirect_url(&mut db, &code, 1000).unwrap(),
        "https://example.com"
    );
    assert!(matches!(
        redirect_url(&mut db, &code, 1002),
        Err(AppError::UrlNotFound)
    ));
}

#[test]
fn shorten_builds_the_short_url() {
    let mut db = UrlDb::new();
    let resp = shorten_url(
        &mut db,
        request("https://example.com", Some("abc123"), None),
        0,
    )
    .unwrap();
    assert_eq!(resp.short_code, "abc123");
    assert_eq!(resp.short_url, "http://localhost:3000/abc123");
}

#[test]
fn shorten_rejects_duplicates_without_touching_the_store() {
    let mut db = UrlDb::new();
    shorten_url(&mut db, request("https://a.example", Some("unique"), None), 0).unwrap();
    let second = shorten_url(&mut db, request("https://b.example", Some("unique"), None), 0);
    assert!(matches!(second, Err(AppError::CodeAlreadyExists)));
    assert_eq!(db.list_urls().unwrap().len(), 1);
}

#[test]
fn list_keeps_insertion_order() {
    let mut db = UrlDb::new();
    db.create_url(request("https://a.example", Some("first1"), None), 1)
        .unwrap();
    db.create_url(request("https://b.example", Some("second"), Some(9)), 2)
        .unwrap();
    let rows = db.list_urls().unwrap();
    assert_eq!(rows.len(), 2);
    assert_eq!(rows[0].short_code, "first1");
    assert_eq!(rows[0].original_url, "https://a.example");
    assert_eq!(rows[0].expires_at, None);
    assert_eq!(rows[1].short_code, "second");
    assert_eq!(rows[1].created_at, 2);
    assert_eq!(rows[1].expires_at, Some(11));
}
