use website_stats::urls::{is_local_url, normalize_parsed, normalize_url, referrer_domain};

#[test]
fn normalization_drops_query_and_trailing_slash() {
    assert_eq!(normalize_url("https://example.com/page/?utm=1"), "https://example.com/page");
}

#[test]
fn normalization_drops_trailing_slash() {
    assert_eq!(normalize_url("https://example.com/page/"), "https://example.com/page");
}

#[test]
fn normalization_of_a_bare_host() {
    assert_eq!(normalize_url("https://example.com"), "https://example.com");
    assert_eq!(normalize_url("https://example.com/?a=b"), "https://example.com");
}

#[test]
fn text_that_is_no_url_only_loses_trailing_slashes() {
    assert_eq!(normalize_url("not a url//"), "not a url");
    assert_eq!(normalize_url("relative/path?x=1/"), "relative/path?x=1");
}

#[test]
fn normalize_parsed_prefers_the_parsed_form() {
    assert_eq!(normalize_parsed("raw/", Some("https://a.example/b/")), "https://a.example/b");
    assert_eq!(normalize_parsed("raw//", None), "raw");
    assert_eq!(normalize_parsed("", None), "");
}

#[test]
fn local_urls_are_recognised() {
    assert!(is_local_url("http://localhost:3000/x"));
    assert!(is_local_url("http://127.0.0.1/page"));
    assert!(is_local_url("http://0.0.0.0:8080"));
    assert!(is_local_url("http://[::1]:5173/"));
    assert!(!is_local_url("http://example.com"));
    assert!(!is_local_url("https://localhost.example.org"));
}

#[test]
fn referrer_none_or_empty_is_direct() {
    assert_eq!(referrer_domain(None), "direct");
    assert_eq!(referrer_domain(Some("")), "direct");
}

#[test]
fn referrer_loses_its_scheme() {
    assert_eq!(referrer_domain(Some("https://google.com/search")), "google.com/search");
    assert_eq!(referrer_domain(Some("android-app://com.slack")), "com.slack");
}

#[test]
fn referrer_without_scheme_separator_is_kept() {
    assert_eq!(referrer_domain(Some("google.com")), "google.com");
    assert_eq!(referrer_domain(Some("https://")), "https://");
}
