use website_stats::agent::{classify_browser, classify_os, parse_browser, parse_os, UserAgentInfo};
use website_stats::api_response::{global_options_handler, ApiResponse, Payload};
use website_stats::config::{AppConfig, LogLevel};
use website_stats::geo::{GeoPolicy, IpInfoResponse};
use website_stats::models::City;
use website_stats::text::{contains, find, trim_end_slashes};

fn info(loc: &str) -> IpInfoResponse {
    IpInfoResponse {
        ip: "8.8.8.8".to_string(),
        city: "Mountain View".to_string(),
        country: "US".to_string(),
        loc: loc.to_string(),
        org: None,
        postal: None,
        timezone: None,
    }
}

#[test]
fn responses_carry_status_and_success() {
    let ok = ApiResponse::success(7);
    assert_eq!(ok.status, 200);
    assert!(ok.success);
    assert!(matches!(ok.payload, Payload::Data(7)));
    let created = ApiResponse::created("id");
    assert_eq!(created.status, 201);
    assert!(created.success);
    let odd = ApiResponse::base(302, 1);
    assert!(!odd.success);
}

#[test]
fn error_responses_carry_the_message() {
    let bad: ApiResponse<()> = ApiResponse::bad_request("Local URLs are not allowed in production");
    assert_eq!(bad.status, 400);
    assert!(!bad.success);
    match bad.payload {
        Payload::Error { message } => assert_eq!(message, "Local URLs are not allowed in production"),
        Payload::Data(_) => panic!("expected an error"),
    }
    let missing: ApiResponse<()> = ApiResponse::not_found("none");
    assert_eq!(missing.status, 404);
    let failed: ApiResponse<()> = ApiResponse::internal_error("boom");
    assert_eq!(failed.status, 500);
    let teapot: ApiResponse<()> = ApiResponse::error(418, "tea");
    assert_eq!(teapot.status, 418);
    assert!(!teapot.success);
    assert_eq!(global_options_handler(), 204);
}

#[test]
fn operating_systems_from_user_agents() {
    assert_eq!(parse_os("Mozilla/5.0 (Windows NT 10.0; Win64; x64)"), "Windows");
    assert_eq!(parse_os("Mozilla/5.0 (Macintosh; Intel Mac OS X 10_15_7)"), "MacOS");
    assert_eq!(parse_os("Mozilla/5.0 (X11; Linux x86_64)"), "Linux");
    assert_eq!(parse_os("Mozilla/5.0 (iPhone; CPU iPhone OS 17_0 like Mac OS X)"), "MacOS");
    assert_eq!(parse_os("Mozilla/5.0 (iPad; CPU OS 17_0)"), "iOS");
    assert_eq!(parse_os("curl/8.0"), "Unknown OS");
    assert_eq!(classify_os("android 14"), "Android");
    assert_eq!(classify_os("ANDROID 14"), "Unknown OS");
}

#[test]
fn browsers_from_user_agents() {
    assert_eq!(parse_browser("Mozilla/5.0 Gecko/20100101 Firefox/120.0"), "Firefox");
    assert_eq!(parse_browser("Mozilla/5.0 AppleWebKit/537.36 Chrome/120.0 Safari/537.36"), "Chrome");
    assert_eq!(parse_browser("Mozilla/5.0 Chromium/120.0 Chrome/120.0"), "Chromium");
    assert_eq!(parse_browser("Mozilla/5.0 AppleWebKit/605.1.15 Version/17.0 Safari/605.1.15"), "Safari");
    assert_eq!(parse_browser("Mozilla/5.0 Edge/18.19045"), "Edge");
    assert_eq!(parse_browser("Opera/9.80"), "Opera");
    assert_eq!(parse_browser("curl/8.0"), "Unknown Browser");
    assert_eq!(classify_browser("FIREFOX"), "Unknown Browser");
}

#[test]
fn user_agent_header_is_required() {
    assert!(UserAgentInfo::from_header(None).is_none());
    let info = UserAgentInfo::from_header(Some("Mozilla/5.0 (Windows NT 10.0) Firefox/120.0")).unwrap();
    assert_eq!(info.os, "Windows");
    assert_eq!(info.browser, "Firefox");
}

#[test]
fn coordinates_need_exactly_one_comma() {
    let (lat, lng) = info("37.3860,-122.0838").coordinate_fields().unwrap();
    assert_eq!(lat, "37.3860");
    assert_eq!(lng, "-122.0838");
    assert!(info("37.3860").coordinate_fields().is_none());
    assert!(info("1,2,3").coordinate_fields().is_none());
    assert_eq!(info(",").coordinate_fields(), Some((String::new(), String::new())));
}

#[test]
fn located_city_without_readable_coordinates_has_none() {
    let located = City::from_geo(&info("x"), None);
    assert_eq!(located.name, "Mountain View");
    assert_eq!(located.country, "US");
    assert_eq!(located.latitude, None);
    assert_eq!(located.longitude, None);
    let placed = City::from_geo(&info("x"), Some((37_386_000, -122_083_800)));
    assert_eq!(placed.latitude, Some(37_386_000));
    assert_eq!(placed.longitude, Some(-122_083_800));
}

#[test]
fn visitor_address_policy() {
    let dev = GeoPolicy::new(true);
    assert_eq!(dev.visitor_ip(Some("1.2.3.4"), true), "215.204.222.212");
    let prod = GeoPolicy::new(false);
    assert_eq!(prod.visitor_ip(Some("1.2.3.4"), true), "1.2.3.4");
    assert_eq!(prod.visitor_ip(Some("nonsense"), false), "66.131.120.255");
    assert_eq!(prod.visitor_ip(Some(""), true), "66.131.120.255");
    assert_eq!(prod.visitor_ip(None, true), "66.131.120.255");
}

#[test]
fn configuration_defaults() {
    let config = AppConfig::from_values(None, None, None);
    assert_eq!(config.address, "127.0.0.1:5775");
    assert_eq!(config.port, 5775);
    assert!(!config.dev);
    let given = AppConfig::from_values(Some("0.0.0.0:80".to_string()), Some(80), Some(true));
    assert_eq!(given.address, "0.0.0.0:80");
    assert_eq!(given.port, 80);
    let state = given.state();
    assert!(state.dev_mode);
    assert_eq!(state.address, "0.0.0.0:80");
    assert_eq!(LogLevel::WARN.label(), "WARN");
    assert_eq!(LogLevel::DEBUG.label(), "DEBUG");
}

#[test]
fn text_helpers() {
    assert_eq!(find("abcabc", "ca"), Some(2));
    assert_eq!(find("abc", "abcd"), None);
    assert_eq!(find("abc", ""), Some(0));
    assert!(contains("hello world", "o w"));
    assert!(!contains("hello", "world"));
    assert_eq!(trim_end_slashes("a///"), "a");
    assert_eq!(trim_end_slashes("///"), "");
    assert_eq!(trim_end_slashes("a/b"), "a/b");
}
