//! What a visitor's `User-Agent` header says of its operating system and
//! browser.

use vstd::prelude::*;
use crate::text::{contains, contains_seq, lower_of, lowercase};

verus! {

/// Operating system and browser of a visitor.
#[derive(Debug)]
pub struct UserAgentInfo {
    pub os: String,
    pub browser: String,
}

/// The operating system named by a lowercased user agent; the first rule
/// that applies wins.
pub open spec fn os_label(ua: Seq<char>) -> Seq<char> {
    if contains_seq(ua, "windows"@) {
        "Windows"@
    } else if contains_seq(ua, "mac os"@) || contains_seq(ua, "macos"@) {
        "MacOS"@
    } else if contains_seq(ua, "linux"@) {
        "Linux"@
    } else if contains_seq(ua, "android"@) {
        "Android"@
    } else if contains_seq(ua, "iphone"@) || contains_seq(ua, "ipad"@) {
        "iOS"@
    } else {
        "Unknown OS"@
    }
}

/// The browser named by a lowercased user agent; the first rule that
/// applies wins.
pub open spec fn browser_label(ua: Seq<char>) -> Seq<char> {
    if contains_seq(ua, "firefox"@) {
        "Firefox"@
    } else if contains_seq(ua, "chrome"@) && !contains_seq(ua, "chromium"@) {
        "Chrome"@
    } else if contains_seq(ua, "chromium"@) {
        "Chromium"@
    } else if contains_seq(ua, "safari"@) && !contains_seq(ua, "chrome"@) {
        "Safari"@
    } else if contains_seq(ua, "edge"@) {
        "Edge"@
    } else if contains_seq(ua, "opera"@) {
        "Opera"@
    } else {
        "Unknown Browser"@
    }
}

/// The operating system named by an already lowercased user agent.
pub fn classify_os(lower: &str) -> (r: String)
    ensures
        r@ == os_label(lower@),
{
    if contains(lower, "windows") {
        "Windows".to_owned()
    } else if contains(lower, "mac os") || contains(lower, "macos") {
        "MacOS".to_owned()
    } else if contains(lower, "linux") {
        "Linux".to_owned()
    } else if contains(lower, "android") {
        "Android".to_owned()
    } else if contains(lower, "iphone") || contains(lower, "ipad") {
        "iOS".to_owned()
    } else {
        "Unknown OS".to_owned()
    }
}

/// The browser named by an already lowercased user agent.
pub fn classify_browser(lower: &str) -> (r: String)
    ensures
        r@ == browser_label(lower@),
{
    if contains(lower, "firefox") {
        "Firefox".to_owned()
    } else if contains(lower, "chrome") && !contains(lower, "chromium") {
        "Chrome".to_owned()
    } else if contains(lower, "chromium") {
        "Chromium".to_owned()
    } else if contains(lower, "safari") && !contains(lower, "chrome") {
        "Safari".to_owned()
    } else if contains(lower, "edge") {
        "Edge".to_owned()
    } else if contains(lower, "opera") {
        "Opera".to_owned()
    } else {
        "Unknown Browser".to_owned()
    }
}

/// The operating system a user agent names, ignoring case.
pub fn parse_os(user_agent: &str) -> (r: String)
    ensures
        r@ == os_label(lower_of(user_agent@)),
{
    let lower = lowercase(user_agent);
    classify_os(lower.as_str())
}

/// The browser a user agent names, ignoring case.
pub fn parse_browser(user_agent: &str) -> (r: String)
    ensures
        r@ == browser_label(lower_of(user_agent@)),
{
    let lower = lowercase(user_agent);
    classify_browser(lower.as_str())
}

impl UserAgentInfo {
    /// Reads the `User-Agent` header; a request without one gets `None`
    /// (answered with `400 Bad Request`).
    pub fn from_header(user_agent: Option<&str>) -> (r: Option<UserAgentInfo>)
        ensures
            user_agent is None ==> r is None,
            user_agent matches Some(ua) ==> r matches Some(info) && info.os@ == os_label(lower_of(ua@))
                && info.browser@ == browser_label(lower_of(ua@)),
    {
        match user_agent {
            Some(ua) => Some(UserAgentInfo { os: parse_os(ua), browser: parse_browser(ua) }),
            None => None,
        }
    }
}

} // verus!
