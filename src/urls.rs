//! Page URLs and referrers: which URLs are local, how a tracked URL is
//! normalised, and which domain a referrer is counted under.

use vstd::prelude::*;
use vstd::string::StrSliceExecFns;
use crate::text::{contains_seq, find, find_from, trim_end_char, trim_end_slashes};

verus! {

/// URLs that point at the local machine, with an optional port.
pub const LOCAL_URL_PATTERN: &'static str = "http://(127\\.0\\.0\\.1|localhost|0\\.0\\.0\\.0|\\[::1\\])(:\\d+)?";

/// Whether the regular expression `pattern` matches somewhere in `text`, or
/// `None` where `pattern` is not a valid expression.
pub uninterp spec fn regex_finds(pattern: Seq<char>, text: Seq<char>) -> Option<bool>;

/// `url` contains `http://` directly followed by `127.0.0.1`, `localhost`,
/// `0.0.0.0` or `[::1]`: what `LOCAL_URL_PATTERN` matches, since its port
/// part is optional.
pub open spec fn names_local_host(url: Seq<char>) -> bool {
    contains_seq(url, "http://127.0.0.1"@) || contains_seq(url, "http://localhost"@) || contains_seq(
        url,
        "http://0.0.0.0"@,
    ) || contains_seq(url, "http://[::1]"@)
}

/// Relies on `regex::Regex::new` to compile `pattern` (an error for an invalid
/// one) and `Regex::is_match` to say whether it matches anywhere in `text`.
/// `LOCAL_URL_PATTERN` is a valid expression of literals, an alternation and
/// an optional group, which matches exactly the texts of `names_local_host`.
#[verifier::external_body]
fn regex_is_match(pattern: &str, text: &str) -> (r: Option<bool>)
    ensures
        r == regex_finds(pattern@, text@),
        pattern@ == LOCAL_URL_PATTERN@ ==> r == Some(names_local_host(text@)),
{
    match regex::Regex::new(pattern) {
        Ok(re) => Some(re.is_match(text)),
        Err(_) => None,
    }
}

/// The serialisation of `s` parsed as an absolute URL with its query removed,
/// or `None` where `s` does not parse.
pub uninterp spec fn url_without_query(s: Seq<char>) -> Option<Seq<char>>;

/// Relies on `url::Url::parse` (an error for what is no absolute URL),
/// `Url::set_query(None)` to drop the query and `Url::as_str` for the text.
#[verifier::external_body]
fn parse_without_query(raw: &str) -> (r: Option<String>)
    ensures
        r matches Some(u) ==> url_without_query(raw@) == Some(u@),
        r is None ==> url_without_query(raw@) is None,
{
    match url::Url::parse(raw) {
        Ok(mut u) => {
            u.set_query(None);
            Some(u.as_str().to_string())
        },
        Err(_) => None,
    }
}

/// A URL is refused as local when it names the local machine.
pub open spec fn is_local_spec(url: Seq<char>) -> bool {
    names_local_host(url)
}

/// Whether `url` points at the local machine (loopback address or
/// `localhost`); such events are not recorded.
pub fn is_local_url(url: &str) -> (r: bool)
    ensures
        r == is_local_spec(url@),
{
    match regex_is_match(LOCAL_URL_PATTERN, url) {
        Some(found) => found,
        None => true,
    }
}

/// Normalisation given the parse result: the parsed URL without its query
/// if there is one, else the raw text, in both cases without trailing `/`.
pub open spec fn normalized_from(raw: Seq<char>, parsed: Option<Seq<char>>) -> Seq<char> {
    match parsed {
        Some(p) => trim_end_char(p, '/'),
        None => trim_end_char(raw, '/'),
    }
}

/// The normalised form of a tracked URL.
pub open spec fn normalized_url(raw: Seq<char>) -> Seq<char> {
    normalized_from(raw, url_without_query(raw))
}

/// Finishes normalisation once the URL parser has spoken: `parsed` is the
/// URL without its query, or `None` where `raw` did not parse.
pub fn normalize_parsed(raw: &str, parsed: Option<&str>) -> (r: String)
    ensures
        r@ == normalized_from(raw@, match parsed { Some(p) => Some(p@), None => None }),
{
    match parsed {
        Some(p) => trim_end_slashes(p),
        None => trim_end_slashes(raw),
    }
}

/// Strips the query string and any trailing `/` from a tracked URL; text that
/// is no URL only loses its trailing `/`.
pub fn normalize_url(raw: &str) -> (r: String)
    ensures
        r@ == normalized_url(raw@),
{
    let parsed = parse_without_query(raw);
    match parsed {
        Some(p) => normalize_parsed(raw, Some(p.as_str())),
        None => normalize_parsed(raw, None),
    }
}

/// The domain a referrer is counted under: `direct` for none or an empty
/// one, else the text after the first `//`, or the whole referrer where
/// there is no `//` or nothing follows it.
pub open spec fn referrer_domain_spec(referrer: Option<Seq<char>>) -> Seq<char> {
    match referrer {
        None => "direct"@,
        Some(s) => if s.len() == 0 {
            "direct"@
        } else {
            match find_from(s, "//"@, 0) {
                None => s,
                Some(k) => if k + 2 >= s.len() {
                    s
                } else {
                    s.subrange(k + 2, s.len() as int)
                },
            }
        },
    }
}

/// The domain a referrer is counted under (see `referrer_domain_spec`).
pub fn referrer_domain(referrer: Option<&str>) -> (r: String)
    ensures
        r@ == referrer_domain_spec(match referrer { Some(s) => Some(s@), None => None }),
{
    match referrer {
        None => "direct".to_owned(),
        Some(s) => {
            let n = s.unicode_len();
            if n == 0 {
                "direct".to_owned()
            } else {
                match find(s, "//") {
                    None => s.to_owned(),
                    Some(k) => {
                        proof {
                            crate::text::lemma_find_from_bounds(s@, "//"@, 0);
                            reveal_strlit("//");
                        }
                        if k + 2 >= n {
                            s.to_owned()
                        } else {
                            s.substring_char(k + 2, n).to_owned()
                        }
                    },
                }
            }
        },
    }
}

} // verus!
