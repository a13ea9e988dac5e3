//! Geolocation of visitors: what the lookup service answers, how its
//! coordinates are read, and which address is looked up.

use vstd::prelude::*;
use vstd::string::StrSliceExecFns;
use crate::models::City;
use crate::text::{find_at_or_after, find_from};

verus! {

/// What the IP lookup service answers for an address.
#[derive(Debug)]
pub struct IpInfoResponse {
    pub ip: String,
    pub city: String,
    pub country: String,
    /// `"<latitude>,<longitude>"`.
    pub loc: String,
    pub org: Option<String>,
    pub postal: Option<String>,
    pub timezone: Option<String>,
}

/// The two comma-separated fields of `loc`, or `None` unless it holds
/// exactly one comma.
pub open spec fn coordinate_fields_spec(loc: Seq<char>) -> Option<(Seq<char>, Seq<char>)> {
    match find_from(loc, ","@, 0) {
        None => None,
        Some(k) => if find_from(loc, ","@, k + 1) is Some {
            None
        } else {
            Some((loc.subrange(0, k), loc.subrange(k + 1, loc.len() as int)))
        },
    }
}

impl IpInfoResponse {
    /// The latitude and longitude texts of `loc` (see `coordinate_fields_spec`);
    /// reading them as numbers is left to the caller.
    pub fn coordinate_fields(&self) -> (r: Option<(String, String)>)
        ensures
            match coordinate_fields_spec(self.loc@) {
                None => r is None,
                Some((a, b)) => r matches Some((x, y)) && x@ == a && y@ == b,
            },
    {
        let loc = self.loc.as_str();
        match find_at_or_after(loc, ",", 0) {
            None => None,
            Some(k) => {
                proof {
                    crate::text::lemma_find_from_bounds(loc@, ","@, 0);
                    reveal_strlit(",");
                }
                let n = loc.unicode_len();
                match find_at_or_after(loc, ",", k + 1) {
                    Some(_) => None,
                    None => Some((loc.substring_char(0, k).to_owned(), loc.substring_char(k + 1, n).to_owned())),
                }
            },
        }
    }
}

impl City {
    /// The city the lookup service placed a visitor in; coordinates that
    /// could not be read are left unknown.
    pub fn from_geo(info: &IpInfoResponse, coordinates: Option<(i32, i32)>) -> (r: City)
        ensures
            r.id is None,
            r.name == info.city,
            r.country == info.country,
            r.latitude == (match coordinates { Some(c) => Some(c.0), None => None }),
            r.longitude == (match coordinates { Some(c) => Some(c.1), None => None }),
            r.created_at is None,
    {
        let (latitude, longitude) = match coordinates {
            Some(c) => (Some(c.0), Some(c.1)),
            None => (None, None),
        };
        City {
            id: None,
            name: info.city.clone(),
            country: info.country.clone(),
            latitude,
            longitude,
            created_at: None,
        }
    }
}

/// Which address is looked up for a visitor: a fixed one in development,
/// else the one the visitor gave if it is a valid address, else a fallback.
#[derive(Debug)]
pub struct GeoPolicy {
    pub override_ip: Option<String>,
    pub fallback_ip: String,
}

impl GeoPolicy {
    /// The policy of a deployment: in development every visitor is placed
    /// at a fixed public address.
    pub fn new(dev_mode: bool) -> (r: GeoPolicy)
        ensures
            dev_mode ==> (r.override_ip matches Some(ip) && ip@ == "215.204.222.212"@),
            !dev_mode ==> r.override_ip is None,
            r.fallback_ip@ == "66.131.120.255"@,
    {
        GeoPolicy {
            override_ip: if dev_mode { Some("215.204.222.212".to_owned()) } else { None },
            fallback_ip: "66.131.120.255".to_owned(),
        }
    }

    /// The address to look up: the override if any; else `requested` when
    /// it is non-empty and `requested_is_valid` says it parses as an IP
    /// address; else the fallback.
    pub fn visitor_ip(&self, requested: Option<&str>, requested_is_valid: bool) -> (r: String)
        ensures
            self.override_ip matches Some(o) ==> r@ == o@,
            self.override_ip is None ==> r@ == (match requested {
                Some(q) => if q@.len() > 0 && requested_is_valid { q@ } else { self.fallback_ip@ },
                None => self.fallback_ip@,
            }),
    {
        match &self.override_ip {
            Some(o) => o.clone(),
            None => match requested {
                Some(q) => if q.unicode_len() > 0 && requested_is_valid {
                    q.to_owned()
                } else {
                    self.fallback_ip.clone()
                },
                None => self.fallback_ip.clone(),
            },
        }
    }
}

} // verus!
