//! The rows the registries hold: cities, sessions (collectors) and events,
//! and the requests that create them. Times are seconds since the Unix epoch
//! (UTC); coordinates are in millionths of a degree.

use vstd::prelude::*;

verus! {

/// A place visitors come from; `(name, country)` is stored lowercased and is
/// unique among stored cities.
#[derive(Debug)]
pub struct City {
    pub id: Option<i32>,
    pub name: String,
    pub country: String,
    pub latitude: Option<i32>,
    pub longitude: Option<i32>,
    pub created_at: Option<i64>,
}

/// The name and country a client reports for a city.
#[derive(Debug)]
pub struct CityQuery {
    pub name: String,
    pub country: String,
}

/// One visitor's browsing instance.
#[derive(Debug)]
pub struct Collector {
    pub id: String,
    pub origin: String,
    pub city_id: i32,
    pub os: Option<String>,
    pub browser: Option<String>,
    pub created_at: Option<i64>,
}

/// What is known of a visitor when its session is created.
#[derive(Debug)]
pub struct CollectorQuery {
    pub origin: String,
    pub city_id: i32,
    pub os: Option<String>,
    pub browser: Option<String>,
}

/// One recorded visitor action.
#[derive(Debug)]
pub struct Event {
    pub id: String,
    pub url: String,
    pub referrer: Option<String>,
    pub name: String,
    pub created_at: i64,
    pub collector_id: String,
}

/// A client's report of an action, before validation and normalisation.
#[derive(Debug)]
pub struct EventQuery {
    pub url: String,
    pub referrer: Option<String>,
    pub name: String,
    pub collector_id: String,
}

/// A client's report of an action that carries no referrer.
#[derive(Debug)]
pub struct EventRequest {
    pub url: String,
    pub name: String,
    pub collector_id: String,
}

/// A session with its most recent events.
#[derive(Debug)]
pub struct CollectorWithEvents {
    pub collector: Collector,
    pub events: Vec<Event>,
}

pub(crate) fn copy_opt_string(s: &Option<String>) -> (r: Option<String>)
    ensures
        r == *s,
{
    match s {
        Some(v) => Some(v.clone()),
        None => None,
    }
}

impl City {
    /// A city as a client names it, before it is stored.
    pub fn from_query(query: CityQuery) -> (r: City)
        ensures
            r.id is None,
            r.name == query.name,
            r.country == query.country,
            r.latitude is None,
            r.longitude is None,
            r.created_at is None,
    {
        City {
            id: None,
            name: query.name,
            country: query.country,
            latitude: None,
            longitude: None,
            created_at: None,
        }
    }

    /// A field-for-field copy.
    pub fn copy(&self) -> (r: City)
        ensures
            r == *self,
    {
        City {
            id: self.id,
            name: self.name.clone(),
            country: self.country.clone(),
            latitude: self.latitude,
            longitude: self.longitude,
            created_at: self.created_at,
        }
    }
}

impl Collector {
    /// A new session row with the given identifier and creation time.
    pub fn from_query(query: CollectorQuery, id: String, created_at: i64) -> (r: Collector)
        ensures
            r.id == id,
            r.origin == query.origin,
            r.city_id == query.city_id,
            r.os == query.os,
            r.browser == query.browser,
            r.created_at == Some(created_at),
    {
        Collector {
            id,
            origin: query.origin,
            city_id: query.city_id,
            os: query.os,
            browser: query.browser,
            created_at: Some(created_at),
        }
    }

    /// A field-for-field copy.
    pub fn copy(&self) -> (r: Collector)
        ensures
            r == *self,
    {
        Collector {
            id: self.id.clone(),
            origin: self.origin.clone(),
            city_id: self.city_id,
            os: copy_opt_string(&self.os),
            browser: copy_opt_string(&self.browser),
            created_at: self.created_at,
        }
    }
}

impl Event {
    /// A field-for-field copy.
    pub fn copy(&self) -> (r: Event)
        ensures
            r == *self,
    {
        Event {
            id: self.id.clone(),
            url: self.url.clone(),
            referrer: copy_opt_string(&self.referrer),
            name: self.name.clone(),
            created_at: self.created_at,
            collector_id: self.collector_id.clone(),
        }
    }
}

impl EventRequest {
    /// The same report with no referrer.
    pub fn into_query(self) -> (r: EventQuery)
        ensures
            r.url == self.url,
            r.referrer is None,
            r.name == self.name,
            r.collector_id == self.collector_id,
    {
        EventQuery { url: self.url, referrer: None, name: self.name, collector_id: self.collector_id }
    }
}

} // verus!
