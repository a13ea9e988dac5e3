//! The registries: cities, sessions and the append-only event log, with
//! find-or-create for cities, validated inserts and paginated listing.

use vstd::prelude::*;
use crate::agent::UserAgentInfo;
use crate::ids::{new_ulid, now_seconds};
use crate::models::{City, Collector, CollectorQuery, CollectorWithEvents, Event, EventQuery};
use crate::pagination::{Paginate, PaginationResult, MAX_PER_PAGE, ceil_div, offset_of, window};
use vstd::string::StringExecFns;
use crate::text::{lower_of, lowercase};
use crate::urls::{is_local_spec, is_local_url, normalize_url, normalized_url};

verus! {

/// Why a write was refused.
#[derive(Debug)]
pub enum StoreError {
    /// The event's URL points at the local machine.
    LocalUrl,
    /// The session names a city that is not stored.
    UnknownCity,
    /// The event names a session that is not stored.
    UnknownSession,
    /// The identifier is already taken.
    DuplicateId,
    /// No identifier is left for another city.
    CapacityExceeded,
}

impl StoreError {
    /// What went wrong, in words.
    pub fn message(&self) -> (r: &'static str)
        ensures
            r@ == match self {
                StoreError::LocalUrl => "local URLs are not accepted"@,
                StoreError::UnknownCity => "unknown city"@,
                StoreError::UnknownSession => "unknown session"@,
                StoreError::DuplicateId => "identifier already taken"@,
                StoreError::CapacityExceeded => "no identifier left"@,
            },
    {
        match self {
            StoreError::LocalUrl => "local URLs are not accepted",
            StoreError::UnknownCity => "unknown city",
            StoreError::UnknownSession => "unknown session",
            StoreError::DuplicateId => "identifier already taken",
            StoreError::CapacityExceeded => "no identifier left",
        }
    }

    /// Validation failures are the client's (400); the others the store's (500).
    pub fn status(&self) -> (r: u16)
        ensures
            r == (if *self is LocalUrl { 400u16 } else { 500u16 }),
    {
        match self {
            StoreError::LocalUrl => 400,
            _ => 500,
        }
    }
}

/// `c` is stored under the key `(name, country)`.
pub open spec fn city_key_is(c: City, name: Seq<char>, country: Seq<char>) -> bool {
    c.name@ == name && c.country@ == country
}

/// Some stored city has the key `(name, country)`.
pub open spec fn has_city(cities: Seq<City>, name: Seq<char>, country: Seq<char>) -> bool {
    exists|k: int| 0 <= k < cities.len() && city_key_is(#[trigger] cities[k], name, country)
}

/// Some stored session has identifier `id`.
pub open spec fn has_session(sessions: Seq<Collector>, id: Seq<char>) -> bool {
    exists|k: int| 0 <= k < sessions.len() && (#[trigger] sessions[k]).id@ == id
}

/// Some stored event has identifier `id`.
pub open spec fn has_event(events: Seq<Event>, id: Seq<char>) -> bool {
    exists|k: int| 0 <= k < events.len() && (#[trigger] events[k]).id@ == id
}

/// How many sessions the recent-activity view shows, and how many events of each.
pub const RECENT_LIMIT: usize = 30;

/// The last (at most `limit`) events of session `id`, most recent first.
pub open spec fn last_events(events: Seq<Event>, id: Seq<char>, limit: nat) -> Seq<Event>
    decreases events.len(),
{
    if events.len() == 0 || limit == 0 {
        Seq::empty()
    } else if events.last().collector_id@ == id {
        seq![events.last()] + last_events(events.drop_last(), id, (limit - 1) as nat)
    } else {
        last_events(events.drop_last(), id, limit)
    }
}

/// The last (at most `limit`) sessions, most recent first, each with its
/// recent events; sessions without events are left out.
pub open spec fn recent_sessions_spec(sessions: Seq<Collector>, events: Seq<Event>, limit: nat) -> Seq<(Collector, Seq<Event>)>
    decreases sessions.len(),
{
    if sessions.len() == 0 || limit == 0 {
        Seq::empty()
    } else {
        let c = sessions.last();
        let evs = last_events(events, c.id@, RECENT_LIMIT as nat);
        let rest = recent_sessions_spec(sessions.drop_last(), events, (limit - 1) as nat);
        if evs.len() > 0 {
            seq![(c, evs)] + rest
        } else {
            rest
        }
    }
}

/// How a session's origin is shown: `"<city>, <country>"`.
pub open spec fn origin_label(c: City) -> Seq<char> {
    c.name@ + ", "@ + c.country@
}

/// `entry` shows session `c` with events `evs`, its origin replaced by the
/// label of its city.
pub open spec fn shows_session(entry: CollectorWithEvents, c: Collector, evs: Seq<Event>, cities: Seq<City>) -> bool {
    &&& entry.collector.id == c.id
    &&& entry.collector.city_id == c.city_id
    &&& entry.collector.os == c.os
    &&& entry.collector.browser == c.browser
    &&& entry.collector.created_at == c.created_at
    &&& entry.collector.origin@ == origin_label(cities[c.city_id - 1])
    &&& entry.events@ == evs
}

/// The time a row is stored at: `now`, or the newest stored time if the
/// clock reads earlier, so that rows stay in order of creation time.
pub open spec fn stamp(latest: Option<i64>, now: i64) -> i64 {
    match latest {
        Some(t) => if now < t { t } else { now },
        None => now,
    }
}

/// Cities, sessions and events, in the order they were stored.
pub struct Store {
    cities: Vec<City>,
    collectors: Vec<Collector>,
    events: Vec<Event>,
}

impl Store {
    pub closed spec fn cities(&self) -> Seq<City> {
        self.cities@
    }

    pub closed spec fn collectors(&self) -> Seq<Collector> {
        self.collectors@
    }

    pub closed spec fn events(&self) -> Seq<Event> {
        self.events@
    }

    /// City ids are their positions from one and keys are unique; every
    /// session names a stored city; every event names a stored session;
    /// session and event identifiers are unique; sessions and events are
    /// stored in order of creation time, so the last ones are the newest.
    pub open spec fn wf(&self) -> bool {
        &&& sessions_in_time_order(self.collectors())
        &&& events_in_time_order(self.events())
        &&& self.cities().len() <= i32::MAX
        &&& forall|i: int|
            0 <= i < self.cities().len() ==> (#[trigger] self.cities()[i]).id == Some((i + 1) as i32)
        &&& forall|i: int, j: int|
            0 <= i < j < self.cities().len() ==> !city_key_is(
                #[trigger] self.cities()[j],
                (#[trigger] self.cities()[i]).name@,
                self.cities()[i].country@,
            )
        &&& forall|i: int|
            0 <= i < self.collectors().len() ==> 1 <= (#[trigger] self.collectors()[i]).city_id
                <= self.cities().len()
        &&& forall|i: int|
            0 <= i < self.events().len() ==> has_session(
                self.collectors(),
                (#[trigger] self.events()[i]).collector_id@,
            )
        &&& forall|i: int, j: int|
            0 <= i < j < self.collectors().len() ==> (#[trigger] self.collectors()[i]).id@
                != (#[trigger] self.collectors()[j]).id@
        &&& forall|i: int, j: int|
            0 <= i < j < self.events().len() ==> (#[trigger] self.events()[i]).id@
                != (#[trigger] self.events()[j]).id@
    }

    /// The stored cities, by id.
    pub fn cities_table(&self) -> (r: &Vec<City>)
        ensures
            r@ == self.cities(),
    {
        &self.cities
    }

    /// The stored sessions, in the order they were created.
    pub fn collectors_table(&self) -> (r: &Vec<Collector>)
        ensures
            r@ == self.collectors(),
    {
        &self.collectors
    }

    /// The event log, in the order events were recorded.
    pub fn events_table(&self) -> (r: &Vec<Event>)
        ensures
            r@ == self.events(),
    {
        &self.events
    }

    /// An empty store.
    pub fn new() -> (r: Store)
        ensures
            r.wf(),
            r.cities().len() == 0,
            r.collectors().len() == 0,
            r.events().len() == 0,
    {
        Store { cities: Vec::new(), collectors: Vec::new(), events: Vec::new() }
    }

    /// Position of the city stored under `(name, country)`.
    fn city_position(&self, name: &String, country: &String) -> (r: Option<usize>)
        ensures
            r matches Some(k) ==> k < self.cities().len() && city_key_is(
                self.cities()[k as int],
                name@,
                country@,
            ),
            r is None ==> !has_city(self.cities(), name@, country@),
    {
        let mut i: usize = 0;
        while i < self.cities.len()
            invariant
                i <= self.cities@.len(),
                forall|k: int| 0 <= k < i ==> !city_key_is(#[trigger] self.cities@[k], name@, country@),
            decreases self.cities@.len() - i,
        {
            if self.cities[i].name == *name && self.cities[i].country == *country {
                return Some(i);
            }
            i = i + 1;
        }
        None
    }

    /// The city stored under the key `(name, country)`, both already lowercased.
    pub fn find_by_key(&self, name: &String, country: &String) -> (r: Option<City>)
        requires
            self.wf(),
        ensures
            r matches Some(c) ==> exists|k: int|
                0 <= k < self.cities().len() && c == #[trigger] self.cities()[k] && city_key_is(c, name@, country@),
            r is None ==> !has_city(self.cities(), name@, country@),
    {
        match self.city_position(name, country) {
            Some(k) => Some(self.cities[k].copy()),
            None => None,
        }
    }

    /// The city whose lowercased name and country equal those of the
    /// arguments, lowercased.
    pub fn find_by_name_and_country(&self, name: &str, country: &str) -> (r: Option<City>)
        requires
            self.wf(),
        ensures
            r matches Some(c) ==> exists|k: int|
                0 <= k < self.cities().len() && c == #[trigger] self.cities()[k] && city_key_is(
                    c,
                    lower_of(name@),
                    lower_of(country@),
                ),
            r is None ==> !has_city(self.cities(), lower_of(name@), lower_of(country@)),
    {
        let name = lowercase(name);
        let country = lowercase(country);
        self.find_by_key(&name, &country)
    }

    /// What `find_or_create` does: `name` and `country` are the candidate's,
    /// lowercased, `latitude` and `longitude` its coordinates. An existing
    /// city's id is returned and nothing changes; else the candidate is
    /// stored under the next id, its missing coordinates taken from `geo`.
    pub open spec fn find_or_create_post(
        old: Store,
        name: Seq<char>,
        country: Seq<char>,
        latitude: Option<i32>,
        longitude: Option<i32>,
        geo: Option<City>,
        now: i64,
        r: Result<i32, StoreError>,
        new: Store,
    ) -> bool {
        if has_city(old.cities(), name, country) {
            &&& r matches Ok(id) && 1 <= id <= old.cities().len() && city_key_is(
                old.cities()[id - 1],
                name,
                country,
            )
            &&& new == old
        } else if old.cities().len() < i32::MAX {
            let id = old.cities().len() + 1;
            let c = new.cities()[id - 1];
            &&& r == Ok::<i32, StoreError>(id as i32)
            &&& new.cities().len() == id
            &&& new.cities().subrange(0, id - 1) == old.cities()
            &&& c.id == Some(id as i32)
            &&& city_key_is(c, name, country)
            &&& c.latitude == (if latitude is None && geo is Some {
                geo.unwrap().latitude
            } else {
                latitude
            })
            &&& c.longitude == (if longitude is None && geo is Some {
                geo.unwrap().longitude
            } else {
                longitude
            })
            &&& c.created_at == Some(now)
            &&& new.collectors() == old.collectors()
            &&& new.events() == old.events()
        } else {
            r == Err::<i32, StoreError>(StoreError::CapacityExceeded) && new == old
        }
    }

    /// Returns the id of the city named like `candidate`, ignoring case,
    /// storing the candidate (lowercased, created at `now`) if there is none.
    /// `geo` is what a location lookup gave for the visitor, if anything.
    pub fn find_or_create(&mut self, candidate: City, geo: &Option<City>, now: i64) -> (r: Result<i32, StoreError>)
        requires
            old(self).wf(),
        ensures
            final(self).wf(),
            Store::find_or_create_post(
                *old(self),
                lower_of(candidate.name@),
                lower_of(candidate.country@),
                candidate.latitude,
                candidate.longitude,
                *geo,
                now,
                r,
                *final(self),
            ),
    {
        let name = lowercase(candidate.name.as_str());
        let country = lowercase(candidate.country.as_str());
        match self.city_position(&name, &country) {
            Some(k) => {
                proof {
                    assert(self.cities@[k as int].id == Some((k + 1) as i32));
                }
                Ok((k + 1) as i32)
            },
            None => {
                if self.cities.len() >= i32::MAX as usize {
                    return Err(StoreError::CapacityExceeded);
                }
                let id = (self.cities.len() + 1) as i32;
                let latitude = match (candidate.latitude, geo) {
                    (None, Some(g)) => g.latitude,
                    _ => candidate.latitude,
                };
                let longitude = match (candidate.longitude, geo) {
                    (None, Some(g)) => g.longitude,
                    _ => candidate.longitude,
                };
                let city = City { id: Some(id), name, country, latitude, longitude, created_at: Some(now) };
                let ghost old_cities = self.cities@;
                self.cities.push(city);
                proof {
                    assert(self.cities@.subrange(0, old_cities.len() as int) =~= old_cities);
                    assert forall|i: int, j: int|
                        0 <= i < j < self.cities@.len() implies !city_key_is(
                            #[trigger] self.cities@[j],
                            (#[trigger] self.cities@[i]).name@,
                            self.cities@[i].country@,
                        ) by {
                        if j == old_cities.len() {
                            assert(self.cities@[i] == old_cities[i]);
                        }
                    }
                }
                Ok(id)
            },
        }
    }

    /// Position of the session with identifier `id`.
    fn session_position(&self, id: &String) -> (r: Option<usize>)
        ensures
            r matches Some(k) ==> k < self.collectors().len() && self.collectors()[k as int].id@ == id@,
            r is None ==> !has_session(self.collectors(), id@),
    {
        let mut i: usize = 0;
        while i < self.collectors.len()
            invariant
                i <= self.collectors@.len(),
                forall|k: int| 0 <= k < i ==> (#[trigger] self.collectors@[k]).id@ != id@,
            decreases self.collectors@.len() - i,
        {
            if self.collectors[i].id == *id {
                return Some(i);
            }
            i = i + 1;
        }
        None
    }

    /// Whether an event with identifier `id` is stored.
    fn event_exists(&self, id: &String) -> (r: bool)
        ensures
            r == has_event(self.events(), id@),
    {
        let mut i: usize = 0;
        while i < self.events.len()
            invariant
                i <= self.events@.len(),
                forall|k: int| 0 <= k < i ==> (#[trigger] self.events@[k]).id@ != id@,
            decreases self.events@.len() - i,
        {
            if self.events[i].id == *id {
                return true;
            }
            i = i + 1;
        }
        false
    }

    /// The creation time of the newest session, if any.
    pub open spec fn latest_session_time(&self) -> Option<i64> {
        if self.collectors().len() == 0 {
            None
        } else {
            self.collectors().last().created_at
        }
    }

    /// The creation time of the newest event, if any.
    pub open spec fn latest_event_time(&self) -> Option<i64> {
        if self.events().len() == 0 {
            None
        } else {
            Some(self.events().last().created_at)
        }
    }

    fn session_stamp(&self, now: i64) -> (r: i64)
        requires
            self.wf(),
        ensures
            r == stamp(self.latest_session_time(), now),
    {
        if self.collectors.len() == 0 {
            now
        } else {
            let n = self.collectors.len();
            assert(self.collectors@[n - 1].created_at is Some);
            let latest = self.collectors[n - 1].created_at.unwrap();
            if now < latest { latest } else { now }
        }
    }

    fn event_stamp(&self, now: i64) -> (r: i64)
        ensures
            r == stamp(self.latest_event_time(), now),
    {
        if self.events.len() == 0 {
            now
        } else {
            let latest = self.events[self.events.len() - 1].created_at;
            if now < latest { latest } else { now }
        }
    }

    /// Creates a session for a visitor with the given identifier at time
    /// `now` (or at the newest session's time if the clock reads earlier):
    /// refused if its city is not stored or its identifier is taken; else
    /// appended, and its identifier returned.
    pub fn create_session_with(&mut self, query: CollectorQuery, id: String, now: i64) -> (r: Result<String, StoreError>)
        requires
            old(self).wf(),
        ensures
            final(self).wf(),
            !(1 <= query.city_id <= old(self).cities().len()) ==> r == Err::<String, StoreError>(
                StoreError::UnknownCity,
            ) && *final(self) == *old(self),
            (1 <= query.city_id <= old(self).cities().len()) && has_session(old(self).collectors(), id@)
                ==> r == Err::<String, StoreError>(StoreError::DuplicateId) && *final(self) == *old(self),
            (1 <= query.city_id <= old(self).cities().len()) && !has_session(old(self).collectors(), id@)
                ==> r == Ok::<String, StoreError>(id) && final(self).collectors() == old(self).collectors().push(
                Collector {
                    id,
                    origin: query.origin,
                    city_id: query.city_id,
                    os: query.os,
                    browser: query.browser,
                    created_at: Some(stamp(old(self).latest_session_time(), now)),
                },
            ) && final(self).cities() == old(self).cities() && final(self).events() == old(self).events(),
    {
        if query.city_id < 1 || query.city_id as usize > self.cities.len() {
            return Err(StoreError::UnknownCity);
        }
        if self.session_position(&id).is_some() {
            return Err(StoreError::DuplicateId);
        }
        let at = self.session_stamp(now);
        let collector = Collector::from_query(query, id.clone(), at);
        let ghost old_collectors = self.collectors@;
        self.collectors.push(collector);
        proof {
            assert forall|i: int|
                0 <= i < self.events@.len() implies has_session(
                self.collectors@,
                (#[trigger] self.events@[i]).collector_id@,
            ) by {
                let k = choose|k: int|
                    0 <= k < old_collectors.len() && (#[trigger] old_collectors[k]).id@
                        == self.events@[i].collector_id@;
                assert(self.collectors@[k] == old_collectors[k]);
            }
            assert forall|i: int, j: int|
                0 <= i < j < self.collectors@.len() implies (#[trigger] self.collectors@[i]).created_at.unwrap()
                    <= (#[trigger] self.collectors@[j]).created_at.unwrap() by {
                assert(self.collectors@[i] == old_collectors[i]);
                if j < old_collectors.len() {
                    assert(self.collectors@[j] == old_collectors[j]);
                } else if i < old_collectors.len() - 1 {
                    assert(old_collectors[i].created_at.unwrap() <= old_collectors[old_collectors.len() - 1].created_at.unwrap());
                }
            }
            assert forall|i: int| 0 <= i < self.collectors@.len() implies (#[trigger] self.collectors@[i]).created_at is Some by {
                if i < old_collectors.len() {
                    assert(self.collectors@[i] == old_collectors[i]);
                }
            }
        }
        Ok(id)
    }

    /// Creates a session for a visitor under a fresh identifier, created now.
    /// It succeeds when its city is stored, unless the fresh identifier is
    /// already taken (which cannot be while no session is stored).
    pub fn create_session(&mut self, query: CollectorQuery) -> (r: Result<String, StoreError>)
        requires
            old(self).wf(),
        ensures
            final(self).wf(),
            !(1 <= query.city_id <= old(self).cities().len()) ==> r == Err::<String, StoreError>(
                StoreError::UnknownCity,
            ),
            (1 <= query.city_id <= old(self).cities().len()) ==> (r is Ok || r == Err::<String, StoreError>(
                StoreError::DuplicateId,
            )),
            (1 <= query.city_id <= old(self).cities().len()) && old(self).collectors().len() == 0 ==> r is Ok,
            r is Err ==> *final(self) == *old(self),
            r matches Ok(id) ==> id@.len() == 26 && final(self).collectors() == old(self).collectors().push(
                Collector {
                    id,
                    origin: query.origin,
                    city_id: query.city_id,
                    os: query.os,
                    browser: query.browser,
                    created_at: final(self).collectors().last().created_at,
                },
            ) && final(self).cities() == old(self).cities() && final(self).events() == old(self).events(),
    {
        let id = new_ulid();
        let now = now_seconds();
        self.create_session_with(query, id, now)
    }

    /// `new` is `old` with one event appended, with identifier `id`, URL
    /// text `url` and the referrer, name and session of `query`.
    pub open spec fn appended_event(old: Store, new: Store, query: EventQuery, url: Seq<char>, id: String) -> bool {
        &&& new.events().len() == old.events().len() + 1
        &&& new.events().drop_last() == old.events()
        &&& new.events().last().id == id
        &&& new.events().last().url@ == url
        &&& new.events().last().referrer == query.referrer
        &&& new.events().last().name == query.name
        &&& new.events().last().collector_id == query.collector_id
        &&& new.cities() == old.cities()
        &&& new.collectors() == old.collectors()
    }

    /// Records an event whose checks were made: refused as local if `local`,
    /// else if its session is unknown or its identifier taken; else appended
    /// with URL `url`, at time `now` (or at the newest event's time if the
    /// clock reads earlier).
    pub fn accept_event(&mut self, query: EventQuery, local: bool, url: String, id: String, now: i64) -> (r: Result<String, StoreError>)
        requires
            old(self).wf(),
        ensures
            final(self).wf(),
            local ==> r == Err::<String, StoreError>(StoreError::LocalUrl) && *final(self) == *old(self),
            !local && !has_session(old(self).collectors(), query.collector_id@) ==> r == Err::<
                String,
                StoreError,
            >(StoreError::UnknownSession) && *final(self) == *old(self),
            !local && has_session(old(self).collectors(), query.collector_id@) && has_event(
                old(self).events(),
                id@,
            ) ==> r == Err::<String, StoreError>(StoreError::DuplicateId) && *final(self) == *old(self),
            !local && has_session(old(self).collectors(), query.collector_id@) && !has_event(
                old(self).events(),
                id@,
            ) ==> r == Ok::<String, StoreError>(id) && final(self).events() == old(self).events().push(
                Event {
                    id,
                    url,
                    referrer: query.referrer,
                    name: query.name,
                    created_at: stamp(old(self).latest_event_time(), now),
                    collector_id: query.collector_id,
                },
            ) && final(self).cities() == old(self).cities() && final(self).collectors() == old(
                self,
            ).collectors(),
    {
        if local {
            return Err(StoreError::LocalUrl);
        }
        if self.session_position(&query.collector_id).is_none() {
            return Err(StoreError::UnknownSession);
        }
        if self.event_exists(&id) {
            return Err(StoreError::DuplicateId);
        }
        let at = self.event_stamp(now);
        let event = Event {
            id: id.clone(),
            url,
            referrer: query.referrer,
            name: query.name,
            created_at: at,
            collector_id: query.collector_id,
        };
        let ghost old_events = self.events@;
        self.events.push(event);
        proof {
            assert forall|i: int|
                0 <= i < self.events@.len() implies has_session(
                self.collectors@,
                (#[trigger] self.events@[i]).collector_id@,
            ) by {
                if i < old_events.len() {
                    assert(self.events@[i] == old_events[i]);
                }
            }
            assert forall|i: int, j: int|
                0 <= i < j < self.events@.len() implies (#[trigger] self.events@[i]).created_at
                    <= (#[trigger] self.events@[j]).created_at by {
                assert(self.events@[i] == old_events[i]);
                if j < old_events.len() {
                    assert(self.events@[j] == old_events[j]);
                } else if i < old_events.len() - 1 {
                    assert(old_events[i].created_at <= old_events[old_events.len() - 1].created_at);
                }
            }
        }
        Ok(id)
    }

    /// Validates and records an event with the given identifier and time:
    /// local URLs are refused; the stored URL is the normalised one.
    pub fn insert_event_with(&mut self, query: EventQuery, id: String, now: i64) -> (r: Result<String, StoreError>)
        requires
            old(self).wf(),
        ensures
            final(self).wf(),
            is_local_spec(query.url@) ==> r == Err::<String, StoreError>(StoreError::LocalUrl)
                && *final(self) == *old(self),
            !is_local_spec(query.url@) && !has_session(old(self).collectors(), query.collector_id@)
                ==> r == Err::<String, StoreError>(StoreError::UnknownSession) && *final(self) == *old(
                self,
            ),
            !is_local_spec(query.url@) && has_session(old(self).collectors(), query.collector_id@)
                && has_event(old(self).events(), id@) ==> r == Err::<String, StoreError>(
                StoreError::DuplicateId,
            ) && *final(self) == *old(self),
            !is_local_spec(query.url@) && has_session(old(self).collectors(), query.collector_id@)
                && !has_event(old(self).events(), id@) ==> r == Ok::<String, StoreError>(id)
                && Store::appended_event(*old(self), *final(self), query, normalized_url(query.url@), id)
                && final(self).events().last().created_at == stamp(old(self).latest_event_time(), now),
    {
        let local = is_local_url(query.url.as_str());
        let url = normalize_url(query.url.as_str());
        let r = self.accept_event(query, local, url, id, now);
        proof {
            if r is Ok {
                assert(self.events().drop_last() =~= old(self).events());
            }
        }
        r
    }

    /// Validates and records an event under a fresh identifier, created now.
    /// A non-local event of a stored session is recorded unless the fresh
    /// identifier is already taken (which cannot be while the log is empty).
    pub fn insert_event(&mut self, query: EventQuery) -> (r: Result<String, StoreError>)
        requires
            old(self).wf(),
        ensures
            final(self).wf(),
            is_local_spec(query.url@) <==> r == Err::<String, StoreError>(StoreError::LocalUrl),
            !is_local_spec(query.url@) && !has_session(old(self).collectors(), query.collector_id@)
                ==> r == Err::<String, StoreError>(StoreError::UnknownSession),
            !is_local_spec(query.url@) && has_session(old(self).collectors(), query.collector_id@)
                ==> (r is Ok || r == Err::<String, StoreError>(StoreError::DuplicateId)),
            !is_local_spec(query.url@) && has_session(old(self).collectors(), query.collector_id@)
                && old(self).events().len() == 0 ==> r is Ok,
            r is Err ==> *final(self) == *old(self),
            r matches Ok(id) ==> id@.len() == 26 && Store::appended_event(
                *old(self),
                *final(self),
                query,
                normalized_url(query.url@),
                id,
            ),
    {
        let id = new_ulid();
        let now = now_seconds();
        self.insert_event_with(query, id, now)
    }

    /// The city a visitor is registered under: the located one, or an
    /// unnamed place when the location lookup failed.
    pub open spec fn visitor_city_key(geo: Option<City>) -> (Seq<char>, Seq<char>) {
        match geo {
            Some(g) => (lower_of(g.name@), lower_of(g.country@)),
            None => (lower_of(Seq::empty()), lower_of(Seq::empty())),
        }
    }

    /// The coordinates a visitor's city is created with, before enrichment.
    pub open spec fn visitor_coordinates(geo: Option<City>) -> (Option<i32>, Option<i32>) {
        match geo {
            Some(g) => (g.latitude, g.longitude),
            None => (None, None),
        }
    }

    /// What `register_visitor` does after the city step, which ended in
    /// `res` with sessions `before`: the session is created there, or the
    /// call fails with the sessions unchanged.
    pub open spec fn visitor_session_post(
        before: Seq<Collector>,
        latest: Option<i64>,
        res: Result<i32, StoreError>,
        ip: Seq<char>,
        agent: UserAgentInfo,
        id: String,
        now: i64,
        r: Result<String, StoreError>,
        after: Seq<Collector>,
    ) -> bool {
        match res {
            Err(_) => r is Err && after == before,
            Ok(cid) => if has_session(before, id@) {
                r == Err::<String, StoreError>(StoreError::DuplicateId) && after == before
            } else {
                let c = after.last();
                &&& r == Ok::<String, StoreError>(id)
                &&& after.len() == before.len() + 1
                &&& after.drop_last() == before
                &&& c.id == id
                &&& c.origin@ == ip
                &&& c.city_id == cid
                &&& c.os == Some(agent.os)
                &&& c.browser == Some(agent.browser)
                &&& c.created_at == Some(stamp(latest, now))
            },
        }
    }

    /// Registers a new visitor from `ip`: finds or creates the city that
    /// `geo` (the location lookup's answer, if any) names, as
    /// `find_or_create` does, then creates the session `id` there with the
    /// visitor's operating system and browser. A failed call adds no session.
    pub fn register_visitor(&mut self, ip: &str, geo: Option<City>, agent: UserAgentInfo, id: String, now: i64) -> (r: Result<String, StoreError>)
        requires
            old(self).wf(),
        ensures
            final(self).wf(),
            final(self).events() == old(self).events(),
            exists|res: Result<i32, StoreError>, mid: Store|
                {
                    &&& Store::find_or_create_post(
                        *old(self),
                        Store::visitor_city_key(geo).0,
                        Store::visitor_city_key(geo).1,
                        Store::visitor_coordinates(geo).0,
                        Store::visitor_coordinates(geo).1,
                        geo,
                        now,
                        res,
                        mid,
                    )
                    &&& final(self).cities() == mid.cities()
                    &&& (res is Err ==> *final(self) == *old(self))
                    &&& Store::visitor_session_post(
                        old(self).collectors(),
                        old(self).latest_session_time(),
                        res,
                        ip@,
                        agent,
                        id,
                        now,
                        r,
                        final(self).collectors(),
                    )
                },
            r matches Ok(sid) ==> {
                let c = final(self).collectors().last();
                let key = Store::visitor_city_key(geo);
                &&& 1 <= c.city_id <= final(self).cities().len()
                &&& city_key_is(final(self).cities()[c.city_id - 1], key.0, key.1)
            },
            r is Err ==> final(self).collectors() == old(self).collectors(),
            old(self).cities().len() < i32::MAX && !has_session(old(self).collectors(), id@) ==> r is Ok,
            has_session(old(self).collectors(), id@) ==> r is Err,
    {
        let candidate = match &geo {
            Some(g) => g.copy(),
            None => City {
                id: None,
                name: String::new(),
                country: String::new(),
                latitude: None,
                longitude: None,
                created_at: None,
            },
        };
        proof {
            if geo is None {
                assert(candidate.name@ =~= Seq::<char>::empty());
                assert(candidate.country@ =~= Seq::<char>::empty());
            }
        }
        let ghost before = *self;
        let found = self.find_or_create(candidate, &geo, now);
        let ghost mid = *self;
        let ghost res = found;
        proof {
            assert(lower_of(candidate.name@) == Store::visitor_city_key(geo).0);
            assert(lower_of(candidate.country@) == Store::visitor_city_key(geo).1);
            assert(candidate.latitude == Store::visitor_coordinates(geo).0);
            assert(candidate.longitude == Store::visitor_coordinates(geo).1);
            assert(Store::find_or_create_post(
                before,
                Store::visitor_city_key(geo).0,
                Store::visitor_city_key(geo).1,
                Store::visitor_coordinates(geo).0,
                Store::visitor_coordinates(geo).1,
                geo,
                now,
                res,
                mid,
            ));
        }
        let city_id = match found {
            Ok(c) => c,
            Err(e) => {
                proof {
                    assert(Store::visitor_session_post(before.collectors(), before.latest_session_time(), res, ip@, agent, id, now, Err::<String, StoreError>(e), self.collectors()));
                }
                return Err(e);
            },
        };
        proof {
            if !has_city(before.cities(), lower_of(candidate.name@), lower_of(candidate.country@)) {
                assert(self.collectors() == before.collectors());
                assert(self.cities()[city_id - 1] == self.cities()[before.cities().len() as int]);
            }
        }
        let ghost agent_view = agent;
        let query = CollectorQuery {
            origin: ip.to_owned(),
            city_id,
            os: Some(agent.os),
            browser: Some(agent.browser),
        };
        let r = self.create_session_with(query, id, now);
        proof {
            if r is Ok {
                assert(self.collectors().drop_last() =~= mid.collectors());
            }
            assert(Store::visitor_session_post(before.collectors(), before.latest_session_time(), res, ip@, agent_view, id, now, r, self.collectors()));
        }
        r
    }

    /// Page `page` of the events, `per_page` to a page, in log order.
    pub fn list_events(&self, page: i64, per_page: i64) -> (r: PaginationResult<Event>)
        requires
            page >= 1,
            1 <= per_page <= MAX_PER_PAGE,
            self.events().len() <= i64::MAX,
        ensures
            r.items@ == window(self.events(), offset_of(page as int, per_page as int), per_page as int),
            r.total_items == self.events().len(),
            r.total_pages == ceil_div(self.events().len() as int, per_page as int),
            r.page == page,
            r.per_page == per_page,
    {
        let mut rows: Vec<Event> = Vec::new();
        let mut i: usize = 0;
        while i < self.events.len()
            invariant
                i <= self.events@.len(),
                rows@ == self.events@.subrange(0, i as int),
            decreases self.events@.len() - i,
        {
            rows.push(self.events[i].copy());
            i = i + 1;
            assert(rows@ =~= self.events@.subrange(0, i as int));
        }
        assert(rows@ =~= self.events@);
        rows.paginate(page).per_page(per_page).load()
    }

    /// Page `page` of the cities, `per_page` to a page, by id.
    pub fn list_cities(&self, page: i64, per_page: i64) -> (r: PaginationResult<City>)
        requires
            page >= 1,
            1 <= per_page <= MAX_PER_PAGE,
            self.cities().len() <= i64::MAX,
        ensures
            r.items@ == window(self.cities(), offset_of(page as int, per_page as int), per_page as int),
            r.total_items == self.cities().len(),
            r.total_pages == ceil_div(self.cities().len() as int, per_page as int),
            r.page == page,
            r.per_page == per_page,
    {
        let mut rows: Vec<City> = Vec::new();
        let mut i: usize = 0;
        while i < self.cities.len()
            invariant
                i <= self.cities@.len(),
                rows@ == self.cities@.subrange(0, i as int),
            decreases self.cities@.len() - i,
        {
            rows.push(self.cities[i].copy());
            i = i + 1;
            assert(rows@ =~= self.cities@.subrange(0, i as int));
        }
        assert(rows@ =~= self.cities@);
        rows.paginate(page).per_page(per_page).load()
    }

    /// The recent events of session `id`, most recent first.
    fn recent_events_of(&self, id: &String) -> (r: Vec<Event>)
        ensures
            r@ == last_events(self.events(), id@, RECENT_LIMIT as nat),
    {
        let mut out: Vec<Event> = Vec::new();
        let mut i: usize = self.events.len();
        assert(self.events@.subrange(0, i as int) =~= self.events@);
        while i > 0 && out.len() < RECENT_LIMIT
            invariant
                i <= self.events@.len(),
                out@.len() <= RECENT_LIMIT,
                out@ + last_events(self.events@.subrange(0, i as int), id@, (RECENT_LIMIT - out@.len()) as nat)
                    == last_events(self.events@, id@, RECENT_LIMIT as nat),
            decreases i,
        {
            let ghost before = self.events@.subrange(0, i as int);
            assert(before.drop_last() =~= self.events@.subrange(0, i - 1));
            let e = &self.events[i - 1];
            if e.collector_id == *id {
                let ghost old_out = out@;
                out.push(e.copy());
                assert(out@ + last_events(self.events@.subrange(0, i - 1), id@, (RECENT_LIMIT - out@.len()) as nat)
                    =~= old_out + (seq![*e] + last_events(self.events@.subrange(0, i - 1), id@, (RECENT_LIMIT - out@.len()) as nat)));
            }
            i = i - 1;
        }
        assert(out@ + Seq::<Event>::empty() =~= out@);
        out
    }

    /// The 30 newest sessions that have events, newest first, each with its
    /// 30 newest events and its city as origin. The log is kept in order of
    /// creation time, so the newest are the last stored
    /// (see `lemma_recent_sessions_newest_first`).
    pub fn recent_sessions(&self) -> (r: Vec<CollectorWithEvents>)
        requires
            self.wf(),
        ensures
            r@.len() == recent_sessions_spec(self.collectors(), self.events(), RECENT_LIMIT as nat).len(),
            forall|k: int|
                0 <= k < r@.len() ==> shows_session(
                    #[trigger] r@[k],
                    recent_sessions_spec(self.collectors(), self.events(), RECENT_LIMIT as nat)[k].0,
                    recent_sessions_spec(self.collectors(), self.events(), RECENT_LIMIT as nat)[k].1,
                    self.cities(),
                ),
    {
        let ghost all = recent_sessions_spec(self.collectors@, self.events@, RECENT_LIMIT as nat);
        let ghost mut prefix: Seq<(Collector, Seq<Event>)> = Seq::empty();
        let mut out: Vec<CollectorWithEvents> = Vec::new();
        let mut i: usize = self.collectors.len();
        let mut taken: usize = 0;
        assert(self.collectors@.subrange(0, i as int) =~= self.collectors@);
        while i > 0 && taken < RECENT_LIMIT
            invariant
                self.wf(),
                i <= self.collectors@.len(),
                taken <= RECENT_LIMIT,
                all == recent_sessions_spec(self.collectors@, self.events@, RECENT_LIMIT as nat),
                prefix + recent_sessions_spec(self.collectors@.subrange(0, i as int), self.events@, (RECENT_LIMIT - taken) as nat) == all,
                prefix.len() == out@.len(),
                forall|k: int| 0 <= k < out@.len() ==> shows_session(#[trigger] out@[k], prefix[k].0, prefix[k].1, self.cities@),
            decreases i,
        {
            let ghost before = self.collectors@.subrange(0, i as int);
            assert(before.drop_last() =~= self.collectors@.subrange(0, i - 1));
            let c = &self.collectors[i - 1];
            assert(1 <= self.collectors@[i - 1].city_id <= self.cities@.len());
            let events = self.recent_events_of(&c.id);
            if events.len() > 0 {
                let city = &self.cities[(c.city_id - 1) as usize];
                let mut origin = city.name.clone();
                origin.append(", ");
                origin.append(city.country.as_str());
                let collector = Collector {
                    id: c.id.clone(),
                    origin,
                    city_id: c.city_id,
                    os: crate::models::copy_opt_string(&c.os),
                    browser: crate::models::copy_opt_string(&c.browser),
                    created_at: c.created_at,
                };
                let ghost evs = events@;
                let ghost old_prefix = prefix;
                out.push(CollectorWithEvents { collector, events });
                proof {
                    prefix = prefix.push((*c, evs));
                    assert(prefix + recent_sessions_spec(self.collectors@.subrange(0, i - 1), self.events@, (RECENT_LIMIT - taken - 1) as nat)
                        =~= old_prefix + (seq![(*c, evs)] + recent_sessions_spec(self.collectors@.subrange(0, i - 1), self.events@, (RECENT_LIMIT - taken - 1) as nat)));
                    assert forall|k: int| 0 <= k < out@.len() implies shows_session(#[trigger] out@[k], prefix[k].0, prefix[k].1, self.cities@) by {
                        if k < old_prefix.len() {
                            assert(prefix[k] == old_prefix[k]);
                        }
                    }
                }
            }
            i = i - 1;
            taken = taken + 1;
        }
        assert(prefix + Seq::<(Collector, Seq<Event>)>::empty() =~= prefix);
        out
    }
}

/// Looking up a city twice under names and countries that lowercase alike
/// gives the same id both times, and the second call changes nothing.
pub proof fn lemma_find_or_create_idempotent(
    s0: Store,
    first: City,
    geo1: Option<City>,
    now1: i64,
    r1: Result<i32, StoreError>,
    s1: Store,
    second: City,
    geo2: Option<City>,
    now2: i64,
    r2: Result<i32, StoreError>,
    s2: Store,
)
    requires
        s0.wf(),
        s1.wf(),
        Store::find_or_create_post(s0, lower_of(first.name@), lower_of(first.country@), first.latitude, first.longitude, geo1, now1, r1, s1),
        Store::find_or_create_post(s1, lower_of(second.name@), lower_of(second.country@), second.latitude, second.longitude, geo2, now2, r2, s2),
        lower_of(first.name@) == lower_of(second.name@),
        lower_of(first.country@) == lower_of(second.country@),
        r1 is Ok,
    ensures
        r2 == r1,
        s2 == s1,
{
    let name = lower_of(first.name@);
    let country = lower_of(first.country@);
    let id1 = r1->Ok_0;
    assert(1 <= id1 <= s1.cities().len() && city_key_is(s1.cities()[id1 - 1], name, country)) by {
        if !has_city(s0.cities(), name, country) {
            assert(s1.cities()[id1 - 1] == s1.cities()[s0.cities().len() as int]);
        }
    }
    assert(has_city(s1.cities(), name, country));
    let id2 = r2->Ok_0;
    if id1 < id2 {
        assert(!city_key_is(s1.cities()[id2 - 1], s1.cities()[id1 - 1].name@, s1.cities()[id1 - 1].country@));
    } else if id2 < id1 {
        assert(!city_key_is(s1.cities()[id1 - 1], s1.cities()[id2 - 1].name@, s1.cities()[id2 - 1].country@));
    }
}

/// Recent events of a session are events of that session.
pub proof fn lemma_last_events_belong(events: Seq<Event>, id: Seq<char>, limit: nat)
    ensures
        forall|k: int| 0 <= k < last_events(events, id, limit).len() ==>
            (#[trigger] last_events(events, id, limit)[k]).collector_id@ == id
            && events.contains(last_events(events, id, limit)[k]),
    decreases events.len(),
{
    if events.len() > 0 && limit > 0 {
        let rest_limit: nat = if events.last().collector_id@ == id { (limit - 1) as nat } else { limit };
        lemma_last_events_belong(events.drop_last(), id, rest_limit);
        let r = last_events(events, id, limit);
        assert forall|k: int| 0 <= k < r.len() implies (#[trigger] r[k]).collector_id@ == id && events.contains(r[k]) by {
            if events.last().collector_id@ == id {
                if k == 0 {
                    assert(events[events.len() - 1] == r[k]);
                } else {
                    assert(r[k] == last_events(events.drop_last(), id, rest_limit)[k - 1]);
                    let e = r[k];
                    let j = choose|j: int| 0 <= j < events.drop_last().len() && events.drop_last()[j] == e;
                    assert(events[j] == e);
                }
            } else {
                let e = r[k];
                let j = choose|j: int| 0 <= j < events.drop_last().len() && events.drop_last()[j] == e;
                assert(events[j] == e);
            }
        }
    }
}

/// Every session shown among the recent ones has at least one event in
/// the log, and is shown with that session's recent events: a session
/// without events is never shown, however recent.
pub proof fn lemma_recent_sessions_have_events(sessions: Seq<Collector>, events: Seq<Event>, limit: nat)
    ensures
        forall|k: int| 0 <= k < recent_sessions_spec(sessions, events, limit).len() ==> {
            let entry = #[trigger] recent_sessions_spec(sessions, events, limit)[k];
            &&& sessions.contains(entry.0)
            &&& entry.1 == last_events(events, entry.0.id@, RECENT_LIMIT as nat)
            &&& entry.1.len() > 0
            &&& exists|j: int| 0 <= j < events.len() && (#[trigger] events[j]).collector_id@ == entry.0.id@
        },
    decreases sessions.len(),
{
    if sessions.len() > 0 && limit > 0 {
        lemma_recent_sessions_have_events(sessions.drop_last(), events, (limit - 1) as nat);
        let c = sessions.last();
        let evs = last_events(events, c.id@, RECENT_LIMIT as nat);
        let rest = recent_sessions_spec(sessions.drop_last(), events, (limit - 1) as nat);
        let all = recent_sessions_spec(sessions, events, limit);
        lemma_last_events_belong(events, c.id@, RECENT_LIMIT as nat);
        assert forall|k: int| 0 <= k < all.len() implies {
            let entry = #[trigger] all[k];
            &&& sessions.contains(entry.0)
            &&& entry.1 == last_events(events, entry.0.id@, RECENT_LIMIT as nat)
            &&& entry.1.len() > 0
            &&& exists|j: int| 0 <= j < events.len() && (#[trigger] events[j]).collector_id@ == entry.0.id@
        } by {
            if evs.len() > 0 && k == 0 {
                assert(all[k] == (c, evs));
                assert(sessions[sessions.len() - 1] == c);
                let e = evs[0];
                assert(events.contains(e));
                let j = choose|j: int| 0 <= j < events.len() && events[j] == e;
                assert(events[j].collector_id@ == c.id@);
            } else {
                let kk = if evs.len() > 0 { k - 1 } else { k };
                assert(all[k] == rest[kk]);
                let entry = rest[kk];
                let j = choose|j: int| 0 <= j < sessions.drop_last().len() && sessions.drop_last()[j] == entry.0;
                assert(sessions[j] == entry.0);
            }
        }
    }
}

/// Sessions are in order of creation time.
pub open spec fn sessions_in_time_order(sessions: Seq<Collector>) -> bool {
    &&& forall|i: int| 0 <= i < sessions.len() ==> (#[trigger] sessions[i]).created_at is Some
    &&& forall|i: int, j: int|
        0 <= i < j < sessions.len() ==> (#[trigger] sessions[i]).created_at.unwrap()
            <= (#[trigger] sessions[j]).created_at.unwrap()
}

/// Events are in order of creation time.
pub open spec fn events_in_time_order(events: Seq<Event>) -> bool {
    forall|i: int, j: int| 0 <= i < j < events.len() ==> (#[trigger] events[i]).created_at <= (#[trigger] events[j]).created_at
}

/// Over a log in time order, the recent events of a session come newest first.
pub proof fn lemma_last_events_newest_first(events: Seq<Event>, id: Seq<char>, limit: nat)
    requires
        events_in_time_order(events),
    ensures
        forall|a: int, b: int|
            0 <= a < b < last_events(events, id, limit).len() ==> (#[trigger] last_events(events, id, limit)[a]).created_at
                >= (#[trigger] last_events(events, id, limit)[b]).created_at,
    decreases events.len(),
{
    if events.len() > 0 && limit > 0 {
        let rest_limit: nat = if events.last().collector_id@ == id { (limit - 1) as nat } else { limit };
        let d = events.drop_last();
        assert(events_in_time_order(d)) by {
            assert forall|i: int, j: int| 0 <= i < j < d.len() implies (#[trigger] d[i]).created_at <= (#[trigger] d[j]).created_at by {
                assert(d[i] == events[i] && d[j] == events[j]);
            }
        }
        lemma_last_events_newest_first(d, id, rest_limit);
        lemma_last_events_belong(d, id, rest_limit);
        let rest = last_events(d, id, rest_limit);
        let r = last_events(events, id, limit);
        if events.last().collector_id@ == id {
            assert forall|a: int, b: int| 0 <= a < b < r.len() implies (#[trigger] r[a]).created_at >= (#[trigger] r[b]).created_at by {
                assert(r[b] == rest[b - 1]);
                if a == 0 {
                    let e = rest[b - 1];
                    assert(d.contains(e));
                    let j = choose|j: int| 0 <= j < d.len() && d[j] == e;
                    assert(events[j] == e);
                    assert(events[j].created_at <= events[events.len() - 1].created_at);
                } else {
                    assert(r[a] == rest[a - 1]);
                }
            }
        }
    }
}

/// The sessions chosen among the last `limit` of the log are among the
/// last `limit` sessions.
proof fn lemma_recent_in_window(sessions: Seq<Collector>, events: Seq<Event>, limit: nat)
    ensures
        forall|k: int| 0 <= k < recent_sessions_spec(sessions, events, limit).len() ==> exists|j: int|
            sessions.len() - limit <= j < sessions.len() && 0 <= j && sessions[j] == (#[trigger] recent_sessions_spec(
                sessions,
                events,
                limit,
            )[k]).0,
    decreases sessions.len(),
{
    if sessions.len() > 0 && limit > 0 {
        let d = sessions.drop_last();
        lemma_recent_in_window(d, events, (limit - 1) as nat);
        let c = sessions.last();
        let evs = last_events(events, c.id@, RECENT_LIMIT as nat);
        let rest = recent_sessions_spec(d, events, (limit - 1) as nat);
        let all = recent_sessions_spec(sessions, events, limit);
        assert forall|k: int| 0 <= k < all.len() implies exists|j: int|
            sessions.len() - limit <= j < sessions.len() && 0 <= j && sessions[j] == (#[trigger] all[k]).0 by {
            if evs.len() > 0 && k == 0 {
                assert(sessions[sessions.len() - 1] == all[k].0);
            } else {
                let kk = if evs.len() > 0 { k - 1 } else { k };
                assert(all[k] == rest[kk]);
                let j = choose|j: int| d.len() - (limit - 1) <= j < d.len() && 0 <= j && d[j] == (#[trigger] rest[kk]).0;
                assert(sessions[j] == d[j]);
            }
        }
    }
}

/// Over a store in time order, the recent-activity view shows the newest
/// sessions, newest first: each shown session is at least as new as the
/// ones after it and as every session outside the last `limit`, and its
/// events come newest first.
pub proof fn lemma_recent_sessions_newest_first(sessions: Seq<Collector>, events: Seq<Event>, limit: nat)
    requires
        sessions_in_time_order(sessions),
        events_in_time_order(events),
    ensures
        forall|k: int, l: int|
            0 <= k < l < recent_sessions_spec(sessions, events, limit).len() ==> (#[trigger] recent_sessions_spec(
                sessions,
                events,
                limit,
            )[k]).0.created_at.unwrap() >= (#[trigger] recent_sessions_spec(sessions, events, limit)[l]).0.created_at.unwrap(),
        forall|k: int, j: int|
            0 <= k < recent_sessions_spec(sessions, events, limit).len() && 0 <= j < sessions.len() - limit
                ==> (#[trigger] sessions[j]).created_at.unwrap() <= (#[trigger] recent_sessions_spec(
                sessions,
                events,
                limit,
            )[k]).0.created_at.unwrap(),
        forall|k: int, a: int, b: int|
            0 <= k < recent_sessions_spec(sessions, events, limit).len() && 0 <= a < b
                < recent_sessions_spec(sessions, events, limit)[k].1.len() ==> (#[trigger] recent_sessions_spec(
                sessions,
                events,
                limit,
            )[k].1[a]).created_at >= (#[trigger] recent_sessions_spec(sessions, events, limit)[k].1[b]).created_at,
{
    let all = recent_sessions_spec(sessions, events, limit);
    lemma_recent_in_window(sessions, events, limit);
    lemma_recent_sessions_have_events(sessions, events, limit);
    assert forall|k: int, l: int| 0 <= k < l < all.len() implies (#[trigger] all[k]).0.created_at.unwrap()
        >= (#[trigger] all[l]).0.created_at.unwrap() by {
        lemma_recent_order(sessions, events, limit, k, l);
    }
    assert forall|k: int, j: int| 0 <= k < all.len() && 0 <= j < sessions.len() - limit implies (#[trigger] sessions[j]).created_at.unwrap()
        <= (#[trigger] all[k]).0.created_at.unwrap() by {
        let jj = choose|jj: int| sessions.len() - limit <= jj < sessions.len() && 0 <= jj && sessions[jj] == (#[trigger] all[k]).0;
        assert(j < jj);
    }
    assert forall|k: int, a: int, b: int| 0 <= k < all.len() && 0 <= a < b < all[k].1.len() implies (#[trigger] all[k].1[a]).created_at
        >= (#[trigger] all[k].1[b]).created_at by {
        lemma_last_events_newest_first(events, all[k].0.id@, RECENT_LIMIT as nat);
    }
}

/// Two shown sessions, the earlier one shown first is the newer.
proof fn lemma_recent_order(sessions: Seq<Collector>, events: Seq<Event>, limit: nat, k: int, l: int)
    requires
        sessions_in_time_order(sessions),
        0 <= k < l < recent_sessions_spec(sessions, events, limit).len(),
    ensures
        recent_sessions_spec(sessions, events, limit)[k].0.created_at.unwrap() >= recent_sessions_spec(
            sessions,
            events,
            limit,
        )[l].0.created_at.unwrap(),
    decreases sessions.len(),
{
    if sessions.len() > 0 && limit > 0 {
        let d = sessions.drop_last();
        let c = sessions.last();
        let evs = last_events(events, c.id@, RECENT_LIMIT as nat);
        let rest = recent_sessions_spec(d, events, (limit - 1) as nat);
        let all = recent_sessions_spec(sessions, events, limit);
        assert(sessions_in_time_order(d)) by {
            assert forall|i: int| 0 <= i < d.len() implies (#[trigger] d[i]).created_at is Some by {
                assert(d[i] == sessions[i]);
            }
            assert forall|i: int, j: int| 0 <= i < j < d.len() implies (#[trigger] d[i]).created_at.unwrap()
                <= (#[trigger] d[j]).created_at.unwrap() by {
                assert(d[i] == sessions[i] && d[j] == sessions[j]);
            }
        }
        if evs.len() > 0 {
            assert(all[l] == rest[l - 1]);
            if k == 0 {
                lemma_recent_sessions_have_events(d, events, (limit - 1) as nat);
                let e = rest[l - 1].0;
                let j = choose|j: int| 0 <= j < d.len() && d[j] == e;
                assert(sessions[j] == e);
                assert(all[k].0 == sessions[sessions.len() - 1]);
            } else {
                assert(all[k] == rest[k - 1]);
                lemma_recent_order(d, events, (limit - 1) as nat, k - 1, l - 1);
            }
        } else {
            assert(all[k] == rest[k] && all[l] == rest[l]);
            lemma_recent_order(d, events, (limit - 1) as nat, k, l);
        }
    }
}

} // verus!
