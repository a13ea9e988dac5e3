//! Time-windowed aggregations over the event log and the sessions: counts,
//! per-minute and per-hour histograms, the weekly heatmap, traffic change
//! between periods, and the map feed.

use vstd::prelude::*;
use crate::models::{City, Collector, Event};
use crate::store::Store;
use crate::ranking::{is_ranking, key_views, rank, ranked_views};
use crate::tally::{is_tally, tally};
use crate::urls::{referrer_domain, referrer_domain_spec};

verus! {

pub const MINUTE: i64 = 60;
pub const HOUR: i64 = 3600;
pub const DAY: i64 = 86400;
pub const WEEK: i64 = 604800;

/// Events in one minute of the trailing day.
#[derive(Debug)]
pub struct FiveMinuteEventSummary {
    /// The minute, counted in whole minutes since the Unix epoch.
    pub interval: i64,
    pub count: i64,
}

/// Each summary as `(minute, count)`.
pub open spec fn minute_pairs(r: Seq<FiveMinuteEventSummary>) -> Seq<(i64, i64)> {
    Seq::new(r.len(), |k: int| (r[k].interval, r[k].count))
}

/// Events in one hour of the trailing day.
#[derive(Debug)]
pub struct HourlyEventSummary {
    /// The hour, counted in whole hours since the Unix epoch.
    pub hour: i64,
    pub count: i64,
}

/// Each summary as `(hour, count)`.
pub open spec fn hour_pairs(r: Seq<HourlyEventSummary>) -> Seq<(i64, i64)> {
    Seq::new(r.len(), |k: int| (r[k].hour, r[k].count))
}

/// Events in one (weekday, hour of day) cell of the trailing week.
#[derive(Debug)]
pub struct HourlyEventCounts {
    /// Day of the week, 0 for Sunday to 6 for Saturday.
    pub day: i32,
    /// Hour of the day, 0 to 23.
    pub hour: i32,
    pub count: i64,
}

/// Each cell as `(weekday * 24 + hour, count)`.
pub open spec fn cell_pairs(r: Seq<HourlyEventCounts>) -> Seq<(i64, i64)> {
    Seq::new(r.len(), |k: int| ((r[k].day * 24 + r[k].hour) as i64, r[k].count))
}

/// A snapshot of recent activity.
#[derive(Debug)]
pub struct EventCounts {
    pub sessions_in_last_twenty_four_hours: i64,
    pub events_in_last_twenty_four_hours: i64,
    pub events_in_last_hour: i64,
    pub events_in_last_five_minutes: i64,
}

/// Percent change of a count from one period to the next, kept exact:
/// `numerator / denominator` percent, or an infinite rise from nothing.
#[derive(Debug)]
pub enum PercentChange {
    Finite { numerator: i128, denominator: i64 },
    Infinite,
}

/// Traffic change between the latest period and the one before, for a day,
/// a week and a calendar month.
#[derive(Debug)]
pub struct PercentageChanges {
    pub day: PercentChange,
    pub week: PercentChange,
    pub month: PercentChange,
}

/// Sessions of the trailing week from one city, for the map.
#[derive(Debug)]
pub struct CityCollectorCount {
    pub city: String,
    pub city_id: i32,
    pub lat: Option<i32>,
    pub lng: Option<i32>,
    pub count: i64,
    /// The display hue is `hue_numerator / hue_denominator` degrees: 240
    /// scaled down by the city's share of the largest count, so that more
    /// sessions give a strictly lower hue.
    pub hue_numerator: i128,
    pub hue_denominator: i64,
}

/// Change from `previous` to `current`, in percent: `0` when both are zero,
/// infinite when only `previous` is, else `(current - previous) * 100 / previous`.
pub open spec fn percent_change_spec(current: i64, previous: i64) -> PercentChange {
    if previous == 0 {
        if current == 0 {
            PercentChange::Finite { numerator: 0, denominator: 1 }
        } else {
            PercentChange::Infinite
        }
    } else {
        PercentChange::Finite { numerator: ((current - previous) * 100) as i128, denominator: previous }
    }
}

/// Percent change from `previous` to `current` (see `percent_change_spec`).
pub fn percent_change(current: i64, previous: i64) -> (r: PercentChange)
    ensures
        r == percent_change_spec(current, previous),
{
    if previous == 0 {
        if current == 0 {
            PercentChange::Finite { numerator: 0, denominator: 1 }
        } else {
            PercentChange::Infinite
        }
    } else {
        PercentChange::Finite { numerator: (current as i128 - previous as i128) * 100, denominator: previous }
    }
}

/// Events created at or after `lo` and, if given, at or before `hi`.
pub open spec fn events_in(events: Seq<Event>, lo: int, hi: Option<int>) -> nat
    decreases events.len(),
{
    if events.len() == 0 {
        0
    } else {
        let t = events.last().created_at as int;
        events_in(events.drop_last(), lo, hi) + if lo <= t && (hi is None || t <= hi.unwrap()) {
            1nat
        } else {
            0nat
        }
    }
}

/// Sessions with a creation time at or after `lo`.
pub open spec fn sessions_since(sessions: Seq<Collector>, lo: int) -> nat
    decreases sessions.len(),
{
    if sessions.len() == 0 {
        0
    } else {
        sessions_since(sessions.drop_last(), lo) + match sessions.last().created_at {
            Some(t) => if lo <= t { 1nat } else { 0nat },
            None => 0nat,
        }
    }
}

fn count_events(events: &Vec<Event>, lo: i128, hi: Option<i128>) -> (r: i64)
    requires
        events@.len() <= i64::MAX,
    ensures
        r == events_in(events@, lo as int, match hi { Some(h) => Some(h as int), None => None }),
{
    let ghost h = match hi { Some(h) => Some(h as int), None => None::<int> };
    let mut n: i64 = 0;
    let mut i: usize = 0;
    while i < events.len()
        invariant
            i <= events@.len(),
            events@.len() <= i64::MAX,
            h == (match hi { Some(v) => Some(v as int), None => None::<int> }),
            n == events_in(events@.subrange(0, i as int), lo as int, h),
            n <= i,
        decreases events@.len() - i,
    {
        assert(events@.subrange(0, i + 1).drop_last() =~= events@.subrange(0, i as int));
        let t = events[i].created_at as i128;
        let inside = if lo <= t {
            match hi {
                Some(hv) => t <= hv,
                None => true,
            }
        } else {
            false
        };
        if inside {
            n = n + 1;
        }
        i = i + 1;
    }
    assert(events@.subrange(0, i as int) =~= events@);
    n
}

fn count_sessions_since(sessions: &Vec<Collector>, lo: i128) -> (r: i64)
    requires
        sessions@.len() <= i64::MAX,
    ensures
        r == sessions_since(sessions@, lo as int),
{
    let mut n: i64 = 0;
    let mut i: usize = 0;
    while i < sessions.len()
        invariant
            i <= sessions@.len(),
            sessions@.len() <= i64::MAX,
            n == sessions_since(sessions@.subrange(0, i as int), lo as int),
            n <= i,
        decreases sessions@.len() - i,
    {
        assert(sessions@.subrange(0, i + 1).drop_last() =~= sessions@.subrange(0, i as int));
        match sessions[i].created_at {
            Some(t) => {
                if lo <= t as i128 {
                    n = n + 1;
                }
            },
            None => {},
        }
        i = i + 1;
    }
    assert(sessions@.subrange(0, i as int) =~= sessions@);
    n
}

/// Sessions of the last 24 hours and events of the last 24 hours, hour and
/// five minutes, counted back from `now` (bounds included).
pub fn events(store: &Store, now: i64) -> (r: EventCounts)
    requires
        store.events().len() <= i64::MAX,
        store.collectors().len() <= i64::MAX,
    ensures
        r.sessions_in_last_twenty_four_hours == sessions_since(store.collectors(), now - DAY),
        r.events_in_last_twenty_four_hours == events_in(store.events(), now - DAY, None),
        r.events_in_last_hour == events_in(store.events(), now - HOUR, None),
        r.events_in_last_five_minutes == events_in(store.events(), now - 5 * MINUTE, None),
{
    let evs = store.events_table();
    let now = now as i128;
    EventCounts {
        sessions_in_last_twenty_four_hours: count_sessions_since(store.collectors_table(), now - DAY as i128),
        events_in_last_twenty_four_hours: count_events(evs, now - DAY as i128, None),
        events_in_last_hour: count_events(evs, now - HOUR as i128, None),
        events_in_last_five_minutes: count_events(evs, now - 5 * MINUTE as i128, None),
    }
}

/// The `width`-second bucket (counted from the epoch) of each event created
/// after `after`, in log order.
pub open spec fn bucket_keys(events: Seq<Event>, after: int, width: int) -> Seq<i64>
    decreases events.len(),
{
    if events.len() == 0 {
        Seq::empty()
    } else {
        let rest = bucket_keys(events.drop_last(), after, width);
        let t = events.last().created_at as int;
        if t > after {
            rest.push((t / width) as i64)
        } else {
            rest
        }
    }
}

fn collect_buckets(events: &Vec<Event>, after: i128, width: i64) -> (r: Vec<i64>)
    requires
        width >= 1,
    ensures
        r@ == bucket_keys(events@, after as int, width as int),
        r@.len() <= events@.len(),
{
    let mut out: Vec<i64> = Vec::new();
    let mut i: usize = 0;
    while i < events.len()
        invariant
            i <= events@.len(),
            width >= 1,
            out@ == bucket_keys(events@.subrange(0, i as int), after as int, width as int),
            out@.len() <= i,
        decreases events@.len() - i,
    {
        assert(events@.subrange(0, i + 1).drop_last() =~= events@.subrange(0, i as int));
        let t = events[i].created_at;
        if t as i128 > after {
            proof {
                lemma_div_fits(t, width);
            }
            let b = t.checked_div_euclid(width).unwrap();
            out.push(b);
        }
        i = i + 1;
    }
    assert(events@.subrange(0, i as int) =~= events@);
    out
}

proof fn lemma_div_fits(t: i64, width: i64)
    requires
        width >= 1,
    ensures
        i64::MIN <= t as int / width as int <= i64::MAX,
{
    let q = t as int / width as int;
    assert(t as int == q * width + t as int % (width as int) && 0 <= t as int % (width as int) < width) by (nonlinear_arith)
        requires
            width >= 1,
            q == t as int / width as int,
    ;
    if t >= 0 {
        assert(0 <= q <= t) by (nonlinear_arith)
            requires
                width >= 1,
                t >= 0,
                q == t as int / width as int,
        ;
    } else {
        assert(t <= q < 0) by (nonlinear_arith)
            requires
                width >= 1,
                t < 0,
                t as int == q * width + t as int % (width as int),
                0 <= t as int % (width as int) < width,
        ;
    }
}

/// Events of the trailing day (created after `now` minus a day) per minute,
/// minutes ascending.
pub fn five_minutes(store: &Store, now: i64) -> (r: Vec<FiveMinuteEventSummary>)
    requires
        store.events().len() <= i64::MAX,
    ensures
        is_tally(
            minute_pairs(r@),
            bucket_keys(store.events(), now - DAY, MINUTE as int),
        ),
{
    let keys = collect_buckets(store.events_table(), now as i128 - DAY as i128, MINUTE);
    let counts = tally(&keys);
    let mut out: Vec<FiveMinuteEventSummary> = Vec::new();
    let mut i: usize = 0;
    while i < counts.len()
        invariant
            i <= counts@.len(),
            out@.len() == i,
            forall|k: int| 0 <= k < i ==> (#[trigger] out@[k]).interval == counts@[k].0 && out@[k].count == counts@[k].1,
        decreases counts@.len() - i,
    {
        out.push(FiveMinuteEventSummary { interval: counts[i].0, count: counts[i].1 });
        i = i + 1;
    }
    assert(minute_pairs(out@) =~= counts@);
    out
}

/// Events of the trailing day (created after `now` minus a day) per hour,
/// hours ascending.
pub fn hourly(store: &Store, now: i64) -> (r: Vec<HourlyEventSummary>)
    requires
        store.events().len() <= i64::MAX,
    ensures
        is_tally(
            hour_pairs(r@),
            bucket_keys(store.events(), now - DAY, HOUR as int),
        ),
{
    let keys = collect_buckets(store.events_table(), now as i128 - DAY as i128, HOUR);
    let counts = tally(&keys);
    let mut out: Vec<HourlyEventSummary> = Vec::new();
    let mut i: usize = 0;
    while i < counts.len()
        invariant
            i <= counts@.len(),
            out@.len() == i,
            forall|k: int| 0 <= k < i ==> (#[trigger] out@[k]).hour == counts@[k].0 && out@[k].count == counts@[k].1,
        decreases counts@.len() - i,
    {
        out.push(HourlyEventSummary { hour: counts[i].0, count: counts[i].1 });
        i = i + 1;
    }
    assert(hour_pairs(out@) =~= counts@);
    out
}

/// Day of the week of time `t`, 0 for Sunday (the epoch fell on a Thursday).
pub open spec fn weekday_of(t: int) -> int {
    (t / DAY as int + 4) % 7
}

/// Hour of the day of time `t` (UTC).
pub open spec fn hour_of(t: int) -> int {
    (t % DAY as int) / HOUR as int
}

/// The heatmap cell of each event created at or after `since`, in log
/// order, as `weekday * 24 + hour`.
pub open spec fn cell_keys(events: Seq<Event>, since: int) -> Seq<i64>
    decreases events.len(),
{
    if events.len() == 0 {
        Seq::empty()
    } else {
        let rest = cell_keys(events.drop_last(), since);
        let t = events.last().created_at as int;
        if t >= since {
            rest.push((weekday_of(t) * 24 + hour_of(t)) as i64)
        } else {
            rest
        }
    }
}

/// Events of the trailing week (created at or after `now` minus seven days)
/// per weekday and hour of day.
pub fn weekly(store: &Store, now: i64) -> (r: Vec<HourlyEventCounts>)
    requires
        store.events().len() <= i64::MAX,
    ensures
        is_tally(
            cell_pairs(r@),
            cell_keys(store.events(), now - WEEK),
        ),
        forall|k: int| 0 <= k < r@.len() ==> 0 <= (#[trigger] r@[k]).day < 7 && 0 <= r@[k].hour < 24,
{
    let events = store.events_table();
    let since = now as i128 - WEEK as i128;
    let mut keys: Vec<i64> = Vec::new();
    let mut i: usize = 0;
    while i < events.len()
        invariant
            i <= events@.len(),
            events@ == store.events(),
            keys@ == cell_keys(events@.subrange(0, i as int), since as int),
            keys@.len() <= i,
            forall|k: int| 0 <= k < keys@.len() ==> 0 <= #[trigger] keys@[k] < 168,
        decreases events@.len() - i,
    {
        assert(events@.subrange(0, i + 1).drop_last() =~= events@.subrange(0, i as int));
        let t = events[i].created_at;
        if t as i128 >= since {
            proof {
                lemma_div_fits(t, DAY);
            }
            let days = t.checked_div_euclid(DAY).unwrap();
            let secs = t.checked_rem_euclid(DAY).unwrap();
            let d7 = days.checked_rem_euclid(7).unwrap();
            let weekday = (d7 + 4) % 7;
            proof {
                let dd = days as int;
                assert((dd % 7 + 4) % 7 == (dd + 4) % 7) by (nonlinear_arith);
                assert(0 <= secs < DAY);
                assert(0 <= secs / HOUR < 24);
            }
            let cell = weekday * 24 + secs / HOUR;
            keys.push(cell);
        }
        i = i + 1;
    }
    assert(events@.subrange(0, i as int) =~= events@);
    let counts = tally(&keys);
    let mut out: Vec<HourlyEventCounts> = Vec::new();
    let mut j: usize = 0;
    while j < counts.len()
        invariant
            j <= counts@.len(),
            is_tally(counts@, keys@),
            forall|k: int| 0 <= k < keys@.len() ==> 0 <= #[trigger] keys@[k] < 168,
            out@.len() == j,
            forall|k: int| 0 <= k < j ==> ((#[trigger] out@[k]).day * 24 + out@[k].hour) as i64 == counts@[k].0 && out@[k].count == counts@[k].1,
            forall|k: int| 0 <= k < out@.len() ==> 0 <= (#[trigger] out@[k]).day < 7 && 0 <= out@[k].hour < 24,
        decreases counts@.len() - j,
    {
        let (cell, count) = counts[j];
        proof {
            crate::tally::lemma_count_bounds(keys@, cell);
        }
        let day = (cell / 24) as i32;
        let hour = (cell % 24) as i32;
        out.push(HourlyEventCounts { day, hour, count });
        j = j + 1;
    }
    assert(cell_pairs(out@) =~= counts@);
    out
}

/// The same UTC time `months` calendar months earlier, or `None` out of range.
pub uninterp spec fn months_earlier(t: i64, months: u32) -> Option<i64>;

/// Relies on chrono's `DateTime::from_timestamp`, `DateTime::checked_sub_months`
/// (the last day of the month where the day does not exist; `None` out of
/// range) and `DateTime::timestamp`.
#[verifier::external_body]
fn sub_months(t: i64, months: u32) -> (r: Option<i64>)
    ensures
        r == months_earlier(t, months),
{
    chrono::DateTime::from_timestamp(t, 0)
        .and_then(|d| d.checked_sub_months(chrono::Months::new(months)))
        .map(|d| d.timestamp())
}

/// Change from the period that starts at `previous_start` and ends at
/// `current_start` (both included) to the one from `current_start` on.
pub open spec fn period_change(events: Seq<Event>, current_start: int, previous_start: int) -> PercentChange {
    percent_change_spec(
        events_in(events, current_start, None) as i64,
        events_in(events, previous_start, Some(current_start)) as i64,
    )
}

/// Traffic change for a period that starts at `current_start` and follows
/// one that starts at `previous_start` (see `period_change`).
pub fn change_between(store: &Store, current_start: i128, previous_start: i128) -> (r: PercentChange)
    requires
        store.events().len() <= i64::MAX,
    ensures
        r == period_change(store.events(), current_start as int, previous_start as int),
{
    let events = store.events_table();
    let current = count_events(events, current_start, None);
    let previous = count_events(events, previous_start, Some(current_start));
    percent_change(current, previous)
}

/// Traffic change over the last day, week and calendar month against the
/// period before each; a month that cannot be placed on the calendar
/// counts as no change.
pub fn percentages(store: &Store, now: i64) -> (r: PercentageChanges)
    requires
        store.events().len() <= i64::MAX,
    ensures
        r.day == period_change(store.events(), now - DAY, now - 2 * DAY),
        r.week == period_change(store.events(), now - WEEK, now - 2 * WEEK),
        r.month == (match (months_earlier(now, 1), months_earlier(now, 2)) {
            (Some(c), Some(p)) => period_change(store.events(), c as int, p as int),
            _ => PercentChange::Finite { numerator: 0, denominator: 1 },
        }),
{
    let n = now as i128;
    let day = change_between(store, n - DAY as i128, n - 2 * DAY as i128);
    let week = change_between(store, n - WEEK as i128, n - 2 * WEEK as i128);
    let month = match (sub_months(now, 1), sub_months(now, 2)) {
        (Some(c), Some(p)) => change_between(store, c as i128, p as i128),
        _ => PercentChange::Finite { numerator: 0, denominator: 1 },
    };
    PercentageChanges { day, week, month }
}

/// How many entries a top-N ranking holds.
pub const TOP_LIMIT: usize = 25;

/// A URL and how many events of the trailing week it had.
#[derive(Debug)]
pub struct UrlEventCount {
    pub url: String,
    pub count: i64,
}

/// A browser and how many sessions of the trailing week used it.
#[derive(Debug)]
pub struct BrowserVisitCount {
    pub browser: String,
    pub count: i64,
}

/// An operating system and browser pair and how many sessions of the
/// trailing week used it.
#[derive(Debug)]
pub struct OsBrowserVisitCount {
    pub os: String,
    pub browser: String,
    pub count: i64,
}

/// A referrer domain and how many events of the trailing week it brought.
#[derive(Debug)]
pub struct ReferrerCount {
    pub domain: String,
    pub count: i64,
}

/// The URL of each event created after `after`, in log order.
pub open spec fn url_keys(events: Seq<Event>, after: int) -> Seq<Seq<Seq<char>>>
    decreases events.len(),
{
    if events.len() == 0 {
        Seq::empty()
    } else {
        let rest = url_keys(events.drop_last(), after);
        let e = events.last();
        if e.created_at > after {
            rest.push(seq![e.url@])
        } else {
            rest
        }
    }
}

/// The referrer domain of each event created after `after`, in log order.
pub open spec fn referrer_keys(events: Seq<Event>, after: int) -> Seq<Seq<Seq<char>>>
    decreases events.len(),
{
    if events.len() == 0 {
        Seq::empty()
    } else {
        let rest = referrer_keys(events.drop_last(), after);
        let e = events.last();
        if e.created_at > after {
            rest.push(seq![referrer_domain_spec(match e.referrer { Some(r) => Some(r@), None => None })])
        } else {
            rest
        }
    }
}

/// The browser of each session created after `after` that has one.
pub open spec fn browser_keys(sessions: Seq<Collector>, after: int) -> Seq<Seq<Seq<char>>>
    decreases sessions.len(),
{
    if sessions.len() == 0 {
        Seq::empty()
    } else {
        let rest = browser_keys(sessions.drop_last(), after);
        let c = sessions.last();
        match (c.created_at, c.browser) {
            (Some(t), Some(b)) => if t > after { rest.push(seq![b@]) } else { rest },
            _ => rest,
        }
    }
}

/// The (OS, browser) pair of each session created after `after` that has both.
pub open spec fn os_browser_keys(sessions: Seq<Collector>, after: int) -> Seq<Seq<Seq<char>>>
    decreases sessions.len(),
{
    if sessions.len() == 0 {
        Seq::empty()
    } else {
        let rest = os_browser_keys(sessions.drop_last(), after);
        let c = sessions.last();
        match (c.created_at, c.os, c.browser) {
            (Some(t), Some(o), Some(b)) => if t > after { rest.push(seq![o@, b@]) } else { rest },
            _ => rest,
        }
    }
}

pub open spec fn url_ranking(r: Seq<UrlEventCount>) -> Seq<(Seq<Seq<char>>, i64)> {
    Seq::new(r.len(), |i: int| (seq![r[i].url@], r[i].count))
}

pub open spec fn browser_ranking(r: Seq<BrowserVisitCount>) -> Seq<(Seq<Seq<char>>, i64)> {
    Seq::new(r.len(), |i: int| (seq![r[i].browser@], r[i].count))
}

pub open spec fn os_browser_ranking(r: Seq<OsBrowserVisitCount>) -> Seq<(Seq<Seq<char>>, i64)> {
    Seq::new(r.len(), |i: int| (seq![r[i].os@, r[i].browser@], r[i].count))
}

pub open spec fn referrer_ranking(r: Seq<ReferrerCount>) -> Seq<(Seq<Seq<char>>, i64)> {
    Seq::new(r.len(), |i: int| (seq![r[i].domain@], r[i].count))
}

/// The 25 most visited URLs of the trailing week (events created after `now`
/// minus seven days), most visited first.
pub fn urls(store: &Store, now: i64) -> (r: Vec<UrlEventCount>)
    requires
        store.events().len() <= i64::MAX,
    ensures
        is_ranking(url_ranking(r@), url_keys(store.events(), now - WEEK), TOP_LIMIT as nat),
{
    let events = store.events_table();
    let after = now as i128 - WEEK as i128;
    let mut keys: Vec<String> = Vec::new();
    let mut i: usize = 0;
    while i < events.len()
        invariant
            i <= events@.len(),
            events@ == store.events(),
            key_views(keys@) == url_keys(events@.subrange(0, i as int), after as int),
            keys@.len() <= i,
        decreases events@.len() - i,
    {
        assert(events@.subrange(0, i + 1).drop_last() =~= events@.subrange(0, i as int));
        let e = &events[i];
        if e.created_at as i128 > after {
            let ghost before = keys@;
            keys.push(e.url.clone());
            assert(key_views(keys@) =~= key_views(before).push(seq![e.url@]));
        }
        i = i + 1;
    }
    assert(events@.subrange(0, i as int) =~= events@);
    let ranked = rank(&keys, TOP_LIMIT);
    let mut out: Vec<UrlEventCount> = Vec::new();
    let mut j: usize = 0;
    while j < ranked.len()
        invariant
            j <= ranked@.len(),
            out@.len() == j,
            forall|k: int| 0 <= k < j ==> (#[trigger] out@[k]).url == ranked@[k].0 && out@[k].count == ranked@[k].1,
        decreases ranked@.len() - j,
    {
        out.push(UrlEventCount { url: ranked[j].0.clone(), count: ranked[j].1 });
        j = j + 1;
    }
    assert(url_ranking(out@) =~= ranked_views(ranked@));
    out
}

/// The 25 most frequent referrer domains of the trailing week (events
/// created after `now` minus seven days), most frequent first.
pub fn referrers(store: &Store, now: i64) -> (r: Vec<ReferrerCount>)
    requires
        store.events().len() <= i64::MAX,
    ensures
        is_ranking(referrer_ranking(r@), referrer_keys(store.events(), now - WEEK), TOP_LIMIT as nat),
{
    let events = store.events_table();
    let after = now as i128 - WEEK as i128;
    let mut keys: Vec<String> = Vec::new();
    let mut i: usize = 0;
    while i < events.len()
        invariant
            i <= events@.len(),
            events@ == store.events(),
            key_views(keys@) == referrer_keys(events@.subrange(0, i as int), after as int),
            keys@.len() <= i,
        decreases events@.len() - i,
    {
        assert(events@.subrange(0, i + 1).drop_last() =~= events@.subrange(0, i as int));
        let e = &events[i];
        if e.created_at as i128 > after {
            let domain = match &e.referrer {
                Some(r) => referrer_domain(Some(r.as_str())),
                None => referrer_domain(None),
            };
            let ghost before = keys@;
            let ghost dv = domain@;
            keys.push(domain);
            assert(key_views(keys@) =~= key_views(before).push(seq![dv]));
        }
        i = i + 1;
    }
    assert(events@.subrange(0, i as int) =~= events@);
    let ranked = rank(&keys, TOP_LIMIT);
    let mut out: Vec<ReferrerCount> = Vec::new();
    let mut j: usize = 0;
    while j < ranked.len()
        invariant
            j <= ranked@.len(),
            out@.len() == j,
            forall|k: int| 0 <= k < j ==> (#[trigger] out@[k]).domain == ranked@[k].0 && out@[k].count == ranked@[k].1,
        decreases ranked@.len() - j,
    {
        out.push(ReferrerCount { domain: ranked[j].0.clone(), count: ranked[j].1 });
        j = j + 1;
    }
    assert(referrer_ranking(out@) =~= ranked_views(ranked@));
    out
}

/// The 25 most used browsers among sessions of the trailing week (created
/// after `now` minus seven days, browser known), most used first.
pub fn browsers(store: &Store, now: i64) -> (r: Vec<BrowserVisitCount>)
    requires
        store.collectors().len() <= i64::MAX,
    ensures
        is_ranking(browser_ranking(r@), browser_keys(store.collectors(), now - WEEK), TOP_LIMIT as nat),
{
    let sessions = store.collectors_table();
    let after = now as i128 - WEEK as i128;
    let mut keys: Vec<String> = Vec::new();
    let mut i: usize = 0;
    while i < sessions.len()
        invariant
            i <= sessions@.len(),
            sessions@ == store.collectors(),
            key_views(keys@) == browser_keys(sessions@.subrange(0, i as int), after as int),
            keys@.len() <= i,
        decreases sessions@.len() - i,
    {
        assert(sessions@.subrange(0, i + 1).drop_last() =~= sessions@.subrange(0, i as int));
        let c = &sessions[i];
        match (c.created_at, &c.browser) {
            (Some(t), Some(b)) => {
                if t as i128 > after {
                    let ghost before = keys@;
                    keys.push(b.clone());
                    assert(key_views(keys@) =~= key_views(before).push(seq![b@]));
                }
            },
            _ => {},
        }
        i = i + 1;
    }
    assert(sessions@.subrange(0, i as int) =~= sessions@);
    let ranked = rank(&keys, TOP_LIMIT);
    let mut out: Vec<BrowserVisitCount> = Vec::new();
    let mut j: usize = 0;
    while j < ranked.len()
        invariant
            j <= ranked@.len(),
            out@.len() == j,
            forall|k: int| 0 <= k < j ==> (#[trigger] out@[k]).browser == ranked@[k].0 && out@[k].count == ranked@[k].1,
        decreases ranked@.len() - j,
    {
        out.push(BrowserVisitCount { browser: ranked[j].0.clone(), count: ranked[j].1 });
        j = j + 1;
    }
    assert(browser_ranking(out@) =~= ranked_views(ranked@));
    out
}

/// The 25 most used (OS, browser) pairs among sessions of the trailing week
/// (created after `now` minus seven days, both known), most used first.
pub fn os_browsers(store: &Store, now: i64) -> (r: Vec<OsBrowserVisitCount>)
    requires
        store.collectors().len() <= i64::MAX,
    ensures
        is_ranking(os_browser_ranking(r@), os_browser_keys(store.collectors(), now - WEEK), TOP_LIMIT as nat),
{
    let sessions = store.collectors_table();
    let after = now as i128 - WEEK as i128;
    let mut keys: Vec<(String, String)> = Vec::new();
    let mut i: usize = 0;
    while i < sessions.len()
        invariant
            i <= sessions@.len(),
            sessions@ == store.collectors(),
            key_views(keys@) == os_browser_keys(sessions@.subrange(0, i as int), after as int),
            keys@.len() <= i,
        decreases sessions@.len() - i,
    {
        assert(sessions@.subrange(0, i + 1).drop_last() =~= sessions@.subrange(0, i as int));
        let c = &sessions[i];
        match (c.created_at, &c.os, &c.browser) {
            (Some(t), Some(o), Some(b)) => {
                if t as i128 > after {
                    let ghost before = keys@;
                    keys.push((o.clone(), b.clone()));
                    assert(key_views(keys@) =~= key_views(before).push(seq![o@, b@]));
                }
            },
            _ => {},
        }
        i = i + 1;
    }
    assert(sessions@.subrange(0, i as int) =~= sessions@);
    let ranked = rank(&keys, TOP_LIMIT);
    let mut out: Vec<OsBrowserVisitCount> = Vec::new();
    let mut j: usize = 0;
    while j < ranked.len()
        invariant
            j <= ranked@.len(),
            out@.len() == j,
            forall|k: int| 0 <= k < j ==> (#[trigger] out@[k]).os == ranked@[k].0.0 && out@[k].browser == ranked@[k].0.1 && out@[k].count == ranked@[k].1,
        decreases ranked@.len() - j,
    {
        out.push(OsBrowserVisitCount { os: ranked[j].0.0.clone(), browser: ranked[j].0.1.clone(), count: ranked[j].1 });
        j = j + 1;
    }
    assert(os_browser_ranking(out@) =~= ranked_views(ranked@));
    out
}

/// The city of each session created at or after `since`, in creation order.
pub open spec fn session_city_keys(sessions: Seq<Collector>, since: int) -> Seq<i64>
    decreases sessions.len(),
{
    if sessions.len() == 0 {
        Seq::empty()
    } else {
        let rest = session_city_keys(sessions.drop_last(), since);
        let c = sessions.last();
        match c.created_at {
            Some(t) => if t >= since { rest.push(c.city_id as i64) } else { rest },
            None => rest,
        }
    }
}

/// The largest count of a tally, 0 when it is empty.
pub open spec fn max_count(t: Seq<(i64, i64)>) -> int
    decreases t.len(),
{
    if t.len() == 0 {
        0
    } else {
        let m = max_count(t.drop_last());
        if t.last().1 > m { t.last().1 as int } else { m }
    }
}

/// Each map entry as `(city id, count)`.
pub open spec fn city_pairs(r: Seq<CityCollectorCount>) -> Seq<(i64, i64)> {
    Seq::new(r.len(), |k: int| (r[k].city_id as i64, r[k].count))
}

/// Sessions of the trailing week (created at or after `now` minus seven
/// days) per city, cities by id, each with its name, coordinates and hue.
pub fn map(store: &Store, now: i64) -> (r: Vec<CityCollectorCount>)
    requires
        store.wf(),
        store.collectors().len() <= i64::MAX,
    ensures
        is_tally(city_pairs(r@), session_city_keys(store.collectors(), now - WEEK)),
        forall|k: int| 0 <= k < r@.len() ==> {
            let e = #[trigger] r@[k];
            let c = store.cities()[e.city_id - 1];
            &&& 1 <= e.city_id <= store.cities().len()
            &&& e.city@ == c.name@
            &&& e.lat == c.latitude
            &&& e.lng == c.longitude
            &&& e.hue_denominator == max_count(city_pairs(r@))
            &&& e.hue_numerator == 240 * (max_count(city_pairs(r@)) - e.count)
        },
{
    let sessions = store.collectors_table();
    let cities = store.cities_table();
    let since = now as i128 - WEEK as i128;
    let mut keys: Vec<i64> = Vec::new();
    let mut i: usize = 0;
    while i < sessions.len()
        invariant
            i <= sessions@.len(),
            store.wf(),
            sessions@ == store.collectors(),
            cities@ == store.cities(),
            keys@ == session_city_keys(sessions@.subrange(0, i as int), since as int),
            keys@.len() <= i,
            forall|k: int| 0 <= k < keys@.len() ==> 1 <= #[trigger] keys@[k] <= cities@.len(),
        decreases sessions@.len() - i,
    {
        assert(sessions@.subrange(0, i + 1).drop_last() =~= sessions@.subrange(0, i as int));
        let c = &sessions[i];
        match c.created_at {
            Some(t) => {
                if t as i128 >= since {
                    assert(1 <= sessions@[i as int].city_id <= cities@.len());
                    keys.push(c.city_id as i64);
                }
            },
            None => {},
        }
        i = i + 1;
    }
    assert(sessions@.subrange(0, i as int) =~= sessions@);
    let counts = tally(&keys);
    let mut most: i64 = 0;
    let mut j: usize = 0;
    while j < counts.len()
        invariant
            j <= counts@.len(),
            most == max_count(counts@.subrange(0, j as int)),
            most >= 0,
        decreases counts@.len() - j,
    {
        assert(counts@.subrange(0, j + 1).drop_last() =~= counts@.subrange(0, j as int));
        if counts[j].1 > most {
            most = counts[j].1;
        }
        j = j + 1;
    }
    assert(counts@.subrange(0, j as int) =~= counts@);
    let mut out: Vec<CityCollectorCount> = Vec::new();
    let mut k: usize = 0;
    while k < counts.len()
        invariant
            k <= counts@.len(),
            store.wf(),
            cities@ == store.cities(),
            is_tally(counts@, keys@),
            forall|t: int| 0 <= t < keys@.len() ==> 1 <= #[trigger] keys@[t] <= cities@.len(),
            most == max_count(counts@),
            out@.len() == k,
            forall|t: int| 0 <= t < k ==> {
                let e = #[trigger] out@[t];
                let c = cities@[e.city_id - 1];
                &&& e.city_id as i64 == counts@[t].0
                &&& e.count == counts@[t].1
                &&& 1 <= e.city_id <= cities@.len()
                &&& e.city@ == c.name@
                &&& e.lat == c.latitude
                &&& e.lng == c.longitude
                &&& e.hue_denominator == most
                &&& e.hue_numerator == 240 * (most - e.count)
            },
        decreases counts@.len() - k,
    {
        let (id, count) = counts[k];
        proof {
            crate::tally::lemma_count_bounds(keys@, id);
            let m = choose|m: int| 0 <= m < keys@.len() && keys@[m] == id;
            assert(1 <= keys@[m] <= cities@.len());
        }
        let city = &cities[(id - 1) as usize];
        out.push(CityCollectorCount {
            city: city.name.clone(),
            city_id: id as i32,
            lat: city.latitude,
            lng: city.longitude,
            count,
            hue_numerator: 240 * (most as i128 - count as i128),
            hue_denominator: most,
        });
        k = k + 1;
    }
    assert(city_pairs(out@) =~= counts@);
    out
}

} // verus!
