use website_stats::models::{City, CityQuery, CollectorQuery, EventQuery};
use website_stats::store::Store;
use website_stats::summary::{
    browsers, change_between, events, five_minutes, hourly, os_browsers, percent_change, percentages, referrers,
    urls, weekly, PercentChange, DAY, WEEK,
};

const NOW: i64 = 1_700_000_000;

fn as_f64(change: &PercentChange) -> f64 {
    match change {
        PercentChange::Finite { numerator, denominator } => *numerator as f64 / *denominator as f64,
        PercentChange::Infinite => f64::INFINITY,
    }
}

fn store_with_session() -> Store {
    let mut store = Store::new();
    let city = City::from_query(CityQuery { name: "Austin".to_string(), country: "USA".to_string() });
    store.find_or_create(city, &None, 0).unwrap();
    let q = CollectorQuery { origin: "ip".to_string(), city_id: 1, os: None, browser: None };
    store.create_session_with(q, "S".to_string(), NOW).unwrap();
    store
}

fn add_event(store: &mut Store, id: &str, url: &str, referrer: Option<&str>, at: i64) {
    let q = EventQuery {
        url: url.to_string(),
        referrer: referrer.map(|r| r.to_string()),
        name: "pageview".to_string(),
        collector_id: "S".to_string(),
    };
    store.insert_event_with(q, id.to_string(), at).unwrap();
}

#[test]
fn percent_change_from_nothing() {
    assert_eq!(as_f64(&percent_change(0, 0)), 0.0);
    assert!(matches!(percent_change(0, 0), PercentChange::Finite { numerator: 0, denominator: 1 }));
    assert_eq!(as_f64(&percent_change(5, 0)), f64::INFINITY);
    assert!(matches!(percent_change(5, 0), PercentChange::Infinite));
}

#[test]
fn percent_change_of_a_rise() {
    assert_eq!(as_f64(&percent_change(150, 100)), 50.0);
    assert!(matches!(percent_change(150, 100), PercentChange::Finite { numerator: 5000, denominator: 100 }));
}

#[test]
fn percent_change_of_a_fall() {
    assert_eq!(as_f64(&percent_change(25, 100)), -75.0);
    assert_eq!(as_f64(&percent_change(0, 4)), -100.0);
}

#[test]
fn event_counts_by_window() {
    let mut store = Store::new();
    let city = City::from_query(CityQuery { name: "Austin".to_string(), country: "USA".to_string() });
    store.find_or_create(city, &None, 0).unwrap();
    let old = CollectorQuery { origin: "old".to_string(), city_id: 1, os: None, browser: None };
    store.create_session_with(old, "OLD".to_string(), NOW - 2 * DAY).unwrap();
    let q = CollectorQuery { origin: "ip".to_string(), city_id: 1, os: None, browser: None };
    store.create_session_with(q, "S".to_string(), NOW).unwrap();
    add_event(&mut store, "e", "https://e.com/a", None, NOW - DAY - 1);
    add_event(&mut store, "d", "https://e.com/a", None, NOW - DAY);
    add_event(&mut store, "c", "https://e.com/a", None, NOW - 7200);
    add_event(&mut store, "b", "https://e.com/a", None, NOW - 1000);
    add_event(&mut store, "a", "https://e.com/a", None, NOW - 10);
    let counts = events(&store, NOW);
    assert_eq!(counts.sessions_in_last_twenty_four_hours, 1);
    assert_eq!(counts.events_in_last_twenty_four_hours, 4);
    assert_eq!(counts.events_in_last_hour, 2);
    assert_eq!(counts.events_in_last_five_minutes, 1);
}

#[test]
fn per_minute_histogram() {
    let mut store = store_with_session();
    add_event(&mut store, "d", "https://e.com/a", None, NOW - DAY);
    add_event(&mut store, "b", "https://e.com/a", None, NOW - 30);
    add_event(&mut store, "c", "https://e.com/a", None, NOW - 20);
    add_event(&mut store, "a", "https://e.com/a", None, NOW - 10);
    let rows = five_minutes(&store, NOW);
    let got: Vec<(i64, i64)> = rows.iter().map(|r| (r.interval, r.count)).collect();
    assert_eq!(got, vec![(NOW / 60 - 1, 1), (NOW / 60, 2)]);
}

#[test]
fn per_hour_histogram() {
    let mut store = store_with_session();
    add_event(&mut store, "d", "https://e.com/a", None, NOW - 2 * DAY);
    add_event(&mut store, "b", "https://e.com/a", None, NOW - 3 * 3600);
    add_event(&mut store, "c", "https://e.com/a", None, NOW - 1);
    add_event(&mut store, "a", "https://e.com/a", None, NOW);
    let rows = hourly(&store, NOW);
    let got: Vec<(i64, i64)> = rows.iter().map(|r| (r.hour, r.count)).collect();
    assert_eq!(got, vec![(NOW / 3600 - 3, 1), (NOW / 3600, 2)]);
}

#[test]
fn weekly_heatmap_cells() {
    let mut store = store_with_session();
    add_event(&mut store, "d", "https://e.com/a", None, NOW - WEEK - 1);
    add_event(&mut store, "c", "https://e.com/a", None, NOW - 2 * DAY);
    add_event(&mut store, "b", "https://e.com/a", None, NOW - 60);
    add_event(&mut store, "a", "https://e.com/a", None, NOW);
    let rows = weekly(&store, NOW);
    let got: Vec<(i32, i32, i64)> = rows.iter().map(|r| (r.day, r.hour, r.count)).collect();
    assert_eq!(got, vec![(0, 22, 1), (2, 22, 2)]);
}

#[test]
fn traffic_change_per_period() {
    let mut store = store_with_session();
    add_event(&mut store, "e", "https://e.com/a", None, NOW - DAY - 20);
    add_event(&mut store, "d", "https://e.com/a", None, NOW - DAY - 10);
    add_event(&mut store, "c", "https://e.com/a", None, NOW - 30);
    add_event(&mut store, "b", "https://e.com/a", None, NOW - 20);
    add_event(&mut store, "a", "https://e.com/a", None, NOW - 10);
    let changes = percentages(&store, NOW);
    assert_eq!(as_f64(&changes.day), 50.0);
    assert!(matches!(changes.week, PercentChange::Infinite));
    assert!(matches!(changes.month, PercentChange::Infinite));
    let none = Store::new();
    let flat = percentages(&none, NOW);
    assert_eq!(as_f64(&flat.day), 0.0);
    assert_eq!(as_f64(&flat.month), 0.0);
}

#[test]
fn change_between_counts_both_bounds_of_the_earlier_period() {
    let mut store = store_with_session();
    add_event(&mut store, "a", "https://e.com/a", None, 100);
    add_event(&mut store, "b", "https://e.com/a", None, 200);
    add_event(&mut store, "c", "https://e.com/a", None, 250);
    let change = change_between(&store, 200, 100);
    assert!(matches!(change, PercentChange::Finite { numerator: 0, denominator: 2 }));
}

#[test]
fn top_urls_most_visited_first() {
    let mut store = store_with_session();
    add_event(&mut store, "g", "https://e.com/old", None, NOW - WEEK);
    add_event(&mut store, "f", "https://e.com/c?x=1", None, NOW - 6);
    add_event(&mut store, "e", "https://e.com/c", None, NOW - 5);
    add_event(&mut store, "d", "https://e.com/c", None, NOW - 4);
    add_event(&mut store, "c", "https://e.com/b/", None, NOW - 3);
    add_event(&mut store, "b", "https://e.com/b", None, NOW - 2);
    add_event(&mut store, "a", "https://e.com/a", None, NOW - 1);
    let top = urls(&store, NOW);
    let got: Vec<(&str, i64)> = top.iter().map(|u| (u.url.as_str(), u.count)).collect();
    assert_eq!(got, vec![("https://e.com/c", 3), ("https://e.com/b", 2), ("https://e.com/a", 1)]);
}

#[test]
fn top_urls_hold_at_most_twenty_five() {
    let mut store = store_with_session();
    for i in 0..30 {
        for j in 0..=i {
            add_event(&mut store, &format!("{i}-{j}"), &format!("https://e.com/{i}"), None, NOW - 1);
        }
    }
    let top = urls(&store, NOW);
    assert_eq!(top.len(), 25);
    assert_eq!(top[0].url, "https://e.com/29");
    assert_eq!(top[0].count, 30);
    assert_eq!(top[24].url, "https://e.com/5");
    assert_eq!(top[24].count, 6);
}

#[test]
fn top_referrers_by_domain() {
    let mut store = store_with_session();
    add_event(&mut store, "d", "https://e.com/a", None, NOW - 4);
    add_event(&mut store, "c", "https://e.com/a", Some("https://google.com/search"), NOW - 3);
    add_event(&mut store, "b", "https://e.com/a", Some(""), NOW - 2);
    add_event(&mut store, "a", "https://e.com/a", None, NOW - 1);
    let top = referrers(&store, NOW);
    let got: Vec<(&str, i64)> = top.iter().map(|r| (r.domain.as_str(), r.count)).collect();
    assert_eq!(got, vec![("direct", 3), ("google.com/search", 1)]);
}

#[test]
fn top_browsers_and_pairs() {
    let mut store = store_with_session();
    let agents = [
        (Some("Linux"), Some("Firefox")),
        (Some("Linux"), Some("Firefox")),
        (Some("Windows"), Some("Firefox")),
        (None, Some("Chrome")),
        (Some("MacOS"), None),
    ];
    for (i, (os, browser)) in agents.iter().enumerate() {
        let q = CollectorQuery {
            origin: "ip".to_string(),
            city_id: 1,
            os: os.map(|s| s.to_string()),
            browser: browser.map(|s| s.to_string()),
        };
        store.create_session_with(q, format!("V{i}"), NOW - 10).unwrap();
    }
    let top = browsers(&store, NOW);
    let got: Vec<(&str, i64)> = top.iter().map(|b| (b.browser.as_str(), b.count)).collect();
    assert_eq!(got, vec![("Firefox", 3), ("Chrome", 1)]);
    let pairs = os_browsers(&store, NOW);
    let got: Vec<(&str, &str, i64)> = pairs.iter().map(|p| (p.os.as_str(), p.browser.as_str(), p.count)).collect();
    assert_eq!(got, vec![("Linux", "Firefox", 2), ("Windows", "Firefox", 1)]);
}

#[test]
fn map_counts_sessions_per_city() {
    let mut store = Store::new();
    let mut austin = City::from_query(CityQuery { name: "Austin".to_string(), country: "USA".to_string() });
    austin.latitude = Some(30_267_100);
    austin.longitude = Some(-97_743_100);
    store.find_or_create(austin, &None, 0).unwrap();
    let lima = City::from_query(CityQuery { name: "Lima".to_string(), country: "Peru".to_string() });
    store.find_or_create(lima, &None, 0).unwrap();
    let q = CollectorQuery { origin: "ip".to_string(), city_id: 1, os: None, browser: None };
    store.create_session_with(q, "OLD".to_string(), NOW - WEEK - 1).unwrap();
    for (i, city_id) in [2, 1, 2, 2, 1].iter().enumerate() {
        let q = CollectorQuery { origin: "ip".to_string(), city_id: *city_id, os: None, browser: None };
        store.create_session_with(q, format!("V{i}"), NOW - 100).unwrap();
    }
    let points = website_stats::summary::map(&store, NOW);
    assert_eq!(points.len(), 2);
    assert_eq!(points[0].city, "austin");
    assert_eq!(points[0].lat, Some(30_267_100));
    assert_eq!(points[0].count, 2);
    assert_eq!(points[0].hue_numerator, 240);
    assert_eq!(points[0].hue_denominator, 3);
    assert_eq!(points[1].city, "lima");
    assert_eq!(points[1].lat, None);
    assert_eq!(points[1].count, 3);
    assert_eq!(points[1].hue_numerator, 0);
    let hue_austin = points[0].hue_numerator as f64 / points[0].hue_denominator as f64;
    assert_eq!(hue_austin, 80.0);
}
