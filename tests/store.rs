use website_stats::agent::UserAgentInfo;
use website_stats::models::{City, CityQuery, CollectorQuery, EventQuery, EventRequest};
use website_stats::store::{Store, StoreError};

fn city(name: &str, country: &str) -> City {
    City::from_query(CityQuery { name: name.to_string(), country: country.to_string() })
}

fn session(city_id: i32) -> CollectorQuery {
    CollectorQuery {
        origin: "203.0.113.9".to_string(),
        city_id,
        os: Some("Linux".to_string()),
        browser: Some("Firefox".to_string()),
    }
}

fn event(url: &str, collector_id: &str) -> EventQuery {
    EventQuery {
        url: url.to_string(),
        referrer: None,
        name: "pageview".to_string(),
        collector_id: collector_id.to_string(),
    }
}

#[test]
fn find_or_create_ignores_case() {
    let mut store = Store::new();
    let first = store.find_or_create(city("Austin", "USA"), &None, 100).unwrap();
    let second = store.find_or_create(city("AUSTIN", "usa"), &None, 200).unwrap();
    assert_eq!(first, second);
    assert_eq!(store.cities_table().len(), 1);
    let stored = &store.cities_table()[0];
    assert_eq!(stored.name, "austin");
    assert_eq!(stored.country, "usa");
    assert_eq!(stored.id, Some(first));
    assert_eq!(stored.created_at, Some(100));
}

#[test]
fn new_cities_get_consecutive_ids() {
    let mut store = Store::new();
    assert_eq!(store.find_or_create(city("Austin", "USA"), &None, 1).unwrap(), 1);
    assert_eq!(store.find_or_create(city("Paris", "France"), &None, 2).unwrap(), 2);
    assert_eq!(store.find_or_create(city("paris", "FRANCE"), &None, 3).unwrap(), 2);
    assert_eq!(store.find_or_create(city("Paris", "USA"), &None, 4).unwrap(), 3);
}

#[test]
fn missing_coordinates_come_from_the_lookup() {
    let mut store = Store::new();
    let mut located = city("Austin", "USA");
    located.latitude = Some(30_267_100);
    located.longitude = Some(-97_743_100);
    let mut candidate = city("Austin", "USA");
    candidate.longitude = Some(5);
    store.find_or_create(candidate, &Some(located), 9).unwrap();
    let stored = &store.cities_table()[0];
    assert_eq!(stored.latitude, Some(30_267_100));
    assert_eq!(stored.longitude, Some(5));
}

#[test]
fn find_by_name_and_country_lowercases() {
    let mut store = Store::new();
    store.find_or_create(city("Austin", "USA"), &None, 1).unwrap();
    let found = store.find_by_name_and_country("AuStIn", "UsA").unwrap();
    assert_eq!(found.id, Some(1));
    assert!(store.find_by_name_and_country("Dallas", "USA").is_none());
}

#[test]
fn session_needs_a_stored_city() {
    let mut store = Store::new();
    let r = store.create_session_with(session(1), "S1".to_string(), 10);
    assert!(matches!(r, Err(StoreError::UnknownCity)));
    store.find_or_create(city("Austin", "USA"), &None, 1).unwrap();
    assert_eq!(store.create_session_with(session(1), "S1".to_string(), 10).unwrap(), "S1");
    let again = store.create_session_with(session(1), "S1".to_string(), 11);
    assert!(matches!(again, Err(StoreError::DuplicateId)));
    assert_eq!(store.collectors_table().len(), 1);
}

#[test]
fn generated_session_ids_are_ulids() {
    let mut store = Store::new();
    store.find_or_create(city("Austin", "USA"), &None, 1).unwrap();
    let id = store.create_session(session(1)).unwrap();
    assert_eq!(id.len(), 26);
    assert_eq!(store.collectors_table()[0].id, id);
}

#[test]
fn loopback_event_is_rejected() {
    let mut store = Store::new();
    store.find_or_create(city("Austin", "USA"), &None, 1).unwrap();
    store.create_session_with(session(1), "S1".to_string(), 10).unwrap();
    let r = store.insert_event_with(event("http://localhost:3000/x", "S1"), "E1".to_string(), 20);
    assert!(matches!(r, Err(StoreError::LocalUrl)));
    assert_eq!(StoreError::LocalUrl.status(), 400);
    let ok = store.insert_event_with(event("http://example.com", "S1"), "E2".to_string(), 21);
    assert_eq!(ok.unwrap(), "E2");
    assert_eq!(store.events_table().len(), 1);
}

#[test]
fn event_needs_a_stored_session_and_a_fresh_id() {
    let mut store = Store::new();
    store.find_or_create(city("Austin", "USA"), &None, 1).unwrap();
    let r = store.insert_event_with(event("https://example.com/a", "S1"), "E1".to_string(), 20);
    assert!(matches!(r, Err(StoreError::UnknownSession)));
    assert_eq!(StoreError::UnknownSession.status(), 500);
    store.create_session_with(session(1), "S1".to_string(), 10).unwrap();
    store.insert_event_with(event("https://example.com/a", "S1"), "E1".to_string(), 20).unwrap();
    let dup = store.insert_event_with(event("https://example.com/b", "S1"), "E1".to_string(), 21);
    assert!(matches!(dup, Err(StoreError::DuplicateId)));
}

#[test]
fn stored_event_url_is_normalised() {
    let mut store = Store::new();
    store.find_or_create(city("Austin", "USA"), &None, 1).unwrap();
    store.create_session_with(session(1), "S1".to_string(), 10).unwrap();
    let query = EventQuery {
        url: "https://example.com/page/?utm=1".to_string(),
        referrer: Some("https://google.com/search".to_string()),
        name: "enter".to_string(),
        collector_id: "S1".to_string(),
    };
    store.insert_event_with(query, "E1".to_string(), 30).unwrap();
    let stored = &store.events_table()[0];
    assert_eq!(stored.url, "https://example.com/page");
    assert_eq!(stored.referrer.as_deref(), Some("https://google.com/search"));
    assert_eq!(stored.name, "enter");
    assert_eq!(stored.created_at, 30);
    assert_eq!(stored.collector_id, "S1");
}

#[test]
fn generated_event_ids_are_ulids() {
    let mut store = Store::new();
    store.find_or_create(city("Austin", "USA"), &None, 1).unwrap();
    store.create_session_with(session(1), "S1".to_string(), 10).unwrap();
    let request = EventRequest { url: "https://example.com/".to_string(), name: "visit".to_string(), collector_id: "S1".to_string() };
    let id = store.insert_event(request.into_query()).unwrap();
    assert_eq!(id.len(), 26);
    assert_eq!(store.events_table()[0].url, "https://example.com");
    assert!(store.events_table()[0].referrer.is_none());
}

#[test]
fn events_are_listed_by_page() {
    let mut store = Store::new();
    store.find_or_create(city("Austin", "USA"), &None, 1).unwrap();
    store.create_session_with(session(1), "S1".to_string(), 10).unwrap();
    for i in 0..25 {
        let url = format!("https://example.com/{i}");
        store.insert_event_with(event(&url, "S1"), format!("E{i:02}"), 100 + i).unwrap();
    }
    let first = store.list_events(1, 10);
    assert_eq!(first.total_items, 25);
    assert_eq!(first.total_pages, 3);
    assert_eq!(first.items.len(), 10);
    assert_eq!(first.items[0].id, "E00");
    let last = store.list_events(3, 10);
    assert_eq!(last.items.len(), 5);
    assert_eq!(last.items[4].id, "E24");
    assert_eq!(last.page, 3);
    assert_eq!(last.per_page, 10);
}

#[test]
fn cities_are_listed_by_id() {
    let mut store = Store::new();
    store.find_or_create(city("Austin", "USA"), &None, 1).unwrap();
    store.find_or_create(city("Paris", "France"), &None, 2).unwrap();
    store.find_or_create(city("Lima", "Peru"), &None, 3).unwrap();
    let page = store.list_cities(2, 2);
    assert_eq!(page.total_items, 3);
    assert_eq!(page.total_pages, 2);
    assert_eq!(page.items.len(), 1);
    assert_eq!(page.items[0].name, "lima");
}

#[test]
fn recent_sessions_leave_out_sessions_without_events() {
    let mut store = Store::new();
    store.find_or_create(city("Austin", "USA"), &None, 1).unwrap();
    store.create_session_with(session(1), "S1".to_string(), 10).unwrap();
    store.create_session_with(session(1), "S2".to_string(), 11).unwrap();
    store.create_session_with(session(1), "S3".to_string(), 12).unwrap();
    store.insert_event_with(event("https://example.com/a", "S1"), "E1".to_string(), 20).unwrap();
    store.insert_event_with(event("https://example.com/b", "S3"), "E2".to_string(), 21).unwrap();
    store.insert_event_with(event("https://example.com/c", "S1"), "E3".to_string(), 22).unwrap();
    let recent = store.recent_sessions();
    assert_eq!(recent.len(), 2);
    assert_eq!(recent[0].collector.id, "S3");
    assert_eq!(recent[0].collector.origin, "austin, usa");
    assert_eq!(recent[0].events.len(), 1);
    assert_eq!(recent[1].collector.id, "S1");
    let ids: Vec<&str> = recent[1].events.iter().map(|e| e.id.as_str()).collect();
    assert_eq!(ids, vec!["E3", "E1"]);
    assert!(recent.iter().all(|s| s.collector.id != "S2"));
}

#[test]
fn recent_sessions_are_the_thirty_latest() {
    let mut store = Store::new();
    store.find_or_create(city("Austin", "USA"), &None, 1).unwrap();
    for i in 0..32 {
        let id = format!("S{i:02}");
        store.create_session_with(session(1), id.clone(), 10 + i).unwrap();
        for j in 0..31 {
            let url = format!("https://example.com/{j}");
            store.insert_event_with(event(&url, &id), format!("E{i:02}-{j:02}"), 100 + i).unwrap();
        }
    }
    let recent = store.recent_sessions();
    assert_eq!(recent.len(), 30);
    assert_eq!(recent[0].collector.id, "S31");
    assert_eq!(recent[29].collector.id, "S02");
    assert_eq!(recent[0].events.len(), 30);
    assert_eq!(recent[0].events[0].id, "E31-30");
    assert_eq!(recent[0].events[29].id, "E31-01");
}

#[test]
fn end_to_end_tracking_flow() {
    let mut store = Store::new();
    let mut located = City::from_query(CityQuery { name: "Austin".to_string(), country: "USA".to_string() });
    located.latitude = Some(30_267_100);
    located.longitude = Some(-97_743_100);
    let agent = UserAgentInfo::from_header(Some("Mozilla/5.0 (X11; Linux x86_64; rv:120.0) Gecko/20100101 Firefox/120.0")).unwrap();
    let sid = store.register_visitor("198.51.100.7", Some(located), agent, "S1".to_string(), 1000).unwrap();
    assert_eq!(sid, "S1");
    let visitor = &store.collectors_table()[0];
    assert_eq!(visitor.origin, "198.51.100.7");
    assert_eq!(visitor.os.as_deref(), Some("Linux"));
    assert_eq!(visitor.browser.as_deref(), Some("Firefox"));
    let austin = &store.cities_table()[(visitor.city_id - 1) as usize];
    assert_eq!(austin.name, "austin");
    assert_eq!(austin.latitude, Some(30_267_100));

    assert!(store.insert_event_with(event("https://example.com/a", &sid), "E1".to_string(), 1001).is_ok());
    assert!(matches!(
        store.insert_event_with(event("http://127.0.0.1:8000/admin", &sid), "E2".to_string(), 1002),
        Err(StoreError::LocalUrl)
    ));
    assert!(store.insert_event_with(event("https://example.com/b/", &sid), "E3".to_string(), 1003).is_ok());

    let page = store.list_events(1, 10);
    assert_eq!(page.items.len(), 2);
    assert_eq!(page.total_items, 2);
    assert_eq!(page.total_pages, 1);
    assert_eq!(page.items[1].url, "https://example.com/b");
}

#[test]
fn visitor_without_location_is_placed_in_an_unnamed_city() {
    let mut store = Store::new();
    let agent = UserAgentInfo::from_header(Some("curl/8.0")).unwrap();
    store.register_visitor("192.0.2.1", None, agent, "S1".to_string(), 5).unwrap();
    let agent = UserAgentInfo::from_header(Some("curl/8.0")).unwrap();
    store.register_visitor("192.0.2.2", None, agent, "S2".to_string(), 6).unwrap();
    assert_eq!(store.cities_table().len(), 1);
    assert_eq!(store.cities_table()[0].name, "");
    let agent = UserAgentInfo::from_header(Some("curl/8.0")).unwrap();
    assert!(store.register_visitor("192.0.2.3", None, agent, "S2".to_string(), 7).is_err());
}

#[test]
fn log_stays_in_time_order_when_the_clock_reads_earlier() {
    let mut store = Store::new();
    store.find_or_create(city("Austin", "USA"), &None, 1).unwrap();
    store.create_session_with(session(1), "S1".to_string(), 500).unwrap();
    store.create_session_with(session(1), "S2".to_string(), 400).unwrap();
    assert_eq!(store.collectors_table()[1].created_at, Some(500));
    store.insert_event_with(event("https://example.com/a", "S1"), "E1".to_string(), 900).unwrap();
    store.insert_event_with(event("https://example.com/b", "S1"), "E2".to_string(), 800).unwrap();
    assert_eq!(store.events_table()[1].created_at, 900);
    store.insert_event_with(event("https://example.com/c", "S1"), "E3".to_string(), 950).unwrap();
    assert_eq!(store.events_table()[2].created_at, 950);
}

#[test]
fn find_by_key_takes_lowercased_text() {
    let mut store = Store::new();
    store.find_or_create(city("Austin", "USA"), &None, 1).unwrap();
    assert_eq!(store.find_by_key(&"austin".to_string(), &"usa".to_string()).unwrap().id, Some(1));
    assert!(store.find_by_key(&"Austin".to_string(), &"USA".to_string()).is_none());
}

#[test]
fn failed_visitor_registration_adds_no_session() {
    let mut store = Store::new();
    let agent = UserAgentInfo::from_header(Some("curl/8.0")).unwrap();
    store.register_visitor("192.0.2.1", None, agent, "S1".to_string(), 5).unwrap();
    let located = City::from_query(CityQuery { name: "Lima".to_string(), country: "Peru".to_string() });
    let agent = UserAgentInfo::from_header(Some("curl/8.0")).unwrap();
    let r = store.register_visitor("192.0.2.2", Some(located), agent, "S1".to_string(), 6);
    assert!(matches!(r, Err(StoreError::DuplicateId)));
    assert_eq!(store.collectors_table().len(), 1);
}
