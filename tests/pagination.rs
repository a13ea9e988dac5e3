use website_stats::pagination::{set_pagination_defaults, total_pages, Paginate};
use website_stats::{DEFAULT_PAGE, DEFAULT_PER_PAGE, MAX_PER_PAGE};

#[test]
fn defaults_when_nothing_is_given() {
    assert_eq!(set_pagination_defaults(None, None), (DEFAULT_PAGE, MAX_PER_PAGE));
}

#[test]
fn page_is_at_least_one() {
    assert_eq!(set_pagination_defaults(Some(0), Some(5)), (1, 5));
    assert_eq!(set_pagination_defaults(Some(-7), Some(5)), (1, 5));
    assert_eq!(set_pagination_defaults(Some(4), Some(5)), (4, 5));
}

#[test]
fn page_size_is_clamped() {
    assert_eq!(set_pagination_defaults(Some(1), Some(0)), (1, 1));
    assert_eq!(set_pagination_defaults(Some(1), Some(-3)), (1, 1));
    assert_eq!(set_pagination_defaults(Some(1), Some(1000)), (1, 100));
    assert_eq!(set_pagination_defaults(Some(1), Some(100)), (1, 100));
}

#[test]
fn twenty_five_rows_in_pages_of_ten_make_three_pages() {
    assert_eq!(total_pages(25, 10), 3);
}

#[test]
fn page_count_is_the_ceiling() {
    assert_eq!(total_pages(0, 10), 0);
    assert_eq!(total_pages(1, 10), 1);
    assert_eq!(total_pages(10, 10), 1);
    assert_eq!(total_pages(11, 10), 2);
    assert_eq!(total_pages(7, 1), 7);
    assert_eq!(total_pages(i64::MAX, 1), i64::MAX);
    assert_eq!(total_pages(i64::MAX, 2), i64::MAX / 2 + 1);
}

#[test]
fn paginate_uses_the_default_page_size() {
    let rows: Vec<i32> = (1..=25).collect();
    let page = rows.paginate(2).load();
    assert_eq!(page.per_page, DEFAULT_PER_PAGE);
    assert_eq!(page.page, 2);
    assert_eq!(page.items, (11..=20).collect::<Vec<i32>>());
    assert_eq!(page.total_items, 25);
    assert_eq!(page.total_pages, 3);
}

#[test]
fn load_takes_the_window_of_the_page() {
    let rows: Vec<i32> = (1..=25).collect();
    let page = rows.paginate(3).per_page(10).load();
    assert_eq!(page.items, vec![21, 22, 23, 24, 25]);
    assert_eq!(page.total_items, 25);
    assert_eq!(page.total_pages, 3);

    let rows: Vec<i32> = (1..=25).collect();
    let past_the_end = rows.paginate(4).per_page(10).load();
    assert!(past_the_end.items.is_empty());
    assert_eq!(past_the_end.total_items, 25);
}

#[test]
fn empty_query_has_no_pages() {
    let rows: Vec<i32> = Vec::new();
    let page = rows.paginate(1).per_page(10).load();
    assert!(page.items.is_empty());
    assert_eq!(page.total_items, 0);
    assert_eq!(page.total_pages, 0);
}

#[test]
fn load_and_count_pages_keeps_the_whole_count() {
    let query: Vec<i32> = Vec::new();
    let page = query.paginate(2).per_page(5).load_and_count_pages(vec!["a", "b", "c", "d", "e"], 12);
    assert_eq!(page.items, vec!["a", "b", "c", "d", "e"]);
    assert_eq!(page.total_items, 12);
    assert_eq!(page.total_pages, 3);
    assert_eq!(page.page, 2);
    assert_eq!(page.per_page, 5);

    let past_the_end = Vec::<i32>::new().paginate(9).per_page(5).load_and_count_pages(Vec::<&str>::new(), 12);
    assert!(past_the_end.items.is_empty());
    assert_eq!(past_the_end.total_items, 12);
    assert_eq!(past_the_end.total_pages, 3);

    let empty = Vec::<i32>::new().paginate(1).per_page(5).load_and_count_pages(Vec::<&str>::new(), 0);
    assert!(empty.items.is_empty());
    assert_eq!(empty.total_items, 0);
    assert_eq!(empty.total_pages, 0);
}

#[test]
fn huge_page_numbers_give_empty_pages() {
    let rows: Vec<i32> = (1..=5).collect();
    let page = rows.paginate(i64::MAX).per_page(100).load();
    assert!(page.items.is_empty());
    assert_eq!(page.total_items, 5);
    assert_eq!(page.total_pages, 1);
}
