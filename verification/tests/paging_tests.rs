use sakura_tui::cloud_resources::{next_page_from, MAX_PAGES};

#[test]
fn paging_goes_on_from_what_was_received() {
    assert_eq!(next_page_from(1, 0, 100, 250), Some(100));
    assert_eq!(next_page_from(2, 100, 100, 250), Some(200));
}

#[test]
fn paging_stops_when_the_total_is_reached() {
    assert_eq!(next_page_from(3, 200, 50, 250), None);
    assert_eq!(next_page_from(1, 0, 10, 10), None);
    assert_eq!(next_page_from(1, 0, 10, 0), None);
}

#[test]
fn paging_stops_on_an_empty_page() {
    assert_eq!(next_page_from(1, 0, 0, 250), None);
}

#[test]
fn paging_stops_after_the_last_allowed_page() {
    assert_eq!(next_page_from(MAX_PAGES - 1, 0, 1, 1000), Some(1));
    assert_eq!(next_page_from(MAX_PAGES, 0, 1, 1000), None);
}
