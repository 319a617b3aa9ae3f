use dci_bot::dom::DomNode;
use dci_bot::extract::{
    complete_record, extract_details, extract_listing, Missing, ScrapeError, INFO_DATE_MARKER,
    INFO_LOCATION_MARKER,
};

fn el(depth: usize, tag: &str, attrs: &[(&str, &str)]) -> DomNode {
    DomNode {
        depth,
        tag: tag.to_string(),
        text: String::new(),
        attrs: attrs.iter().map(|(a, v)| (a.to_string(), v.to_string())).collect(),
    }
}

fn txt(depth: usize, text: &str) -> DomNode {
    DomNode { depth, tag: String::new(), text: text.to_string(), attrs: Vec::new() }
}

fn listing_page(with_title: bool) -> Vec<DomNode> {
    let mut d = vec![
        el(0, "html", &[]),
        el(1, "div", &[("class", "hero main-date")]),
        txt(2, "Saturday, July 20"),
        el(1, "div", &[("class", "events-items")]),
        txt(2, "\n  "),
        el(2, "div", &[("class", "event")]),
        el(3, "a", &[("class", "link details"), ("href", "/events/show-a")]),
        el(3, "div", &[("class", "info-holder")]),
    ];
    if with_title {
        d.push(el(4, "h3", &[]));
        d.push(txt(5, "Show A"));
    }
    d.push(el(4, "span", &[]));
    d.push(el(5, "img", &[("src", INFO_DATE_MARKER), ("alt", "2019-07-20T19:00:00.000-0500")]));
    d.push(el(4, "span", &[]));
    d.push(el(5, "img", &[("src", INFO_LOCATION_MARKER)]));
    d.push(txt(5, "  Madison, WI  "));
    d
}

fn detail_page() -> Vec<DomNode> {
    vec![
        el(0, "div", &[("class", "line-up-holder limit")]),
        el(1, "p", &[]),
        el(2, "strong", &[]),
        txt(3, "Times are "),
        txt(2, "Eastern"),
        el(0, "div", &[("class", "time-table")]),
        el(1, "div", &[]),
        el(2, "span", &[]),
        txt(3, "7:00 PM"),
        el(2, "span", &[]),
        txt(3, "Corps A"),
        el(1, "div", &[]),
        el(2, "span", &[]),
        txt(3, "7:30 PM"),
        el(2, "span", &[]),
        txt(3, "Corps B"),
    ]
}

#[test]
fn listing_reads_one_event() {
    let stubs = extract_listing(&listing_page(true)).unwrap();
    assert_eq!(stubs.len(), 1);
    let s = &stubs[0];
    assert_eq!(s.title, "Show A");
    assert_eq!(s.location, "Madison, WI");
    assert_eq!(s.details_href, "/events/show-a");
    assert_eq!(s.human_date, "Saturday, July 20");
    assert_eq!(s.event_date.instant_ms, 1_563_667_200_000);
    assert_eq!(s.event_date.offset_secs, -5 * 3600);
}

#[test]
fn listing_without_title_is_shape_changed() {
    let r = extract_listing(&listing_page(false));
    assert!(matches!(r, Err(ScrapeError::ShapeChanged(Missing::Title))));
}

#[test]
fn listing_without_container_is_empty() {
    let d = vec![el(0, "html", &[]), el(1, "div", &[("class", "other")])];
    assert_eq!(extract_listing(&d).unwrap().len(), 0);
}

#[test]
fn listing_without_human_date_fails() {
    let mut d = listing_page(true);
    d[1] = el(1, "div", &[("class", "hero")]);
    assert!(matches!(extract_listing(&d), Err(ScrapeError::ShapeChanged(Missing::HumanDate))));
}

#[test]
fn listing_with_bad_timestamp_fails() {
    let mut d = listing_page(true);
    d[11] = el(5, "img", &[("src", INFO_DATE_MARKER), ("alt", "July 20, 7pm")]);
    assert!(matches!(extract_listing(&d), Err(ScrapeError::ShapeChanged(Missing::DateFormat))));
}

#[test]
fn listing_without_location_marker_fails() {
    let mut d = listing_page(true);
    d.truncate(12);
    assert!(matches!(extract_listing(&d), Err(ScrapeError::ShapeChanged(Missing::LocationMarker))));
}

#[test]
fn details_read_lineup_in_order() {
    let x = extract_details(&detail_page()).unwrap();
    assert_eq!(x.timezone, "Eastern");
    assert_eq!(
        x.lineup,
        vec![
            ("7:00 PM".to_string(), "Corps A".to_string()),
            ("7:30 PM".to_string(), "Corps B".to_string())
        ]
    );
}

#[test]
fn details_with_short_timezone_paragraph_fail() {
    let mut d = detail_page();
    d.remove(4);
    assert!(matches!(extract_details(&d), Err(ScrapeError::ShapeChanged(Missing::Timezone))));
}

#[test]
fn details_row_without_cells_fails() {
    let mut d = detail_page();
    d.push(txt(1, "\n"));
    assert!(matches!(extract_details(&d), Err(ScrapeError::ShapeChanged(Missing::LineupRow))));
}

#[test]
fn details_without_table_fail() {
    let d: Vec<DomNode> = detail_page().into_iter().take(5).collect();
    assert!(matches!(extract_details(&d), Err(ScrapeError::ShapeChanged(Missing::TimeTable))));
}

#[test]
fn details_with_empty_table_fail() {
    let d: Vec<DomNode> = detail_page().into_iter().take(6).collect();
    assert!(matches!(extract_details(&d), Err(ScrapeError::ShapeChanged(Missing::EmptyLineup))));
}

#[test]
fn record_joins_stub_and_details() {
    let stub = extract_listing(&listing_page(true)).unwrap().remove(0);
    let details = extract_details(&detail_page()).unwrap();
    let r = complete_record(stub, details);
    assert_eq!(r.event_url, "https://www.dci.org/events/show-a");
    assert_eq!(r.timezone, "Eastern");
    assert_eq!(r.lineup.len(), 2);
    assert_eq!(r.posted, None);
}
