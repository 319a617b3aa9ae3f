use dci_bot::notify::{batch_len, format_body, format_title, plan_post, select_due};
use dci_bot::record::{DataError, EventListing, EventRow};
use dci_bot::store::EventStore;
use dci_bot::time::{EventTime, MS_PER_HOUR};

const T: i64 = 1_600_000_000_000;

fn rec(title: &str, at: i64, posted: Option<i64>) -> EventListing {
    EventListing {
        event_url: format!("https://www.dci.org/events/{}", title.replace(' ', "-")),
        event_date: EventTime { instant_ms: at, offset_secs: -4 * 3600 },
        location: "Indianapolis, IN".to_string(),
        title: title.to_string(),
        timezone: "Eastern".to_string(),
        lineup: vec![
            ("7:00 PM".to_string(), "Corps A".to_string()),
            ("7:30 PM".to_string(), "Corps B".to_string()),
        ],
        human_date: "Saturday, July 20".to_string(),
        posted,
    }
}

#[test]
fn upsert_twice_keeps_one_record_and_posted_marker() {
    let mut s = EventStore::new();
    assert_eq!(s.upsert(rec("Show A", T, None)), 1);
    s.mark_posted(&vec!["Show A".to_string()], T - 5);
    let mut again = rec("Show A", T + 60_000, None);
    again.location = "Dayton, OH".to_string();
    s.upsert(again);
    assert_eq!(s.len(), 1);
    let r = s.get(0);
    assert_eq!(r.location, "Dayton, OH");
    assert_eq!(r.event_date.instant_ms, T + 60_000);
    assert_eq!(r.posted, Some(T - 5));
}

#[test]
fn upsert_of_new_title_adds_record() {
    let mut s = EventStore::new();
    s.upsert(rec("Show A", T, None));
    s.upsert(rec("Show B", T, None));
    assert_eq!(s.len(), 2);
    assert_eq!(s.position_of(&"Show B".to_string()), Some(1));
}

#[test]
fn window_selects_within_next_day_only() {
    let mut s = EventStore::new();
    s.upsert(rec("In", T + 23 * MS_PER_HOUR, None));
    s.upsert(rec("Late", T + 25 * MS_PER_HOUR, None));
    s.upsert(rec("Past", T - 60_000, None));
    let due = select_due(&s, T);
    assert_eq!(due.len(), 1);
    assert_eq!(due[0].title, "In");
}

#[test]
fn range_query_sorts_by_start_and_filters_posted() {
    let mut s = EventStore::new();
    s.upsert(rec("C", T + 3, None));
    s.upsert(rec("A", T + 1, None));
    s.upsert(rec("B", T + 2, Some(T)));
    let all = s.find_in_date_range(T, T + 10, false);
    let titles: Vec<&str> = all.iter().map(|r| r.title.as_str()).collect();
    assert_eq!(titles, vec!["A", "B", "C"]);
    let unposted = s.find_in_date_range(T, T + 10, true);
    assert_eq!(unposted.len(), 2);
    assert_eq!(s.find_in_date_range(T, T + 1, false).len(), 0);
}

#[test]
fn graduated_threshold_takes_first_two() {
    let c = vec![
        rec("A", T + 2 * MS_PER_HOUR, None),
        rec("B", T + 8 * MS_PER_HOUR, None),
        rec("C", T + 14 * MS_PER_HOUR, None),
    ];
    assert_eq!(batch_len(&c, T), 2);
}

#[test]
fn graduated_threshold_needs_near_first_event() {
    let c = vec![rec("A", T + 11 * MS_PER_HOUR, None)];
    assert_eq!(batch_len(&c, T), 0);
    let c = vec![rec("A", T + 9 * MS_PER_HOUR, None), rec("B", T + 9 * MS_PER_HOUR, None), rec("C", T + 13 * MS_PER_HOUR, None)];
    assert_eq!(batch_len(&c, T), 3);
}

#[test]
fn end_to_end_tick_posts_once() {
    let mut s = EventStore::new();
    s.upsert(rec("Show A", T + 3 * MS_PER_HOUR, None));
    s.upsert(rec("Show B", T + 9 * MS_PER_HOUR, None));
    let post = plan_post(&s, T).expect("a post is due");
    assert_eq!(post.titles, vec!["Show A".to_string(), "Show B".to_string()]);
    assert_eq!(
        post.title,
        "[Show Thread] Saturday, July 20: Show A - Indianapolis, IN | Show B - Indianapolis, IN"
    );
    let batch = select_due(&s, T);
    let body = format_body(&batch);
    assert_eq!(body.matches("|------|").count(), 2);
    assert_eq!(body.matches("\n---\n").count(), 1);
    assert!(!post.body.contains(' '));
    assert_ne!(post.body, body);
    s.mark_posted(&post.titles, T);
    assert_eq!(s.get(0).posted, Some(T));
    assert_eq!(s.get(1).posted, Some(T));
    assert!(plan_post(&s, T).is_none());
}

#[test]
fn posted_event_is_not_selected_after_rescrape() {
    let mut s = EventStore::new();
    s.upsert(rec("Show A", T + MS_PER_HOUR, None));
    s.mark_posted(&vec!["Show A".to_string()], T);
    s.upsert(rec("Show A", T + MS_PER_HOUR, None));
    assert_eq!(select_due(&s, T).len(), 0);
}

#[test]
fn body_formats_one_event_exactly() {
    let r = rec("Show A", T, None);
    let body = format_body(&vec![r]);
    assert_eq!(
        body,
        "**Show A - Indianapolis, IN**\n\n[DCI Page](https://www.dci.org/events/Show-A)\n\n**Lineup & Times**\n\n*All times Eastern and subject to change*\n\n| 7:00 PM | Corps A |\n|------|-----------------------------------------|\n 7:30 PM | Corps B\n"
    );
    assert_eq!(format_title(&vec![]), "");
}

#[test]
fn lineup_round_trips_through_json() {
    let l = vec![
        ("7:00 PM".to_string(), "Corps A".to_string()),
        ("7:30 PM".to_string(), "Corps B".to_string()),
    ];
    let mut r = rec("Show A", T, None);
    r.lineup = l.clone();
    let row = r.to_row().unwrap();
    assert_eq!(row.lineup, r#"[["7:00 PM","Corps A"],["7:30 PM","Corps B"]]"#);
    assert_eq!(EventListing::from_row(&row).unwrap().lineup, l);
}

#[test]
fn row_round_trips() {
    let r = rec("Show A", 1_563_667_200_000, Some(1_563_600_000_000));
    let row = r.to_row().unwrap();
    assert_eq!(row.date, "2019-07-20T20:00:00-04:00");
    let back = EventListing::from_row(&row).unwrap();
    assert_eq!(back.event_date, r.event_date);
    assert_eq!(back.lineup, r.lineup);
    assert_eq!(back.posted, r.posted);
    assert_eq!(back.title, r.title);
}

fn row(date: &str, lineup: &str, posted: Option<&str>) -> EventRow {
    EventRow {
        url: "u".to_string(),
        date: date.to_string(),
        location: "l".to_string(),
        title: "t".to_string(),
        timezone: "z".to_string(),
        lineup: lineup.to_string(),
        posted: posted.map(|p| p.to_string()),
        human_date: "h".to_string(),
    }
}

#[test]
fn bad_rows_give_data_errors() {
    let ok_date = "2019-07-20T20:00:00-04:00";
    assert!(matches!(EventListing::from_row(&row("yesterday", "[]", None)), Err(DataError::Date)));
    assert!(matches!(EventListing::from_row(&row(ok_date, "[[1]]", None)), Err(DataError::Lineup)));
    assert!(matches!(EventListing::from_row(&row(ok_date, "[]", Some("soon"))), Err(DataError::Posted)));
}

#[test]
fn empty_store_posts_nothing() {
    let s = EventStore::new();
    assert!(plan_post(&s, T).is_none());
    assert_eq!(batch_len(&vec![], T), 0);
}

#[test]
fn window_bounds_are_inclusive() {
    let mut s = EventStore::new();
    s.upsert(rec("Now", T, None));
    s.upsert(rec("Edge", T + 24 * MS_PER_HOUR, None));
    s.upsert(rec("Beyond", T + 24 * MS_PER_HOUR + 1, None));
    let due = select_due(&s, T);
    let titles: Vec<&str> = due.iter().map(|r| r.title.as_str()).collect();
    assert_eq!(titles, vec!["Now", "Edge"]);
}

#[test]
fn far_events_are_due_but_not_posted_yet() {
    let mut s = EventStore::new();
    s.upsert(rec("Evening", T + 20 * MS_PER_HOUR, None));
    assert_eq!(select_due(&s, T).len(), 1);
    assert!(plan_post(&s, T).is_none());
}

#[test]
fn upsert_all_writes_cycle_in_order() {
    let mut s = EventStore::new();
    s.upsert(rec("Show A", T, None));
    s.mark_posted(&vec!["Show A".to_string()], T);
    let n = s.upsert_all(&vec![rec("Show B", T + 1, None), rec("Show A", T + 2, None)]);
    assert_eq!(n, 2);
    assert_eq!(s.len(), 2);
    assert_eq!(s.get(0).event_date.instant_ms, T + 2);
    assert_eq!(s.get(0).posted, Some(T));
    assert_eq!(s.get(1).title, "Show B");
}

#[test]
fn query_date_pads_fields() {
    assert_eq!(dci_bot::time::query_date(2019, 7, 4), "2019-07-04");
    assert_eq!(dci_bot::time::query_date(987, 12, 31), "0987-12-31");
}

#[test]
fn row_errors_name_the_field() {
    let mut r = rec("Show A", T, None);
    r.event_date.offset_secs = 100_000;
    assert!(matches!(r.to_row(), Err(DataError::Date)));
    let r = rec("Show A", T, Some(i64::MAX));
    assert!(matches!(r.to_row(), Err(DataError::Posted)));
}

#[test]
fn post_body_is_form_encoded() {
    let mut s = EventStore::new();
    s.upsert(rec("Show A", T + MS_PER_HOUR, None));
    let post = plan_post(&s, T).unwrap();
    assert!(post.body.starts_with(
        "**Show+A+-+Indianapolis%2C+IN**%0A%0A%5BDCI+Page%5D%28https%3A%2F%2Fwww.dci.org%2Fevents%2FShow-A%29"
    ));
}
