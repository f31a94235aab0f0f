use tanoshi::histories::{
    age_label_of, entry_from, Edge, Entry, EntryRow, Fault, Fetched, Histories, LoadMore,
};

const DAY: i64 = 86400;

fn edge(n: i64, read_at: &str) -> Edge {
    Edge {
        manga_id: n,
        manga_title: format!("Manga {}", n),
        cover_url: format!("https://cover/{}.jpg", n),
        chapter_id: 100 + n,
        chapter_title: format!("Chapter {}", n),
        read_at: read_at.to_string(),
        last_page_read: 3,
        cursor: format!("cursor-{}", n),
    }
}

fn entry(n: i64, read_at: i64) -> Entry {
    Entry {
        manga_id: n,
        manga_title: format!("Manga {}", n),
        cover_url: format!("https://cover/{}.jpg", n),
        chapter_id: 100 + n,
        chapter_title: format!("Chapter {}", n),
        read_at,
        last_page_read: 3,
        cursor: format!("cursor-{}", n),
    }
}

#[test]
fn labels_by_number_of_days() {
    assert_eq!(age_label_of(0), "Today");
    assert_eq!(age_label_of(1), "Yesterday");
    assert_eq!(age_label_of(2), "2 Days Ago");
    assert_eq!(age_label_of(7), "7 Days Ago");
    assert_eq!(age_label_of(8), "1 Weeks Ago");
    assert_eq!(age_label_of(13), "1 Weeks Ago");
    assert_eq!(age_label_of(14), "2 Weeks Ago");
    assert_eq!(age_label_of(30), "4 Weeks Ago");
    assert_eq!(age_label_of(31), "1 Months Ago");
    assert_eq!(age_label_of(59), "1 Months Ago");
    assert_eq!(age_label_of(60), "2 Months Ago");
    assert_eq!(age_label_of(365), "12 Months Ago");
    assert_eq!(age_label_of(i64::MAX), "307445734561825860 Months Ago");
}

#[test]
fn negative_days_are_counted_in_months_towards_zero() {
    assert_eq!(age_label_of(-1), "0 Months Ago");
    assert_eq!(age_label_of(-29), "0 Months Ago");
    assert_eq!(age_label_of(-30), "-1 Months Ago");
    assert_eq!(age_label_of(-45), "-1 Months Ago");
    assert_eq!(age_label_of(-60), "-2 Months Ago");
    assert_eq!(age_label_of(i64::MIN), "-307445734561825860 Months Ago");
}

#[test]
fn days_are_calendar_days() {
    let now = 18690 * DAY + 5;
    assert_eq!(Histories::calculate_days(now, now), Some("Today".to_string()));
    assert_eq!(Histories::calculate_days(now, 18690 * DAY), Some("Today".to_string()));
    // six seconds ago, but on the day before
    assert_eq!(Histories::calculate_days(now, 18690 * DAY - 1), Some("Yesterday".to_string()));
    assert_eq!(Histories::calculate_days(now, 18689 * DAY), Some("Yesterday".to_string()));
    assert_eq!(Histories::calculate_days(now, 18688 * DAY - 1), Some("3 Days Ago".to_string()));
    assert_eq!(Histories::calculate_days(now, now - 8 * DAY), Some("1 Weeks Ago".to_string()));
    assert_eq!(Histories::calculate_days(now, now - 400 * DAY), Some("13 Months Ago".to_string()));
    assert_eq!(Histories::calculate_days(now, now + 40 * DAY), Some("-1 Months Ago".to_string()));
}

#[test]
fn days_before_the_epoch() {
    assert_eq!(Histories::calculate_days(0, -1), Some("Yesterday".to_string()));
    assert_eq!(Histories::calculate_days(-1, -DAY), Some("Today".to_string()));
    assert_eq!(Histories::calculate_days(-1, -DAY - 1), Some("Yesterday".to_string()));
}

#[test]
fn times_beyond_the_calendar_have_no_label() {
    assert_eq!(Histories::calculate_days(i64::MAX, 0), None);
    assert_eq!(Histories::calculate_days(0, i64::MIN), None);
    assert!(Histories::calculate_days(4_000_000_000_000, -4_000_000_000_000).is_some());
}

#[test]
fn new_history_is_empty_and_idle() {
    let h = Histories::new();
    assert!(!h.loading);
    assert!(h.entries.is_empty());
    assert!(h.is_entries_empty);
}

#[test]
fn a_fetched_page_is_added_and_its_times_are_parsed() {
    let mut h = Histories::new();
    assert_eq!(h.next_cursor(), None);
    assert!(h.loading);
    let page = vec![
        Some(edge(1, "2021-03-04T05:06:07.123")),
        Some(edge(2, "1970-01-01T00:00:00")),
        Some(edge(3, "1969-12-31T23:59:59.5")),
    ];
    assert_eq!(h.fetch_read_histories(Ok(Some(page))), Fetched::Loaded);
    assert_eq!(h.entries, vec![entry(1, 1_614_834_367), entry(2, 0), entry(3, -1)]);
    assert!(!h.loading);
    assert!(!h.is_entries_empty);
    // the next page starts behind the last entry
    assert_eq!(h.next_cursor(), Some("cursor-3".to_string()));
    assert!(h.loading);
    assert_eq!(
        h.fetch_read_histories(Ok(Some(vec![Some(edge(4, "2000-01-01T00:00:00.0"))]))),
        Fetched::Loaded
    );
    assert_eq!(h.entries.len(), 4);
    assert_eq!(h.entries[3], entry(4, 946_684_800));
    assert!(!h.loading);
}

#[test]
fn an_empty_page_keeps_the_history_empty() {
    let mut h = Histories::new();
    h.next_cursor();
    assert_eq!(h.fetch_read_histories(Ok(Some(vec![]))), Fetched::Loaded);
    assert!(h.is_entries_empty);
    assert!(!h.loading);
}

#[test]
fn a_failed_fetch_hands_on_the_message() {
    let mut h = Histories::new();
    h.next_cursor();
    assert_eq!(
        h.fetch_read_histories(Err("network down".to_string())),
        Fetched::Failed("network down".to_string())
    );
    assert!(!h.loading);
    assert!(h.entries.is_empty());
    assert!(h.is_entries_empty);
}

#[test]
fn a_broken_page_is_added_up_to_the_broken_line() {
    let mut h = Histories::new();
    h.next_cursor();
    assert_eq!(h.fetch_read_histories(Ok(None)), Fetched::Broken(Fault::NoEdges));
    assert!(h.loading);
    let page = vec![Some(edge(1, "2021-03-04T05:06:07")), None, Some(edge(3, "2021-03-04T05:06:07"))];
    assert_eq!(h.fetch_read_histories(Ok(Some(page))), Fetched::Broken(Fault::NoEdge));
    assert_eq!(h.entries, vec![entry(1, 1_614_834_367)]);
    assert!(h.loading);
    assert!(h.is_entries_empty);
    let page = vec![Some(edge(2, "yesterday")), Some(edge(3, "2021-03-04T05:06:07"))];
    assert_eq!(h.fetch_read_histories(Ok(Some(page))), Fetched::Broken(Fault::BadTime));
    assert_eq!(h.entries.len(), 1);
    let page = vec![Some(edge(2, "2021-03-04 05:06:07"))];
    assert_eq!(h.fetch_read_histories(Ok(Some(page))), Fetched::Broken(Fault::BadTime));
    let page = vec![Some(edge(2, "2021-02-30T05:06:07"))];
    assert_eq!(h.fetch_read_histories(Ok(Some(page))), Fetched::Broken(Fault::BadTime));
}

#[test]
fn rows_show_the_age_of_each_entry() {
    let mut h = Histories::new();
    h.entries.push(entry(1, 1_614_834_367));
    h.entries.push(entry(2, 1_614_834_367 - 10 * DAY));
    let rows = h.render_main(1_614_834_367 + DAY).unwrap();
    assert_eq!(
        rows,
        vec![
            EntryRow {
                manga_id: 1,
                chapter_id: 101,
                last_page_read: 3,
                cover_url: "https://cover/1.jpg".to_string(),
                manga_title: "Manga 1".to_string(),
                chapter_title: "Chapter 1".to_string(),
                date_updated: "Yesterday".to_string(),
            },
            EntryRow {
                manga_id: 2,
                chapter_id: 102,
                last_page_read: 3,
                cover_url: "https://cover/2.jpg".to_string(),
                manga_title: "Manga 2".to_string(),
                chapter_title: "Chapter 2".to_string(),
                date_updated: "1 Weeks Ago".to_string(),
            },
        ]
    );
    assert_eq!(Histories::new().render_main(0), Some(vec![]));
    assert_eq!(h.render_main(i64::MAX), None);
}

#[test]
fn what_stands_under_the_list() {
    let mut h = Histories::new();
    assert_eq!(
        h.render(),
        LoadMore::Button {
            disabled: true,
            label: "No recent histories, favorite manga to see recent histories"
        }
    );
    h.next_cursor();
    assert_eq!(h.render(), LoadMore::Spinner);
    h.fetch_read_histories(Ok(Some(vec![Some(edge(1, "2021-03-04T05:06:07"))])));
    assert_eq!(h.render(), LoadMore::Button { disabled: false, label: "Load More" });
    assert_eq!(Histories::render_topbar(), "History");
}

#[test]
fn an_entry_keeps_every_field_of_its_line() {
    assert_eq!(entry_from(edge(5, "ignored"), Ok(77)), Ok(entry(5, 77)));
    let refused = chrono::NaiveDateTime::parse_from_str("x", "%Y").unwrap_err();
    assert_eq!(entry_from(edge(5, "ignored"), Err(refused)), Err(Fault::BadTime));
}
