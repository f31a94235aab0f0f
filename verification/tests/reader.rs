use tanoshi::reader::{
    fit_classes_of, BackTarget, Background, Body, ChapterDetail, Direction, DisplayMode, Fit,
    FitClasses, Navigation, Reader, ReaderMode, ReaderSettings,
};

fn settings() -> ReaderSettings {
    ReaderSettings {
        reader_mode: ReaderMode::Paged,
        display_mode: DisplayMode::Single,
        direction: Direction::LeftToRight,
        background: Background::White,
        fit: Fit::All,
    }
}

fn detail(pages: usize) -> ChapterDetail {
    ChapterDetail {
        manga_id: 9,
        manga_title: "Berserk".to_string(),
        title: "Chapter 363".to_string(),
        next: Some(364),
        prev: None,
        pages: (0..pages).map(|i| format!("https://img/{}.png", i)).collect(),
    }
}

fn reader(pages: usize) -> Reader {
    let mut r = Reader::new(363, settings());
    r.fetch_detail(363, Ok(detail(pages))).unwrap();
    r
}

#[test]
fn new_reader_has_nothing_fetched() {
    let r = Reader::new(5, settings());
    assert_eq!(r.chapter_id, 5);
    assert_eq!(r.manga_id, 0);
    assert_eq!(r.manga_title, "");
    assert_eq!(r.chapter_title, "");
    assert_eq!(r.next_chapter, None);
    assert_eq!(r.prev_chapter, None);
    assert_eq!(r.current_page, 0);
    assert!(r.pages.is_empty());
    assert_eq!(r.pages_len, 0);
    assert!(r.is_bar_visible);
    assert_eq!(r.reader_settings, settings());
}

#[test]
fn fetched_chapter_replaces_the_contents() {
    let mut r = Reader::new(5, settings());
    r.current_page = 4;
    assert_eq!(r.fetch_detail(-12, Ok(detail(3))), Ok("/chapter/-12".to_string()));
    assert_eq!(r.chapter_id, 5);
    assert_eq!(r.manga_id, 9);
    assert_eq!(r.manga_title, "Berserk");
    assert_eq!(r.chapter_title, "Chapter 363");
    assert_eq!(r.next_chapter, Some(364));
    assert_eq!(r.prev_chapter, None);
    assert_eq!(r.current_page, 0);
    assert_eq!(r.pages_len, 3);
    assert_eq!(r.pages, vec!["https://img/0.png", "https://img/1.png", "https://img/2.png"]);
    assert_eq!(r.fetch_detail(363, Ok(detail(0))), Ok("/chapter/363".to_string()));
}

#[test]
fn failed_fetch_changes_nothing() {
    let mut r = reader(3);
    r.current_page = 2;
    assert_eq!(r.fetch_detail(7, Err("gone".to_string())), Err("gone".to_string()));
    assert_eq!(r, {
        let mut same = reader(3);
        same.current_page = 2;
        same
    });
}

#[test]
fn page_turn_record() {
    let r = reader(3);
    assert_eq!(r.update_page_read(0), (363, 0));
    assert_eq!(r.update_page_read(17), (363, 17));
    assert_eq!(r.update_page_read(i64::MAX as usize), (363, i64::MAX));
    assert_eq!(r.update_page_read(usize::MAX), (363, usize::MAX as i64));
    assert_eq!(r.update_page_read(i64::MAX as usize + 1), (363, (i64::MAX as usize + 1) as i64));
}

#[test]
fn back_button() {
    assert_eq!(Reader::back_target(0), BackTarget::Home);
    assert_eq!(Reader::back_target(1), BackTarget::Previous);
    assert_eq!(Reader::back_target(u32::MAX), BackTarget::Previous);
}

#[test]
fn turning_pages_one_at_a_time() {
    let mut r = reader(3);
    assert!(r.next_page());
    assert_eq!(r.current_page, 1);
    assert!(r.next_page());
    assert_eq!(r.current_page, 2);
    assert!(!r.next_page());
    assert_eq!(r.current_page, 2);
    assert!(r.prev_page());
    assert!(r.prev_page());
    assert_eq!(r.current_page, 0);
    assert!(!r.prev_page());
    assert_eq!(r.current_page, 0);
}

#[test]
fn turning_pages_two_at_a_time() {
    let mut r = reader(5);
    r.reader_settings.display_mode = DisplayMode::Double;
    assert!(r.next_page());
    assert_eq!(r.current_page, 2);
    assert!(r.next_page());
    assert_eq!(r.current_page, 4);
    assert!(!r.next_page());
    r.current_page = 3;
    // page 5 does not exist
    assert!(!r.next_page());
    assert_eq!(r.current_page, 3);
    assert!(r.prev_page());
    assert_eq!(r.current_page, 1);
    assert!(r.prev_page());
    assert_eq!(r.current_page, 0);
    assert!(!r.prev_page());
}

#[test]
fn turning_pages_at_the_limits() {
    let mut r = Reader::new(1, settings());
    assert!(!r.next_page());
    assert!(!r.prev_page());
    r.current_page = usize::MAX;
    r.pages_len = usize::MAX;
    assert!(!r.next_page());
    assert_eq!(r.current_page, usize::MAX);
    r.current_page = usize::MAX - 1;
    assert!(!r.next_page());
    r.current_page = usize::MAX - 2;
    assert!(r.next_page());
    assert_eq!(r.current_page, usize::MAX - 1);
    // a page beyond the chapter stays where it is
    r.pages_len = 3;
    r.current_page = 10;
    assert!(!r.next_page());
    assert_eq!(r.current_page, 10);
}

#[test]
fn scrolling_selects_the_first_page_above_the_view() {
    assert_eq!(Reader::page_at_scroll(500, &vec![0, 400, 800]), 0);
    assert_eq!(Reader::page_at_scroll(0, &vec![0, 400, 800]), 0);
    assert_eq!(Reader::page_at_scroll(500, &vec![900, 400, 800]), 1);
    assert_eq!(Reader::page_at_scroll(500, &vec![900, 500, 499]), 2);
    assert_eq!(Reader::page_at_scroll(500, &vec![900, 600, 700]), 0);
    assert_eq!(Reader::page_at_scroll(500, &vec![]), 0);
    assert_eq!(Reader::page_at_scroll(i64::MIN, &vec![i32::MIN]), 0);
    assert_eq!(Reader::page_at_scroll(-5, &vec![0, -6]), 1);
    let mut r = reader(3);
    r.scroll(500, &vec![900, 400, 800]);
    assert_eq!(r.current_page, 1);
}

#[test]
fn bars_toggle_together() {
    let mut r = reader(3);
    assert!(r.render_topbar().slide_in);
    assert!(!r.render_topbar().slide_out);
    r.toggle_bar();
    assert!(!r.is_bar_visible);
    let top = r.render_topbar();
    assert!(!top.slide_in);
    assert!(top.slide_out);
    assert_eq!(top.title, "Chapter 363");
    let bottom = r.render_bottombar();
    assert!(!bottom.slide_in);
    assert!(bottom.slide_out);
    r.toggle_bar();
    assert!(r.is_bar_visible);
}

#[test]
fn bottom_bar_counts_pages_from_one() {
    let mut r = reader(12);
    let bar = r.render_bottombar();
    assert_eq!(bar.page, "1");
    assert_eq!(bar.pages, "12");
    assert_eq!(bar.prev_chapter, None);
    assert_eq!(bar.next_chapter, Some(364));
    r.current_page = 11;
    assert_eq!(r.render_bottombar().page, "12");
}

#[test]
fn opening_a_neighbouring_chapter() {
    let mut r = reader(3);
    r.open_chapter(364);
    assert_eq!(r.chapter_id, 364);
    assert_eq!(r.pages_len, 3);
}

#[test]
fn fitting_an_image() {
    assert_eq!(
        fit_classes_of(Fit::Width),
        FitClasses { unbounded_width: false, contained: false, full_width: true, full_height: false }
    );
    assert_eq!(
        fit_classes_of(Fit::Height),
        FitClasses { unbounded_width: true, contained: false, full_width: false, full_height: true }
    );
    assert_eq!(
        fit_classes_of(Fit::All),
        FitClasses { unbounded_width: false, contained: true, full_width: true, full_height: true }
    );
}

#[test]
fn vertical_layout_shows_every_page() {
    let r = reader(3);
    let images = r.render_vertical();
    let ids: Vec<Option<&str>> = images.iter().map(|i| i.id.as_deref()).collect();
    assert_eq!(ids, vec![Some("0"), Some("1"), Some("2")]);
    assert!(images.iter().all(|i| i.visible));
    assert_eq!(images[2].src, "https://img/2.png");
    assert_eq!(images[0].fit, fit_classes_of(Fit::All));
}

#[test]
fn single_layout_shows_the_current_page() {
    let mut r = reader(4);
    r.current_page = 2;
    let images = r.render_single();
    let shown: Vec<bool> = images.iter().map(|i| i.visible).collect();
    assert_eq!(shown, vec![false, false, true, false]);
    assert!(images.iter().all(|i| i.id.is_none()));
    assert_eq!(images[3].src, "https://img/3.png");
}

#[test]
fn double_layout_shows_two_pages() {
    let mut r = reader(4);
    r.current_page = 1;
    let pages = r.render_double();
    assert!(!pages.reversed);
    let shown: Vec<bool> = pages.images.iter().map(|i| i.visible).collect();
    assert_eq!(shown, vec![false, true, true, false]);
    let ids: Vec<Option<&str>> = pages.images.iter().map(|i| i.id.as_deref()).collect();
    assert_eq!(ids, vec![Some("page-0"), Some("page-1"), Some("page-2"), Some("page-3")]);
    r.current_page = 3;
    r.reader_settings.direction = Direction::RightToLeft;
    let pages = r.render_double();
    assert!(pages.reversed);
    let shown: Vec<bool> = pages.images.iter().map(|i| i.visible).collect();
    assert_eq!(shown, vec![false, false, false, true]);
}

#[test]
fn navigation_follows_the_reading_direction() {
    let mut r = reader(1);
    assert_eq!(r.render_navigation(), Navigation { reversed: true });
    r.reader_settings.direction = Direction::RightToLeft;
    assert_eq!(r.render_navigation(), Navigation { reversed: false });
}

#[test]
fn screen_follows_the_settings() {
    let mut r = reader(2);
    let screen = r.render();
    assert!(screen.light);
    assert!(!screen.dark);
    assert!(matches!(screen.body, Body::Single(Navigation { reversed: true }, _)));
    assert_eq!(screen.top.title, "Chapter 363");
    assert_eq!(screen.bottom.pages, "2");
    r.reader_settings.background = Background::Black;
    r.reader_settings.display_mode = DisplayMode::Double;
    let screen = r.render();
    assert!(!screen.light);
    assert!(screen.dark);
    assert!(matches!(screen.body, Body::Double(_, _)));
    r.reader_settings.reader_mode = ReaderMode::Continous;
    match r.render().body {
        Body::Vertical(images) => assert_eq!(images.len(), 2),
        _ => panic!("expected the vertical layout"),
    }
}
