//! The chapter reader: which page is shown, how the reader moves between
//! pages and chapters, and what each part of the screen shows.
//!
//! Nothing here fetches or draws. Every `render_*` function describes a part
//! of the screen with plain values, for the current state.

use crate::text::{decimal, u64_to_string};
use vstd::prelude::*;
use vstd::string::*;

verus! {

/// How the pages of a chapter are laid out.
#[derive(Clone, Copy, Debug, PartialEq, Eq, Structural)]
pub enum ReaderMode {
    /// All pages below each other, scrolled through.
    Continous,
    /// One or two pages at a time, turned by tapping.
    Paged,
}

/// How many pages are shown at a time in paged mode.
#[derive(Clone, Copy, Debug, PartialEq, Eq, Structural)]
pub enum DisplayMode {
    Single,
    Double,
}

/// Reading direction.
#[derive(Clone, Copy, Debug, PartialEq, Eq, Structural)]
pub enum Direction {
    LeftToRight,
    RightToLeft,
}

/// Colour behind the pages.
#[derive(Clone, Copy, Debug, PartialEq, Eq, Structural)]
pub enum Background {
    White,
    Black,
}

/// How a page is fitted to the screen.
#[derive(Clone, Copy, Debug, PartialEq, Eq, Structural)]
pub enum Fit {
    Width,
    Height,
    All,
}

/// The reader's settings.
#[derive(Clone, Copy, Debug, PartialEq, Eq, Structural)]
pub struct ReaderSettings {
    pub reader_mode: ReaderMode,
    pub display_mode: DisplayMode,
    pub direction: Direction,
    pub background: Background,
    pub fit: Fit,
}

/// A fetched chapter.
#[derive(Debug, PartialEq, Eq)]
pub struct ChapterDetail {
    pub manga_id: i64,
    pub manga_title: String,
    pub title: String,
    pub next: Option<i64>,
    pub prev: Option<i64>,
    pub pages: Vec<String>,
}

/// The state of the reader.
#[derive(Debug, PartialEq, Eq)]
pub struct Reader {
    pub chapter_id: i64,
    pub manga_id: i64,
    pub manga_title: String,
    pub chapter_title: String,
    pub next_chapter: Option<i64>,
    pub prev_chapter: Option<i64>,
    pub current_page: usize,
    pub pages: Vec<String>,
    pub pages_len: usize,
    pub reader_settings: ReaderSettings,
    pub is_bar_visible: bool,
}

/// Where the back button leads.
#[derive(Clone, Copy, Debug, PartialEq, Eq, Structural)]
pub enum BackTarget {
    /// To the start page: there is no history to go back in.
    Home,
    /// One step back in the browser history.
    Previous,
}

/// How an image is fitted, as four independent properties.
#[derive(Clone, Copy, Debug, PartialEq, Eq, Structural)]
pub struct FitClasses {
    /// The image may grow beyond the width of its frame.
    pub unbounded_width: bool,
    /// The image is scaled to lie inside its frame.
    pub contained: bool,
    /// The image takes the full width of its frame.
    pub full_width: bool,
    /// The image takes the full height of its frame.
    pub full_height: bool,
}

/// The properties that a way of fitting stands for.
pub open spec fn fit_classes(fit: Fit) -> FitClasses {
    FitClasses {
        unbounded_width: fit is Height,
        contained: fit is All,
        full_width: !(fit is Height),
        full_height: !(fit is Width),
    }
}

/// Computes the properties that a way of fitting stands for.
pub fn fit_classes_of(fit: Fit) -> (r: FitClasses)
    ensures
        r == fit_classes(fit),
{
    match fit {
        Fit::Width => FitClasses {
            unbounded_width: false,
            contained: false,
            full_width: true,
            full_height: false,
        },
        Fit::Height => FitClasses {
            unbounded_width: true,
            contained: false,
            full_width: false,
            full_height: true,
        },
        Fit::All => FitClasses {
            unbounded_width: false,
            contained: true,
            full_width: true,
            full_height: true,
        },
    }
}

/// The bar above the pages.
#[derive(Debug, PartialEq, Eq)]
pub struct TopBar {
    /// The bar slides in (it is visible).
    pub slide_in: bool,
    /// The bar slides out (it is hidden).
    pub slide_out: bool,
    pub title: String,
}

/// The bar below the pages.
#[derive(Debug, PartialEq, Eq)]
pub struct BottomBar {
    pub slide_in: bool,
    pub slide_out: bool,
    /// The chapter that the button on the left opens, if there is one.
    pub prev_chapter: Option<i64>,
    /// The number of the current page, counted from one.
    pub page: String,
    /// The number of pages.
    pub pages: String,
    /// The chapter that the button on the right opens, if there is one.
    pub next_chapter: Option<i64>,
}

/// One page image.
#[derive(Debug, PartialEq, Eq)]
pub struct PageImage {
    /// Identifier of the image element, where the layout gives it one.
    pub id: Option<String>,
    /// Address of the image.
    pub src: String,
    pub visible: bool,
    pub fit: FitClasses,
}

/// The pages of paged mode, two at a time.
#[derive(Debug, PartialEq, Eq)]
pub struct DoublePages {
    /// The pages are laid out from right to left.
    pub reversed: bool,
    pub images: Vec<PageImage>,
}

/// The tap areas of paged mode.
#[derive(Clone, Copy, Debug, PartialEq, Eq, Structural)]
pub struct Navigation {
    /// The areas are laid out in reverse: the one for the next page is on
    /// the right.
    pub reversed: bool,
}

/// What lies between the two bars.
#[derive(Debug, PartialEq, Eq)]
pub enum Body {
    Vertical(Vec<PageImage>),
    Single(Navigation, Vec<PageImage>),
    Double(Navigation, DoublePages),
}

/// The whole reader screen.
#[derive(Debug, PartialEq, Eq)]
pub struct Screen {
    pub light: bool,
    pub dark: bool,
    pub top: TopBar,
    pub body: Body,
    pub bottom: BottomBar,
}

/// The page that a tap on "next" leads to: one or two pages on, by the
/// display mode, if that is still a page of the chapter; else the reader
/// stays.
pub open spec fn page_after(current: int, pages_len: int, mode: DisplayMode) -> int {
    let step: int = if mode is Single {
        1
    } else {
        2
    };
    if current + step < pages_len {
        current + step
    } else {
        current
    }
}

/// The page that a tap on "previous" leads to: one or two pages back, by the
/// display mode, but not before the first page.
pub open spec fn page_before(current: int, mode: DisplayMode) -> int {
    let step: int = if mode is Single {
        1
    } else {
        2
    };
    if current >= step {
        current - step
    } else {
        0
    }
}

/// The page that a scroll position selects: the first page whose top lies
/// above `body_top`, or the first page of all when there is none.
pub open spec fn scrolled_to(body_top: int, tops: Seq<i32>, page: int) -> bool {
    if exists|i: int| 0 <= i < tops.len() && body_top > tops[i] {
        &&& 0 <= page < tops.len()
        &&& body_top > tops[page]
        &&& forall|j: int| 0 <= j < page ==> body_top <= tops[j]
    } else {
        page == 0
    }
}

/// The address under which the browser shows a chapter.
pub open spec fn chapter_path(chapter_id: int) -> Seq<char> {
    "/chapter/"@ + crate::text::signed_decimal(chapter_id)
}

/// The identifier of the image of page `index` in the vertical layout.
pub open spec fn vertical_id(index: int) -> Seq<char> {
    decimal(index as nat)
}

/// The identifier of the image of page `index` in the double layout.
pub open spec fn double_id(index: int) -> Seq<char> {
    "page-"@ + decimal(index as nat)
}

/// In the double layout the current page and the one after it are shown.
pub open spec fn shown_in_double(current: int, index: int) -> bool {
    index == current || index == current + 1
}

/// The page images of a layout.
#[derive(Clone, Copy, Debug, PartialEq, Eq, Structural)]
pub enum Layout {
    Vertical,
    Single,
    Double,
}

/// The identifier of the image of page `index` in a layout: the single
/// layout names no image.
pub open spec fn image_id(layout: Layout, index: int) -> Option<Seq<char>> {
    match layout {
        Layout::Vertical => Some(vertical_id(index)),
        Layout::Single => None,
        Layout::Double => Some(double_id(index)),
    }
}

/// Whether page `index` is shown in a layout when `current` is the current
/// page.
pub open spec fn image_shown(layout: Layout, current: int, index: int) -> bool {
    match layout {
        Layout::Vertical => true,
        Layout::Single => index == current,
        Layout::Double => shown_in_double(current, index),
    }
}

/// The contents of an optional string.
pub open spec fn option_text(s: Option<String>) -> Option<Seq<char>> {
    match s {
        Some(s) => Some(s@),
        None => None,
    }
}

impl Reader {
    /// `bar` is the upper bar of this reader: it shows the chapter's title,
    /// and slides in or out as the bars are visible or not.
    pub open spec fn has_topbar(&self, bar: TopBar) -> bool {
        &&& bar.slide_in == self.is_bar_visible
        &&& bar.slide_out == !self.is_bar_visible
        &&& bar.title@ == self.chapter_title@
    }

    /// `bar` is the lower bar of this reader: buttons for the neighbouring
    /// chapters where there are any, and the current page, counted from
    /// one, out of the number of pages.
    pub open spec fn has_bottombar(&self, bar: BottomBar) -> bool {
        &&& bar.slide_in == self.is_bar_visible
        &&& bar.slide_out == !self.is_bar_visible
        &&& bar.prev_chapter == self.prev_chapter
        &&& bar.next_chapter == self.next_chapter
        &&& bar.page@ == decimal((self.current_page + 1) as nat)
        &&& bar.pages@ == decimal(self.pages_len as nat)
    }

    /// `images` are the page images of this reader in `layout`: one for
    /// each page, in order, fitted as the settings say.
    pub open spec fn has_images(&self, layout: Layout, images: Seq<PageImage>) -> bool {
        &&& images.len() == self.pages@.len()
        &&& forall|i: int|
            0 <= i < images.len() ==> {
                let image = #[trigger] images[i];
                &&& option_text(image.id) == image_id(layout, i)
                &&& image.src@ == self.pages@[i]@
                &&& image.fit == fit_classes(self.reader_settings.fit)
                &&& image.visible == image_shown(layout, self.current_page as int, i)
            }
    }

    /// `pages` is the double layout of this reader, from right to left when
    /// that is the reading direction.
    pub open spec fn has_double(&self, pages: DoublePages) -> bool {
        &&& pages.reversed == (self.reader_settings.direction is RightToLeft)
        &&& self.has_images(Layout::Double, pages.images@)
    }

    /// `navigation` are the tap areas of this reader: reading from left to
    /// right puts the area for the next page on the right, which is the
    /// reverse of their order.
    pub open spec fn has_navigation(&self, navigation: Navigation) -> bool {
        navigation.reversed == (self.reader_settings.direction is LeftToRight)
    }

    /// `body` is what this reader shows between the bars: the layout that
    /// the settings ask for.
    pub open spec fn has_body(&self, body: Body) -> bool {
        match self.reader_settings.reader_mode {
            ReaderMode::Continous => body matches Body::Vertical(images) && self.has_images(
                Layout::Vertical,
                images@,
            ),
            ReaderMode::Paged => match self.reader_settings.display_mode {
                DisplayMode::Single => body matches Body::Single(navigation, images)
                    && self.has_navigation(navigation) && self.has_images(
                    Layout::Single,
                    images@,
                ),
                DisplayMode::Double => body matches Body::Double(navigation, pages)
                    && self.has_navigation(navigation) && self.has_double(pages),
            },
        }
    }

    /// `screen` is the whole screen of this reader.
    pub open spec fn has_screen(&self, screen: Screen) -> bool {
        &&& screen.light == (self.reader_settings.background is White)
        &&& screen.dark == (self.reader_settings.background is Black)
        &&& self.has_topbar(screen.top)
        &&& self.has_body(screen.body)
        &&& self.has_bottombar(screen.bottom)
    }
}

impl Reader {
    /// A reader for the chapter `chapter_id`, of which nothing is fetched
    /// yet: no pages, both bars visible.
    pub fn new(chapter_id: i64, reader_settings: ReaderSettings) -> (r: Reader)
        ensures
            r.chapter_id == chapter_id,
            r.manga_id == 0,
            r.manga_title@.len() == 0,
            r.chapter_title@.len() == 0,
            r.next_chapter is None,
            r.prev_chapter is None,
            r.current_page == 0,
            r.pages@.len() == 0,
            r.pages_len == 0,
            r.reader_settings == reader_settings,
            r.is_bar_visible,
    {
        Reader {
            chapter_id,
            manga_id: 0,
            manga_title: String::new(),
            chapter_title: String::new(),
            next_chapter: None,
            prev_chapter: None,
            current_page: 0,
            pages: Vec::new(),
            pages_len: 0,
            reader_settings,
            is_bar_visible: true,
        }
    }

    /// Takes in the answer to the fetch of chapter `chapter_id`.
    ///
    /// A fetched chapter replaces title, neighbours and pages, and the
    /// reader goes to its first page; the address under which the browser
    /// is to show the chapter is handed back. A failed fetch changes nothing
    /// and hands back the message.
    pub fn fetch_detail(&mut self, chapter_id: i64, answer: Result<ChapterDetail, String>) -> (r:
        Result<String, String>)
        ensures
            final(self).chapter_id == old(self).chapter_id,
            final(self).reader_settings == old(self).reader_settings,
            final(self).is_bar_visible == old(self).is_bar_visible,
            match answer {
                Ok(detail) => {
                    &&& r matches Ok(path) && path@ == chapter_path(chapter_id as int)
                    &&& final(self).manga_id == detail.manga_id
                    &&& final(self).manga_title == detail.manga_title
                    &&& final(self).chapter_title == detail.title
                    &&& final(self).next_chapter == detail.next
                    &&& final(self).prev_chapter == detail.prev
                    &&& final(self).current_page == 0
                    &&& final(self).pages_len == detail.pages@.len()
                    &&& final(self).pages == detail.pages
                },
                Err(message) => r == Err::<String, String>(message) && *final(self) == *old(self),
            },
    {
        match answer {
            Ok(detail) => {
                self.manga_id = detail.manga_id;
                self.manga_title = detail.manga_title;
                self.chapter_title = detail.title;
                self.next_chapter = detail.next;
                self.prev_chapter = detail.prev;
                self.current_page = 0;
                self.pages_len = detail.pages.len();
                self.pages = detail.pages;
                let mut path = String::from_str("/chapter/");
                path.append(crate::text::i64_to_string(chapter_id).as_str());
                Ok(path)
            },
            Err(message) => Err(message),
        }
    }

    /// The record of a page turn, to be sent to the server: the chapter and
    /// the page as a signed number, which wraps for a page beyond its range.
    pub fn update_page_read(&self, page: usize) -> (r: (i64, i64))
        ensures
            r.0 == self.chapter_id,
            page <= i64::MAX ==> r.1 == page,
            page > i64::MAX ==> r.1 == page - 0x1_0000_0000_0000_0000,
    {
        let wide = page as u64;
        let signed: i64 = if wide <= 0x7fff_ffff_ffff_ffff {
            wide as i64
        } else {
            let low: u64 = wide - 0x8000_0000_0000_0000;
            (low as i64) + i64::MIN
        };
        (self.chapter_id, signed)
    }

    /// Where the back button leads, given the length of the browser
    /// history.
    pub fn back_target(history_len: u32) -> (r: BackTarget)
        ensures
            r == (if history_len == 0 {
                BackTarget::Home
            } else {
                BackTarget::Previous
            }),
    {
        if history_len == 0 {
            BackTarget::Home
        } else {
            BackTarget::Previous
        }
    }

    /// Shows the bars if they are hidden, hides them if they are shown.
    pub fn toggle_bar(&mut self)
        ensures
            final(self).is_bar_visible == !old(self).is_bar_visible,
            *final(self) == (Reader { is_bar_visible: final(self).is_bar_visible, ..*old(self) }),
    {
        self.is_bar_visible = !self.is_bar_visible;
    }

    /// Opens another chapter: the neighbour that a button of the lower bar
    /// stands for.
    pub fn open_chapter(&mut self, chapter_id: i64)
        ensures
            *final(self) == (Reader { chapter_id, ..*old(self) }),
    {
        self.chapter_id = chapter_id;
    }

    /// Turns to the next page, or pages, if there are any. Tells whether the
    /// page changed.
    pub fn next_page(&mut self) -> (moved: bool)
        ensures
            final(self).current_page == page_after(
                old(self).current_page as int,
                old(self).pages_len as int,
                old(self).reader_settings.display_mode,
            ),
            moved == (final(self).current_page != old(self).current_page),
            *final(self) == (Reader { current_page: final(self).current_page, ..*old(self) }),
    {
        let step: usize = match self.reader_settings.display_mode {
            DisplayMode::Single => 1,
            DisplayMode::Double => 2,
        };
        if self.current_page < self.pages_len && step < self.pages_len - self.current_page {
            self.current_page = self.current_page + step;
            true
        } else {
            false
        }
    }

    /// Turns to the previous page, or pages, stopping at the first. Tells
    /// whether the page changed.
    pub fn prev_page(&mut self) -> (moved: bool)
        ensures
            final(self).current_page == page_before(
                old(self).current_page as int,
                old(self).reader_settings.display_mode,
            ),
            moved == (final(self).current_page != old(self).current_page),
            *final(self) == (Reader { current_page: final(self).current_page, ..*old(self) }),
    {
        let step: usize = match self.reader_settings.display_mode {
            DisplayMode::Single => 1,
            DisplayMode::Double => 2,
        };
        let target: usize = if self.current_page >= step {
            self.current_page - step
        } else {
            0
        };
        if target != self.current_page {
            self.current_page = target;
            true
        } else {
            false
        }
    }

    /// The page that a scroll position selects in the vertical layout, given
    /// the top of the view, rounded up to a whole number, and the tops of
    /// the page images.
    pub fn page_at_scroll(body_top: i64, tops: &Vec<i32>) -> (page: usize)
        ensures
            scrolled_to(body_top as int, tops@, page as int),
    {
        let mut i: usize = 0;
        while i < tops.len()
            invariant
                i <= tops@.len(),
                forall|j: int| 0 <= j < i ==> body_top <= tops@[j],
            decreases tops@.len() - i,
        {
            if body_top > tops[i] as i64 {
                return i;
            }
            i += 1;
        }
        0
    }

    /// Follows a scroll of the vertical layout: the page selected by the
    /// scroll position becomes the current page.
    pub fn scroll(&mut self, body_top: i64, tops: &Vec<i32>)
        ensures
            scrolled_to(body_top as int, tops@, final(self).current_page as int),
            *final(self) == (Reader { current_page: final(self).current_page, ..*old(self) }),
    {
        self.current_page = Self::page_at_scroll(body_top, tops);
    }

    /// The bar above the pages.
    pub fn render_topbar(&self) -> (bar: TopBar)
        ensures
            self.has_topbar(bar),
    {
        TopBar {
            slide_in: self.is_bar_visible,
            slide_out: !self.is_bar_visible,
            title: self.chapter_title.clone(),
        }
    }

    /// The bar below the pages. The number of the current page must not
    /// overflow when it is counted from one.
    pub fn render_bottombar(&self) -> (bar: BottomBar)
        requires
            self.current_page < usize::MAX,
        ensures
            self.has_bottombar(bar),
    {
        BottomBar {
            slide_in: self.is_bar_visible,
            slide_out: !self.is_bar_visible,
            prev_chapter: self.prev_chapter,
            page: u64_to_string((self.current_page + 1) as u64),
            pages: u64_to_string(self.pages_len as u64),
            next_chapter: self.next_chapter,
        }
    }

    /// The page images of a layout.
    fn page_images(&self, layout: Layout) -> (images: Vec<PageImage>)
        ensures
            self.has_images(layout, images@),
    {
        let fit = fit_classes_of(self.reader_settings.fit);
        let mut images: Vec<PageImage> = Vec::new();
        let mut i: usize = 0;
        while i < self.pages.len()
            invariant
                i <= self.pages@.len(),
                images@.len() == i,
                fit == fit_classes(self.reader_settings.fit),
                forall|k: int|
                    0 <= k < i ==> {
                        let image = #[trigger] images@[k];
                        &&& option_text(image.id) == image_id(layout, k)
                        &&& image.src@ == self.pages@[k]@
                        &&& image.fit == fit_classes(self.reader_settings.fit)
                        &&& image.visible == image_shown(layout, self.current_page as int, k)
                    },
            decreases self.pages@.len() - i,
        {
            let id = match layout {
                Layout::Vertical => Some(u64_to_string(i as u64)),
                Layout::Single => None,
                Layout::Double => {
                    let mut id = String::from_str("page-");
                    id.append(u64_to_string(i as u64).as_str());
                    Some(id)
                },
            };
            let visible = match layout {
                Layout::Vertical => true,
                Layout::Single => i == self.current_page,
                Layout::Double => i == self.current_page || (self.current_page < usize::MAX && i
                    == self.current_page + 1),
            };
            images.push(PageImage { id, src: self.pages[i].clone(), visible, fit });
            i += 1;
        }
        images
    }

    /// The vertical layout: every page is shown, each image named by its
    /// number.
    pub fn render_vertical(&self) -> (images: Vec<PageImage>)
        ensures
            self.has_images(Layout::Vertical, images@),
    {
        self.page_images(Layout::Vertical)
    }

    /// The single layout: only the current page is shown, and no image is
    /// named.
    pub fn render_single(&self) -> (images: Vec<PageImage>)
        ensures
            self.has_images(Layout::Single, images@),
    {
        self.page_images(Layout::Single)
    }

    /// The double layout: the current page and the one after it are shown,
    /// each image named `page-` and its number.
    pub fn render_double(&self) -> (pages: DoublePages)
        ensures
            self.has_double(pages),
    {
        let reversed = match self.reader_settings.direction {
            Direction::LeftToRight => false,
            Direction::RightToLeft => true,
        };
        DoublePages { reversed, images: self.page_images(Layout::Double) }
    }

    /// The tap areas of paged mode.
    pub fn render_navigation(&self) -> (r: Navigation)
        ensures
            self.has_navigation(r),
    {
        match self.reader_settings.direction {
            Direction::LeftToRight => Navigation { reversed: true },
            Direction::RightToLeft => Navigation { reversed: false },
        }
    }

    /// The whole screen: the background, the two bars, and between them the
    /// layout that the settings ask for. The number of the current page must
    /// not overflow when it is counted from one.
    pub fn render(&self) -> (screen: Screen)
        requires
            self.current_page < usize::MAX,
        ensures
            self.has_screen(screen),
    {
        let (light, dark) = match self.reader_settings.background {
            Background::White => (true, false),
            Background::Black => (false, true),
        };
        let body = match self.reader_settings.reader_mode {
            ReaderMode::Continous => Body::Vertical(self.render_vertical()),
            ReaderMode::Paged => match self.reader_settings.display_mode {
                DisplayMode::Single => Body::Single(self.render_navigation(), self.render_single()),
                DisplayMode::Double => Body::Double(self.render_navigation(), self.render_double()),
            },
        };
        Screen { light, dark, top: self.render_topbar(), body, bottom: self.render_bottombar() }
    }
}

} // verus!
