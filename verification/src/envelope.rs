//! The request and response envelopes exchanged with a provider, and their
//! byte form. Every field is a string or a list of strings, so that a value
//! can always be copied across the sandbox boundary.

use crate::wire::{
    len_bytes, parse_len, parse_str, parse_strs, ser_str, ser_strs, str_fits, strs_fit, texts, MAX_LEN,
};
use vstd::prelude::*;

verus! {

/// Query handed to a provider's search entry point.
#[derive(Clone, Debug, PartialEq, Eq)]
pub struct SearchParams {
    pub keyword: String,
    pub page: String,
    pub sort_by: String,
    pub sort_order: String,
}

/// One catalog entry as a provider reports it.
#[derive(Clone, Debug, PartialEq, Eq)]
pub struct CatalogEntry {
    pub title: String,
    pub author: String,
    pub genres: Vec<String>,
    pub status: String,
    pub description: String,
    pub source_url: String,
    pub thumbnail_url: String,
    pub chapter_refs: Vec<String>,
}

/// The pages of one chapter.
#[derive(Clone, Debug, PartialEq, Eq)]
pub struct Chapter {
    pub pages: Vec<String>,
}

/// Mathematical content of a [`SearchParams`].
pub struct SearchParamsView {
    pub keyword: Seq<char>,
    pub page: Seq<char>,
    pub sort_by: Seq<char>,
    pub sort_order: Seq<char>,
}

/// Mathematical content of a [`CatalogEntry`].
pub struct CatalogEntryView {
    pub title: Seq<char>,
    pub author: Seq<char>,
    pub genres: Seq<Seq<char>>,
    pub status: Seq<char>,
    pub description: Seq<char>,
    pub source_url: Seq<char>,
    pub thumbnail_url: Seq<char>,
    pub chapter_refs: Seq<Seq<char>>,
}

/// Mathematical content of a [`Chapter`].
pub struct ChapterView {
    pub pages: Seq<Seq<char>>,
}

impl View for SearchParams {
    type V = SearchParamsView;

    open spec fn view(&self) -> SearchParamsView {
        SearchParamsView {
            keyword: self.keyword@,
            page: self.page@,
            sort_by: self.sort_by@,
            sort_order: self.sort_order@,
        }
    }
}

impl View for CatalogEntry {
    type V = CatalogEntryView;

    open spec fn view(&self) -> CatalogEntryView {
        CatalogEntryView {
            title: self.title@,
            author: self.author@,
            genres: texts(self.genres@),
            status: self.status@,
            description: self.description@,
            source_url: self.source_url@,
            thumbnail_url: self.thumbnail_url@,
            chapter_refs: texts(self.chapter_refs@),
        }
    }
}

impl View for Chapter {
    type V = ChapterView;

    open spec fn view(&self) -> ChapterView {
        ChapterView { pages: texts(self.pages@) }
    }
}

/// The contents of a list of catalog entries.
pub open spec fn entry_views(v: Seq<CatalogEntry>) -> Seq<CatalogEntryView> {
    Seq::new(v.len(), |i: int| v[i]@)
}

// ---------------------------------------------------------------------------
// Search parameters
// ---------------------------------------------------------------------------
/// Every field of the parameters can be framed.
pub open spec fn params_fit(p: SearchParamsView) -> bool {
    str_fits(p.keyword) && str_fits(p.page) && str_fits(p.sort_by) && str_fits(p.sort_order)
}

/// Search parameters on the wire: the four fields in declaration order.
pub open spec fn ser_params(p: SearchParamsView) -> Seq<u8> {
    ser_str(p.keyword) + ser_str(p.page) + ser_str(p.sort_by) + ser_str(p.sort_order)
}

/// Reads search parameters from the front of `b`.
pub open spec fn parse_params(b: Seq<u8>) -> Option<(SearchParamsView, Seq<u8>)> {
    match parse_str(b) {
        None => None,
        Some((keyword, b1)) => match parse_str(b1) {
            None => None,
            Some((page, b2)) => match parse_str(b2) {
                None => None,
                Some((sort_by, b3)) => match parse_str(b3) {
                    None => None,
                    Some((sort_order, b4)) => Some(
                        (SearchParamsView { keyword, page, sort_by, sort_order }, b4),
                    ),
                },
            },
        },
    }
}

/// The search parameters that a whole buffer holds, if it holds exactly one
/// well-formed frame of them.
pub open spec fn decoded_params(b: Seq<u8>) -> Option<SearchParamsView> {
    match parse_params(b) {
        Some((p, rest)) => if rest.len() == 0 {
            Some(p)
        } else {
            None
        },
        None => None,
    }
}

// ---------------------------------------------------------------------------
// Chapters
// ---------------------------------------------------------------------------
/// The page list of the chapter can be framed.
pub open spec fn chapter_fits(c: ChapterView) -> bool {
    strs_fit(c.pages)
}

/// A chapter on the wire: its list of pages.
pub open spec fn ser_chapter(c: ChapterView) -> Seq<u8> {
    ser_strs(c.pages)
}

/// The chapter that a whole buffer holds, if it holds exactly one well-formed
/// frame of one.
pub open spec fn decoded_chapter(b: Seq<u8>) -> Option<ChapterView> {
    match parse_strs(b) {
        Some((pages, rest)) => if rest.len() == 0 {
            Some(ChapterView { pages })
        } else {
            None
        },
        None => None,
    }
}

// ---------------------------------------------------------------------------
// Catalog entries
// ---------------------------------------------------------------------------
/// Every field of the entry can be framed.
pub open spec fn entry_fits(e: CatalogEntryView) -> bool {
    &&& str_fits(e.title)
    &&& str_fits(e.author)
    &&& strs_fit(e.genres)
    &&& str_fits(e.status)
    &&& str_fits(e.description)
    &&& str_fits(e.source_url)
    &&& str_fits(e.thumbnail_url)
    &&& strs_fit(e.chapter_refs)
}

/// A catalog entry on the wire: the eight fields in declaration order.
pub open spec fn ser_entry(e: CatalogEntryView) -> Seq<u8> {
    ser_str(e.title) + ser_str(e.author) + ser_strs(e.genres) + ser_str(e.status) + ser_str(
        e.description,
    ) + ser_str(e.source_url) + ser_str(e.thumbnail_url) + ser_strs(e.chapter_refs)
}

/// Reads a catalog entry from the front of `b`.
pub open spec fn parse_entry(b: Seq<u8>) -> Option<(CatalogEntryView, Seq<u8>)> {
    match parse_str(b) {
        None => None,
        Some((title, b1)) => match parse_str(b1) {
            None => None,
            Some((author, b2)) => match parse_strs(b2) {
                None => None,
                Some((genres, b3)) => match parse_str(b3) {
                    None => None,
                    Some((status, b4)) => match parse_str(b4) {
                        None => None,
                        Some((description, b5)) => match parse_str(b5) {
                            None => None,
                            Some((source_url, b6)) => match parse_str(b6) {
                                None => None,
                                Some((thumbnail_url, b7)) => match parse_strs(b7) {
                                    None => None,
                                    Some((chapter_refs, b8)) => Some(
                                        (
                                            CatalogEntryView {
                                                title,
                                                author,
                                                genres,
                                                status,
                                                description,
                                                source_url,
                                                thumbnail_url,
                                                chapter_refs,
                                            },
                                            b8,
                                        ),
                                    ),
                                },
                            },
                        },
                    },
                },
            },
        },
    }
}

/// The catalog entry that a whole buffer holds, if it holds exactly one
/// well-formed frame of one.
pub open spec fn decoded_entry(b: Seq<u8>) -> Option<CatalogEntryView> {
    match parse_entry(b) {
        Some((e, rest)) => if rest.len() == 0 {
            Some(e)
        } else {
            None
        },
        None => None,
    }
}

/// The list and each of its entries can be framed.
pub open spec fn entries_fit(l: Seq<CatalogEntryView>) -> bool {
    &&& l.len() <= MAX_LEN
    &&& forall|i: int| 0 <= i < l.len() ==> entry_fits(#[trigger] l[i])
}

/// The entries of a list one after the other, without the count.
pub open spec fn ser_entry_items(l: Seq<CatalogEntryView>) -> Seq<u8>
    decreases l.len(),
{
    if l.len() == 0 {
        Seq::empty()
    } else {
        ser_entry(l[0]) + ser_entry_items(l.skip(1))
    }
}

/// A list of catalog entries on the wire: the count, then each entry.
pub open spec fn ser_entries(l: Seq<CatalogEntryView>) -> Seq<u8> {
    len_bytes(l.len()) + ser_entry_items(l)
}

/// Reads `count` catalog entries from the front of `b`.
pub open spec fn parse_entry_items(b: Seq<u8>, count: nat) -> Option<
    (Seq<CatalogEntryView>, Seq<u8>),
>
    decreases count,
{
    if count == 0 {
        Some((Seq::empty(), b))
    } else {
        match parse_entry(b) {
            None => None,
            Some((e, rest)) => match parse_entry_items(rest, (count - 1) as nat) {
                None => None,
                Some((tail, end)) => Some((seq![e] + tail, end)),
            },
        }
    }
}

/// The list of catalog entries that a whole buffer holds, if it holds
/// exactly one well-formed frame of one.
pub open spec fn decoded_entries(b: Seq<u8>) -> Option<Seq<CatalogEntryView>> {
    match parse_len(b) {
        None => None,
        Some((n, body)) => match parse_entry_items(body, n) {
            Some((l, rest)) => if rest.len() == 0 {
                Some(l)
            } else {
                None
            },
            None => None,
        },
    }
}

// ---------------------------------------------------------------------------
// Paths
// ---------------------------------------------------------------------------
/// The path that a whole buffer holds, if it holds exactly one well-formed
/// string frame.
pub open spec fn decoded_path(b: Seq<u8>) -> Option<Seq<char>> {
    match parse_str(b) {
        Some((s, rest)) => if rest.len() == 0 {
            Some(s)
        } else {
            None
        },
        None => None,
    }
}

} // verus!
