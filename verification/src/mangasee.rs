//! A catalog source that reads the pages of one manga site.
//!
//! The source never talks to the network. For every operation it builds the
//! HTTP request to send, and turns the page that came back into catalog
//! entries. Reading the page is done with CSS selectors through
//! [`crate::markup`].

use crate::envelope::{entry_views, CatalogEntry, CatalogEntryView, Chapter, ChapterView, SearchParams};
use crate::markup::{
    element_views, nested_views, select, select_within, selected, selected_within, Element,
    ElementView,
};
use crate::text::{last_or_empty, last_or_empty_of, replace_text, replaced};
use crate::wire::texts;
use vstd::prelude::*;
use vstd::string::*;

verus! {

/// Why a page could not be turned into catalog data.
#[derive(Clone, Copy, Debug, PartialEq, Eq, Structural)]
pub enum ScrapeError {
    /// A selector was not accepted.
    BadSelector,
    /// A matched element lacks the attribute that is read from it.
    MissingAttribute,
    /// Two queries over the same rows disagree on the number of rows.
    Inconsistent,
    /// The form fields could not be encoded.
    Encode,
    /// The pattern that trims a link was not accepted.
    BadPattern,
}

/// HTTP method of a request.
#[derive(Clone, Copy, Debug, PartialEq, Eq, Structural)]
pub enum Method {
    Get,
    Post,
}

/// An HTTP request for the caller to send.
#[derive(Debug, PartialEq, Eq)]
pub struct HttpRequest {
    pub method: Method,
    pub url: String,
    /// Value of the `Content-Type` header, where the request has a body.
    pub content_type: Option<String>,
    pub body: String,
}

/// Mathematical content of an [`HttpRequest`].
pub struct HttpRequestView {
    pub method: Method,
    pub url: Seq<char>,
    pub content_type: Option<Seq<char>>,
    pub body: Seq<char>,
}

impl View for HttpRequest {
    type V = HttpRequestView;

    open spec fn view(&self) -> HttpRequestView {
        HttpRequestView {
            method: self.method,
            url: self.url@,
            content_type: match self.content_type {
                Some(value) => Some(value@),
                None => None,
            },
            body: self.body@,
        }
    }
}

/// The form encoding (`application/x-www-form-urlencoded`) of a list of
/// fields; nothing when the encoder refuses them.
pub uninterp spec fn urlencoded(fields: Seq<(Seq<char>, Seq<char>)>) -> Option<Seq<char>>;

/// `text` with every match of the regular expression `pattern` replaced by
/// `replacement`; nothing when `pattern` is no valid expression.
pub uninterp spec fn regex_replaced(
    pattern: Seq<char>,
    text: Seq<char>,
    replacement: Seq<char>,
) -> Option<Seq<char>>;

/// The contents of a list of form fields.
pub open spec fn field_views(fields: Seq<(String, String)>) -> Seq<(Seq<char>, Seq<char>)> {
    Seq::new(fields.len(), |i: int| (fields[i].0@, fields[i].1@))
}

/// Error type of the form encoder.
#[verifier::external_type_specification]
#[verifier::external_body]
pub struct ExUrlencodeError(serde_urlencoded::ser::Error);

/// Error type of the regular expression compiler.
#[verifier::external_type_specification]
#[verifier::external_body]
pub struct ExRegexError(regex::Error);

/// Encodes form fields with `serde_urlencoded::to_string`. The contract only
/// names the result: it is a function of the fields.
#[verifier::external_body]
fn urlencode(fields: &Vec<(String, String)>) -> (r: Result<String, serde_urlencoded::ser::Error>)
    ensures
        r is Ok <==> urlencoded(field_views(fields@)) is Some,
        r matches Ok(body) ==> urlencoded(field_views(fields@)) == Some(body@),
{
    serde_urlencoded::to_string(fields)
}

/// Compiles `pattern` with `regex::Regex::new` and replaces every match in
/// `text` with `Regex::replace_all`. The contract only names the result: it
/// is a function of the three texts.
#[verifier::external_body]
fn regex_replace_all(pattern: &str, text: &str, replacement: &str) -> (r: Result<
    String,
    regex::Error,
>)
    ensures
        r is Ok <==> regex_replaced(pattern@, text@, replacement@) is Some,
        r matches Ok(out) ==> regex_replaced(pattern@, text@, replacement@) == Some(out@),
{
    regex::Regex::new(pattern).map(|re| re.replace_all(text, replacement).into_owned())
}

// ---------------------------------------------------------------------------
// Reading elements
// ---------------------------------------------------------------------------
/// The attribute values of the elements, if every element has the attribute.
pub open spec fn attr_values(els: Seq<ElementView>) -> Option<Seq<Seq<char>>> {
    if forall|k: int| 0 <= k < els.len() ==> (#[trigger] els[k]).attr is Some {
        Some(Seq::new(els.len(), |k: int| els[k].attr->0))
    } else {
        None
    }
}

/// The text nodes of all the elements, in order.
pub open spec fn flat_texts(els: Seq<ElementView>) -> Seq<Seq<char>>
    decreases els.len(),
{
    if els.len() == 0 {
        Seq::empty()
    } else {
        flat_texts(els.drop_last()) + els.last().texts
    }
}

/// The inner HTML of the last element, or the empty text when there is no
/// element.
pub open spec fn last_inner_html(els: Seq<ElementView>) -> Seq<char> {
    if els.len() == 0 {
        Seq::empty()
    } else {
        els.last().inner_html
    }
}

/// The matches of a query, or the error for a selector that was refused.
pub open spec fn need(found: Option<Seq<ElementView>>) -> Result<Seq<ElementView>, ScrapeError> {
    match found {
        Some(els) => Ok(els),
        None => Err(ScrapeError::BadSelector),
    }
}

/// The attribute values of the matches of a query, or the error for a
/// selector that was refused or an element without the attribute.
pub open spec fn need_attrs(found: Option<Seq<ElementView>>) -> Result<
    Seq<Seq<char>>,
    ScrapeError,
> {
    match found {
        None => Err(ScrapeError::BadSelector),
        Some(els) => match attr_values(els) {
            Some(values) => Ok(values),
            None => Err(ScrapeError::MissingAttribute),
        },
    }
}

/// Copies the attribute values of the elements; there are none when an
/// element lacks the attribute.
pub fn attrs_of(els: &Vec<Element>) -> (r: Option<Vec<String>>)
    ensures
        r is Some <==> attr_values(element_views(els@)) is Some,
        r matches Some(values) ==> attr_values(element_views(els@)) == Some(texts(values@)),
{
    let ghost views = element_views(els@);
    let mut values: Vec<String> = Vec::new();
    let mut i: usize = 0;
    while i < els.len()
        invariant
            i <= els@.len(),
            views == element_views(els@),
            values@.len() == i,
            forall|k: int| 0 <= k < i ==> (#[trigger] views[k]).attr == Some(values@[k]@),
        decreases els@.len() - i,
    {
        match &els[i].attr {
            Some(value) => {
                values.push(value.clone());
            },
            None => {
                assert(views[i as int].attr is None);
                return None;
            },
        }
        i += 1;
    }
    proof {
        assert(texts(values@) =~= Seq::new(views.len(), |k: int| views[k].attr->0));
    }
    Some(values)
}

/// Copies the text nodes of all the elements, in order.
pub fn texts_of(els: &Vec<Element>) -> (r: Vec<String>)
    ensures
        texts(r@) == flat_texts(element_views(els@)),
{
    let ghost views = element_views(els@);
    let mut out: Vec<String> = Vec::new();
    let mut i: usize = 0;
    proof {
        assert(texts(out@) =~= flat_texts(views.take(0)));
    }
    while i < els.len()
        invariant
            i <= els@.len(),
            views == element_views(els@),
            texts(out@) == flat_texts(views.take(i as int)),
        decreases els@.len() - i,
    {
        let ghost before = texts(out@);
        let mut j: usize = 0;
        while j < els[i].texts.len()
            invariant
                i < els@.len(),
                j <= els@[i as int].texts@.len(),
                views == element_views(els@),
                texts(out@) == before + views[i as int].texts.take(j as int),
            decreases els@[i as int].texts@.len() - j,
        {
            let ghost so_far = texts(out@);
            out.push(els[i].texts[j].clone());
            proof {
                assert(texts(out@) =~= so_far.push(els@[i as int].texts@[j as int]@));
                assert(views[i as int].texts.take(j + 1) =~= views[i as int].texts.take(
                    j as int,
                ).push(views[i as int].texts[j as int]));
            }
            j += 1;
        }
        proof {
            assert(views[i as int].texts.take(j as int) =~= views[i as int].texts);
            assert(views.take(i + 1).drop_last() =~= views.take(i as int));
        }
        i += 1;
    }
    proof {
        assert(views.take(i as int) =~= views);
    }
    out
}

// ---------------------------------------------------------------------------
// Search results
// ---------------------------------------------------------------------------
/// An entry of which nothing is known.
pub open spec fn blank_entry() -> CatalogEntryView {
    CatalogEntryView {
        title: Seq::empty(),
        author: Seq::empty(),
        genres: Seq::empty(),
        status: Seq::empty(),
        description: Seq::empty(),
        source_url: Seq::empty(),
        thumbnail_url: Seq::empty(),
        chapter_refs: Seq::empty(),
    }
}

/// The entry of one result row, read from the images and the result links
/// below it: the address of the last image is the thumbnail, the content
/// and the address of the last link are title and URL. Fails when an image
/// has no `src` or a link no `href`.
pub open spec fn row_entry(images: Seq<ElementView>, links: Seq<ElementView>) -> Result<
    CatalogEntryView,
    ScrapeError,
> {
    match (attr_values(images), attr_values(links)) {
        (Some(sources), Some(targets)) => Ok(
            CatalogEntryView {
                title: last_inner_html(links),
                source_url: last_or_empty(targets),
                thumbnail_url: last_or_empty(sources),
                ..blank_entry()
            },
        ),
        _ => Err(ScrapeError::MissingAttribute),
    }
}

/// The entries of the first `n` result rows, or the first error met.
pub open spec fn row_entries(
    images: Seq<Seq<ElementView>>,
    links: Seq<Seq<ElementView>>,
    n: nat,
) -> Result<Seq<CatalogEntryView>, ScrapeError>
    decreases n,
{
    if n == 0 {
        Ok(Seq::empty())
    } else {
        match row_entries(images, links, (n - 1) as nat) {
            Err(e) => Err(e),
            Ok(front) => match row_entry(images[n - 1], links[n - 1]) {
                Err(e) => Err(e),
                Ok(entry) => Ok(front.push(entry)),
            },
        }
    }
}

/// The search results of a page, given the images and the links found below
/// its result rows.
pub open spec fn mangas_in(
    images: Option<Seq<Seq<ElementView>>>,
    links: Option<Seq<Seq<ElementView>>>,
) -> Result<Seq<CatalogEntryView>, ScrapeError> {
    match (images, links) {
        (Some(images), Some(links)) => if images.len() != links.len() {
            Err(ScrapeError::Inconsistent)
        } else {
            row_entries(images, links, images.len())
        },
        _ => Err(ScrapeError::BadSelector),
    }
}

/// A new entry with every field empty.
pub fn blank() -> (r: CatalogEntry)
    ensures
        r@ == blank_entry(),
{
    let r = CatalogEntry {
        title: String::new(),
        author: String::new(),
        genres: Vec::new(),
        status: String::new(),
        description: String::new(),
        source_url: String::new(),
        thumbnail_url: String::new(),
        chapter_refs: Vec::new(),
    };
    assert(r@.genres =~= Seq::<Seq<char>>::empty());
    assert(r@.chapter_refs =~= Seq::<Seq<char>>::empty());
    r
}

/// Builds the entry of one result row.
pub fn entry_from_row(images: &Vec<Element>, links: &Vec<Element>) -> (r: Result<
    CatalogEntry,
    ScrapeError,
>)
    ensures
        r is Ok <==> row_entry(element_views(images@), element_views(links@)) is Ok,
        r matches Ok(entry) ==> row_entry(element_views(images@), element_views(links@)) == Ok::<
            CatalogEntryView,
            ScrapeError,
        >(entry@),
        r matches Err(e) ==> row_entry(element_views(images@), element_views(links@)) == Err::<
            CatalogEntryView,
            ScrapeError,
        >(e),
{
    let sources = match attrs_of(images) {
        Some(sources) => sources,
        None => {
            return Err(ScrapeError::MissingAttribute);
        },
    };
    let targets = match attrs_of(links) {
        Some(targets) => targets,
        None => {
            return Err(ScrapeError::MissingAttribute);
        },
    };
    let mut entry = blank();
    entry.thumbnail_url = last_or_empty_of(&sources);
    entry.source_url = last_or_empty_of(&targets);
    if links.len() > 0 {
        entry.title = links[links.len() - 1].inner_html.clone();
    }
    Ok(entry)
}

/// Builds the search results from the images and the links found below the
/// result rows of a page.
pub fn mangas_from_rows(
    found_images: &Option<Vec<Vec<Element>>>,
    found_links: &Option<Vec<Vec<Element>>>,
) -> (r: Result<Vec<CatalogEntry>, ScrapeError>)
    ensures
        r is Ok <==> mangas_in(option_nested(*found_images), option_nested(*found_links)) is Ok,
        r matches Ok(entries) ==> mangas_in(
            option_nested(*found_images),
            option_nested(*found_links),
        ) == Ok::<Seq<CatalogEntryView>, ScrapeError>(entry_views(entries@)),
        r matches Err(e) ==> mangas_in(option_nested(*found_images), option_nested(*found_links))
            == Err::<Seq<CatalogEntryView>, ScrapeError>(e),
{
    let ghost whole = mangas_in(option_nested(*found_images), option_nested(*found_links));
    let (images, links) = match (found_images, found_links) {
        (Some(images), Some(links)) => (images, links),
        _ => {
            return Err(ScrapeError::BadSelector);
        },
    };
    if images.len() != links.len() {
        return Err(ScrapeError::Inconsistent);
    }
    let ghost image_views = nested_views(images@);
    let ghost link_views = nested_views(links@);
    let mut entries: Vec<CatalogEntry> = Vec::new();
    let mut i: usize = 0;
    proof {
        assert(entry_views(entries@) =~= Seq::<CatalogEntryView>::empty());
    }
    while i < images.len()
        invariant
            i <= images@.len(),
            images@.len() == links@.len(),
            image_views == nested_views(images@),
            link_views == nested_views(links@),
            whole == row_entries(image_views, link_views, images@.len() as nat),
            whole == mangas_in(option_nested(*found_images), option_nested(*found_links)),
            row_entries(image_views, link_views, i as nat) == Ok::<
                Seq<CatalogEntryView>,
                ScrapeError,
            >(entry_views(entries@)),
        decreases images@.len() - i,
    {
        let ghost so_far = entry_views(entries@);
        match entry_from_row(&images[i], &links[i]) {
            Ok(entry) => {
                entries.push(entry);
                proof {
                    assert(entry_views(entries@) =~= so_far.push(entry@));
                }
            },
            Err(e) => {
                proof {
                    assert(row_entry(image_views[i as int], link_views[i as int]) is Err);
                    assert(row_entries(image_views, link_views, (i + 1) as nat) is Err);
                    lemma_row_error_stays(
                        image_views,
                        link_views,
                        (i + 1) as nat,
                        images@.len() as nat,
                    );
                }
                return Err(e);
            },
        }
        i += 1;
    }
    Ok(entries)
}

/// The contents of the answer to a nested query.
pub open spec fn option_nested(found: Option<Vec<Vec<Element>>>) -> Option<Seq<Seq<ElementView>>> {
    match found {
        Some(rows) => Some(nested_views(rows@)),
        None => None,
    }
}

/// The contents of the answer to a query.
pub open spec fn option_elements(found: Option<Vec<Element>>) -> Option<Seq<ElementView>> {
    match found {
        Some(els) => Some(element_views(els@)),
        None => None,
    }
}

/// Once a row fails, reading further rows does not change the error.
pub proof fn lemma_row_error_stays(
    images: Seq<Seq<ElementView>>,
    links: Seq<Seq<ElementView>>,
    n: nat,
    m: nat,
)
    requires
        n <= m,
        row_entries(images, links, n) is Err,
    ensures
        row_entries(images, links, m) == row_entries(images, links, n),
    decreases m,
{
    if n < m {
        lemma_row_error_stays(images, links, n, (m - 1) as nat);
    }
}

// ---------------------------------------------------------------------------
// Latest updates
// ---------------------------------------------------------------------------
/// The address of a series, given the link to one of its chapters with the
/// chapter part already cut off: the reader path becomes the series path.
pub open spec fn series_url(trimmed: Seq<char>) -> Seq<char> {
    replaced(trimmed, "read-online"@, "manga"@)
}

/// The entry of one updated series, given the result of cutting the chapter
/// part off its link.
pub open spec fn latest_entry_of(trimmed: Option<Seq<char>>) -> Result<
    CatalogEntryView,
    ScrapeError,
> {
    match trimmed {
        Some(t) => Ok(CatalogEntryView { source_url: series_url(t), ..blank_entry() }),
        None => Err(ScrapeError::BadPattern),
    }
}

/// The entry of one update link: the link needs an `href`, from which
/// everything from `-chapter-` on is cut.
pub open spec fn latest_entry_in(el: ElementView) -> Result<CatalogEntryView, ScrapeError> {
    match el.attr {
        None => Err(ScrapeError::MissingAttribute),
        Some(href) => latest_entry_of(regex_replaced("-chapter-.*"@, href, ""@)),
    }
}

/// The entries of the first `n` update links, or the first error met.
pub open spec fn latest_entries(els: Seq<ElementView>, n: nat) -> Result<
    Seq<CatalogEntryView>,
    ScrapeError,
>
    decreases n,
{
    if n == 0 {
        Ok(Seq::empty())
    } else {
        match latest_entries(els, (n - 1) as nat) {
            Err(e) => Err(e),
            Ok(front) => match latest_entry_in(els[n - 1]) {
                Err(e) => Err(e),
                Ok(entry) => Ok(front.push(entry)),
            },
        }
    }
}

/// The latest updates of a page, given its update links.
pub open spec fn latest_in(found: Option<Seq<ElementView>>) -> Result<
    Seq<CatalogEntryView>,
    ScrapeError,
> {
    match found {
        Some(els) => latest_entries(els, els.len()),
        None => Err(ScrapeError::BadSelector),
    }
}

/// Once a link fails, reading further links does not change the error.
pub proof fn lemma_latest_error_stays(els: Seq<ElementView>, n: nat, m: nat)
    requires
        n <= m,
        latest_entries(els, n) is Err,
    ensures
        latest_entries(els, m) == latest_entries(els, n),
    decreases m,
{
    if n < m {
        lemma_latest_error_stays(els, n, (m - 1) as nat);
    }
}

/// The contents of the answer of the pattern replacement.
pub open spec fn option_text(r: Result<String, regex::Error>) -> Option<Seq<char>> {
    match r {
        Ok(t) => Some(t@),
        Err(_) => None,
    }
}

/// Builds the entry of one updated series from its trimmed link.
pub fn latest_entry(trimmed: Result<String, regex::Error>) -> (r: Result<CatalogEntry, ScrapeError>)
    ensures
        r is Ok <==> latest_entry_of(option_text(trimmed)) is Ok,
        r matches Ok(entry) ==> latest_entry_of(option_text(trimmed)) == Ok::<
            CatalogEntryView,
            ScrapeError,
        >(entry@),
        r matches Err(e) ==> latest_entry_of(option_text(trimmed)) == Err::<
            CatalogEntryView,
            ScrapeError,
        >(e),
{
    match trimmed {
        Ok(t) => {
            proof {
                reveal_strlit("read-online");
            }
            let mut entry = blank();
            entry.source_url = replace_text(t.as_str(), "read-online", "manga");
            Ok(entry)
        },
        Err(_) => Err(ScrapeError::BadPattern),
    }
}

/// Builds the latest updates from the update links of a page.
pub fn latest_from(found: &Option<Vec<Element>>) -> (r: Result<Vec<CatalogEntry>, ScrapeError>)
    ensures
        r is Ok <==> latest_in(option_elements(*found)) is Ok,
        r matches Ok(entries) ==> latest_in(option_elements(*found)) == Ok::<
            Seq<CatalogEntryView>,
            ScrapeError,
        >(entry_views(entries@)),
        r matches Err(e) ==> latest_in(option_elements(*found)) == Err::<
            Seq<CatalogEntryView>,
            ScrapeError,
        >(e),
{
    let els = match found {
        Some(els) => els,
        None => {
            return Err(ScrapeError::BadSelector);
        },
    };
    let ghost views = element_views(els@);
    let mut entries: Vec<CatalogEntry> = Vec::new();
    let mut i: usize = 0;
    proof {
        assert(entry_views(entries@) =~= Seq::<CatalogEntryView>::empty());
    }
    while i < els.len()
        invariant
            i <= els@.len(),
            views == element_views(els@),
            latest_in(option_elements(*found)) == latest_entries(views, els@.len() as nat),
            latest_entries(views, i as nat) == Ok::<Seq<CatalogEntryView>, ScrapeError>(
                entry_views(entries@),
            ),
        decreases els@.len() - i,
    {
        let ghost so_far = entry_views(entries@);
        let made = match &els[i].attr {
            None => Err(ScrapeError::MissingAttribute),
            Some(href) => latest_entry(regex_replace_all("-chapter-.*", href.as_str(), "")),
        };
        match made {
            Ok(entry) => {
                assert(latest_entry_in(views[i as int]) == Ok::<CatalogEntryView, ScrapeError>(
                    entry@,
                ));
                entries.push(entry);
                proof {
                    assert(entry_views(entries@) =~= so_far.push(entry@));
                }
            },
            Err(e) => {
                proof {
                    assert(latest_entry_in(views[i as int]) == Err::<
                        CatalogEntryView,
                        ScrapeError,
                    >(e));
                    assert(latest_entries(views, (i + 1) as nat) is Err);
                    lemma_latest_error_stays(views, (i + 1) as nat, els@.len() as nat);
                }
                return Err(e);
            },
        }
        i += 1;
    }
    Ok(entries)
}

// ---------------------------------------------------------------------------
// Series page
// ---------------------------------------------------------------------------
/// The entry of a series page at `path`, given what eight queries found on
/// it, or the first error in the order of the queries: the cover images
/// (each needs a `src`), the title headings, the author links, the genre
/// links, the status marks (each needs a `status`), the description blocks,
/// and the chapter links read once for `chapter` and once for `href` (each
/// needs both).
///
/// The last cover, heading and status count; author and description are the
/// last text node found; every text node of a genre link is a genre; every
/// chapter link gives one chapter.
pub open spec fn info_in(
    path: Seq<char>,
    covers: Option<Seq<ElementView>>,
    headings: Option<Seq<ElementView>>,
    authors: Option<Seq<ElementView>>,
    genres: Option<Seq<ElementView>>,
    statuses: Option<Seq<ElementView>>,
    descriptions: Option<Seq<ElementView>>,
    chapters: Option<Seq<ElementView>>,
    targets: Option<Seq<ElementView>>,
) -> Result<CatalogEntryView, ScrapeError> {
    if need_attrs(covers) is Err {
        Err(need_attrs(covers)->Err_0)
    } else if need(headings) is Err {
        Err(need(headings)->Err_0)
    } else if need(authors) is Err {
        Err(need(authors)->Err_0)
    } else if need(genres) is Err {
        Err(need(genres)->Err_0)
    } else if need_attrs(statuses) is Err {
        Err(need_attrs(statuses)->Err_0)
    } else if need(descriptions) is Err {
        Err(need(descriptions)->Err_0)
    } else if need(chapters) is Err {
        Err(need(chapters)->Err_0)
    } else if need(targets) is Err {
        Err(need(targets)->Err_0)
    } else if need_attrs(chapters) is Err {
        Err(need_attrs(chapters)->Err_0)
    } else if need_attrs(targets) is Err {
        Err(need_attrs(targets)->Err_0)
    } else {
        Ok(
            CatalogEntryView {
                title: last_inner_html(headings->0),
                author: last_or_empty(flat_texts(authors->0)),
                genres: flat_texts(genres->0),
                status: last_or_empty(need_attrs(statuses)->Ok_0),
                description: last_or_empty(flat_texts(descriptions->0)),
                source_url: path,
                thumbnail_url: last_or_empty(need_attrs(covers)->Ok_0),
                chapter_refs: need_attrs(chapters)->Ok_0,
            },
        )
    }
}

/// Builds the entry of a series page from what the queries found on it.
pub fn manga_info_from(
    path: String,
    covers: &Option<Vec<Element>>,
    headings: &Option<Vec<Element>>,
    authors: &Option<Vec<Element>>,
    genres: &Option<Vec<Element>>,
    statuses: &Option<Vec<Element>>,
    descriptions: &Option<Vec<Element>>,
    chapters: &Option<Vec<Element>>,
    targets: &Option<Vec<Element>>,
) -> (r: Result<CatalogEntry, ScrapeError>)
    ensures
        entry_result(r) == info_in(
            path@,
            option_elements(*covers),
            option_elements(*headings),
            option_elements(*authors),
            option_elements(*genres),
            option_elements(*statuses),
            option_elements(*descriptions),
            option_elements(*chapters),
            option_elements(*targets),
        ),
{
    let covers = match covers {
        Some(els) => els,
        None => {
            return Err(ScrapeError::BadSelector);
        },
    };
    let sources = match attrs_of(covers) {
        Some(values) => values,
        None => {
            return Err(ScrapeError::MissingAttribute);
        },
    };
    let headings = match headings {
        Some(els) => els,
        None => {
            return Err(ScrapeError::BadSelector);
        },
    };
    let authors = match authors {
        Some(els) => els,
        None => {
            return Err(ScrapeError::BadSelector);
        },
    };
    let genres = match genres {
        Some(els) => els,
        None => {
            return Err(ScrapeError::BadSelector);
        },
    };
    let statuses = match statuses {
        Some(els) => els,
        None => {
            return Err(ScrapeError::BadSelector);
        },
    };
    let marks = match attrs_of(statuses) {
        Some(values) => values,
        None => {
            return Err(ScrapeError::MissingAttribute);
        },
    };
    let descriptions = match descriptions {
        Some(els) => els,
        None => {
            return Err(ScrapeError::BadSelector);
        },
    };
    let chapters = match chapters {
        Some(els) => els,
        None => {
            return Err(ScrapeError::BadSelector);
        },
    };
    let targets = match targets {
        Some(els) => els,
        None => {
            return Err(ScrapeError::BadSelector);
        },
    };
    let ranks = match attrs_of(chapters) {
        Some(values) => values,
        None => {
            return Err(ScrapeError::MissingAttribute);
        },
    };
    if attrs_of(targets).is_none() {
        return Err(ScrapeError::MissingAttribute);
    }
    let title = if headings.len() > 0 {
        headings[headings.len() - 1].inner_html.clone()
    } else {
        String::new()
    };
    let entry = CatalogEntry {
        title,
        author: last_or_empty_of(&texts_of(authors)),
        genres: texts_of(genres),
        status: last_or_empty_of(&marks),
        description: last_or_empty_of(&texts_of(descriptions)),
        source_url: path,
        thumbnail_url: last_or_empty_of(&sources),
        chapter_refs: ranks,
    };
    Ok(entry)
}

/// The contents of the answer of a function that builds one entry.
pub open spec fn entry_result(r: Result<CatalogEntry, ScrapeError>) -> Result<
    CatalogEntryView,
    ScrapeError,
> {
    match r {
        Ok(entry) => Ok(entry@),
        Err(e) => Err(e),
    }
}

/// The contents of the answer of a function that builds a list of entries.
pub open spec fn entries_result(r: Result<Vec<CatalogEntry>, ScrapeError>) -> Result<
    Seq<CatalogEntryView>,
    ScrapeError,
> {
    match r {
        Ok(entries) => Ok(entry_views(entries@)),
        Err(e) => Err(e),
    }
}

/// The contents of the answer of a function that builds a chapter.
pub open spec fn chapter_result(r: Result<Chapter, ScrapeError>) -> Result<
    ChapterView,
    ScrapeError,
> {
    match r {
        Ok(chapter) => Ok(chapter@),
        Err(e) => Err(e),
    }
}

// ---------------------------------------------------------------------------
// Chapter page
// ---------------------------------------------------------------------------
/// The chapter of a reader page, given its page images: every image gives one
/// page, and each needs a `src`.
pub open spec fn chapter_in(images: Option<Seq<ElementView>>) -> Result<ChapterView, ScrapeError> {
    match need_attrs(images) {
        Ok(pages) => Ok(ChapterView { pages }),
        Err(e) => Err(e),
    }
}

/// Builds the chapter of a reader page from its page images.
pub fn chapter_from(images: &Option<Vec<Element>>) -> (r: Result<Chapter, ScrapeError>)
    ensures
        chapter_result(r) == chapter_in(option_elements(*images)),
{
    let images = match images {
        Some(els) => els,
        None => {
            return Err(ScrapeError::BadSelector);
        },
    };
    match attrs_of(images) {
        Some(pages) => Ok(Chapter { pages }),
        None => Err(ScrapeError::MissingAttribute),
    }
}

// ---------------------------------------------------------------------------
// The source
// ---------------------------------------------------------------------------
/// The source, with the base address of the site.
#[derive(Clone, Copy, Debug, PartialEq, Eq)]
pub struct Mangasee {
    pub url: &'static str,
}

impl Default for Mangasee {
    /// The source at the site's public address.
    fn default() -> (r: Mangasee)
        ensures
            r.url@ == "https://mangaseeonline.us"@,
    {
        Mangasee { url: "https://mangaseeonline.us" }
    }
}

/// The form fields of a search, in the order in which they are sent.
pub open spec fn search_fields(p: crate::envelope::SearchParamsView) -> Seq<(Seq<char>, Seq<char>)> {
    seq![
        ("keyword"@, p.keyword),
        ("page"@, p.page),
        ("sortBy"@, p.sort_by),
        ("sortOrder"@, p.sort_order),
    ]
}

/// The request of a search at the site `base`, given the encoded form.
pub open spec fn search_request_of(base: Seq<char>, form: Option<Seq<char>>) -> Result<
    HttpRequestView,
    ScrapeError,
> {
    match form {
        Some(body) => Ok(
            HttpRequestView {
                method: Method::Post,
                url: base + "/search/request.php"@,
                content_type: Some("application/x-www-form-urlencoded; charset=utf-8"@),
                body,
            },
        ),
        None => Err(ScrapeError::Encode),
    }
}

/// A request that fetches the page at `url`.
pub open spec fn get_request(url: Seq<char>) -> HttpRequestView {
    HttpRequestView { method: Method::Get, url, content_type: None, body: Seq::empty() }
}

/// The contents of the answer of a function that builds a request.
pub open spec fn request_result(r: Result<HttpRequest, ScrapeError>) -> Result<
    HttpRequestView,
    ScrapeError,
> {
    match r {
        Ok(request) => Ok(request@),
        Err(e) => Err(e),
    }
}

/// The contents of the answer of the form encoder.
pub open spec fn option_form(r: Result<String, serde_urlencoded::ser::Error>) -> Option<Seq<char>> {
    match r {
        Ok(body) => Some(body@),
        Err(_) => None,
    }
}

/// Builds the request of a search at the site `base` from the encoded form.
pub fn search_request_from(base: &str, form: Result<String, serde_urlencoded::ser::Error>) -> (r:
    Result<HttpRequest, ScrapeError>)
    ensures
        request_result(r) == search_request_of(base@, option_form(form)),
{
    match form {
        Ok(body) => {
            let mut url = String::from_str(base);
            url.append("/search/request.php");
            Ok(
                HttpRequest {
                    method: Method::Post,
                    url,
                    content_type: Some(
                        String::from_str("application/x-www-form-urlencoded; charset=utf-8"),
                    ),
                    body,
                },
            )
        },
        Err(_) => Err(ScrapeError::Encode),
    }
}

impl Mangasee {
    /// The source at the site with base address `url`.
    pub fn new(url: &'static str) -> (r: Mangasee)
        ensures
            r.url == url,
    {
        Mangasee { url }
    }

    /// The request that runs a search: a form posted to the site's search
    /// address.
    pub fn search_request(&self, param: &SearchParams) -> (r: Result<HttpRequest, ScrapeError>)
        ensures
            request_result(r) == search_request_of(
                self.url@,
                urlencoded(search_fields(param@)),
            ),
    {
        let mut fields: Vec<(String, String)> = Vec::new();
        fields.push((String::from_str("keyword"), param.keyword.clone()));
        fields.push((String::from_str("page"), param.page.clone()));
        fields.push((String::from_str("sortBy"), param.sort_by.clone()));
        fields.push((String::from_str("sortOrder"), param.sort_order.clone()));
        assert(field_views(fields@) =~= search_fields(param@));
        search_request_from(self.url, urlencode(&fields))
    }

    /// The request that fetches the page of the latest updates. It always
    /// goes to the site's public address.
    pub fn latest_request(&self) -> (r: HttpRequest)
        ensures
            r@ == get_request("https://mangaseeonline.us"@),
    {
        HttpRequest {
            method: Method::Get,
            url: String::from_str("https://mangaseeonline.us"),
            content_type: None,
            body: String::new(),
        }
    }

    /// The request that fetches the page at `path` of the site.
    pub fn page_request(&self, path: &str) -> (r: HttpRequest)
        ensures
            r@ == get_request(self.url@ + path@),
    {
        let mut url = String::from_str(self.url);
        url.append(path);
        HttpRequest { method: Method::Get, url, content_type: None, body: String::new() }
    }

    /// Reads the results of a search from the page `html` that the search
    /// request brought: one entry for each result row.
    pub fn get_mangas(&self, html: &str) -> (r: Result<Vec<CatalogEntry>, ScrapeError>)
        ensures
            entries_result(r) == mangas_in(
                selected_within(html@, ".requested .row"@, "img"@, "src"@),
                selected_within(html@, ".requested .row"@, ".resultLink"@, "href"@),
            ),
    {
        let images = select_within(html, ".requested .row", "img", "src");
        let links = select_within(html, ".requested .row", ".resultLink", "href");
        mangas_from_rows(&images, &links)
    }

    /// Reads the latest updates from the front page `html`: one entry for
    /// each update link, holding the address of its series.
    pub fn get_latest_mangas(&self, html: &str) -> (r: Result<Vec<CatalogEntry>, ScrapeError>)
        ensures
            entries_result(r) == latest_in(selected(html@, ".latestSeries"@, "href"@)),
    {
        let links = select(html, ".latestSeries", "href");
        latest_from(&links)
    }

    /// Reads the entry of a series from its page `html`, fetched at `path`.
    pub fn get_manga_info(&self, path: String, html: &str) -> (r: Result<CatalogEntry, ScrapeError>)
        ensures
            entry_result(r) == info_in(
                path@,
                selected(html@, ".leftImage img"@, "src"@),
                selected(html@, "h1[class=\"SeriesName\"]"@, "class"@),
                selected(html@, "a[href*=\"author\"]"@, "href"@),
                selected(html@, "a[href*=\"genre\"]"@, "href"@),
                selected(html@, ".PublishStatus"@, "status"@),
                selected(html@, ".description"@, "class"@),
                selected(html@, ".mainWell .chapter-list a[chapter]"@, "chapter"@),
                selected(html@, ".mainWell .chapter-list a[chapter]"@, "href"@),
            ),
    {
        let covers = select(html, ".leftImage img", "src");
        let headings = select(html, "h1[class=\"SeriesName\"]", "class");
        let authors = select(html, "a[href*=\"author\"]", "href");
        let genres = select(html, "a[href*=\"genre\"]", "href");
        let statuses = select(html, ".PublishStatus", "status");
        let descriptions = select(html, ".description", "class");
        let chapters = select(html, ".mainWell .chapter-list a[chapter]", "chapter");
        let targets = select(html, ".mainWell .chapter-list a[chapter]", "href");
        manga_info_from(
            path,
            &covers,
            &headings,
            &authors,
            &genres,
            &statuses,
            &descriptions,
            &chapters,
            &targets,
        )
    }

    /// Reads the pages of a chapter from its reader page `html`.
    pub fn get_chapter(&self, html: &str) -> (r: Result<Chapter, ScrapeError>)
        ensures
            chapter_result(r) == chapter_in(selected(html@, ".fullchapimage img"@, "src"@)),
    {
        let images = select(html, ".fullchapimage img", "src");
        chapter_from(&images)
    }
}

} // verus!
