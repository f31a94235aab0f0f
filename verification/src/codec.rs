//! Encoding envelopes into the byte buffers handed to a provider, and
//! decoding the buffers it hands back. A buffer is accepted only when it
//! holds exactly one well-formed frame: trailing bytes make it malformed.

use crate::envelope::{
    chapter_fits, decoded_chapter, decoded_entries, decoded_entry, decoded_params, decoded_path,
    entries_fit, entry_fits, entry_views, params_fit, parse_entry, parse_entry_items, parse_params,
    ser_chapter, ser_entries, ser_entry, ser_entry_items, ser_params, CatalogEntry,
    CatalogEntryView, Chapter, ChapterView, SearchParams, SearchParamsView,
};
use crate::wire::{
    len_bytes, lemma_parse_ser_len, lemma_parse_ser_str, lemma_parse_ser_strs, parse_len,
    parse_str, parse_strs, put_len, put_str, put_strs, ser_str, ser_strs, str_fits, take_len,
    take_str, take_strs, texts, MAX_LEN,
};
use vstd::prelude::*;

verus! {

// ---------------------------------------------------------------------------
// Round trips
// ---------------------------------------------------------------------------
/// Parsing the frame of search parameters gives them back and leaves what
/// followed the frame.
pub proof fn lemma_parse_ser_params(p: SearchParamsView, rest: Seq<u8>)
    requires
        params_fit(p),
    ensures
        parse_params(ser_params(p) + rest) == Some((p, rest)),
{
    let r3 = ser_str(p.sort_order) + rest;
    let r2 = ser_str(p.sort_by) + r3;
    let r1 = ser_str(p.page) + r2;
    assert(ser_params(p) + rest =~= ser_str(p.keyword) + r1);
    lemma_parse_ser_str(p.keyword, r1);
    lemma_parse_ser_str(p.page, r2);
    lemma_parse_ser_str(p.sort_by, r3);
    lemma_parse_ser_str(p.sort_order, rest);
}

/// Search parameters survive the boundary: decoding what was encoded yields
/// the same four fields.
pub proof fn lemma_params_round_trip(p: SearchParamsView)
    requires
        params_fit(p),
    ensures
        decoded_params(ser_params(p)) == Some(p),
{
    lemma_parse_ser_params(p, Seq::empty());
    assert(ser_params(p) + Seq::<u8>::empty() =~= ser_params(p));
}

/// A path survives the boundary.
pub proof fn lemma_path_round_trip(s: Seq<char>)
    requires
        str_fits(s),
    ensures
        decoded_path(ser_str(s)) == Some(s),
{
    lemma_parse_ser_str(s, Seq::empty());
    assert(ser_str(s) + Seq::<u8>::empty() =~= ser_str(s));
}

/// A chapter survives the boundary.
pub proof fn lemma_chapter_round_trip(c: ChapterView)
    requires
        chapter_fits(c),
    ensures
        decoded_chapter(ser_chapter(c)) == Some(c),
{
    lemma_parse_ser_strs(c.pages, Seq::empty());
    assert(ser_chapter(c) + Seq::<u8>::empty() =~= ser_chapter(c));
}

/// Eight pieces written one after the other, and then a ninth, are the first
/// piece followed by all the others.
proof fn lemma_concat_eight(
    a: Seq<u8>,
    b: Seq<u8>,
    c: Seq<u8>,
    d: Seq<u8>,
    e: Seq<u8>,
    f: Seq<u8>,
    g: Seq<u8>,
    h: Seq<u8>,
    rest: Seq<u8>,
)
    ensures
        (a + b + c + d + e + f + g + h) + rest == a + (b + (c + (d + (e + (f + (g + (h
            + rest))))))),
{
    let r7 = h + rest;
    let r6 = g + r7;
    let r5 = f + r6;
    let r4 = e + r5;
    let r3 = d + r4;
    let r2 = c + r3;
    assert((a + b) + r2 =~= a + (b + r2));
    assert((a + b + c) + r3 =~= (a + b) + r2);
    assert((a + b + c + d) + r4 =~= (a + b + c) + r3);
    assert((a + b + c + d + e) + r5 =~= (a + b + c + d) + r4);
    assert((a + b + c + d + e + f) + r6 =~= (a + b + c + d + e) + r5);
    assert((a + b + c + d + e + f + g) + r7 =~= (a + b + c + d + e + f) + r6);
    assert((a + b + c + d + e + f + g + h) + rest =~= (a + b + c + d + e + f + g) + r7);
}

/// Parsing the frame of a catalog entry gives it back and leaves what
/// followed the frame.
pub proof fn lemma_parse_ser_entry(e: CatalogEntryView, rest: Seq<u8>)
    requires
        entry_fits(e),
    ensures
        parse_entry(ser_entry(e) + rest) == Some((e, rest)),
{
    let r7 = ser_strs(e.chapter_refs) + rest;
    let r6 = ser_str(e.thumbnail_url) + r7;
    let r5 = ser_str(e.source_url) + r6;
    let r4 = ser_str(e.description) + r5;
    let r3 = ser_str(e.status) + r4;
    let r2 = ser_strs(e.genres) + r3;
    let r1 = ser_str(e.author) + r2;
    lemma_concat_eight(
        ser_str(e.title),
        ser_str(e.author),
        ser_strs(e.genres),
        ser_str(e.status),
        ser_str(e.description),
        ser_str(e.source_url),
        ser_str(e.thumbnail_url),
        ser_strs(e.chapter_refs),
        rest,
    );
    lemma_parse_ser_str(e.title, r1);
    lemma_parse_ser_str(e.author, r2);
    lemma_parse_ser_strs(e.genres, r3);
    lemma_parse_ser_str(e.status, r4);
    lemma_parse_ser_str(e.description, r5);
    lemma_parse_ser_str(e.source_url, r6);
    lemma_parse_ser_str(e.thumbnail_url, r7);
    lemma_parse_ser_strs(e.chapter_refs, rest);
}

/// A catalog entry survives the boundary.
pub proof fn lemma_entry_round_trip(e: CatalogEntryView)
    requires
        entry_fits(e),
    ensures
        decoded_entry(ser_entry(e)) == Some(e),
{
    lemma_parse_ser_entry(e, Seq::empty());
    assert(ser_entry(e) + Seq::<u8>::empty() =~= ser_entry(e));
}

/// Parsing as many catalog entries as were written gives the list back.
pub proof fn lemma_parse_ser_entry_items(l: Seq<CatalogEntryView>, rest: Seq<u8>)
    requires
        forall|i: int| 0 <= i < l.len() ==> entry_fits(#[trigger] l[i]),
    ensures
        parse_entry_items(ser_entry_items(l) + rest, l.len()) == Some((l, rest)),
    decreases l.len(),
{
    if l.len() == 0 {
        assert(ser_entry_items(l) + rest =~= rest);
        assert(l =~= Seq::<CatalogEntryView>::empty());
    } else {
        let tail = l.skip(1);
        assert(ser_entry_items(l) + rest =~= ser_entry(l[0]) + (ser_entry_items(tail) + rest));
        lemma_parse_ser_entry(l[0], ser_entry_items(tail) + rest);
        assert forall|i: int| 0 <= i < tail.len() implies entry_fits(#[trigger] tail[i]) by {
            assert(tail[i] == l[i + 1]);
        }
        lemma_parse_ser_entry_items(tail, rest);
        assert(seq![l[0]] + tail =~= l);
    }
}

/// A list of catalog entries survives the boundary.
pub proof fn lemma_entries_round_trip(l: Seq<CatalogEntryView>)
    requires
        entries_fit(l),
    ensures
        decoded_entries(ser_entries(l)) == Some(l),
{
    assert(ser_entries(l) =~= len_bytes(l.len()) + (ser_entry_items(l) + Seq::<u8>::empty()));
    lemma_parse_ser_len(l.len(), ser_entry_items(l) + Seq::<u8>::empty());
    lemma_parse_ser_entry_items(l, Seq::empty());
}

// ---------------------------------------------------------------------------
// Encoding
// ---------------------------------------------------------------------------
/// Encodes search parameters. There is no buffer exactly when a field is too
/// long to be framed.
pub fn encode_params(p: &SearchParams) -> (r: Option<Vec<u8>>)
    ensures
        r is Some <==> params_fit(p@),
        r matches Some(b) ==> b@ == ser_params(p@),
{
    let mut out: Vec<u8> = Vec::new();
    if !put_str(&mut out, p.keyword.as_str()) {
        return None;
    }
    if !put_str(&mut out, p.page.as_str()) {
        return None;
    }
    if !put_str(&mut out, p.sort_by.as_str()) {
        return None;
    }
    if !put_str(&mut out, p.sort_order.as_str()) {
        return None;
    }
    assert(out@ =~= ser_params(p@));
    Some(out)
}

/// Encodes a path. There is no buffer exactly when the path is too long to be
/// framed.
pub fn encode_path(path: &str) -> (r: Option<Vec<u8>>)
    ensures
        r is Some <==> str_fits(path@),
        r matches Some(b) ==> b@ == ser_str(path@),
{
    let mut out: Vec<u8> = Vec::new();
    if !put_str(&mut out, path) {
        return None;
    }
    assert(out@ =~= ser_str(path@));
    Some(out)
}

/// Encodes a chapter. There is no buffer exactly when the page list or a page
/// is too long to be framed.
pub fn encode_chapter(c: &Chapter) -> (r: Option<Vec<u8>>)
    ensures
        r is Some <==> chapter_fits(c@),
        r matches Some(b) ==> b@ == ser_chapter(c@),
{
    let mut out: Vec<u8> = Vec::new();
    if !put_strs(&mut out, &c.pages) {
        return None;
    }
    assert(out@ =~= ser_chapter(c@));
    Some(out)
}

/// Appends the frame of `e` to `out`, or leaves `out` as it is and reports
/// `false` when a field is too long to be framed.
pub fn put_entry(out: &mut Vec<u8>, e: &CatalogEntry) -> (ok: bool)
    ensures
        ok == entry_fits(e@),
        ok ==> final(out)@ == old(out)@ + ser_entry(e@),
        !ok ==> final(out)@ == old(out)@,
{
    let start = out.len();
    let ok = put_str(out, e.title.as_str()) && put_str(out, e.author.as_str()) && put_strs(
        out,
        &e.genres,
    ) && put_str(out, e.status.as_str()) && put_str(out, e.description.as_str()) && put_str(
        out,
        e.source_url.as_str(),
    ) && put_str(out, e.thumbnail_url.as_str()) && put_strs(out, &e.chapter_refs);
    if ok {
        assert(out@ =~= old(out)@ + ser_entry(e@));
    } else {
        assert(out@.subrange(0, start as int) =~= old(out)@);
        out.truncate(start);
    }
    ok
}

/// Encodes one catalog entry. There is no buffer exactly when a field is too
/// long to be framed.
pub fn encode_entry(e: &CatalogEntry) -> (r: Option<Vec<u8>>)
    ensures
        r is Some <==> entry_fits(e@),
        r matches Some(b) ==> b@ == ser_entry(e@),
{
    let mut out: Vec<u8> = Vec::new();
    if !put_entry(&mut out, e) {
        return None;
    }
    assert(out@ =~= ser_entry(e@));
    Some(out)
}

/// Encodes a list of catalog entries. There is no buffer exactly when the
/// list or a field of an entry is too long to be framed.
pub fn encode_entries(l: &Vec<CatalogEntry>) -> (r: Option<Vec<u8>>)
    ensures
        r is Some <==> entries_fit(entry_views(l@)),
        r matches Some(b) ==> b@ == ser_entries(entry_views(l@)),
{
    let n = l.len();
    if n > MAX_LEN {
        return None;
    }
    let mut out: Vec<u8> = Vec::new();
    put_len(&mut out, n);
    let ghost all = entry_views(l@);
    proof {
        assert(all.skip(0) =~= all);
        assert(out@ + ser_entry_items(all) =~= ser_entries(all));
    }
    let mut i: usize = 0;
    while i < n
        invariant
            i <= n,
            n == l@.len(),
            n <= MAX_LEN,
            all == entry_views(l@),
            out@ + ser_entry_items(all.skip(i as int)) == ser_entries(all),
            forall|j: int| 0 <= j < i ==> entry_fits(#[trigger] all[j]),
        decreases n - i,
    {
        let ghost before = out@;
        if !put_entry(&mut out, &l[i]) {
            assert(!entry_fits(all[i as int]));
            return None;
        }
        proof {
            let here = all.skip(i as int);
            assert(here[0] == l@[i as int]@);
            assert(here.skip(1) =~= all.skip(i + 1));
            assert(out@ + ser_entry_items(all.skip(i + 1)) =~= before + ser_entry_items(here));
        }
        i += 1;
    }
    assert(ser_entry_items(all.skip(n as int)) =~= Seq::<u8>::empty());
    assert(out@ =~= ser_entries(all));
    Some(out)
}

// ---------------------------------------------------------------------------
// Decoding
// ---------------------------------------------------------------------------
/// Decodes a buffer that holds search parameters and nothing else.
pub fn decode_params(input: &[u8]) -> (r: Option<SearchParams>)
    ensures
        r is Some <==> decoded_params(input@) is Some,
        r matches Some(p) ==> decoded_params(input@) == Some(p@),
{
    assert(input@.skip(0) =~= input@);
    let (keyword, end1) = match take_str(input, 0) {
        Some(found) => found,
        None => {
            return None;
        },
    };
    let (page, end2) = match take_str(input, end1) {
        Some(found) => found,
        None => {
            return None;
        },
    };
    let (sort_by, end3) = match take_str(input, end2) {
        Some(found) => found,
        None => {
            return None;
        },
    };
    let (sort_order, end4) = match take_str(input, end3) {
        Some(found) => found,
        None => {
            return None;
        },
    };
    if end4 != input.len() {
        return None;
    }
    Some(SearchParams { keyword, page, sort_by, sort_order })
}

/// Decodes a buffer that holds a path and nothing else.
pub fn decode_path(input: &[u8]) -> (r: Option<String>)
    ensures
        r is Some <==> decoded_path(input@) is Some,
        r matches Some(s) ==> decoded_path(input@) == Some(s@),
{
    assert(input@.skip(0) =~= input@);
    let (path, end) = match take_str(input, 0) {
        Some(found) => found,
        None => {
            return None;
        },
    };
    if end != input.len() {
        return None;
    }
    Some(path)
}

/// Decodes a buffer that holds a chapter and nothing else.
pub fn decode_chapter(input: &[u8]) -> (r: Option<Chapter>)
    ensures
        r is Some <==> decoded_chapter(input@) is Some,
        r matches Some(c) ==> decoded_chapter(input@) == Some(c@),
{
    assert(input@.skip(0) =~= input@);
    let (pages, end) = match take_strs(input, 0) {
        Some(found) => found,
        None => {
            return None;
        },
    };
    if end != input.len() {
        return None;
    }
    Some(Chapter { pages })
}

/// Reads a catalog entry at position `pos` of `input`.
pub fn take_entry(input: &[u8], pos: usize) -> (r: Option<(CatalogEntry, usize)>)
    requires
        pos <= input@.len(),
    ensures
        match r {
            Some((e, next)) => {
                &&& pos <= next <= input@.len()
                &&& parse_entry(input@.skip(pos as int)) == Some((e@, input@.skip(next as int)))
            },
            None => parse_entry(input@.skip(pos as int)) is None,
        },
{
    let (title, end1) = match take_str(input, pos) {
        Some(found) => found,
        None => {
            return None;
        },
    };
    let (author, end2) = match take_str(input, end1) {
        Some(found) => found,
        None => {
            return None;
        },
    };
    let (genres, end3) = match take_strs(input, end2) {
        Some(found) => found,
        None => {
            return None;
        },
    };
    let (status, end4) = match take_str(input, end3) {
        Some(found) => found,
        None => {
            return None;
        },
    };
    let (description, end5) = match take_str(input, end4) {
        Some(found) => found,
        None => {
            return None;
        },
    };
    let (source_url, end6) = match take_str(input, end5) {
        Some(found) => found,
        None => {
            return None;
        },
    };
    let (thumbnail_url, end7) = match take_str(input, end6) {
        Some(found) => found,
        None => {
            return None;
        },
    };
    let (chapter_refs, end8) = match take_strs(input, end7) {
        Some(found) => found,
        None => {
            return None;
        },
    };
    Some(
        (
            CatalogEntry {
                title,
                author,
                genres,
                status,
                description,
                source_url,
                thumbnail_url,
                chapter_refs,
            },
            end8,
        ),
    )
}

/// Decodes a buffer that holds one catalog entry and nothing else.
pub fn decode_entry(input: &[u8]) -> (r: Option<CatalogEntry>)
    ensures
        r is Some <==> decoded_entry(input@) is Some,
        r matches Some(e) ==> decoded_entry(input@) == Some(e@),
{
    assert(input@.skip(0) =~= input@);
    let (entry, end) = match take_entry(input, 0) {
        Some(found) => found,
        None => {
            return None;
        },
    };
    if end != input.len() {
        return None;
    }
    Some(entry)
}

/// Decodes a buffer that holds a list of catalog entries and nothing else.
pub fn decode_entries(input: &[u8]) -> (r: Option<Vec<CatalogEntry>>)
    ensures
        r is Some <==> decoded_entries(input@) is Some,
        r matches Some(l) ==> decoded_entries(input@) == Some(entry_views(l@)),
{
    assert(input@.skip(0) =~= input@);
    let (n, start) = match take_len(input, 0) {
        Some(found) => found,
        None => {
            return None;
        },
    };
    let ghost whole = parse_entry_items(input@.skip(start as int), n as nat);
    proof {
        assert(entry_views(Seq::<CatalogEntry>::empty()) =~= Seq::<CatalogEntryView>::empty());
        if let Some((tail, end)) = whole {
            assert(Seq::<CatalogEntryView>::empty() + tail =~= tail);
        }
    }
    let mut items: Vec<CatalogEntry> = Vec::new();
    let mut at = start;
    let mut i: usize = 0;
    while i < n
        invariant
            i <= n,
            start <= at <= input@.len(),
            items@.len() == i,
            parse_len(input@) == Some((n as nat, input@.skip(start as int))),
            whole == parse_entry_items(input@.skip(start as int), n as nat),
            whole == match parse_entry_items(input@.skip(at as int), (n - i) as nat) {
                None => None,
                Some((tail, end)) => Some((entry_views(items@) + tail, end)),
            },
        decreases n - i,
    {
        let ghost so_far = entry_views(items@);
        match take_entry(input, at) {
            None => {
                assert(parse_entry_items(input@.skip(at as int), (n - i) as nat) is None);
                return None;
            },
            Some((e, next)) => {
                proof {
                    let later = parse_entry_items(input@.skip(next as int), (n - i - 1) as nat);
                    if let Some((tail, end)) = later {
                        assert(so_far.push(e@) + tail =~= so_far + (seq![e@] + tail));
                    }
                }
                items.push(e);
                proof {
                    assert(entry_views(items@) =~= so_far.push(e@));
                }
                at = next;
                i += 1;
            },
        }
    }
    proof {
        assert(entry_views(items@) + Seq::<CatalogEntryView>::empty() =~= entry_views(items@));
    }
    if at != input.len() {
        return None;
    }
    Some(items)
}

} // verus!
