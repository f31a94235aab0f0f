use tanoshi::codec::{
    decode_chapter, decode_entries, decode_entry, decode_params, decode_path, encode_chapter,
    encode_entries, encode_entry, encode_params, encode_path,
};
use tanoshi::envelope::{CatalogEntry, Chapter, SearchParams};
use tanoshi::wire::{put_len, put_str, put_strs, take_len, take_str, take_strs};

fn params() -> SearchParams {
    SearchParams {
        keyword: "one piece".to_string(),
        page: "2".to_string(),
        sort_by: "popularity".to_string(),
        sort_order: "descending".to_string(),
    }
}

fn entry(n: u32) -> CatalogEntry {
    CatalogEntry {
        title: format!("Title {}", n),
        author: "Someone".to_string(),
        genres: vec!["Action".to_string(), "Drama".to_string()],
        status: "Ongoing".to_string(),
        description: "A story.\nIn two lines.".to_string(),
        source_url: format!("/manga/title-{}", n),
        thumbnail_url: "https://example.org/cover.jpg".to_string(),
        chapter_refs: vec!["1".to_string(), "2".to_string(), "2.5".to_string()],
    }
}

#[test]
fn search_params_round_trip() {
    let p = params();
    let bytes = encode_params(&p).unwrap();
    assert_eq!(decode_params(&bytes), Some(p));
}

#[test]
fn search_params_round_trip_field_for_field() {
    let p = SearchParams {
        keyword: "".to_string(),
        page: "0".to_string(),
        sort_by: "событие".to_string(),
        sort_order: "漫画 \u{1F600}".to_string(),
    };
    let back = decode_params(&encode_params(&p).unwrap()).unwrap();
    assert_eq!(back.keyword, "");
    assert_eq!(back.page, "0");
    assert_eq!(back.sort_by, "событие");
    assert_eq!(back.sort_order, "漫画 \u{1F600}");
}

#[test]
fn path_is_framed_with_its_byte_length_first() {
    assert_eq!(encode_path("ab"), Some(vec![2, 0, 0, 0, 97, 98]));
    assert_eq!(encode_path(""), Some(vec![0, 0, 0, 0]));
    // two bytes per character
    assert_eq!(encode_path("é"), Some(vec![2, 0, 0, 0, 0xc3, 0xa9]));
}

#[test]
fn length_is_written_least_significant_byte_first() {
    let mut out = vec![9u8];
    put_len(&mut out, 0x0102_0304);
    assert_eq!(out, vec![9, 4, 3, 2, 1]);
    assert_eq!(take_len(&out, 1), Some((0x0102_0304, 5)));
    let mut out = Vec::new();
    put_len(&mut out, 0xffff_ffff);
    assert_eq!(out, vec![255, 255, 255, 255]);
    assert_eq!(take_len(&out, 0), Some((0xffff_ffff, 4)));
}

#[test]
fn long_string_has_a_two_byte_length() {
    let s = "x".repeat(300);
    let bytes = encode_path(&s).unwrap();
    assert_eq!(&bytes[0..4], &[44, 1, 0, 0]);
    assert_eq!(bytes.len(), 304);
    assert_eq!(decode_path(&bytes), Some(s));
}

#[test]
fn params_are_the_four_fields_in_order() {
    let p = SearchParams {
        keyword: "k".to_string(),
        page: "1".to_string(),
        sort_by: "".to_string(),
        sort_order: "up".to_string(),
    };
    assert_eq!(
        encode_params(&p),
        Some(vec![1, 0, 0, 0, b'k', 1, 0, 0, 0, b'1', 0, 0, 0, 0, 2, 0, 0, 0, b'u', b'p'])
    );
}

#[test]
fn chapter_is_a_counted_list() {
    let c = Chapter { pages: vec!["a".to_string(), "bc".to_string()] };
    let bytes = encode_chapter(&c).unwrap();
    assert_eq!(bytes, vec![2, 0, 0, 0, 1, 0, 0, 0, b'a', 2, 0, 0, 0, b'b', b'c']);
    assert_eq!(decode_chapter(&bytes), Some(c));
}

#[test]
fn empty_chapter_round_trip() {
    let c = Chapter { pages: vec![] };
    let bytes = encode_chapter(&c).unwrap();
    assert_eq!(bytes, vec![0, 0, 0, 0]);
    assert_eq!(decode_chapter(&bytes), Some(c));
}

#[test]
fn entry_round_trip() {
    let e = entry(1);
    let bytes = encode_entry(&e).unwrap();
    assert_eq!(decode_entry(&bytes), Some(e));
}

#[test]
fn entries_round_trip() {
    let l = vec![entry(1), entry(2), entry(3)];
    let bytes = encode_entries(&l).unwrap();
    assert_eq!(&bytes[0..4], &[3, 0, 0, 0]);
    assert_eq!(decode_entries(&bytes), Some(l));
    let none: Vec<CatalogEntry> = vec![];
    assert_eq!(decode_entries(&encode_entries(&none).unwrap()), Some(none));
}

#[test]
fn truncated_buffers_are_malformed() {
    let bytes = encode_params(&params()).unwrap();
    for cut in 0..bytes.len() {
        assert_eq!(decode_params(&bytes[..cut]), None);
    }
    let bytes = encode_entries(&vec![entry(1), entry(2)]).unwrap();
    for cut in 0..bytes.len() {
        assert_eq!(decode_entries(&bytes[..cut]), None);
    }
}

#[test]
fn trailing_bytes_are_malformed() {
    let mut bytes = encode_params(&params()).unwrap();
    bytes.push(0);
    assert_eq!(decode_params(&bytes), None);
    let mut bytes = encode_chapter(&Chapter { pages: vec!["p".to_string()] }).unwrap();
    bytes.push(7);
    assert_eq!(decode_chapter(&bytes), None);
    let mut bytes = encode_entry(&entry(1)).unwrap();
    bytes.push(7);
    assert_eq!(decode_entry(&bytes), None);
    let mut bytes = encode_path("/x").unwrap();
    bytes.push(7);
    assert_eq!(decode_path(&bytes), None);
}

#[test]
fn invalid_utf8_is_malformed() {
    assert_eq!(decode_path(&[1, 0, 0, 0, 0xff]), None);
    assert_eq!(decode_path(&[2, 0, 0, 0, 0xc3, 0x28]), None);
    // an overlong encoding of '/'
    assert_eq!(decode_path(&[2, 0, 0, 0, 0xc0, 0xaf]), None);
    // a surrogate
    assert_eq!(decode_path(&[3, 0, 0, 0, 0xed, 0xa0, 0x80]), None);
}

#[test]
fn length_beyond_the_buffer_is_malformed() {
    assert_eq!(decode_path(&[5, 0, 0, 0, b'a', b'b']), None);
    assert_eq!(decode_path(&[255, 255, 255, 255]), None);
    assert_eq!(decode_chapter(&[2, 0, 0, 0, 1, 0, 0, 0, b'a']), None);
    assert_eq!(decode_entries(&[1, 0, 0, 0]), None);
}

#[test]
fn reading_at_a_position() {
    let mut out = vec![0xaa, 0xbb];
    assert!(put_str(&mut out, "héllo"));
    assert!(put_strs(&mut out, &vec!["x".to_string(), "".to_string()]));
    let (s, next) = take_str(&out, 2).unwrap();
    assert_eq!(s, "héllo");
    assert_eq!(next, 2 + 4 + 6);
    let (l, end) = take_strs(&out, next).unwrap();
    assert_eq!(l, vec!["x".to_string(), "".to_string()]);
    assert_eq!(end, out.len());
    assert_eq!(take_str(&out, out.len()), None);
    assert_eq!(take_len(&out, out.len() - 3), None);
}
