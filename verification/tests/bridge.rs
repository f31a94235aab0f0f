use tanoshi::bridge::{
    copy_in, copy_out, decode_fetch_request, encode_fetch_reply, BridgeError, FetchRequest,
    FetchResponse, Span, TransportError,
};
use tanoshi::wire::{put_str, put_strs};

#[test]
fn copy_out_of_memory() {
    let memory: Vec<u8> = (0u8..32).collect();
    assert_eq!(copy_out(&memory, Span { pointer: 4, length: 3 }), Ok(vec![4, 5, 6]));
    assert_eq!(copy_out(&memory, Span { pointer: 0, length: 0 }), Ok(vec![]));
    assert_eq!(copy_out(&memory, Span { pointer: 32, length: 0 }), Ok(vec![]));
    assert_eq!(copy_out(&memory, Span { pointer: 0, length: 32 }), Ok(memory.clone()));
}

#[test]
fn copy_out_beyond_memory_is_malformed() {
    let memory = vec![0u8; 16];
    assert_eq!(copy_out(&memory, Span { pointer: 10, length: 7 }), Err(BridgeError::Malformed));
    assert_eq!(copy_out(&memory, Span { pointer: 17, length: 0 }), Err(BridgeError::Malformed));
    assert_eq!(
        copy_out(&memory, Span { pointer: u32::MAX, length: u32::MAX }),
        Err(BridgeError::Malformed)
    );
}

#[test]
fn copy_in_changes_only_the_span() {
    let mut memory = vec![9u8; 8];
    assert_eq!(copy_in(&mut memory, 2, &[1, 2, 3]), Ok(Span { pointer: 2, length: 3 }));
    assert_eq!(memory, vec![9, 9, 1, 2, 3, 9, 9, 9]);
    assert_eq!(copy_in(&mut memory, 8, &[]), Ok(Span { pointer: 8, length: 0 }));
    assert_eq!(memory, vec![9, 9, 1, 2, 3, 9, 9, 9]);
}

#[test]
fn copy_in_beyond_memory_is_refused() {
    let mut memory = vec![9u8; 4];
    assert_eq!(copy_in(&mut memory, 2, &[1, 2, 3]), Err(BridgeError::Malformed));
    assert_eq!(copy_in(&mut memory, u32::MAX, &[1]), Err(BridgeError::Malformed));
    assert_eq!(memory, vec![9u8; 4]);
}

#[test]
fn what_is_copied_in_is_copied_out() {
    let mut memory = vec![0u8; 64];
    let span = copy_in(&mut memory, 17, b"request bytes").unwrap();
    assert_eq!(copy_out(&memory, span), Ok(b"request bytes".to_vec()));
}

fn request_bytes(method: &str, url: &str, headers: &[&str], body: &str) -> Vec<u8> {
    let mut out = Vec::new();
    assert!(put_str(&mut out, method));
    assert!(put_str(&mut out, url));
    assert!(put_strs(&mut out, &headers.iter().map(|h| h.to_string()).collect()));
    assert!(put_str(&mut out, body));
    out
}

#[test]
fn fetch_request_is_decoded() {
    let bytes = request_bytes("GET", "https://example.org/a", &["Accept", "text/html"], "");
    assert_eq!(
        decode_fetch_request(&bytes),
        Some(FetchRequest {
            method: "GET".to_string(),
            url: "https://example.org/a".to_string(),
            headers: vec!["Accept".to_string(), "text/html".to_string()],
            body: String::new(),
        })
    );
}

#[test]
fn fetch_request_with_a_dangling_header_is_refused() {
    let bytes = request_bytes("GET", "https://example.org/a", &["Accept"], "");
    assert_eq!(decode_fetch_request(&bytes), None);
    let mut bytes = request_bytes("GET", "/", &[], "");
    bytes.push(0);
    assert_eq!(decode_fetch_request(&bytes), None);
    assert_eq!(decode_fetch_request(&[]), None);
}

#[test]
fn fetch_response_is_framed_behind_a_zero_tag() {
    let reply = Ok(FetchResponse {
        status: 404,
        headers: vec!["a".to_string(), "b".to_string()],
        body: "no".to_string(),
    });
    assert_eq!(
        encode_fetch_reply(&reply),
        Some(vec![
            0, 0, 0, 0, // tag
            0x94, 1, 0, 0, // status
            2, 0, 0, 0, 1, 0, 0, 0, b'a', 1, 0, 0, 0, b'b', // headers
            2, 0, 0, 0, b'n', b'o', // body
        ])
    );
}

#[test]
fn transport_errors_reach_the_guest_as_tags() {
    assert_eq!(encode_fetch_reply(&Err(TransportError::BadAddress)), Some(vec![1, 0, 0, 0]));
    assert_eq!(encode_fetch_reply(&Err(TransportError::Unreachable)), Some(vec![2, 0, 0, 0]));
    assert_eq!(encode_fetch_reply(&Err(TransportError::Broken)), Some(vec![3, 0, 0, 0]));
    assert_eq!(encode_fetch_reply(&Err(TransportError::TimedOut)), Some(vec![4, 0, 0, 0]));
}

#[test]
fn fetch_response_with_a_dangling_header_is_refused() {
    let reply =
        Ok(FetchResponse { status: 200, headers: vec!["a".to_string()], body: String::new() });
    assert_eq!(encode_fetch_reply(&reply), None);
}
