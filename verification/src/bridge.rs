//! The host side of the host-guest bridge: copying buffers into and out of
//! an instance's linear memory, and the network capability that the host
//! lends to provider code.
//!
//! Memory is never shared with a provider. A request is copied into the
//! instance's memory at a place the instance reserved; a response is copied
//! out from the place the instance names. Both copies check the place
//! against the size of the memory.

use crate::wire::{
    lemma_parse_ser_len, lemma_parse_ser_str, lemma_parse_ser_strs, len_bytes, parse_len,
    parse_str, parse_strs, put_len, put_str, put_strs, ser_str, ser_strs, str_fits, strs_fit,
    take_len, take_str, take_strs, texts, MAX_LEN,
};
use vstd::prelude::*;
use vstd::slice::*;

verus! {

/// How one exchange with a provider instance went wrong.
#[derive(Clone, Copy, Debug, PartialEq, Eq, Structural)]
pub enum BridgeError {
    /// The buffer handed back is not a well-formed response, lies outside
    /// the instance's memory, or the request could not be framed.
    Malformed,
    /// The provider code trapped while it ran.
    Trapped,
    /// The run took longer than the call may take.
    Timeout,
}

/// A place in linear memory: where a buffer starts and how long it is.
#[derive(Clone, Copy, Debug, PartialEq, Eq, Structural)]
pub struct Span {
    pub pointer: u32,
    pub length: u32,
}

/// The span lies within a memory of `size` bytes.
pub open spec fn span_fits(span: Span, size: int) -> bool {
    span.pointer + span.length <= size
}

/// Copies the bytes at `span` out of linear memory. A span that reaches
/// beyond the memory is malformed.
pub fn copy_out(memory: &[u8], span: Span) -> (r: Result<Vec<u8>, BridgeError>)
    ensures
        r is Ok <==> span_fits(span, memory@.len() as int),
        r matches Ok(bytes) ==> bytes@ == memory@.subrange(
            span.pointer as int,
            span.pointer + span.length,
        ),
        r matches Err(e) ==> e == BridgeError::Malformed,
{
    let start = span.pointer as u64;
    let end = start + span.length as u64;
    if end > memory.len() as u64 {
        return Err(BridgeError::Malformed);
    }
    let mut bytes: Vec<u8> = Vec::new();
    let mut i: usize = start as usize;
    while i < end as usize
        invariant
            start <= i <= end,
            end <= memory@.len(),
            bytes@ == memory@.subrange(start as int, i as int),
        decreases end - i,
    {
        bytes.push(memory[i]);
        assert(bytes@ =~= memory@.subrange(start as int, i + 1));
        i += 1;
    }
    Ok(bytes)
}

/// Copies `bytes` into linear memory at `pointer` and tells the span they
/// fill. Bytes that would reach beyond the memory, or whose place cannot be
/// named by a span, are refused as malformed, and the memory stays as it
/// was. No byte outside the span changes.
pub fn copy_in(memory: &mut Vec<u8>, pointer: u32, bytes: &[u8]) -> (r: Result<Span, BridgeError>)
    ensures
        r is Ok <==> pointer + bytes@.len() <= old(memory)@.len() && bytes@.len() <= MAX_LEN,
        r matches Ok(span) ==> {
            &&& span == Span { pointer, length: bytes@.len() as u32 }
            &&& final(memory)@.len() == old(memory)@.len()
            &&& final(memory)@.subrange(pointer as int, pointer + bytes@.len()) == bytes@
            &&& forall|k: int|
                0 <= k < pointer || pointer + bytes@.len() <= k < old(memory)@.len()
                    ==> final(memory)@[k] == old(memory)@[k]
        },
        r matches Err(e) ==> e == BridgeError::Malformed && final(memory)@ == old(memory)@,
{
    if bytes.len() > MAX_LEN {
        return Err(BridgeError::Malformed);
    }
    let start = pointer as u64;
    let end = start + bytes.len() as u64;
    if end > memory.len() as u64 {
        return Err(BridgeError::Malformed);
    }
    let base = start as usize;
    let mut i: usize = 0;
    while i < bytes.len()
        invariant
            i <= bytes@.len(),
            base == pointer,
            base + bytes@.len() <= memory@.len() <= usize::MAX,
            memory@.len() == old(memory)@.len(),
            memory@.subrange(base as int, base + i) == bytes@.take(i as int),
            forall|k: int|
                0 <= k < base || base + i <= k < memory@.len() ==> memory@[k] == old(memory)@[k],
        decreases bytes@.len() - i,
    {
        let ghost before = memory@;
        memory.set(base + i, bytes[i]);
        proof {
            assert(memory@.subrange(base as int, base + i + 1) =~= before.subrange(
                base as int,
                base + i,
            ).push(bytes@[i as int]));
            assert(bytes@.take(i + 1) =~= bytes@.take(i as int).push(bytes@[i as int]));
        }
        i += 1;
    }
    proof {
        assert(bytes@.take(bytes@.len() as int) =~= bytes@);
    }
    Ok(Span { pointer, length: bytes.len() as u32 })
}

// ---------------------------------------------------------------------------
// The network capability
// ---------------------------------------------------------------------------
/// A request of provider code for an outbound fetch.
#[derive(Debug, PartialEq, Eq)]
pub struct FetchRequest {
    pub method: String,
    pub url: String,
    /// Header names and values in turn: name, value, name, value.
    pub headers: Vec<String>,
    pub body: String,
}

/// The answer to a fetch.
#[derive(Debug, PartialEq, Eq)]
pub struct FetchResponse {
    pub status: u32,
    /// Header names and values in turn, as in the request.
    pub headers: Vec<String>,
    pub body: String,
}

/// Why a fetch brought no answer.
#[derive(Clone, Copy, Debug, PartialEq, Eq, Structural)]
pub enum TransportError {
    /// The address is no address the host will fetch.
    BadAddress,
    /// No connection could be made.
    Unreachable,
    /// The connection broke while the answer was read.
    Broken,
    /// The fetch took longer than a fetch may take.
    TimedOut,
}

/// Mathematical content of a [`FetchRequest`].
pub struct FetchRequestView {
    pub method: Seq<char>,
    pub url: Seq<char>,
    pub headers: Seq<Seq<char>>,
    pub body: Seq<char>,
}

/// Mathematical content of a [`FetchResponse`].
pub struct FetchResponseView {
    pub status: u32,
    pub headers: Seq<Seq<char>>,
    pub body: Seq<char>,
}

impl View for FetchRequest {
    type V = FetchRequestView;

    open spec fn view(&self) -> FetchRequestView {
        FetchRequestView {
            method: self.method@,
            url: self.url@,
            headers: texts(self.headers@),
            body: self.body@,
        }
    }
}

impl View for FetchResponse {
    type V = FetchResponseView;

    open spec fn view(&self) -> FetchResponseView {
        FetchResponseView { status: self.status, headers: texts(self.headers@), body: self.body@ }
    }
}

/// Reads a fetch request from the front of `b`: method, address, headers and
/// body. A list of headers of odd length is no list of names and values.
pub open spec fn parse_fetch_request(b: Seq<u8>) -> Option<(FetchRequestView, Seq<u8>)> {
    match parse_str(b) {
        None => None,
        Some((method, b1)) => match parse_str(b1) {
            None => None,
            Some((url, b2)) => match parse_strs(b2) {
                None => None,
                Some((headers, b3)) => match parse_str(b3) {
                    None => None,
                    Some((body, b4)) => if headers.len() % 2 == 0 {
                        Some((FetchRequestView { method, url, headers, body }, b4))
                    } else {
                        None
                    },
                },
            },
        },
    }
}

/// The fetch request that a whole buffer holds, if it holds exactly one
/// well-formed frame of one.
pub open spec fn decoded_fetch_request(b: Seq<u8>) -> Option<FetchRequestView> {
    match parse_fetch_request(b) {
        Some((request, rest)) => if rest.len() == 0 {
            Some(request)
        } else {
            None
        },
        None => None,
    }
}

/// A fetch request on the wire.
pub open spec fn ser_fetch_request(q: FetchRequestView) -> Seq<u8> {
    ser_str(q.method) + ser_str(q.url) + ser_strs(q.headers) + ser_str(q.body)
}

/// Every part of the request can be framed, and its headers come in pairs.
pub open spec fn fetch_request_fits(q: FetchRequestView) -> bool {
    &&& str_fits(q.method)
    &&& str_fits(q.url)
    &&& strs_fit(q.headers)
    &&& str_fits(q.body)
    &&& q.headers.len() % 2 == 0
}

/// The tag that opens the frame of a failed fetch, by the kind of failure.
pub open spec fn transport_tag(e: TransportError) -> nat {
    match e {
        TransportError::BadAddress => 1,
        TransportError::Unreachable => 2,
        TransportError::Broken => 3,
        TransportError::TimedOut => 4,
    }
}

/// Every part of the answer can be framed, and its headers come in pairs.
pub open spec fn fetch_reply_fits(reply: Result<FetchResponseView, TransportError>) -> bool {
    match reply {
        Ok(a) => strs_fit(a.headers) && str_fits(a.body) && a.headers.len() % 2 == 0,
        Err(_) => true,
    }
}

/// The answer to a fetch on the wire: the tag zero, then status, headers and
/// body; or the tag of the failure alone.
pub open spec fn ser_fetch_reply(reply: Result<FetchResponseView, TransportError>) -> Seq<u8> {
    match reply {
        Ok(a) => len_bytes(0) + len_bytes(a.status as nat) + ser_strs(a.headers) + ser_str(a.body),
        Err(e) => len_bytes(transport_tag(e)),
    }
}

/// The kind of failure that a tag stands for.
pub open spec fn transport_of(tag: nat) -> Option<TransportError> {
    if tag == 1 {
        Some(TransportError::BadAddress)
    } else if tag == 2 {
        Some(TransportError::Unreachable)
    } else if tag == 3 {
        Some(TransportError::Broken)
    } else if tag == 4 {
        Some(TransportError::TimedOut)
    } else {
        None
    }
}

/// The answer to a fetch that a whole buffer holds, if it holds exactly one
/// well-formed frame of one.
pub open spec fn decoded_fetch_reply(b: Seq<u8>) -> Option<
    Result<FetchResponseView, TransportError>,
> {
    match parse_len(b) {
        None => None,
        Some((tag, b1)) => if tag == 0 {
            match parse_len(b1) {
                None => None,
                Some((status, b2)) => match parse_strs(b2) {
                    None => None,
                    Some((headers, b3)) => match parse_str(b3) {
                        None => None,
                        Some((body, b4)) => if b4.len() == 0 && headers.len() % 2 == 0 {
                            Some(Ok(FetchResponseView { status: status as u32, headers, body }))
                        } else {
                            None
                        },
                    },
                },
            }
        } else {
            match transport_of(tag) {
                Some(e) => if b1.len() == 0 {
                    Some(Err(e))
                } else {
                    None
                },
                None => None,
            }
        },
    }
}

/// A fetch request survives the boundary.
pub proof fn lemma_fetch_request_round_trip(q: FetchRequestView)
    requires
        fetch_request_fits(q),
    ensures
        decoded_fetch_request(ser_fetch_request(q)) == Some(q),
{
    let r3 = ser_str(q.body) + Seq::<u8>::empty();
    let r2 = ser_strs(q.headers) + r3;
    let r1 = ser_str(q.url) + r2;
    assert(ser_fetch_request(q) =~= ser_str(q.method) + r1);
    lemma_parse_ser_str(q.method, r1);
    lemma_parse_ser_str(q.url, r2);
    lemma_parse_ser_strs(q.headers, r3);
    lemma_parse_ser_str(q.body, Seq::empty());
}

/// The answer to a fetch survives the boundary, be it a response or a
/// failure of the transport.
pub proof fn lemma_fetch_reply_round_trip(reply: Result<FetchResponseView, TransportError>)
    requires
        fetch_reply_fits(reply),
    ensures
        decoded_fetch_reply(ser_fetch_reply(reply)) == Some(reply),
{
    match reply {
        Ok(a) => {
            let r3 = ser_str(a.body) + Seq::<u8>::empty();
            let r2 = ser_strs(a.headers) + r3;
            let r1 = len_bytes(a.status as nat) + r2;
            assert(ser_fetch_reply(reply) =~= len_bytes(0) + r1);
            lemma_parse_ser_len(0, r1);
            lemma_parse_ser_len(a.status as nat, r2);
            lemma_parse_ser_strs(a.headers, r3);
            lemma_parse_ser_str(a.body, Seq::empty());
        },
        Err(e) => {
            assert(ser_fetch_reply(reply) =~= len_bytes(transport_tag(e)) + Seq::<u8>::empty());
            lemma_parse_ser_len(transport_tag(e), Seq::empty());
        },
    }
}

/// Decodes the fetch request that provider code handed to the host.
pub fn decode_fetch_request(input: &[u8]) -> (r: Option<FetchRequest>)
    ensures
        r is Some <==> decoded_fetch_request(input@) is Some,
        r matches Some(q) ==> decoded_fetch_request(input@) == Some(q@),
{
    assert(input@.skip(0) =~= input@);
    let (method, end1) = match take_str(input, 0) {
        Some(found) => found,
        None => {
            return None;
        },
    };
    let (url, end2) = match take_str(input, end1) {
        Some(found) => found,
        None => {
            return None;
        },
    };
    let (headers, end3) = match take_strs(input, end2) {
        Some(found) => found,
        None => {
            return None;
        },
    };
    let (body, end4) = match take_str(input, end3) {
        Some(found) => found,
        None => {
            return None;
        },
    };
    if headers.len() % 2 != 0 || end4 != input.len() {
        return None;
    }
    Some(FetchRequest { method, url, headers, body })
}

/// The contents of the answer to a fetch.
pub open spec fn reply_view(reply: Result<FetchResponse, TransportError>) -> Result<
    FetchResponseView,
    TransportError,
> {
    match reply {
        Ok(a) => Ok(a@),
        Err(e) => Err(e),
    }
}

/// Encodes the answer to a fetch for the provider code that asked. A failure
/// of the transport is an answer like any other: it is handed to the
/// provider, not raised in the host. There is no buffer exactly when a part
/// of a response cannot be framed or its headers do not come in pairs.
pub fn encode_fetch_reply(reply: &Result<FetchResponse, TransportError>) -> (r: Option<Vec<u8>>)
    ensures
        r is Some <==> fetch_reply_fits(reply_view(*reply)),
        r matches Some(b) ==> b@ == ser_fetch_reply(reply_view(*reply)),
{
    let mut out: Vec<u8> = Vec::new();
    match reply {
        Ok(a) => {
            if a.headers.len() % 2 != 0 {
                return None;
            }
            put_len(&mut out, 0);
            put_len(&mut out, a.status as usize);
            if !put_strs(&mut out, &a.headers) {
                return None;
            }
            if !put_str(&mut out, a.body.as_str()) {
                return None;
            }
            assert(out@ =~= ser_fetch_reply(reply_view(*reply)));
            Some(out)
        },
        Err(e) => {
            let tag: usize = match e {
                TransportError::BadAddress => 1,
                TransportError::Unreachable => 2,
                TransportError::Broken => 3,
                TransportError::TimedOut => 4,
            };
            put_len(&mut out, tag);
            assert(out@ =~= ser_fetch_reply(reply_view(*reply)));
            Some(out)
        },
    }
}

} // verus!
