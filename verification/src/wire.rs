//! Byte-level framing shared by every envelope that crosses the sandbox
//! boundary: little-endian 32-bit lengths, length-prefixed UTF-8 strings and
//! counted lists of such strings.
//!
//! Each format is given twice: a serializer `ser_*` from a value to bytes and
//! a parser `parse_*` from bytes to a value and the bytes left over. The
//! lemmas at the end state that a parser inverts its serializer.

use vstd::prelude::*;
use vstd::slice::*;
use vstd::string::*;
use vstd::utf8::*;

verus! {

/// Largest length or count that a frame can carry.
pub const MAX_LEN: usize = 0xffff_ffff;

/// The four bytes of a length, least significant first.
pub open spec fn len_bytes(n: nat) -> Seq<u8>
    recommends
        n <= MAX_LEN,
{
    seq![
        (n % 256) as u8,
        ((n / 256) % 256) as u8,
        ((n / 65536) % 256) as u8,
        ((n / 16777216) % 256) as u8,
    ]
}

/// The length that four bytes stand for.
pub open spec fn len_value(b: Seq<u8>) -> nat
    recommends
        b.len() == 4,
{
    (b[0] as nat) + 256 * (b[1] as nat) + 65536 * (b[2] as nat) + 16777216 * (b[3] as nat)
}

/// A string on the wire: the byte length of its UTF-8 form, then that form.
#[verifier::opaque]
pub open spec fn ser_str(s: Seq<char>) -> Seq<u8> {
    len_bytes(encode_utf8(s).len()) + encode_utf8(s)
}

/// The strings of a list one after the other, without the count.
pub open spec fn ser_items(l: Seq<Seq<char>>) -> Seq<u8>
    decreases l.len(),
{
    if l.len() == 0 {
        Seq::empty()
    } else {
        ser_str(l[0]) + ser_items(l.skip(1))
    }
}

/// A list of strings on the wire: the number of strings, then each string.
#[verifier::opaque]
pub open spec fn ser_strs(l: Seq<Seq<char>>) -> Seq<u8> {
    len_bytes(l.len()) + ser_items(l)
}

/// A string can be framed when its UTF-8 form is at most `MAX_LEN` bytes long.
pub open spec fn str_fits(s: Seq<char>) -> bool {
    encode_utf8(s).len() <= MAX_LEN
}

/// A list can be framed when its count and each of its strings can.
pub open spec fn strs_fit(l: Seq<Seq<char>>) -> bool {
    &&& l.len() <= MAX_LEN
    &&& forall|i: int| 0 <= i < l.len() ==> str_fits(#[trigger] l[i])
}

/// Reads a length from the front of `b`: the length and the bytes after it,
/// or nothing when fewer than four bytes are there.
#[verifier::opaque]
pub open spec fn parse_len(b: Seq<u8>) -> Option<(nat, Seq<u8>)> {
    if b.len() < 4 {
        None
    } else {
        Some((len_value(b.take(4)), b.skip(4)))
    }
}

/// Reads a string from the front of `b`. Fails when the length prefix is cut
/// short, announces more bytes than remain, or the bytes are not UTF-8.
#[verifier::opaque]
pub open spec fn parse_str(b: Seq<u8>) -> Option<(Seq<char>, Seq<u8>)> {
    match parse_len(b) {
        None => None,
        Some((n, body)) => {
            if body.len() < n {
                None
            } else if !valid_utf8(body.take(n as int)) {
                None
            } else {
                Some((decode_utf8(body.take(n as int)), body.skip(n as int)))
            }
        },
    }
}

/// Reads `count` strings from the front of `b`.
pub open spec fn parse_items(b: Seq<u8>, count: nat) -> Option<(Seq<Seq<char>>, Seq<u8>)>
    decreases count,
{
    if count == 0 {
        Some((Seq::empty(), b))
    } else {
        match parse_str(b) {
            None => None,
            Some((s, rest)) => match parse_items(rest, (count - 1) as nat) {
                None => None,
                Some((tail, end)) => Some((seq![s] + tail, end)),
            },
        }
    }
}

/// Reads a counted list of strings from the front of `b`.
#[verifier::opaque]
pub open spec fn parse_strs(b: Seq<u8>) -> Option<(Seq<Seq<char>>, Seq<u8>)> {
    match parse_len(b) {
        None => None,
        Some((n, body)) => parse_items(body, n),
    }
}

/// The character sequences of a list of strings.
pub open spec fn texts(v: Seq<String>) -> Seq<Seq<char>> {
    Seq::new(v.len(), |i: int| v[i]@)
}

/// A four-byte length reads back as itself.
pub proof fn lemma_len_round_trip(n: nat)
    requires
        n <= MAX_LEN,
    ensures
        len_bytes(n).len() == 4,
        len_value(len_bytes(n)) == n,
{
}

/// Parsing the frame of a length gives the length back and leaves what
/// followed the frame.
pub proof fn lemma_parse_ser_len(n: nat, rest: Seq<u8>)
    requires
        n <= MAX_LEN,
    ensures
        parse_len(len_bytes(n) + rest) == Some((n, rest)),
{
    reveal(parse_len);
    let b = len_bytes(n) + rest;
    lemma_len_round_trip(n);
    assert(b.take(4) =~= len_bytes(n));
    assert(b.skip(4) =~= rest);
}

/// Parsing the frame of a string gives the string back and leaves what
/// followed the frame.
pub proof fn lemma_parse_ser_str(s: Seq<char>, rest: Seq<u8>)
    requires
        str_fits(s),
    ensures
        parse_str(ser_str(s) + rest) == Some((s, rest)),
{
    reveal(ser_str);
    reveal(parse_str);
    let payload = encode_utf8(s);
    let n = payload.len();
    let b = ser_str(s) + rest;
    assert(b =~= len_bytes(n) + (payload + rest));
    lemma_parse_ser_len(n, payload + rest);
    let body = payload + rest;
    assert(body.take(n as int) =~= payload);
    assert(body.skip(n as int) =~= rest);
    encode_utf8_valid_utf8(s);
    encode_utf8_decode_utf8(s);
}

/// Parsing as many strings as were written gives the list back.
pub proof fn lemma_parse_ser_items(l: Seq<Seq<char>>, rest: Seq<u8>)
    requires
        forall|i: int| 0 <= i < l.len() ==> str_fits(#[trigger] l[i]),
    ensures
        parse_items(ser_items(l) + rest, l.len()) == Some((l, rest)),
    decreases l.len(),
{
    if l.len() == 0 {
        assert(ser_items(l) + rest =~= rest);
        assert(l =~= Seq::<Seq<char>>::empty());
    } else {
        let tail = l.skip(1);
        assert(ser_items(l) + rest =~= ser_str(l[0]) + (ser_items(tail) + rest));
        lemma_parse_ser_str(l[0], ser_items(tail) + rest);
        assert forall|i: int| 0 <= i < tail.len() implies str_fits(#[trigger] tail[i]) by {
            assert(tail[i] == l[i + 1]);
        }
        lemma_parse_ser_items(tail, rest);
        assert(seq![l[0]] + tail =~= l);
    }
}

/// Parsing the frame of a list gives the list back and leaves what followed
/// the frame.
pub proof fn lemma_parse_ser_strs(l: Seq<Seq<char>>, rest: Seq<u8>)
    requires
        strs_fit(l),
    ensures
        parse_strs(ser_strs(l) + rest) == Some((l, rest)),
{
    reveal(ser_strs);
    reveal(parse_strs);
    assert(ser_strs(l) + rest =~= len_bytes(l.len()) + (ser_items(l) + rest));
    lemma_parse_ser_len(l.len(), ser_items(l) + rest);
    lemma_parse_ser_items(l, rest);
}

/// Appends the frame of `n` to `out`.
pub fn put_len(out: &mut Vec<u8>, n: usize)
    requires
        n <= MAX_LEN,
    ensures
        final(out)@ == old(out)@ + len_bytes(n as nat),
{
    out.push((n % 256) as u8);
    out.push(((n / 256) % 256) as u8);
    out.push(((n / 65536) % 256) as u8);
    out.push(((n / 16777216) % 256) as u8);
    assert(out@ =~= old(out)@ + len_bytes(n as nat));
}

/// Appends the frame of `s` to `out`, or leaves `out` as it is and reports
/// `false` when `s` is too long to be framed.
pub fn put_str(out: &mut Vec<u8>, s: &str) -> (ok: bool)
    ensures
        ok == str_fits(s@),
        ok ==> final(out)@ == old(out)@ + ser_str(s@),
        !ok ==> final(out)@ == old(out)@,
{
    let bytes = s.as_bytes();
    let n = bytes.len();
    if n > MAX_LEN {
        return false;
    }
    put_len(out, n);
    let ghost framed = out@;
    let mut i: usize = 0;
    while i < n
        invariant
            i <= n,
            n == bytes@.len(),
            out@ == framed + bytes@.take(i as int),
        decreases n - i,
    {
        out.push(bytes[i]);
        assert(bytes@.take(i + 1) =~= bytes@.take(i as int).push(bytes@[i as int]));
        i += 1;
    }
    assert(bytes@.take(n as int) =~= bytes@);
    assert(out@ =~= old(out)@ + ser_str(s@)) by {
        reveal(ser_str);
    }
    true
}

/// Appends the frame of the list `l` to `out`, or leaves `out` as it is and
/// reports `false` when the list or one of its strings is too long to be
/// framed.
pub fn put_strs(out: &mut Vec<u8>, l: &Vec<String>) -> (ok: bool)
    ensures
        ok == strs_fit(texts(l@)),
        ok ==> final(out)@ == old(out)@ + ser_strs(texts(l@)),
        !ok ==> final(out)@ == old(out)@,
{
    let n = l.len();
    if n > MAX_LEN {
        return false;
    }
    let start = out.len();
    put_len(out, n);
    let ghost all = texts(l@);
    proof {
        reveal(ser_strs);
        assert(all.skip(0) =~= all);
        assert(out@ + ser_items(all) =~= old(out)@ + ser_strs(all));
        assert(out@.subrange(0, start as int) =~= old(out)@);
    }
    let mut i: usize = 0;
    while i < n
        invariant
            i <= n,
            n == l@.len(),
            all == texts(l@),
            start == old(out)@.len(),
            start <= out@.len(),
            out@.subrange(0, start as int) == old(out)@,
            out@ + ser_items(all.skip(i as int)) == old(out)@ + ser_strs(all),
            forall|j: int| 0 <= j < i ==> str_fits(#[trigger] all[j]),
        decreases n - i,
    {
        let ghost before = out@;
        let ok = put_str(out, l[i].as_str());
        if !ok {
            assert(!str_fits(all[i as int]));
            out.truncate(start);
            return false;
        }
        proof {
            let here = all.skip(i as int);
            assert(here[0] == l@[i as int]@);
            assert(here.skip(1) =~= all.skip(i + 1));
            assert(out@ + ser_items(all.skip(i + 1)) =~= before + ser_items(here));
            assert(out@.subrange(0, start as int) =~= before.subrange(0, start as int));
        }
        i += 1;
    }
    assert(ser_items(all.skip(n as int)) =~= Seq::<u8>::empty());
    assert(out@ =~= old(out)@ + ser_strs(all));
    true
}

/// Reads bytes as UTF-8 text by `std::str::from_utf8`: the result is the
/// text whose UTF-8 form is exactly `bytes`, and there is none exactly when
/// `bytes` is not well-formed UTF-8.
#[verifier::external_body]
fn utf8_text(bytes: &[u8]) -> (r: Option<&str>)
    ensures
        r is Some <==> valid_utf8(bytes@),
        r matches Some(s) ==> s.spec_bytes() == bytes@,
{
    std::str::from_utf8(bytes).ok()
}

/// Reads a length at position `pos` of `input`.
pub fn take_len(input: &[u8], pos: usize) -> (r: Option<(usize, usize)>)
    requires
        pos <= input@.len(),
    ensures
        match r {
            Some((n, next)) => {
                &&& pos + 4 == next
                &&& next <= input@.len()
                &&& n <= MAX_LEN
                &&& parse_len(input@.skip(pos as int)) == Some(
                    (n as nat, input@.skip(next as int)),
                )
            },
            None => parse_len(input@.skip(pos as int)) is None,
        },
{
    proof {
        reveal(parse_len);
    }
    if input.len() - pos < 4 {
        return None;
    }
    let b0 = input[pos] as usize;
    let b1 = input[pos + 1] as usize;
    let b2 = input[pos + 2] as usize;
    let b3 = input[pos + 3] as usize;
    let n = b0 + 256 * b1 + 65536 * b2 + 16777216 * b3;
    proof {
        let b = input@.skip(pos as int);
        assert(b.take(4)[0] == input@[pos as int]);
        assert(b.take(4)[1] == input@[pos + 1]);
        assert(b.take(4)[2] == input@[pos + 2]);
        assert(b.take(4)[3] == input@[pos + 3]);
        assert(b.skip(4) =~= input@.skip(pos + 4));
    }
    Some((n, pos + 4))
}

/// Reads a string at position `pos` of `input`.
pub fn take_str(input: &[u8], pos: usize) -> (r: Option<(String, usize)>)
    requires
        pos <= input@.len(),
    ensures
        match r {
            Some((s, next)) => {
                &&& pos <= next <= input@.len()
                &&& parse_str(input@.skip(pos as int)) == Some((s@, input@.skip(next as int)))
            },
            None => parse_str(input@.skip(pos as int)) is None,
        },
{
    proof {
        reveal(parse_str);
    }
    let (n, start) = match take_len(input, pos) {
        Some(found) => found,
        None => {
            return None;
        },
    };
    if input.len() - start < n {
        return None;
    }
    let end = start + n;
    let payload = slice_subrange(input, start, end);
    proof {
        let body = input@.skip(start as int);
        assert(body.take(n as int) =~= payload@);
        assert(body.skip(n as int) =~= input@.skip(end as int));
    }
    match utf8_text(payload) {
        Some(text) => {
            proof {
                encode_utf8_decode_utf8(text@);
            }
            Some((String::from_str(text), end))
        },
        None => None,
    }
}

/// Reads a counted list of strings at position `pos` of `input`.
pub fn take_strs(input: &[u8], pos: usize) -> (r: Option<(Vec<String>, usize)>)
    requires
        pos <= input@.len(),
    ensures
        match r {
            Some((l, next)) => {
                &&& pos <= next <= input@.len()
                &&& parse_strs(input@.skip(pos as int)) == Some(
                    (texts(l@), input@.skip(next as int)),
                )
            },
            None => parse_strs(input@.skip(pos as int)) is None,
        },
{
    let (n, start) = match take_len(input, pos) {
        Some(found) => found,
        None => {
            assert(parse_strs(input@.skip(pos as int)) is None) by {
                reveal(parse_strs);
            }
            return None;
        },
    };
    let ghost whole = parse_strs(input@.skip(pos as int));
    proof {
        reveal(parse_strs);
        assert(texts(Seq::<String>::empty()) =~= Seq::<Seq<char>>::empty());
        if let Some((tail, end)) = parse_items(input@.skip(start as int), n as nat) {
            assert(Seq::<Seq<char>>::empty() + tail =~= tail);
        }
    }
    let mut items: Vec<String> = Vec::new();
    let mut at = start;
    let mut i: usize = 0;
    while i < n
        invariant
            i <= n,
            start <= at <= input@.len(),
            items@.len() == i,
            whole == parse_strs(input@.skip(pos as int)),
            whole == match parse_items(input@.skip(at as int), (n - i) as nat) {
                None => None,
                Some((tail, end)) => Some((texts(items@) + tail, end)),
            },
        decreases n - i,
    {
        let ghost so_far = texts(items@);
        match take_str(input, at) {
            None => {
                assert(parse_items(input@.skip(at as int), (n - i) as nat) is None);
                return None;
            },
            Some((s, next)) => {
                proof {
                    let later = parse_items(input@.skip(next as int), (n - i - 1) as nat);
                    if let Some((tail, end)) = later {
                        assert(so_far.push(s@) + tail =~= so_far + (seq![s@] + tail));
                    }
                }
                items.push(s);
                proof {
                    assert(texts(items@) =~= so_far.push(s@));
                }
                at = next;
                i += 1;
            },
        }
    }
    proof {
        assert(texts(items@) + Seq::<Seq<char>>::empty() =~= texts(items@));
    }
    Some((items, at))
}

} // verus!
