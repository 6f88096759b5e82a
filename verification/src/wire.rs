//! Field encodings shared by every record layout: little-endian integers,
//! 32-byte addresses and length-prefixed UTF-8 text.
//!
//! Each field kind has a spec function that reads it from the front of a
//! byte sequence (`parse_*`), the bytes it is written as, and a pair of
//! executable functions (`take_*`, `put_*`) proved against them.

use vstd::bytes::*;
use vstd::prelude::*;
use vstd::seq_lib::lemma_concat_associative;
use vstd::slice::*;
use vstd::utf8::*;

verus! {

/// Width of an address field in bytes.
pub const ADDRESS_LEN: usize = 32;

/// The error of [`String::from_utf8`], carried through and never inspected.
#[verifier::external_type_specification]
#[verifier::external_body]
pub struct ExFromUtf8Error(std::string::FromUtf8Error);

/// [`String::from_utf8`] succeeds exactly on well-formed UTF-8, and the
/// string it returns is made of the very bytes it was given.
pub assume_specification[ String::from_utf8 ](vec: Vec<u8>) -> (r: Result<
    String,
    std::string::FromUtf8Error,
>)
    ensures
        r is Ok <==> valid_utf8(vec@),
        r matches Ok(s) ==> encode_utf8(s@) == vec@,
;

/// Reads a `u32` field from the front of `s`: the value and the bytes after it.
pub open spec fn parse_u32(s: Seq<u8>) -> Option<(u32, Seq<u8>)> {
    if s.len() >= 4 {
        Some((spec_u32_from_le_bytes(s.subrange(0, 4)), s.skip(4)))
    } else {
        None
    }
}

/// Reads a `u64` field from the front of `s`: the value and the bytes after it.
pub open spec fn parse_u64(s: Seq<u8>) -> Option<(u64, Seq<u8>)> {
    if s.len() >= 8 {
        Some((spec_u64_from_le_bytes(s.subrange(0, 8)), s.skip(8)))
    } else {
        None
    }
}

/// Reads an address field from the front of `s`: its 32 bytes and the bytes
/// after them.
pub open spec fn parse_address(s: Seq<u8>) -> Option<(Seq<u8>, Seq<u8>)> {
    if s.len() >= ADDRESS_LEN {
        Some((s.subrange(0, ADDRESS_LEN as int), s.skip(ADDRESS_LEN as int)))
    } else {
        None
    }
}

/// Reads a text field from the front of `s`: a `u32` byte count, then that
/// many bytes of well-formed UTF-8. Fails when the count exceeds what is left
/// or the bytes are not UTF-8.
pub open spec fn parse_text(s: Seq<u8>) -> Option<(Seq<char>, Seq<u8>)> {
    match parse_u32(s) {
        Some((n, body)) => if n <= body.len() && valid_utf8(body.subrange(0, n as int)) {
            Some((decode_utf8(body.subrange(0, n as int)), body.skip(n as int)))
        } else {
            None
        },
        None => None,
    }
}

/// A text can be written as a field when its UTF-8 form fits a `u32` count.
pub open spec fn text_fits(t: Seq<char>) -> bool {
    encode_utf8(t).len() <= u32::MAX
}

/// The bytes of a text field: the count of UTF-8 bytes, then the bytes.
pub open spec fn text_bytes(t: Seq<char>) -> Seq<u8> {
    spec_u32_to_le_bytes(encode_utf8(t).len() as u32) + encode_utf8(t)
}

/// A written `u32` field is four bytes and reads back as the value written,
/// whatever follows it.
pub proof fn lemma_parse_u32_written(v: u32, rest: Seq<u8>)
    ensures
        spec_u32_to_le_bytes(v).len() == 4,
        parse_u32(spec_u32_to_le_bytes(v) + rest) == Some((v, rest)),
{
    lemma_auto_spec_u32_to_from_le_bytes();
    let field = spec_u32_to_le_bytes(v);
    assert((field + rest).subrange(0, 4) =~= field);
    assert((field + rest).skip(4) =~= rest);
}

/// A written `u64` field is eight bytes and reads back as the value written,
/// whatever follows it.
pub proof fn lemma_parse_u64_written(v: u64, rest: Seq<u8>)
    ensures
        spec_u64_to_le_bytes(v).len() == 8,
        parse_u64(spec_u64_to_le_bytes(v) + rest) == Some((v, rest)),
{
    lemma_auto_spec_u64_to_from_le_bytes();
    let field = spec_u64_to_le_bytes(v);
    assert((field + rest).subrange(0, 8) =~= field);
    assert((field + rest).skip(8) =~= rest);
}

/// A written address reads back unchanged, whatever follows it.
pub proof fn lemma_parse_address_written(a: Seq<u8>, rest: Seq<u8>)
    requires
        a.len() == ADDRESS_LEN,
    ensures
        parse_address(a + rest) == Some((a, rest)),
{
    assert((a + rest).subrange(0, ADDRESS_LEN as int) =~= a);
    assert((a + rest).skip(ADDRESS_LEN as int) =~= rest);
}

/// A written text field is four bytes longer than its UTF-8 form and reads
/// back as the text written, whatever follows it.
pub proof fn lemma_parse_text_written(t: Seq<char>, rest: Seq<u8>)
    requires
        text_fits(t),
    ensures
        text_bytes(t).len() == 4 + encode_utf8(t).len(),
        parse_text(text_bytes(t) + rest) == Some((t, rest)),
{
    let body = encode_utf8(t);
    let n = body.len() as u32;
    lemma_parse_u32_written(n, body + rest);
    assert(text_bytes(t) + rest =~= spec_u32_to_le_bytes(n) + (body + rest));
    assert((body + rest).subrange(0, n as int) =~= body);
    assert((body + rest).skip(n as int) =~= rest);
    encode_utf8_valid_utf8(t);
    encode_utf8_decode_utf8(t);
}

/// Bytes that a `u32` field was read from start with that field as written.
pub proof fn lemma_parse_u32_exact(s: Seq<u8>)
    ensures
        parse_u32(s) matches Some((v, rest)) ==> spec_u32_to_le_bytes(v) + rest == s,
{
    if s.len() >= 4 {
        lemma_auto_spec_u32_to_from_le_bytes();
        let field = s.subrange(0, 4);
        assert(spec_u32_to_le_bytes(spec_u32_from_le_bytes(field)) == field);
        assert(field + s.skip(4) =~= s);
    }
}

/// Bytes that a `u64` field was read from start with that field as written.
pub proof fn lemma_parse_u64_exact(s: Seq<u8>)
    ensures
        parse_u64(s) matches Some((v, rest)) ==> spec_u64_to_le_bytes(v) + rest == s,
{
    if s.len() >= 8 {
        lemma_auto_spec_u64_to_from_le_bytes();
        let field = s.subrange(0, 8);
        assert(spec_u64_to_le_bytes(spec_u64_from_le_bytes(field)) == field);
        assert(field + s.skip(8) =~= s);
    }
}

/// Bytes that an address was read from start with that address, which is
/// 32 bytes long.
pub proof fn lemma_parse_address_exact(s: Seq<u8>)
    ensures
        parse_address(s) matches Some((a, rest)) ==> a.len() == ADDRESS_LEN && a + rest == s,
{
    if s.len() >= ADDRESS_LEN {
        assert(s.subrange(0, ADDRESS_LEN as int) + s.skip(ADDRESS_LEN as int) =~= s);
    }
}

/// Bytes that a text field was read from start with that field as written,
/// and the text read can be written again.
pub proof fn lemma_parse_text_exact(s: Seq<u8>)
    ensures
        parse_text(s) matches Some((t, rest)) ==> text_fits(t) && text_bytes(t) + rest == s,
{
    if let Some((t, rest)) = parse_text(s) {
        let (n, body) = parse_u32(s).unwrap();
        let raw = body.subrange(0, n as int);
        lemma_parse_u32_exact(s);
        decode_utf8_encode_utf8(raw);
        assert(raw + rest =~= body);
        lemma_concat_associative(spec_u32_to_le_bytes(n), raw, rest);
    }
}

/// A `u32` field read at `pos`, with the position after it.
pub(crate) fn take_u32(bytes: &[u8], pos: usize) -> (r: Option<(u32, usize)>)
    requires
        pos <= bytes@.len(),
    ensures
        match r {
            Some((v, next)) => pos <= next <= bytes@.len() && parse_u32(bytes@.skip(pos as int))
                == Some((v, bytes@.skip(next as int))),
            None => parse_u32(bytes@.skip(pos as int)) is None,
        },
{
    if bytes.len() - pos < 4 {
        return None;
    }
    let field = slice_subrange(bytes, pos, pos + 4);
    assert(bytes@.skip(pos as int).subrange(0, 4) =~= bytes@.subrange(pos as int, pos + 4));
    assert(bytes@.skip(pos as int).skip(4) =~= bytes@.skip(pos + 4));
    Some((u32_from_le_bytes(field), pos + 4))
}

/// A `u64` field read at `pos`, with the position after it.
pub(crate) fn take_u64(bytes: &[u8], pos: usize) -> (r: Option<(u64, usize)>)
    requires
        pos <= bytes@.len(),
    ensures
        match r {
            Some((v, next)) => pos <= next <= bytes@.len() && parse_u64(bytes@.skip(pos as int))
                == Some((v, bytes@.skip(next as int))),
            None => parse_u64(bytes@.skip(pos as int)) is None,
        },
{
    if bytes.len() - pos < 8 {
        return None;
    }
    let field = slice_subrange(bytes, pos, pos + 8);
    assert(bytes@.skip(pos as int).subrange(0, 8) =~= bytes@.subrange(pos as int, pos + 8));
    assert(bytes@.skip(pos as int).skip(8) =~= bytes@.skip(pos + 8));
    Some((u64_from_le_bytes(field), pos + 8))
}

/// An address field read at `pos`, with the position after it.
pub(crate) fn take_address(bytes: &[u8], pos: usize) -> (r: Option<([u8; 32], usize)>)
    requires
        pos <= bytes@.len(),
    ensures
        match r {
            Some((a, next)) => pos <= next <= bytes@.len() && parse_address(
                bytes@.skip(pos as int),
            ) == Some((a@, bytes@.skip(next as int))),
            None => parse_address(bytes@.skip(pos as int)) is None,
        },
{
    let len = bytes.len();
    if len - pos < ADDRESS_LEN {
        return None;
    }
    let mut address = [0u8; 32];
    let mut i: usize = 0;
    while i < ADDRESS_LEN
        invariant
            i <= ADDRESS_LEN,
            pos + ADDRESS_LEN <= len == bytes@.len(),
            forall|j: int| 0 <= j < i ==> address@[j] == bytes@[pos + j],
        decreases ADDRESS_LEN - i,
    {
        address[i] = bytes[pos + i];
        i += 1;
    }
    assert(address@ =~= bytes@.skip(pos as int).subrange(0, ADDRESS_LEN as int));
    assert(bytes@.skip(pos as int).skip(ADDRESS_LEN as int) =~= bytes@.skip(pos + ADDRESS_LEN));
    Some((address, pos + ADDRESS_LEN))
}

/// A text field read at `pos`, with the position after it.
pub(crate) fn take_text(bytes: &[u8], pos: usize) -> (r: Option<(String, usize)>)
    requires
        pos <= bytes@.len(),
    ensures
        match r {
            Some((t, next)) => pos <= next <= bytes@.len() && parse_text(bytes@.skip(pos as int))
                == Some((t@, bytes@.skip(next as int))),
            None => parse_text(bytes@.skip(pos as int)) is None,
        },
{
    let (count, body) = match take_u32(bytes, pos) {
        Some(read) => read,
        None => return None,
    };
    let n = count as usize;
    if bytes.len() - body < n {
        return None;
    }
    let raw = slice_to_vec(slice_subrange(bytes, body, body + n));
    assert(bytes@.skip(body as int).subrange(0, n as int) =~= raw@);
    assert(bytes@.skip(body as int).skip(n as int) =~= bytes@.skip(body + n));
    match String::from_utf8(raw) {
        Ok(text) => {
            proof {
                encode_utf8_decode_utf8(text@);
            }
            Some((text, body + n))
        },
        Err(_) => None,
    }
}

/// Appends a `u32` field.
pub(crate) fn put_u32(out: &mut Vec<u8>, v: u32)
    ensures
        final(out)@ == old(out)@ + spec_u32_to_le_bytes(v),
{
    let mut field = u32_to_le_bytes(v);
    out.append(&mut field);
}

/// Appends a `u64` field.
pub(crate) fn put_u64(out: &mut Vec<u8>, v: u64)
    ensures
        final(out)@ == old(out)@ + spec_u64_to_le_bytes(v),
{
    let mut field = u64_to_le_bytes(v);
    out.append(&mut field);
}

/// Appends an address field.
pub(crate) fn put_address(out: &mut Vec<u8>, a: &[u8; 32])
    ensures
        final(out)@ == old(out)@ + a@,
{
    let mut field = slice_to_vec(a.as_slice());
    out.append(&mut field);
}

/// Whether a text can be written as a field.
pub(crate) fn text_is_writable(t: &String) -> (b: bool)
    ensures
        b == text_fits(t@),
{
    t.as_str().as_bytes().len() <= u32::MAX as usize
}

/// Appends a text field.
pub(crate) fn put_text(out: &mut Vec<u8>, t: &String)
    requires
        text_fits(t@),
    ensures
        final(out)@ == old(out)@ + text_bytes(t@),
{
    let body = t.as_str().as_bytes();
    put_u32(out, body.len() as u32);
    let mut field = slice_to_vec(body);
    out.append(&mut field);
    assert(out@ =~= old(out)@ + text_bytes(t@));
}

} // verus!
