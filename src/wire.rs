//! Little-endian integers, NUL-terminated and NUL-padded byte strings.
use vstd::prelude::*;
use vstd::utf8::{valid_utf8, decode_utf8};

verus! {

/// The unsigned 16-bit little-endian integer at byte `i`.
pub open spec fn u16_le(b: Seq<u8>, i: int) -> u16 {
    (b[i] as int + 256 * b[i + 1] as int) as u16
}

/// The unsigned 32-bit little-endian integer at byte `i`.
pub open spec fn u32_le(b: Seq<u8>, i: int) -> u32 {
    (b[i] as int + 256 * b[i + 1] as int + 65536 * b[i + 2] as int + 16777216 * b[i + 3] as int) as u32
}

/// The byte at `i`, read as a two's complement signed integer.
pub open spec fn i8_at(b: Seq<u8>, i: int) -> i8 {
    if b[i] >= 128 { (b[i] - 256) as i8 } else { b[i] as i8 }
}

/// The signed 16-bit little-endian integer at byte `i`.
pub open spec fn i16_le(b: Seq<u8>, i: int) -> i16 {
    let u = u16_le(b, i);
    if u >= 32768 { (u - 65536) as i16 } else { u as i16 }
}

/// The signed 32-bit little-endian integer at byte `i`.
pub open spec fn i32_le(b: Seq<u8>, i: int) -> i32 {
    let u = u32_le(b, i);
    if u >= 2147483648 { (u - 4294967296) as i32 } else { u as i32 }
}

pub fn read_u8(b: &[u8], pos: usize) -> (r: u8)
    requires
        pos < b@.len(),
    ensures
        r == b@[pos as int],
{
    b[pos]
}

pub fn read_i8(b: &[u8], pos: usize) -> (r: i8)
    requires
        pos < b@.len(),
    ensures
        r == i8_at(b@, pos as int),
{
    let u = b[pos];
    if u >= 128 {
        (u as i16 - 256) as i8
    } else {
        u as i8
    }
}

pub fn read_u16(b: &[u8], pos: usize) -> (r: u16)
    requires
        pos + 2 <= b@.len(),
    ensures
        r == u16_le(b@, pos as int),
{
    b[pos] as u16 + 256 * (b[pos + 1] as u16)
}

pub fn read_i16(b: &[u8], pos: usize) -> (r: i16)
    requires
        pos + 2 <= b@.len(),
    ensures
        r == i16_le(b@, pos as int),
{
    let u = read_u16(b, pos);
    if u >= 32768 {
        (u as i32 - 65536) as i16
    } else {
        u as i16
    }
}

pub fn read_u32(b: &[u8], pos: usize) -> (r: u32)
    requires
        pos + 4 <= b@.len(),
    ensures
        r == u32_le(b@, pos as int),
{
    b[pos] as u32 + 256 * (b[pos + 1] as u32) + 65536 * (b[pos + 2] as u32) + 16777216 * (
    b[pos + 3] as u32)
}

pub fn read_i32(b: &[u8], pos: usize) -> (r: i32)
    requires
        pos + 4 <= b@.len(),
    ensures
        r == i32_le(b@, pos as int),
{
    let u = read_u32(b, pos);
    if u >= 2147483648 {
        (u as i64 - 4294967296) as i32
    } else {
        u as i32
    }
}

/// `b` with every trailing NUL byte removed.
pub open spec fn trim_nul_end(b: Seq<u8>) -> Seq<u8>
    decreases b.len(),
{
    if b.len() > 0 && b.last() == 0 {
        trim_nul_end(b.drop_last())
    } else {
        b
    }
}

/// The position of the first NUL byte at or after `start`, or `b.len()` where there is none.
pub open spec fn nul_position(b: Seq<u8>, start: int) -> int
    decreases b.len() - start,
{
    if start >= b.len() {
        b.len() as int
    } else if b[start] == 0 {
        start
    } else {
        nul_position(b, start + 1)
    }
}

/// The bytes from `start` up to the first NUL after it, or `None` where no NUL follows.
pub open spec fn nul_terminated(b: Seq<u8>, start: int) -> Option<Seq<u8>> {
    if 0 <= start && nul_position(b, start) < b.len() {
        Some(b.subrange(start, nul_position(b, start)))
    } else {
        None
    }
}

/// `b` with each newline byte replaced by a backslash and an `n`. In UTF-8 the byte 10
/// only ever encodes a newline, so this escapes the newlines of the text that `b` encodes.
pub open spec fn escape_newlines(b: Seq<u8>) -> Seq<u8>
    decreases b.len(),
{
    if b.len() == 0 {
        b
    } else {
        let rest = escape_newlines(b.drop_last());
        if b.last() == 10 {
            rest + seq![92u8, 110u8]
        } else {
            rest.push(b.last())
        }
    }
}

/// The text that `b` encodes in UTF-8, or `None` where `b` is not valid UTF-8.
pub open spec fn utf8_text(b: Seq<u8>) -> Option<Seq<char>> {
    if valid_utf8(b) { Some(decode_utf8(b)) } else { None }
}

/// Relies on String::from_utf8: `Ok` exactly when the bytes are valid UTF-8, holding the
/// text they encode.
#[verifier::external_body]
pub(crate) fn string_from_utf8(b: Vec<u8>) -> (r: Option<String>)
    ensures
        match r {
            Some(s) => utf8_text(b@) == Some(s@),
            None => utf8_text(b@) is None,
        },
{
    String::from_utf8(b).ok()
}

/// Copies `b[start..end]` without its trailing NUL bytes.
pub fn copy_trimmed(b: &[u8], start: usize, end: usize) -> (r: Vec<u8>)
    requires
        start <= end <= b@.len(),
    ensures
        r@ == trim_nul_end(b@.subrange(start as int, end as int)),
{
    let mut e: usize = end;
    while e > start && b[e - 1] == 0
        invariant
            start <= e <= end <= b@.len(),
            trim_nul_end(b@.subrange(start as int, end as int)) == trim_nul_end(
                b@.subrange(start as int, e as int),
            ),
        decreases e,
    {
        assert(b@.subrange(start as int, e as int).drop_last() =~= b@.subrange(
            start as int,
            e - 1,
        ));
        e = e - 1;
    }
    let mut r: Vec<u8> = Vec::new();
    let mut i: usize = start;
    while i < e
        invariant
            start <= i <= e <= end <= b@.len(),
            r@ =~= b@.subrange(start as int, i as int),
        decreases e - i,
    {
        r.push(b[i]);
        i = i + 1;
    }
    r
}

/// The bytes from `start` up to the first NUL after it.
pub fn read_nul_terminated(b: &[u8], start: usize) -> (r: Option<Vec<u8>>)
    ensures
        match r {
            Some(v) => nul_terminated(b@, start as int) == Some(v@),
            None => nul_terminated(b@, start as int) is None,
        },
{
    let mut r: Vec<u8> = Vec::new();
    let mut i: usize = start;
    while i < b.len() && b[i] != 0
        invariant
            start <= i,
            nul_position(b@, start as int) == nul_position(b@, i as int),
            i <= b@.len() ==> r@ =~= b@.subrange(start as int, i as int),
        decreases b@.len() - i,
    {
        r.push(b[i]);
        i = i + 1;
    }
    if i < b.len() {
        Some(r)
    } else {
        None
    }
}

/// Copies `b` with each newline byte replaced by a backslash and an `n`.
pub fn copy_escaping_newlines(b: &Vec<u8>) -> (r: Vec<u8>)
    ensures
        r@ == escape_newlines(b@),
{
    let mut r: Vec<u8> = Vec::new();
    let mut i: usize = 0;
    while i < b.len()
        invariant
            i <= b@.len(),
            r@ == escape_newlines(b@.subrange(0, i as int)),
        decreases b@.len() - i,
    {
        assert(b@.subrange(0, i + 1).drop_last() =~= b@.subrange(0, i as int));
        if b[i] == 10 {
            r.push(92);
            r.push(110);
            assert(r@ =~= escape_newlines(b@.subrange(0, i as int)) + seq![92u8, 110u8]);
        } else {
            r.push(b[i]);
        }
        i = i + 1;
    }
    assert(b@.subrange(0, b@.len() as int) =~= b@);
    r
}

} // verus!
