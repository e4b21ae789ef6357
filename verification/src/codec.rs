//! Wire primitives of the record and instruction layouts: fixed-width
//! integers, flags, raw addresses and length-prefixed UTF-8 text.
//!
//! Every primitive has a spec encoder (`*_bytes`), a spec reader at a
//! position (`*_at`), an executable writer and reader, and a lemma that the
//! reader recovers what the encoder wrote, whatever surrounds it.

use crate::address::Address;
use crate::error::ReviewError;
use vstd::prelude::*;
use vstd::slice::slice_subrange;
use vstd::slice::slice_to_vec;
use vstd::utf8::decode_utf8;
use vstd::utf8::decode_utf8_encode_utf8;
use vstd::utf8::encode_utf8;
use vstd::utf8::encode_utf8_decode_utf8;
use vstd::utf8::encode_utf8_valid_utf8;
use vstd::utf8::valid_utf8;

verus! {

/// Largest byte length a length prefix can announce.
pub const MAX_TEXT_LEN: usize = 0xffff_ffff;

// ---------------------------------------------------------------------------
// 32-bit little-endian integers
// ---------------------------------------------------------------------------

/// The four little-endian bytes of `n`.
pub open spec fn u32_bytes(n: u32) -> Seq<u8> {
    seq![
        (n % 256) as u8,
        (n / 256 % 256) as u8,
        (n / 65536 % 256) as u8,
        (n / 16777216 % 256) as u8,
    ]
}

/// The number whose little-endian bytes are `b[pos .. pos + 4]`.
pub open spec fn u32_value(b: Seq<u8>, pos: int) -> int {
    b[pos] + 256 * b[pos + 1] + 65536 * b[pos + 2] + 16777216 * b[pos + 3]
}

/// Reads a little-endian `u32` at `pos`: the value and the next position.
pub open spec fn u32_at(b: Seq<u8>, pos: int) -> Option<(u32, int)> {
    if 0 <= pos && pos + 4 <= b.len() {
        Some((u32_value(b, pos) as u32, pos + 4))
    } else {
        None
    }
}

/// A 32-bit number is the sum of its four base-256 digits.
proof fn lemma_u32_digits(n: u32)
    by (bit_vector)
    ensures
        n == (n % 256) + 256 * (n / 256 % 256) + 65536 * (n / 65536 % 256) + 16777216 * (n
            / 16777216 % 256),
{
}

/// The base-256 digits of a sum of four weighted bytes are those bytes.
proof fn lemma_u32_compose(b0: u8, b1: u8, b2: u8, b3: u8, n: u32)
    by (bit_vector)
    requires
        n == b0 + 256 * b1 + 65536 * b2 + 16777216 * b3,
    ensures
        n % 256 == b0,
        n / 256 % 256 == b1,
        n / 65536 % 256 == b2,
        n / 16777216 % 256 == b3,
{
}

/// A number is read back where its little-endian bytes stand.
pub proof fn lemma_u32_at(pre: Seq<u8>, n: u32, post: Seq<u8>)
    ensures
        u32_bytes(n).len() == 4,
        u32_at(pre + u32_bytes(n) + post, pre.len() as int) == Some((n, pre.len() as int + 4)),
{
    let b = pre + u32_bytes(n) + post;
    let p = pre.len() as int;
    assert(b[p] == u32_bytes(n)[0]);
    assert(b[p + 1] == u32_bytes(n)[1]);
    assert(b[p + 2] == u32_bytes(n)[2]);
    assert(b[p + 3] == u32_bytes(n)[3]);
    lemma_u32_digits(n);
}

/// Re-encoding what was read gives back the bytes that were read.
pub proof fn lemma_u32_reencode(b: Seq<u8>, pos: int)
    requires
        0 <= pos,
        pos + 4 <= b.len(),
    ensures
        0 <= u32_value(b, pos) <= u32::MAX,
        u32_bytes(u32_value(b, pos) as u32) == b.subrange(pos, pos + 4),
{
    let n = u32_value(b, pos) as u32;
    lemma_u32_compose(b[pos], b[pos + 1], b[pos + 2], b[pos + 3], n);
    assert(u32_bytes(n) =~= b.subrange(pos, pos + 4));
}

/// Appends the little-endian bytes of `n`.
pub fn write_u32(out: &mut Vec<u8>, n: u32)
    ensures
        final(out)@ == old(out)@ + u32_bytes(n),
{
    out.push((n % 256) as u8);
    out.push((n / 256 % 256) as u8);
    out.push((n / 65536 % 256) as u8);
    out.push((n / 16777216 % 256) as u8);
    assert(out@ =~= old(out)@ + u32_bytes(n));
}

/// Reads a little-endian `u32` at `pos`.
pub fn read_u32(data: &[u8], pos: usize) -> (r: Option<(u32, usize)>)
    ensures
        match r {
            Some((n, next)) => u32_at(data@, pos as int) == Some((n, next as int)),
            None => u32_at(data@, pos as int) is None,
        },
{
    if pos > data.len() || data.len() - pos < 4 {
        return None;
    }
    let b0: u32 = data[pos] as u32;
    let b1: u32 = data[pos + 1] as u32;
    let b2: u32 = data[pos + 2] as u32;
    let b3: u32 = data[pos + 3] as u32;
    let n: u32 = b0 + 256 * b1 + 65536 * b2 + 16777216 * b3;
    Some((n, pos + 4))
}

// ---------------------------------------------------------------------------
// 64-bit integers, little-endian on the wire and big-endian as a seed
// ---------------------------------------------------------------------------

/// The eight little-endian bytes of `n`.
pub open spec fn u64_bytes(n: u64) -> Seq<u8> {
    seq![
        (n % 256) as u8,
        (n / 0x100 % 256) as u8,
        (n / 0x1_0000 % 256) as u8,
        (n / 0x100_0000 % 256) as u8,
        (n / 0x1_0000_0000 % 256) as u8,
        (n / 0x100_0000_0000 % 256) as u8,
        (n / 0x1_0000_0000_0000 % 256) as u8,
        (n / 0x100_0000_0000_0000 % 256) as u8,
    ]
}

/// The eight big-endian bytes of `n`.
#[verifier::opaque]
pub open spec fn u64_be_bytes(n: u64) -> Seq<u8> {
    seq![
        (n / 0x100_0000_0000_0000 % 256) as u8,
        (n / 0x1_0000_0000_0000 % 256) as u8,
        (n / 0x100_0000_0000 % 256) as u8,
        (n / 0x1_0000_0000 % 256) as u8,
        (n / 0x100_0000 % 256) as u8,
        (n / 0x1_0000 % 256) as u8,
        (n / 0x100 % 256) as u8,
        (n % 256) as u8,
    ]
}

/// The number whose little-endian bytes are `b[pos .. pos + 8]`.
pub open spec fn u64_value(b: Seq<u8>, pos: int) -> int {
    b[pos] + 0x100 * b[pos + 1] + 0x1_0000 * b[pos + 2] + 0x100_0000 * b[pos + 3]
        + 0x1_0000_0000 * b[pos + 4] + 0x100_0000_0000 * b[pos + 5] + 0x1_0000_0000_0000 * b[pos
        + 6] + 0x100_0000_0000_0000 * b[pos + 7]
}

/// Reads a little-endian `u64` at `pos`: the value and the next position.
pub open spec fn u64_at(b: Seq<u8>, pos: int) -> Option<(u64, int)> {
    if 0 <= pos && pos + 8 <= b.len() {
        Some((u64_value(b, pos) as u64, pos + 8))
    } else {
        None
    }
}

/// A 64-bit number is the sum of its eight base-256 digits.
proof fn lemma_u64_digits(n: u64)
    by (bit_vector)
    ensures
        n == (n % 256) + 0x100 * (n / 0x100 % 256) + 0x1_0000 * (n / 0x1_0000 % 256) + 0x100_0000
            * (n / 0x100_0000 % 256) + 0x1_0000_0000 * (n / 0x1_0000_0000 % 256) + 0x100_0000_0000
            * (n / 0x100_0000_0000 % 256) + 0x1_0000_0000_0000 * (n / 0x1_0000_0000_0000 % 256)
            + 0x100_0000_0000_0000 * (n / 0x100_0000_0000_0000 % 256),
{
}

/// A number is read back where its little-endian bytes stand.
pub proof fn lemma_u64_at(pre: Seq<u8>, n: u64, post: Seq<u8>)
    ensures
        u64_bytes(n).len() == 8,
        u64_at(pre + u64_bytes(n) + post, pre.len() as int) == Some((n, pre.len() as int + 8)),
{
    let b = pre + u64_bytes(n) + post;
    let p = pre.len() as int;
    assert(b[p] == u64_bytes(n)[0]);
    assert(b[p + 1] == u64_bytes(n)[1]);
    assert(b[p + 2] == u64_bytes(n)[2]);
    assert(b[p + 3] == u64_bytes(n)[3]);
    assert(b[p + 4] == u64_bytes(n)[4]);
    assert(b[p + 5] == u64_bytes(n)[5]);
    assert(b[p + 6] == u64_bytes(n)[6]);
    assert(b[p + 7] == u64_bytes(n)[7]);
    lemma_u64_digits(n);
}

/// Distinct numbers have distinct big-endian bytes.
pub proof fn lemma_u64_be_injective(a: u64, b: u64)
    ensures
        u64_be_bytes(a).len() == 8,
        u64_be_bytes(a) == u64_be_bytes(b) <==> a == b,
{
    reveal(u64_be_bytes);
    if u64_be_bytes(a) == u64_be_bytes(b) {
        assert(u64_be_bytes(a)[0] == u64_be_bytes(b)[0]);
        assert(u64_be_bytes(a)[1] == u64_be_bytes(b)[1]);
        assert(u64_be_bytes(a)[2] == u64_be_bytes(b)[2]);
        assert(u64_be_bytes(a)[3] == u64_be_bytes(b)[3]);
        assert(u64_be_bytes(a)[4] == u64_be_bytes(b)[4]);
        assert(u64_be_bytes(a)[5] == u64_be_bytes(b)[5]);
        assert(u64_be_bytes(a)[6] == u64_be_bytes(b)[6]);
        assert(u64_be_bytes(a)[7] == u64_be_bytes(b)[7]);
        lemma_u64_digits(a);
        lemma_u64_digits(b);
    }
}

/// Appends the little-endian bytes of `n`.
pub fn write_u64(out: &mut Vec<u8>, n: u64)
    ensures
        final(out)@ == old(out)@ + u64_bytes(n),
{
    out.push((n % 256) as u8);
    out.push((n / 0x100 % 256) as u8);
    out.push((n / 0x1_0000 % 256) as u8);
    out.push((n / 0x100_0000 % 256) as u8);
    out.push((n / 0x1_0000_0000 % 256) as u8);
    out.push((n / 0x100_0000_0000 % 256) as u8);
    out.push((n / 0x1_0000_0000_0000 % 256) as u8);
    out.push((n / 0x100_0000_0000_0000 % 256) as u8);
    assert(out@ =~= old(out)@ + u64_bytes(n));
}

/// The big-endian bytes of `n`, as used for a seed.
pub fn u64_to_be_bytes(n: u64) -> (out: Vec<u8>)
    ensures
        out@ == u64_be_bytes(n),
{
    let mut out: Vec<u8> = Vec::new();
    out.push((n / 0x100_0000_0000_0000 % 256) as u8);
    out.push((n / 0x1_0000_0000_0000 % 256) as u8);
    out.push((n / 0x100_0000_0000 % 256) as u8);
    out.push((n / 0x1_0000_0000 % 256) as u8);
    out.push((n / 0x100_0000 % 256) as u8);
    out.push((n / 0x1_0000 % 256) as u8);
    out.push((n / 0x100 % 256) as u8);
    out.push((n % 256) as u8);
    assert(out@ =~= u64_be_bytes(n)) by {
        reveal(u64_be_bytes);
    }
    out
}

/// Reads a little-endian `u64` at `pos`.
pub fn read_u64(data: &[u8], pos: usize) -> (r: Option<(u64, usize)>)
    ensures
        match r {
            Some((n, next)) => u64_at(data@, pos as int) == Some((n, next as int)),
            None => u64_at(data@, pos as int) is None,
        },
{
    if pos > data.len() || data.len() - pos < 8 {
        return None;
    }
    let b0: u64 = data[pos] as u64;
    let b1: u64 = data[pos + 1] as u64;
    let b2: u64 = data[pos + 2] as u64;
    let b3: u64 = data[pos + 3] as u64;
    let b4: u64 = data[pos + 4] as u64;
    let b5: u64 = data[pos + 5] as u64;
    let b6: u64 = data[pos + 6] as u64;
    let b7: u64 = data[pos + 7] as u64;
    let n: u64 = b0 + 0x100 * b1 + 0x1_0000 * b2 + 0x100_0000 * b3 + 0x1_0000_0000 * b4
        + 0x100_0000_0000 * b5 + 0x1_0000_0000_0000 * b6 + 0x100_0000_0000_0000 * b7;
    Some((n, pos + 8))
}

// ---------------------------------------------------------------------------
// Single bytes and flags
// ---------------------------------------------------------------------------

/// Reads one byte at `pos`.
pub open spec fn u8_at(b: Seq<u8>, pos: int) -> Option<(u8, int)> {
    if 0 <= pos < b.len() {
        Some((b[pos], pos + 1))
    } else {
        None
    }
}

/// The byte that stands for a flag.
pub open spec fn bool_bytes(flag: bool) -> Seq<u8> {
    seq![if flag { 1u8 } else { 0u8 }]
}

/// Reads a flag at `pos`; only the bytes 0 and 1 are flags.
pub open spec fn bool_at(b: Seq<u8>, pos: int) -> Option<(bool, int)> {
    if 0 <= pos < b.len() && b[pos] <= 1 {
        Some((b[pos] == 1, pos + 1))
    } else {
        None
    }
}

/// A byte is read back where it stands.
pub proof fn lemma_u8_at(pre: Seq<u8>, v: u8, post: Seq<u8>)
    ensures
        u8_at(pre + seq![v] + post, pre.len() as int) == Some((v, pre.len() as int + 1)),
{
}

/// A flag is read back where its byte stands.
pub proof fn lemma_bool_at(pre: Seq<u8>, flag: bool, post: Seq<u8>)
    ensures
        bool_bytes(flag).len() == 1,
        bool_at(pre + bool_bytes(flag) + post, pre.len() as int) == Some(
            (flag, pre.len() as int + 1),
        ),
{
    let b = pre + bool_bytes(flag) + post;
    assert(b[pre.len() as int] == bool_bytes(flag)[0]);
}

/// Appends the byte of a flag.
pub fn write_bool(out: &mut Vec<u8>, flag: bool)
    ensures
        final(out)@ == old(out)@ + bool_bytes(flag),
{
    out.push(if flag { 1u8 } else { 0u8 });
    assert(out@ =~= old(out)@ + bool_bytes(flag));
}

/// Reads one byte at `pos`.
pub fn read_u8(data: &[u8], pos: usize) -> (r: Option<(u8, usize)>)
    ensures
        match r {
            Some((v, next)) => u8_at(data@, pos as int) == Some((v, next as int)),
            None => u8_at(data@, pos as int) is None,
        },
{
    if pos >= data.len() {
        return None;
    }
    Some((data[pos], pos + 1))
}

/// Reads a flag at `pos`.
pub fn read_bool(data: &[u8], pos: usize) -> (r: Option<(bool, usize)>)
    ensures
        match r {
            Some((flag, next)) => bool_at(data@, pos as int) == Some((flag, next as int)),
            None => bool_at(data@, pos as int) is None,
        },
{
    if pos >= data.len() || data[pos] > 1 {
        return None;
    }
    Some((data[pos] == 1, pos + 1))
}

// ---------------------------------------------------------------------------
// Raw addresses
// ---------------------------------------------------------------------------

/// Reads the 32 bytes of an address at `pos`.
pub open spec fn address_at(b: Seq<u8>, pos: int) -> Option<(Seq<u8>, int)> {
    if 0 <= pos && pos + 32 <= b.len() {
        Some((b.subrange(pos, pos + 32), pos + 32))
    } else {
        None
    }
}

/// Appends the 32 bytes of an address.
pub fn write_address(out: &mut Vec<u8>, a: &Address)
    ensures
        final(out)@ == old(out)@ + a@,
{
    let mut i: usize = 0;
    while i < 32
        invariant
            i <= 32,
            out@ == old(out)@ + a@.subrange(0, i as int),
        decreases 32 - i,
    {
        out.push(a.bytes[i]);
        i += 1;
        assert(out@ =~= old(out)@ + a@.subrange(0, i as int));
    }
    assert(a@.subrange(0, 32) =~= a@);
}

/// Reads the 32 bytes of an address at `pos`.
pub fn read_address(data: &[u8], pos: usize) -> (r: Option<(Address, usize)>)
    ensures
        match r {
            Some((a, next)) => address_at(data@, pos as int) == Some((a@, next as int)),
            None => address_at(data@, pos as int) is None,
        },
{
    if pos > data.len() || data.len() - pos < 32 {
        return None;
    }
    let mut bytes: [u8; 32] = [0u8; 32];
    let mut i: usize = 0;
    while i < 32
        invariant
            i <= 32,
            pos + 32 <= data.len(),
            forall|j: int| 0 <= j < i ==> bytes[j] == data@[pos + j],
        decreases 32 - i,
    {
        bytes[i] = data[pos + i];
        i += 1;
    }
    let a = Address { bytes };
    assert(a@ =~= data@.subrange(pos as int, pos + 32));
    Some((a, pos + 32))
}

// ---------------------------------------------------------------------------
// Length-prefixed UTF-8 text
// ---------------------------------------------------------------------------

/// Whether a text is short enough for its length prefix.
pub open spec fn text_fits(t: Seq<char>) -> bool {
    encode_utf8(t).len() <= MAX_TEXT_LEN
}

/// A text on the wire: the byte length as a little-endian `u32`, then the
/// UTF-8 bytes.
pub open spec fn text_bytes(t: Seq<char>) -> Seq<u8> {
    u32_bytes(encode_utf8(t).len() as u32) + encode_utf8(t)
}

/// The number of bytes a text takes on the wire.
pub open spec fn text_len(t: Seq<char>) -> nat {
    4 + encode_utf8(t).len()
}

/// Reads a text at `pos`: its characters and the next position. There is
/// none where the prefix or the announced bytes run past the end, or the
/// bytes are not UTF-8.
pub open spec fn text_at(b: Seq<u8>, pos: int) -> Option<(Seq<char>, int)> {
    if 0 <= pos && pos + 4 <= b.len() {
        let n = u32_value(b, pos);
        if pos + 4 + n <= b.len() && valid_utf8(b.subrange(pos + 4, pos + 4 + n)) {
            Some((decode_utf8(b.subrange(pos + 4, pos + 4 + n)), pos + 4 + n))
        } else {
            None
        }
    } else {
        None
    }
}

/// The bytes of a text are as many as its length says.
pub proof fn lemma_text_len(t: Seq<char>)
    ensures
        text_bytes(t).len() == text_len(t),
{
}

/// A text is read back where its bytes stand.
pub proof fn lemma_text_at(pre: Seq<u8>, t: Seq<char>, post: Seq<u8>)
    requires
        text_fits(t),
    ensures
        text_bytes(t).len() == text_len(t),
        text_at(pre + text_bytes(t) + post, pre.len() as int) == Some(
            (t, pre.len() as int + text_len(t)),
        ),
{
    let raw = encode_utf8(t);
    let n = raw.len() as u32;
    let b = pre + text_bytes(t) + post;
    let p = pre.len() as int;
    lemma_u32_at(pre, n, raw + post);
    assert(b =~= pre + u32_bytes(n) + (raw + post));
    assert(b.subrange(p + 4, p + 4 + n) =~= raw);
    encode_utf8_valid_utf8(t);
    encode_utf8_decode_utf8(t);
}

/// Four zero bytes at `pos` read as the empty text.
pub proof fn lemma_empty_text_at(b: Seq<u8>, pos: int)
    requires
        0 <= pos,
        pos + 4 <= b.len(),
        b[pos] == 0,
        b[pos + 1] == 0,
        b[pos + 2] == 0,
        b[pos + 3] == 0,
    ensures
        text_at(b, pos) == Some((Seq::<char>::empty(), pos + 4)),
{
    assert(b.subrange(pos + 4, pos + 4) =~= Seq::<u8>::empty());
    assert(decode_utf8(Seq::<u8>::empty()) =~= Seq::<char>::empty());
}

/// Re-encoding a text that was read gives back the bytes that were read.
pub proof fn lemma_text_reencode(b: Seq<u8>, pos: int)
    requires
        text_at(b, pos) is Some,
    ensures
        text_fits(text_at(b, pos).unwrap().0),
        text_bytes(text_at(b, pos).unwrap().0) == b.subrange(pos, text_at(b, pos).unwrap().1),
{
    let n = u32_value(b, pos);
    let raw = b.subrange(pos + 4, pos + 4 + n);
    lemma_u32_reencode(b, pos);
    decode_utf8_encode_utf8(raw);
    assert(u32_bytes(n as u32) + raw =~= b.subrange(pos, pos + 4 + n));
}

/// `String::from_utf8`: a string comes back exactly when the bytes are valid
/// UTF-8, and its UTF-8 bytes are then the bytes given.
#[verifier::external_body]
fn string_from_utf8(bytes: Vec<u8>) -> (r: Option<String>)
    ensures
        r is Some <==> valid_utf8(bytes@),
        r matches Some(s) ==> encode_utf8(s@) == bytes@,
{
    String::from_utf8(bytes).ok()
}

/// Appends a text: length prefix, then UTF-8 bytes. A text too long for
/// the prefix is rejected with `RecordTooLarge`, and nothing is appended.
pub fn write_text(out: &mut Vec<u8>, text: &str) -> (r: Result<(), ReviewError>)
    ensures
        match r {
            Ok(_) => text_fits(text@) && final(out)@ == old(out)@ + text_bytes(text@),
            Err(e) => !text_fits(text@) && e == ReviewError::RecordTooLarge && final(out)@ == old(
                out,
            )@,
        },
{
    let raw = text.as_bytes();
    if raw.len() > MAX_TEXT_LEN {
        return Err(ReviewError::RecordTooLarge);
    }
    write_u32(out, raw.len() as u32);
    out.extend_from_slice(raw);
    assert(out@ =~= old(out)@ + text_bytes(text@));
    Ok(())
}

/// Reads a text at `pos`.
pub fn read_text(data: &[u8], pos: usize) -> (r: Option<(String, usize)>)
    ensures
        match r {
            Some((s, next)) => text_at(data@, pos as int) == Some((s@, next as int)),
            None => text_at(data@, pos as int) is None,
        },
{
    let n = match read_u32(data, pos) {
        Some((n, _)) => n as usize,
        None => {
            return None;
        },
    };
    let start = pos + 4;
    if data.len() - start < n {
        return None;
    }
    let raw = slice_to_vec(slice_subrange(data, start, start + n));
    match string_from_utf8(raw) {
        Some(s) => {
            proof {
                encode_utf8_decode_utf8(s@);
            }
            Some((s, start + n))
        },
        None => None,
    }
}

// ---------------------------------------------------------------------------
// Fields inside a larger buffer
// ---------------------------------------------------------------------------

/// Up to five consecutive parts of a buffer, each found again by its range.
pub proof fn lemma_parts(
    a: Seq<u8>,
    b: Seq<u8>,
    c: Seq<u8>,
    d: Seq<u8>,
    e: Seq<u8>,
    tail: Seq<u8>,
)
    ensures
        ({
            let all = a + b + c + d + e + tail;
            let end1 = a.len() as int;
            let end2 = end1 + b.len();
            let end3 = end2 + c.len();
            let end4 = end3 + d.len();
            let end5 = end4 + e.len();
            &&& all.len() == end5 + tail.len()
            &&& all.subrange(0, end1) == a
            &&& all.subrange(end1, end2) == b
            &&& all.subrange(end2, end3) == c
            &&& all.subrange(end3, end4) == d
            &&& all.subrange(end4, end5) == e
        }),
{
    let all = a + b + c + d + e + tail;
    let end1 = a.len() as int;
    let end2 = end1 + b.len();
    let end3 = end2 + c.len();
    let end4 = end3 + d.len();
    let end5 = end4 + e.len();
    assert(all.subrange(0, end1) =~= a);
    assert(all.subrange(end1, end2) =~= b);
    assert(all.subrange(end2, end3) =~= c);
    assert(all.subrange(end3, end4) =~= d);
    assert(all.subrange(end4, end5) =~= e);
}

/// A buffer is its three parts around any range.
proof fn lemma_split(all: Seq<u8>, pos: int, end: int)
    requires
        0 <= pos <= end <= all.len(),
    ensures
        all == all.subrange(0, pos) + all.subrange(pos, end) + all.subrange(end, all.len() as int),
        all.subrange(0, pos).len() == pos,
{
    assert(all =~= all.subrange(0, pos) + all.subrange(pos, end) + all.subrange(
        end,
        all.len() as int,
    ));
}

/// A text whose bytes stand at `pos` is read there.
pub proof fn lemma_text_within(all: Seq<u8>, pos: int, t: Seq<char>)
    requires
        text_fits(t),
        0 <= pos,
        pos + text_len(t) <= all.len(),
        all.subrange(pos, pos + text_len(t)) == text_bytes(t),
    ensures
        text_at(all, pos) == Some((t, pos + text_len(t))),
{
    let end = pos + text_len(t);
    lemma_split(all, pos, end);
    lemma_text_at(all.subrange(0, pos), t, all.subrange(end, all.len() as int));
}

/// A flag whose byte stands at `pos` is read there.
pub proof fn lemma_bool_within(all: Seq<u8>, pos: int, flag: bool)
    requires
        0 <= pos,
        pos + 1 <= all.len(),
        all.subrange(pos, pos + 1) == bool_bytes(flag),
    ensures
        bool_at(all, pos) == Some((flag, pos + 1)),
{
    lemma_split(all, pos, pos + 1);
    lemma_bool_at(all.subrange(0, pos), flag, all.subrange(pos + 1, all.len() as int));
}

/// A byte that stands at `pos` is read there.
pub proof fn lemma_u8_within(all: Seq<u8>, pos: int, v: u8)
    requires
        0 <= pos,
        pos + 1 <= all.len(),
        all.subrange(pos, pos + 1) == seq![v],
    ensures
        u8_at(all, pos) == Some((v, pos + 1)),
{
    lemma_split(all, pos, pos + 1);
    lemma_u8_at(all.subrange(0, pos), v, all.subrange(pos + 1, all.len() as int));
}

/// A number whose little-endian bytes stand at `pos` is read there.
pub proof fn lemma_u64_within(all: Seq<u8>, pos: int, n: u64)
    requires
        0 <= pos,
        pos + 8 <= all.len(),
        all.subrange(pos, pos + 8) == u64_bytes(n),
    ensures
        u64_at(all, pos) == Some((n, pos + 8)),
{
    lemma_split(all, pos, pos + 8);
    lemma_u64_at(all.subrange(0, pos), n, all.subrange(pos + 8, all.len() as int));
}

} // verus!
