//! Byte-level primitives shared by both protocol revisions.
//!
//! Every encoded message is built from three primitive fields: single bytes,
//! little-endian 32-bit integers, and length-prefixed UTF-8 strings (a
//! little-endian 32-bit byte length followed by that many bytes, with no
//! terminator). The later revision additionally uses a big-endian 64-bit
//! sub-tag. This module gives each primitive a specification-level writer
//! and reader over `Seq<u8>`, executable counterparts proved against them,
//! and the lemmas relating reads to writes that the codec proofs use.

use vstd::prelude::*;
use vstd::utf8::{decode_utf8, encode_utf8, valid_utf8};
use vstd::utf8::{encode_utf8_decode_utf8, encode_utf8_valid_utf8};
use vstd::string::StrSliceExecFns;
use vstd::string::StringSliceAdditionalSpecFns;

use crate::codec::Error;

verus! {

/// Largest byte length a length-prefixed string can declare.
pub const MAX_STRING_BYTES: u32 = 0xFFFF_FFFF;

// Specification-level writers.

/// The four little-endian bytes of a 32-bit integer.
pub open spec fn le32_bytes(n: u32) -> Seq<u8> {
    seq![
        (n & 0xFF) as u8,
        ((n >> 8) & 0xFF) as u8,
        ((n >> 16) & 0xFF) as u8,
        ((n >> 24) & 0xFF) as u8,
    ]
}

/// The 32-bit integer held by four little-endian bytes.
pub open spec fn le32_value(s: Seq<u8>) -> u32
    recommends
        s.len() == 4,
{
    (s[0] as u32) | ((s[1] as u32) << 8) | ((s[2] as u32) << 16) | ((s[3] as u32) << 24)
}

/// The eight big-endian bytes of a 64-bit integer.
pub open spec fn be64_bytes(n: u64) -> Seq<u8> {
    seq![
        ((n >> 56) & 0xFF) as u8,
        ((n >> 48) & 0xFF) as u8,
        ((n >> 40) & 0xFF) as u8,
        ((n >> 32) & 0xFF) as u8,
        ((n >> 24) & 0xFF) as u8,
        ((n >> 16) & 0xFF) as u8,
        ((n >> 8) & 0xFF) as u8,
        (n & 0xFF) as u8,
    ]
}

/// The 64-bit integer held by eight big-endian bytes.
pub open spec fn be64_value(s: Seq<u8>) -> u64
    recommends
        s.len() == 8,
{
    ((s[0] as u64) << 56) | ((s[1] as u64) << 48) | ((s[2] as u64) << 40) | ((s[3] as u64) << 32)
        | ((s[4] as u64) << 24) | ((s[5] as u64) << 16) | ((s[6] as u64) << 8) | (s[7] as u64)
}

/// The wire form of a length-prefixed string: a little-endian 32-bit byte
/// length followed by the string's UTF-8 bytes.
pub open spec fn string_bytes(s: Seq<char>) -> Seq<u8>
    recommends
        encode_utf8(s).len() <= MAX_STRING_BYTES,
{
    le32_bytes(encode_utf8(s).len() as u32) + encode_utf8(s)
}

// Specification-level readers. Each returns the field read and the position
// just past it, or `None` when the buffer is exhausted before the field
// completes (or, for strings, when the content is not valid UTF-8).

pub open spec fn spec_read_u8(b: Seq<u8>, pos: int) -> Option<(u8, int)> {
    if 0 <= pos && pos + 1 <= b.len() {
        Some((b[pos], pos + 1))
    } else {
        None
    }
}

pub open spec fn spec_read_u32(b: Seq<u8>, pos: int) -> Option<(u32, int)> {
    if 0 <= pos && pos + 4 <= b.len() {
        Some((le32_value(b.subrange(pos, pos + 4)), pos + 4))
    } else {
        None
    }
}

pub open spec fn spec_read_u64_be(b: Seq<u8>, pos: int) -> Option<(u64, int)> {
    if 0 <= pos && pos + 8 <= b.len() {
        Some((be64_value(b.subrange(pos, pos + 8)), pos + 8))
    } else {
        None
    }
}

pub open spec fn spec_read_string(b: Seq<u8>, pos: int) -> Option<(Seq<char>, int)> {
    match spec_read_u32(b, pos) {
        None => None,
        Some((n, p)) => {
            if p + n <= b.len() && valid_utf8(b.subrange(p, p + n)) {
                Some((decode_utf8(b.subrange(p, p + n)), p + n))
            } else {
                None
            }
        },
    }
}

// Round-trip lemmas for the fixed-width fields.

pub proof fn lemma_le32_roundtrip(n: u32)
    ensures
        le32_value(le32_bytes(n)) == n,
{
    assert((((n & 0xFF) as u8) as u32) | (((((n >> 8) & 0xFF) as u8) as u32) << 8)
        | (((((n >> 16) & 0xFF) as u8) as u32) << 16) | (((((n >> 24) & 0xFF) as u8) as u32) << 24)
        == n) by (bit_vector);
}

pub proof fn lemma_be64_roundtrip(n: u64)
    ensures
        be64_value(be64_bytes(n)) == n,
{
    assert(((((n >> 56) & 0xFF) as u8 as u64) << 56) | ((((n >> 48) & 0xFF) as u8 as u64) << 48)
        | ((((n >> 40) & 0xFF) as u8 as u64) << 40) | ((((n >> 32) & 0xFF) as u8 as u64) << 32)
        | ((((n >> 24) & 0xFF) as u8 as u64) << 24) | ((((n >> 16) & 0xFF) as u8 as u64) << 16)
        | ((((n >> 8) & 0xFF) as u8 as u64) << 8) | ((n & 0xFF) as u8 as u64) == n)
        by (bit_vector);
}

// Decomposing a buffer that holds a concatenation of fields. Working one
// split at a time keeps each proof step shallow.

pub proof fn lemma_concat_parts(a: Seq<u8>, c: Seq<u8>)
    ensures
        (a + c).subrange(0, a.len() as int) == a,
        (a + c).subrange(a.len() as int, (a + c).len() as int) == c,
{
    assert((a + c).subrange(0, a.len() as int) =~= a);
    assert((a + c).subrange(a.len() as int, (a + c).len() as int) =~= c);
}

pub proof fn lemma_subrange_of_subrange(b: Seq<u8>, s: int, e: int, s2: int, e2: int)
    requires
        0 <= s <= e <= b.len(),
        0 <= s2 <= e2 <= e - s,
    ensures
        b.subrange(s, e).subrange(s2, e2) == b.subrange(s + s2, s + e2),
{
    assert(b.subrange(s, e).subrange(s2, e2) =~= b.subrange(s + s2, s + e2));
}

/// A segment of a buffer known to hold `x + y` holds `x` and then `y`.
pub proof fn lemma_split_segment(b: Seq<u8>, pos: int, x: Seq<u8>, y: Seq<u8>)
    requires
        0 <= pos,
        pos + x.len() + y.len() <= b.len(),
        b.subrange(pos, pos + x.len() + y.len()) == x + y,
    ensures
        b.subrange(pos, pos + x.len() as int) == x,
        b.subrange(pos + x.len() as int, pos + x.len() + y.len()) == y,
{
    lemma_concat_parts(x, y);
    lemma_subrange_of_subrange(b, pos, pos + x.len() + y.len(), 0, x.len() as int);
    lemma_subrange_of_subrange(
        b,
        pos,
        pos + x.len() + y.len(),
        x.len() as int,
        (x.len() + y.len()) as int,
    );
}

// Reading back a field that was written at a known position.

pub proof fn lemma_read_u32_of(b: Seq<u8>, pos: int, n: u32)
    requires
        0 <= pos,
        pos + 4 <= b.len(),
        b.subrange(pos, pos + 4) == le32_bytes(n),
    ensures
        spec_read_u32(b, pos) == Some((n, pos + 4)),
{
    lemma_le32_roundtrip(n);
}

pub proof fn lemma_read_u64_of(b: Seq<u8>, pos: int, n: u64)
    requires
        0 <= pos,
        pos + 8 <= b.len(),
        b.subrange(pos, pos + 8) == be64_bytes(n),
    ensures
        spec_read_u64_be(b, pos) == Some((n, pos + 8)),
{
    lemma_be64_roundtrip(n);
}

pub proof fn lemma_read_string_of(b: Seq<u8>, pos: int, s: Seq<char>)
    requires
        0 <= pos,
        encode_utf8(s).len() <= MAX_STRING_BYTES,
        pos + string_bytes(s).len() <= b.len(),
        b.subrange(pos, pos + string_bytes(s).len() as int) == string_bytes(s),
    ensures
        spec_read_string(b, pos) == Some((s, pos + string_bytes(s).len() as int)),
{
    let u = encode_utf8(s);
    let k = u.len() as int;
    let w = string_bytes(s);
    assert(w.len() == 4 + k);
    assert(b.subrange(pos, pos + 4) =~= w.subrange(0, 4));
    assert(w.subrange(0, 4) =~= le32_bytes(u.len() as u32));
    lemma_read_u32_of(b, pos, u.len() as u32);
    assert(u.len() as u32 as int == k);
    assert(b.subrange(pos + 4, pos + 4 + k) =~= w.subrange(4, 4 + k));
    assert(w.subrange(4, 4 + k) =~= u);
    encode_utf8_valid_utf8(s);
    encode_utf8_decode_utf8(s);
}

// How each reader behaves on a truncated buffer: a read that ends at or
// before the cut is unaffected, and one that straddles the cut fails.

pub proof fn lemma_read_u8_take(b: Seq<u8>, i: int, pos: int)
    requires
        0 <= pos,
        0 <= i <= b.len(),
    ensures
        pos + 1 <= i ==> spec_read_u8(b.take(i), pos) == spec_read_u8(b, pos),
        i < pos + 1 ==> spec_read_u8(b.take(i), pos) is None,
{
}

pub proof fn lemma_read_u32_take(b: Seq<u8>, i: int, pos: int)
    requires
        0 <= pos,
        0 <= i <= b.len(),
    ensures
        pos + 4 <= i ==> spec_read_u32(b.take(i), pos) == spec_read_u32(b, pos),
        i < pos + 4 ==> spec_read_u32(b.take(i), pos) is None,
{
    if pos + 4 <= i {
        assert(b.take(i).subrange(pos, pos + 4) =~= b.subrange(pos, pos + 4));
    }
}

pub proof fn lemma_read_u64_take(b: Seq<u8>, i: int, pos: int)
    requires
        0 <= pos,
        0 <= i <= b.len(),
    ensures
        pos + 8 <= i ==> spec_read_u64_be(b.take(i), pos) == spec_read_u64_be(b, pos),
        i < pos + 8 ==> spec_read_u64_be(b.take(i), pos) is None,
{
    if pos + 8 <= i {
        assert(b.take(i).subrange(pos, pos + 8) =~= b.subrange(pos, pos + 8));
    }
}

pub proof fn lemma_read_string_take(b: Seq<u8>, i: int, pos: int, s: Seq<char>, q: int)
    requires
        0 <= pos,
        0 <= i <= b.len(),
        spec_read_string(b, pos) == Some((s, q)),
    ensures
        q <= i ==> spec_read_string(b.take(i), pos) == Some((s, q)),
        i < q ==> spec_read_string(b.take(i), pos) is None,
{
    let n = spec_read_u32(b, pos)->Some_0.0;
    let p = pos + 4;
    assert(q == p + n);
    lemma_read_u32_take(b, i, pos);
    if q <= i {
        assert(b.take(i).subrange(p, p + n) =~= b.subrange(p, p + n));
    } else if pos + 4 <= i {
        assert(spec_read_u32(b.take(i), pos) == Some((n, p)));
        assert(p + n > i);
        assert(b.take(i).len() == i);
    }
}

// Executable readers. Each mirrors its specification reader exactly; on
// failure the position is left where it was.

pub fn read_u8(bytes: &Vec<u8>, pos: &mut usize) -> (r: Result<u8, Error>)
    ensures
        match r {
            Ok(v) => spec_read_u8(bytes@, *old(pos) as int) == Some((v, *final(pos) as int))
                && *final(pos) <= bytes@.len(),
            Err(_) => spec_read_u8(bytes@, *old(pos) as int) is None && *final(pos) == *old(pos),
        },
{
    if *pos < bytes.len() {
        let v = bytes[*pos];
        *pos = *pos + 1;
        Ok(v)
    } else {
        Err(Error::from_string("not enough buffer remaining to read a u8"))
    }
}

pub fn read_u32(bytes: &Vec<u8>, pos: &mut usize) -> (r: Result<u32, Error>)
    ensures
        match r {
            Ok(v) => spec_read_u32(bytes@, *old(pos) as int) == Some((v, *final(pos) as int))
                && *final(pos) <= bytes@.len(),
            Err(_) => spec_read_u32(bytes@, *old(pos) as int) is None && *final(pos) == *old(pos),
        },
{
    if *pos <= bytes.len() && bytes.len() - *pos >= 4 {
        let p = *pos;
        let b0 = bytes[p];
        let b1 = bytes[p + 1];
        let b2 = bytes[p + 2];
        let b3 = bytes[p + 3];
        let v = (b0 as u32) | ((b1 as u32) << 8) | ((b2 as u32) << 16) | ((b3 as u32) << 24);
        proof {
            let s = bytes@.subrange(p as int, p as int + 4);
            assert(s[0] == b0 && s[1] == b1 && s[2] == b2 && s[3] == b3);
        }
        *pos = p + 4;
        Ok(v)
    } else {
        Err(Error::from_string("not enough buffer remaining to read a u32"))
    }
}

pub fn read_u64_be(bytes: &Vec<u8>, pos: &mut usize) -> (r: Result<u64, Error>)
    ensures
        match r {
            Ok(v) => spec_read_u64_be(bytes@, *old(pos) as int) == Some((v, *final(pos) as int))
                && *final(pos) <= bytes@.len(),
            Err(_) => spec_read_u64_be(bytes@, *old(pos) as int) is None && *final(pos) == *old(
                pos,
            ),
        },
{
    if *pos <= bytes.len() && bytes.len() - *pos >= 8 {
        let p = *pos;
        let b0 = bytes[p];
        let b1 = bytes[p + 1];
        let b2 = bytes[p + 2];
        let b3 = bytes[p + 3];
        let b4 = bytes[p + 4];
        let b5 = bytes[p + 5];
        let b6 = bytes[p + 6];
        let b7 = bytes[p + 7];
        let v = ((b0 as u64) << 56) | ((b1 as u64) << 48) | ((b2 as u64) << 40) | ((b3 as u64)
            << 32) | ((b4 as u64) << 24) | ((b5 as u64) << 16) | ((b6 as u64) << 8) | (b7 as u64);
        proof {
            let s = bytes@.subrange(p as int, p as int + 8);
            assert(s[0] == b0 && s[1] == b1 && s[2] == b2 && s[3] == b3);
            assert(s[4] == b4 && s[5] == b5 && s[6] == b6 && s[7] == b7);
        }
        *pos = p + 8;
        Ok(v)
    } else {
        Err(Error::from_string("not enough buffer remaining to read a u64"))
    }
}

pub fn read_string(bytes: &Vec<u8>, pos: &mut usize) -> (r: Result<String, Error>)
    ensures
        match r {
            Ok(s) => spec_read_string(bytes@, *old(pos) as int) == Some((s@, *final(pos) as int))
                && *final(pos) <= bytes@.len(),
            Err(_) => spec_read_string(bytes@, *old(pos) as int) is None && *final(pos) == *old(
                pos,
            ),
        },
{
    let start: usize = *pos;
    match read_u32(bytes, pos) {
        Err(e) => Err(e),
        Ok(n) => {
            let len = n as usize;
            if bytes.len() - *pos >= len {
                let p: usize = *pos;
                let mut content: Vec<u8> = Vec::new();
                let mut i: usize = 0;
                while i < len
                    invariant
                        i <= len,
                        p + len <= bytes@.len(),
                        bytes@.len() <= usize::MAX,
                        content@ == bytes@.subrange(p as int, p as int + i as int),
                    decreases len - i,
                {
                    proof {
                        assert(bytes@.subrange(p as int, p as int + (i + 1) as int)
                            =~= bytes@.subrange(p as int, p as int + i as int).push(
                            bytes@[p as int + i as int],
                        ));
                    }
                    content.push(bytes[p + i]);
                    i = i + 1;
                }
                match string_from_utf8(content) {
                    Some(s) => {
                        *pos = p + len;
                        Ok(s)
                    },
                    None => {
                        *pos = start;
                        Err(Error::from_string("string contents were not valid UTF-8"))
                    },
                }
            } else {
                *pos = start;
                Err(Error::from_string("length prefix for string passed end of buffer"))
            }
        },
    }
}

/// Relies on `String::from_utf8`: it succeeds exactly on well-formed UTF-8
/// input (the byte sequences `vstd::utf8::valid_utf8` describes) and returns
/// the string whose characters those bytes encode.
#[verifier::external_body]
fn string_from_utf8(v: Vec<u8>) -> (r: Option<String>)
    ensures
        match r {
            Some(s) => valid_utf8(v@) && s@ == decode_utf8(v@),
            None => !valid_utf8(v@),
        },
{
    String::from_utf8(v).ok()
}

/// An owned copy of a byte buffer, used to preserve the original bytes of a
/// datagram that fails to decode.
pub fn copy_bytes(b: &Vec<u8>) -> (r: Vec<u8>)
    ensures
        r@ == b@,
{
    let mut out: Vec<u8> = Vec::new();
    let mut i: usize = 0;
    while i < b.len()
        invariant
            i <= b@.len(),
            out@ == b@.take(i as int),
        decreases b@.len() - i,
    {
        proof {
            assert(b@.take((i + 1) as int) =~= b@.take(i as int).push(b@[i as int]));
        }
        out.push(b[i]);
        i = i + 1;
    }
    proof {
        assert(b@.take(b@.len() as int) =~= b@);
    }
    out
}

// Executable writers, each appending one field to an output buffer.

pub fn push_u32_le(out: &mut Vec<u8>, n: u32)
    ensures
        final(out)@ == old(out)@ + le32_bytes(n),
{
    proof {
        assert(n & 0xFF < 256 && (n >> 8) & 0xFF < 256 && (n >> 16) & 0xFF < 256 && (n >> 24)
            & 0xFF < 256) by (bit_vector);
    }
    out.push((n & 0xFF) as u8);
    out.push(((n >> 8) & 0xFF) as u8);
    out.push(((n >> 16) & 0xFF) as u8);
    out.push(((n >> 24) & 0xFF) as u8);
    proof {
        assert(out@ =~= old(out)@ + le32_bytes(n));
    }
}

pub fn push_u64_be(out: &mut Vec<u8>, n: u64)
    ensures
        final(out)@ == old(out)@ + be64_bytes(n),
{
    proof {
        assert((n >> 56) & 0xFF < 256 && (n >> 48) & 0xFF < 256 && (n >> 40) & 0xFF < 256 && (n
            >> 32) & 0xFF < 256 && (n >> 24) & 0xFF < 256 && (n >> 16) & 0xFF < 256 && (n >> 8)
            & 0xFF < 256 && n & 0xFF < 256) by (bit_vector);
    }
    out.push(((n >> 56) & 0xFF) as u8);
    out.push(((n >> 48) & 0xFF) as u8);
    out.push(((n >> 40) & 0xFF) as u8);
    out.push(((n >> 32) & 0xFF) as u8);
    out.push(((n >> 24) & 0xFF) as u8);
    out.push(((n >> 16) & 0xFF) as u8);
    out.push(((n >> 8) & 0xFF) as u8);
    out.push((n & 0xFF) as u8);
    proof {
        assert(out@ =~= old(out)@ + be64_bytes(n));
    }
}

pub fn push_string(out: &mut Vec<u8>, s: &str)
    requires
        encode_utf8(s@).len() <= MAX_STRING_BYTES,
    ensures
        final(out)@ == old(out)@ + string_bytes(s@),
{
    let bv = s.as_bytes_vec();
    let n = bv.len() as u32;
    push_u32_le(out, n);
    let ghost base: Seq<u8> = out@;
    let mut i: usize = 0;
    while i < bv.len()
        invariant
            i <= bv@.len(),
            bv@ == encode_utf8(s@),
            out@ == base + bv@.take(i as int),
        decreases bv@.len() - i,
    {
        proof {
            assert(bv@.take((i + 1) as int) =~= bv@.take(i as int).push(bv@[i as int]));
        }
        let b = bv[i];
        out.push(b);
        i = i + 1;
    }
    proof {
        assert(bv@.take(bv@.len() as int) =~= bv@);
        assert(out@ =~= old(out)@ + string_bytes(s@));
    }
}

} // verus!
