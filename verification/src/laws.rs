//! The properties that govern the codec, each proved over the
//! specification-level encoders and decoders that the executable
//! `serialize` and `deserialize` functions are proved to implement.

use vstd::prelude::*;
use vstd::utf8::encode_utf8;

use crate::codec::{Revision, SUBTAG_CONNECT_R2, SUBTAG_NAT_PUNCH_REQUEST_R2};
use crate::codec::{SUBTAG_NAT_PUNCH_RESPONSE_R2, TAG_CONNECT_REQUEST_R1, TAG_CONNECT_RESPONSE_R1};
use crate::codec::{TAG_NAT_PUNCH_ERROR_R1, TAG_NAT_PUNCH_ERROR_R2, TAG_NAT_PUNCH_REQUEST_R1};
use crate::codec::{TAG_NAT_PUNCH_RESPONSE_R1, TAG_TAGGED_R2};
use crate::request::{request_len_ok, spec_decode_request, spec_encode_request, RequestV};
use crate::response::{response_len_ok, spec_decode_response, spec_encode_response};
use crate::response::{spec_decode_nat_punch_response, unknown_v, NatPunchV, ResponseV};
use crate::wire::{be64_bytes, le32_bytes, string_bytes, MAX_STRING_BYTES};
use crate::wire::{lemma_read_string_of, lemma_read_u32_of, lemma_read_u64_of};
use crate::wire::{lemma_read_string_take, lemma_read_u32_take, lemma_read_u64_take};
use crate::wire::{lemma_read_u8_take, lemma_split_segment};

verus! {

/// A response whose encoding under the given revision decodes back to it.
/// `Unknown` is excluded: it is a decoder artifact, not a message with a
/// layout of its own. Under Revision 2 the `NatPunch` layout has no place
/// for the flag byte, so only a zero flag survives the trip.
pub open spec fn response_roundtrip_ok(v: ResponseV, rev: Revision) -> bool {
    response_len_ok(v) && match v {
        ResponseV::NatPunch(n) => rev == Revision::One || n.mystery_number == 0,
        ResponseV::NatPunchError(_) => true,
        ResponseV::Connect(_) => true,
        ResponseV::Unknown(_) => false,
    }
}

/// The leading tags that the response decoder of each revision dispatches
/// on.
pub open spec fn recognized_response_tag(tag: u8, rev: Revision) -> bool {
    match rev {
        Revision::One => tag == TAG_NAT_PUNCH_ERROR_R1 || tag == TAG_NAT_PUNCH_RESPONSE_R1 || tag
            == TAG_CONNECT_RESPONSE_R1,
        Revision::Two => tag == TAG_NAT_PUNCH_ERROR_R2 || tag == TAG_TAGGED_R2,
    }
}

// Reading the NatPunch field chain (host, port, host, port, identifier)
// back from the positions where its fields were written.

proof fn lemma_nat_punch_chain(b: Seq<u8>, pos: int, m: u8, n: NatPunchV, p1: int, p2: int, p3:
    int, p4: int, p5: int)
    requires
        0 <= pos,
        n.mystery_number == m,
        encode_utf8(n.local_host).len() <= MAX_STRING_BYTES,
        encode_utf8(n.remote_host).len() <= MAX_STRING_BYTES,
        encode_utf8(n.short_identifier).len() <= MAX_STRING_BYTES,
        p1 == pos + string_bytes(n.local_host).len(),
        p2 == p1 + 4,
        p3 == p2 + string_bytes(n.remote_host).len(),
        p4 == p3 + 4,
        p5 == p4 + string_bytes(n.short_identifier).len(),
        p5 <= b.len(),
        b.subrange(pos, p1) == string_bytes(n.local_host),
        b.subrange(p1, p2) == le32_bytes(n.local_port),
        b.subrange(p2, p3) == string_bytes(n.remote_host),
        b.subrange(p3, p4) == le32_bytes(n.remote_port),
        b.subrange(p4, p5) == string_bytes(n.short_identifier),
    ensures
        spec_decode_nat_punch_response(b, pos, m) == ResponseV::NatPunch(n),
{
    lemma_read_string_of(b, pos, n.local_host);
    lemma_read_u32_of(b, p1, n.local_port);
    lemma_read_string_of(b, p2, n.remote_host);
    lemma_read_u32_of(b, p3, n.remote_port);
    lemma_read_string_of(b, p4, n.short_identifier);
}

// The same chain on a buffer cut short before the chain's end: the first
// field read that straddles the cut fails, so the chain yields `Unknown`.

proof fn lemma_nat_punch_chain_truncated(b: Seq<u8>, i: int, pos: int, m: u8, n: NatPunchV, p1:
    int, p2: int, p3: int, p4: int, p5: int)
    requires
        0 <= pos,
        0 <= i < p5,
        i <= b.len(),
        n.mystery_number == m,
        encode_utf8(n.local_host).len() <= MAX_STRING_BYTES,
        encode_utf8(n.remote_host).len() <= MAX_STRING_BYTES,
        encode_utf8(n.short_identifier).len() <= MAX_STRING_BYTES,
        p1 == pos + string_bytes(n.local_host).len(),
        p2 == p1 + 4,
        p3 == p2 + string_bytes(n.remote_host).len(),
        p4 == p3 + 4,
        p5 == p4 + string_bytes(n.short_identifier).len(),
        p5 <= b.len(),
        b.subrange(pos, p1) == string_bytes(n.local_host),
        b.subrange(p1, p2) == le32_bytes(n.local_port),
        b.subrange(p2, p3) == string_bytes(n.remote_host),
        b.subrange(p3, p4) == le32_bytes(n.remote_port),
        b.subrange(p4, p5) == string_bytes(n.short_identifier),
    ensures
        spec_decode_nat_punch_response(b.take(i), pos, m) == unknown_v(b.take(i)),
{
    lemma_read_string_of(b, pos, n.local_host);
    lemma_read_string_take(b, i, pos, n.local_host, p1);
    if p1 <= i {
        lemma_read_u32_of(b, p1, n.local_port);
        lemma_read_u32_take(b, i, p1);
        if p2 <= i {
            lemma_read_string_of(b, p2, n.remote_host);
            lemma_read_string_take(b, i, p2, n.remote_host, p3);
            if p3 <= i {
                lemma_read_u32_of(b, p3, n.remote_port);
                lemma_read_u32_take(b, i, p3);
                if p4 <= i {
                    lemma_read_string_of(b, p4, n.short_identifier);
                    lemma_read_string_take(b, i, p4, n.short_identifier, p5);
                    assert(i < p5);
                }
            }
        }
    }
}

// Decomposing each encoded layout into its fields, one split per field.
// Each lemma states where every field of the layout sits in the encoding.

proof fn lemma_decompose_nat_punch_response(n: NatPunchV, rev: Revision)
    requires
        response_len_ok(ResponseV::NatPunch(n)),
    ensures
        ({
            let b = spec_encode_response(ResponseV::NatPunch(n), rev);
            let pos: int = if rev == Revision::One { 2int } else { 9int };
            let p1 = pos + string_bytes(n.local_host).len();
            let p2 = p1 + 4;
            let p3 = p2 + string_bytes(n.remote_host).len();
            let p4 = p3 + 4;
            let p5 = p4 + string_bytes(n.short_identifier).len();
            &&& b.len() == p5
            &&& b[0] == if rev == Revision::One { TAG_NAT_PUNCH_RESPONSE_R1 } else { TAG_TAGGED_R2 }
            &&& (rev == Revision::One ==> b[1] == n.mystery_number)
            &&& (rev == Revision::Two ==> b.subrange(1, 9) == be64_bytes(
                SUBTAG_NAT_PUNCH_RESPONSE_R2,
            ))
            &&& b.subrange(pos, p1) == string_bytes(n.local_host)
            &&& b.subrange(p1, p2) == le32_bytes(n.local_port)
            &&& b.subrange(p2, p3) == string_bytes(n.remote_host)
            &&& b.subrange(p3, p4) == le32_bytes(n.remote_port)
            &&& b.subrange(p4, p5) == string_bytes(n.short_identifier)
        }),
{
    let b = spec_encode_response(ResponseV::NatPunch(n), rev);
    let w1 = string_bytes(n.local_host);
    let e1 = le32_bytes(n.local_port);
    let w2 = string_bytes(n.remote_host);
    let e2 = le32_bytes(n.remote_port);
    let w3 = string_bytes(n.short_identifier);
    assert(b.subrange(0, b.len() as int) =~= b);
    match rev {
        Revision::One => {
            let hdr = seq![TAG_NAT_PUNCH_RESPONSE_R1, n.mystery_number];
            let c1 = hdr + w1;
            let c2 = c1 + e1;
            let c3 = c2 + w2;
            let c4 = c3 + e2;
            lemma_split_segment(b, 0, c4, w3);
            lemma_split_segment(b, 0, c3, e2);
            lemma_split_segment(b, 0, c2, w2);
            lemma_split_segment(b, 0, c1, e1);
            lemma_split_segment(b, 0, hdr, w1);
            assert(b.subrange(0, 2)[0] == b[0]);
            assert(b.subrange(0, 2)[1] == b[1]);
        },
        Revision::Two => {
            let hdr = seq![TAG_TAGGED_R2];
            let c0 = hdr + be64_bytes(SUBTAG_NAT_PUNCH_RESPONSE_R2);
            let c1 = c0 + w1;
            let c2 = c1 + e1;
            let c3 = c2 + w2;
            let c4 = c3 + e2;
            lemma_split_segment(b, 0, c4, w3);
            lemma_split_segment(b, 0, c3, e2);
            lemma_split_segment(b, 0, c2, w2);
            lemma_split_segment(b, 0, c1, e1);
            lemma_split_segment(b, 0, c0, w1);
            lemma_split_segment(b, 0, hdr, be64_bytes(SUBTAG_NAT_PUNCH_RESPONSE_R2));
            assert(b.subrange(0, 1)[0] == b[0]);
        },
    }
}

proof fn lemma_decompose_nat_punch_error(s: Seq<char>, rev: Revision)
    requires
        encode_utf8(s).len() <= MAX_STRING_BYTES,
    ensures
        ({
            let b = spec_encode_response(
                ResponseV::NatPunchError(crate::response::NatPunchErrorV { response: s }),
                rev,
            );
            &&& b.len() == 1 + string_bytes(s).len()
            &&& b[0] == if rev == Revision::One { TAG_NAT_PUNCH_ERROR_R1 } else {
                TAG_NAT_PUNCH_ERROR_R2
            }
            &&& b.subrange(1, b.len() as int) == string_bytes(s)
        }),
{
    let b = spec_encode_response(
        ResponseV::NatPunchError(crate::response::NatPunchErrorV { response: s }),
        rev,
    );
    let hdr: Seq<u8> = if rev == Revision::One {
        seq![TAG_NAT_PUNCH_ERROR_R1]
    } else {
        seq![TAG_NAT_PUNCH_ERROR_R2]
    };
    assert(b.subrange(0, b.len() as int) =~= b);
    lemma_split_segment(b, 0, hdr, string_bytes(s));
    assert(b.subrange(0, 1)[0] == b[0]);
}

proof fn lemma_decompose_connect_response(m: u8, s: Seq<char>, rev: Revision)
    requires
        encode_utf8(s).len() <= MAX_STRING_BYTES,
    ensures
        ({
            let b = spec_encode_response(
                ResponseV::Connect(
                    crate::response::ConnectV { mystery_number: m, short_identifier: s },
                ),
                rev,
            );
            &&& rev == Revision::One ==> {
                &&& b.len() == 2 + string_bytes(s).len()
                &&& b[0] == TAG_CONNECT_RESPONSE_R1
                &&& b[1] == m
                &&& b.subrange(2, b.len() as int) == string_bytes(s)
            }
            &&& rev == Revision::Two ==> {
                &&& b.len() == 9 + string_bytes(s).len() + 1
                &&& b[0] == TAG_TAGGED_R2
                &&& b.subrange(1, 9) == be64_bytes(SUBTAG_CONNECT_R2)
                &&& b.subrange(9, 9 + string_bytes(s).len() as int) == string_bytes(s)
                &&& b[9 + string_bytes(s).len() as int] == m
            }
        }),
{
    let b = spec_encode_response(
        ResponseV::Connect(crate::response::ConnectV { mystery_number: m, short_identifier: s }),
        rev,
    );
    let w = string_bytes(s);
    assert(b.subrange(0, b.len() as int) =~= b);
    match rev {
        Revision::One => {
            let hdr = seq![TAG_CONNECT_RESPONSE_R1, m];
            lemma_split_segment(b, 0, hdr, w);
            assert(b.subrange(0, 2)[0] == b[0]);
            assert(b.subrange(0, 2)[1] == b[1]);
        },
        Revision::Two => {
            let hdr = seq![TAG_TAGGED_R2];
            let c0 = hdr + be64_bytes(SUBTAG_CONNECT_R2);
            let c1 = c0 + w;
            lemma_split_segment(b, 0, c1, seq![m]);
            lemma_split_segment(b, 0, c0, w);
            lemma_split_segment(b, 0, hdr, be64_bytes(SUBTAG_CONNECT_R2));
            assert(b.subrange(0, 1)[0] == b[0]);
            assert(b.subrange(9 + w.len() as int, 10 + w.len() as int)[0] == b[9 + w.len() as int]);
        },
    }
}

/// Round trip: the encoding of any recognizable response, decoded under
/// the same revision, yields that response again, field for field.
pub proof fn lemma_response_round_trip(v: ResponseV, rev: Revision)
    requires
        response_roundtrip_ok(v, rev),
    ensures
        spec_decode_response(spec_encode_response(v, rev), rev) == v,
{
    let b = spec_encode_response(v, rev);
    match v {
        ResponseV::NatPunch(n) => {
            lemma_decompose_nat_punch_response(n, rev);
            let pos: int = if rev == Revision::One { 2int } else { 9int };
            let p1 = pos + string_bytes(n.local_host).len();
            let p2 = p1 + 4;
            let p3 = p2 + string_bytes(n.remote_host).len();
            let p4 = p3 + 4;
            let p5 = p4 + string_bytes(n.short_identifier).len();
            let m: u8 = if rev == Revision::One { n.mystery_number } else { 0u8 };
            if rev == Revision::Two {
                lemma_read_u64_of(b, 1, SUBTAG_NAT_PUNCH_RESPONSE_R2);
            }
            lemma_nat_punch_chain(b, pos, m, n, p1, p2, p3, p4, p5);
        },
        ResponseV::NatPunchError(e) => {
            lemma_decompose_nat_punch_error(e.response, rev);
            lemma_read_string_of(b, 1, e.response);
        },
        ResponseV::Connect(c) => {
            lemma_decompose_connect_response(c.mystery_number, c.short_identifier, rev);
            match rev {
                Revision::One => {
                    lemma_read_string_of(b, 2, c.short_identifier);
                },
                Revision::Two => {
                    lemma_read_u64_of(b, 1, SUBTAG_CONNECT_R2);
                    lemma_read_string_of(b, 9, c.short_identifier);
                },
            }
        },
        ResponseV::Unknown(_) => {
            assert(false);
        },
    }
}

/// Truncation: a well-formed encoded response cut short at any byte offset
/// within it decodes to `Unknown` carrying exactly the bytes that remain.
pub proof fn lemma_response_truncation(v: ResponseV, rev: Revision, i: int)
    requires
        response_roundtrip_ok(v, rev),
        0 <= i < spec_encode_response(v, rev).len(),
    ensures
        spec_decode_response(spec_encode_response(v, rev).take(i), rev) == unknown_v(
            spec_encode_response(v, rev).take(i),
        ),
{
    let b = spec_encode_response(v, rev);
    let t = b.take(i);
    assert(t.len() == i);
    lemma_read_u8_take(b, i, 0);
    if i > 0 {
        assert(t[0] == b[0]);
    }
    match v {
        ResponseV::NatPunch(n) => {
            lemma_decompose_nat_punch_response(n, rev);
            let pos: int = if rev == Revision::One { 2int } else { 9int };
            let p1 = pos + string_bytes(n.local_host).len();
            let p2 = p1 + 4;
            let p3 = p2 + string_bytes(n.remote_host).len();
            let p4 = p3 + 4;
            let p5 = p4 + string_bytes(n.short_identifier).len();
            let m: u8 = if rev == Revision::One { n.mystery_number } else { 0u8 };
            if i > 0 {
                match rev {
                    Revision::One => {
                        lemma_read_u8_take(b, i, 1);
                        if i >= 2 {
                            lemma_nat_punch_chain_truncated(b, i, pos, m, n, p1, p2, p3, p4, p5);
                        }
                    },
                    Revision::Two => {
                        lemma_read_u64_of(b, 1, SUBTAG_NAT_PUNCH_RESPONSE_R2);
                        lemma_read_u64_take(b, i, 1);
                        if i >= 9 {
                            lemma_nat_punch_chain_truncated(b, i, pos, m, n, p1, p2, p3, p4, p5);
                        }
                    },
                }
            }
        },
        ResponseV::NatPunchError(e) => {
            lemma_decompose_nat_punch_error(e.response, rev);
            if i > 0 {
                lemma_read_string_of(b, 1, e.response);
                lemma_read_string_take(b, i, 1, e.response, b.len() as int);
            }
        },
        ResponseV::Connect(c) => {
            lemma_decompose_connect_response(c.mystery_number, c.short_identifier, rev);
            let w = string_bytes(c.short_identifier);
            if i > 0 {
                match rev {
                    Revision::One => {
                        lemma_read_u8_take(b, i, 1);
                        if i >= 2 {
                            lemma_read_string_of(b, 2, c.short_identifier);
                            lemma_read_string_take(b, i, 2, c.short_identifier, b.len() as int);
                        }
                    },
                    Revision::Two => {
                        lemma_read_u64_of(b, 1, SUBTAG_CONNECT_R2);
                        lemma_read_u64_take(b, i, 1);
                        if i >= 9 {
                            lemma_read_string_of(b, 9, c.short_identifier);
                            lemma_read_string_take(b, i, 9, c.short_identifier, 9 + w.len() as int);
                            if 9 + w.len() <= i {
                                lemma_read_u8_take(b, i, 9 + w.len() as int);
                                assert(i < b.len());
                            }
                        }
                    },
                }
            }
        },
        ResponseV::Unknown(_) => {
            assert(false);
        },
    }
}

/// Tag dispatch: a buffer beginning with a byte that the revision's
/// decoder does not recognize decodes to `Unknown`, whatever follows.
pub proof fn lemma_unrecognized_tag(b: Seq<u8>, rev: Revision)
    requires
        b.len() > 0,
        !recognized_response_tag(b[0], rev),
    ensures
        spec_decode_response(b, rev) == unknown_v(b),
{
}

/// Revision isolation: a response encoded under one revision and decoded
/// under the other is `Unknown` — the revisions' leading tags are
/// disjoint, so no cross-revision buffer is ever mistaken for a message.
pub proof fn lemma_response_revision_isolation(v: ResponseV, enc_rev: Revision, dec_rev: Revision)
    requires
        response_roundtrip_ok(v, enc_rev),
        enc_rev != dec_rev,
    ensures
        spec_decode_response(spec_encode_response(v, enc_rev), dec_rev) == unknown_v(
            spec_encode_response(v, enc_rev),
        ),
{
    let b = spec_encode_response(v, enc_rev);
    match v {
        ResponseV::NatPunch(n) => {
            lemma_decompose_nat_punch_response(n, enc_rev);
        },
        ResponseV::NatPunchError(e) => {
            lemma_decompose_nat_punch_error(e.response, enc_rev);
        },
        ResponseV::Connect(c) => {
            lemma_decompose_connect_response(c.mystery_number, c.short_identifier, enc_rev);
        },
        ResponseV::Unknown(_) => {
            assert(false);
        },
    }
    assert(b.len() > 0);
    assert(!recognized_response_tag(b[0], dec_rev));
    lemma_unrecognized_tag(b, dec_rev);
}

// Decomposing the encoded request layouts.

proof fn lemma_decompose_nat_punch_request(n: crate::request::NatPunchV, rev: Revision)
    requires
        request_len_ok(RequestV::NatPunch(n)),
    ensures
        ({
            let b = spec_encode_request(RequestV::NatPunch(n), rev);
            let pos: int = if rev == Revision::One { 1int } else { 9int };
            let p1 = pos + string_bytes(n.host).len();
            let p2 = p1 + 4;
            let p3 = p2 + string_bytes(n.full_identifier).len();
            &&& b.len() == p3
            &&& b[0] == if rev == Revision::One { TAG_NAT_PUNCH_REQUEST_R1 } else { TAG_TAGGED_R2 }
            &&& (rev == Revision::Two ==> b.subrange(1, 9) == be64_bytes(
                SUBTAG_NAT_PUNCH_REQUEST_R2,
            ))
            &&& b.subrange(pos, p1) == string_bytes(n.host)
            &&& b.subrange(p1, p2) == le32_bytes(n.port)
            &&& b.subrange(p2, p3) == string_bytes(n.full_identifier)
        }),
{
    let b = spec_encode_request(RequestV::NatPunch(n), rev);
    let w1 = string_bytes(n.host);
    let e1 = le32_bytes(n.port);
    let w2 = string_bytes(n.full_identifier);
    assert(b.subrange(0, b.len() as int) =~= b);
    match rev {
        Revision::One => {
            let hdr = seq![TAG_NAT_PUNCH_REQUEST_R1];
            let c1 = hdr + w1;
            let c2 = c1 + e1;
            lemma_split_segment(b, 0, c2, w2);
            lemma_split_segment(b, 0, c1, e1);
            lemma_split_segment(b, 0, hdr, w1);
            assert(b.subrange(0, 1)[0] == b[0]);
        },
        Revision::Two => {
            let hdr = seq![TAG_TAGGED_R2];
            let c0 = hdr + be64_bytes(SUBTAG_NAT_PUNCH_REQUEST_R2);
            let c1 = c0 + w1;
            let c2 = c1 + e1;
            lemma_split_segment(b, 0, c2, w2);
            lemma_split_segment(b, 0, c1, e1);
            lemma_split_segment(b, 0, c0, w1);
            lemma_split_segment(b, 0, hdr, be64_bytes(SUBTAG_NAT_PUNCH_REQUEST_R2));
            assert(b.subrange(0, 1)[0] == b[0]);
        },
    }
}

proof fn lemma_decompose_connect_request(m: u8, s: Seq<char>, rev: Revision)
    requires
        encode_utf8(s).len() <= MAX_STRING_BYTES,
    ensures
        ({
            let b = spec_encode_request(
                RequestV::Connect(
                    crate::request::ConnectV { mystery_number: m, short_identifier: s },
                ),
                rev,
            );
            &&& rev == Revision::One ==> {
                &&& b.len() == 2 + string_bytes(s).len()
                &&& b[0] == TAG_CONNECT_REQUEST_R1
                &&& b[1] == m
                &&& b.subrange(2, b.len() as int) == string_bytes(s)
            }
            &&& rev == Revision::Two ==> {
                &&& b.len() == 9 + string_bytes(s).len() + 1
                &&& b[0] == TAG_TAGGED_R2
                &&& b.subrange(1, 9) == be64_bytes(SUBTAG_CONNECT_R2)
                &&& b.subrange(9, 9 + string_bytes(s).len() as int) == string_bytes(s)
                &&& b[9 + string_bytes(s).len() as int] == m
            }
        }),
{
    let b = spec_encode_request(
        RequestV::Connect(crate::request::ConnectV { mystery_number: m, short_identifier: s }),
        rev,
    );
    let w = string_bytes(s);
    assert(b.subrange(0, b.len() as int) =~= b);
    match rev {
        Revision::One => {
            let hdr = seq![TAG_CONNECT_REQUEST_R1, m];
            lemma_split_segment(b, 0, hdr, w);
            assert(b.subrange(0, 2)[0] == b[0]);
            assert(b.subrange(0, 2)[1] == b[1]);
        },
        Revision::Two => {
            let hdr = seq![TAG_TAGGED_R2];
            let c0 = hdr + be64_bytes(SUBTAG_CONNECT_R2);
            let c1 = c0 + w;
            lemma_split_segment(b, 0, c1, seq![m]);
            lemma_split_segment(b, 0, c0, w);
            lemma_split_segment(b, 0, hdr, be64_bytes(SUBTAG_CONNECT_R2));
            assert(b.subrange(0, 1)[0] == b[0]);
            assert(b.subrange(9 + w.len() as int, 10 + w.len() as int)[0] == b[9 + w.len() as int]);
        },
    }
}

/// Round trip: the encoding of any request whose strings fit the 32-bit
/// length prefix, decoded under the same revision, yields that request.
pub proof fn lemma_request_round_trip(v: RequestV, rev: Revision)
    requires
        request_len_ok(v),
    ensures
        spec_decode_request(spec_encode_request(v, rev), rev) == Some(v),
{
    let b = spec_encode_request(v, rev);
    match v {
        RequestV::NatPunch(n) => {
            lemma_decompose_nat_punch_request(n, rev);
            let pos: int = if rev == Revision::One { 1int } else { 9int };
            let p1 = pos + string_bytes(n.host).len();
            let p2 = p1 + 4;
            if rev == Revision::Two {
                lemma_read_u64_of(b, 1, SUBTAG_NAT_PUNCH_REQUEST_R2);
            }
            lemma_read_string_of(b, pos, n.host);
            lemma_read_u32_of(b, p1, n.port);
            lemma_read_string_of(b, p2, n.full_identifier);
        },
        RequestV::Connect(c) => {
            lemma_decompose_connect_request(c.mystery_number, c.short_identifier, rev);
            match rev {
                Revision::One => {
                    lemma_read_string_of(b, 2, c.short_identifier);
                },
                Revision::Two => {
                    lemma_read_u64_of(b, 1, SUBTAG_CONNECT_R2);
                    lemma_read_string_of(b, 9, c.short_identifier);
                },
            }
        },
    }
}

/// Revision isolation for requests: a request encoded under one revision
/// does not decode under the other.
pub proof fn lemma_request_revision_isolation(v: RequestV, enc_rev: Revision, dec_rev: Revision)
    requires
        request_len_ok(v),
        enc_rev != dec_rev,
    ensures
        spec_decode_request(spec_encode_request(v, enc_rev), dec_rev) is None,
{
    let b = spec_encode_request(v, enc_rev);
    match v {
        RequestV::NatPunch(n) => {
            lemma_decompose_nat_punch_request(n, enc_rev);
        },
        RequestV::Connect(c) => {
            lemma_decompose_connect_request(c.mystery_number, c.short_identifier, enc_rev);
        },
    }
    assert(b.len() > 0);
}

} // verus!
