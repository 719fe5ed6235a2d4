//! The two request kinds, with their wire encodings under both revisions.
//!
//! Under Revision 1, `NatPunch` carries tag `0x0C` and then host, port and
//! identifier; `Connect` carries tag `0x0E`, the flag byte and then the
//! identifier. Under Revision 2 both kinds share tag `0x10` followed by a
//! kind-specific 64-bit sub-tag; `NatPunch` keeps the Revision 1 field
//! order, while `Connect` carries the identifier first and the flag byte
//! last.

use vstd::prelude::*;
use vstd::utf8::encode_utf8;

use crate::codec::{Revision, SUBTAG_CONNECT_R2, SUBTAG_NAT_PUNCH_REQUEST_R2};
use crate::codec::{TAG_CONNECT_REQUEST_R1, TAG_NAT_PUNCH_REQUEST_R1, TAG_TAGGED_R2};
use crate::wire::{be64_bytes, le32_bytes, string_bytes, MAX_STRING_BYTES};
use crate::wire::{push_string, push_u32_le, push_u64_be};
use crate::wire::{read_string, read_u32, read_u64_be, read_u8};
use crate::wire::{spec_read_string, spec_read_u32, spec_read_u64_be, spec_read_u8};

verus! {

/// Announces the sender's locally observed address and a fully-qualified
/// session identifier.
#[derive(Debug, PartialEq, Eq)]
pub struct NatPunch {
    pub host: String,
    pub port: u32,
    /// uppercase, uses the `C;` prefix
    pub full_identifier: String,
}

/// A confirmation message sent directly to a discovered peer.
#[derive(Debug, PartialEq, Eq)]
pub struct Connect {
    /// opaque flag byte; observed values are 0 and 1, round-tripped verbatim
    pub mystery_number: u8,
    /// lowercase, no prefix
    pub short_identifier: String,
}

#[derive(Debug, PartialEq, Eq)]
pub enum Request {
    NatPunch(NatPunch),
    Connect(Connect),
}

/// Mathematical image of a `NatPunch` request.
pub struct NatPunchV {
    pub host: Seq<char>,
    pub port: u32,
    pub full_identifier: Seq<char>,
}

/// Mathematical image of a `Connect` request.
pub struct ConnectV {
    pub mystery_number: u8,
    pub short_identifier: Seq<char>,
}

pub enum RequestV {
    NatPunch(NatPunchV),
    Connect(ConnectV),
}

impl View for NatPunch {
    type V = NatPunchV;

    open spec fn view(&self) -> NatPunchV {
        NatPunchV { host: self.host@, port: self.port, full_identifier: self.full_identifier@ }
    }
}

impl View for Connect {
    type V = ConnectV;

    open spec fn view(&self) -> ConnectV {
        ConnectV {
            mystery_number: self.mystery_number,
            short_identifier: self.short_identifier@,
        }
    }
}

impl View for Request {
    type V = RequestV;

    open spec fn view(&self) -> RequestV {
        match self {
            Request::NatPunch(r) => RequestV::NatPunch(r@),
            Request::Connect(r) => RequestV::Connect(r@),
        }
    }
}

/// Every string of the request fits the 32-bit length prefix. Encoding is
/// total on such requests and only on them: a longer string has no wire
/// form, which is a caller error rather than a recoverable condition.
pub open spec fn request_len_ok(v: RequestV) -> bool {
    match v {
        RequestV::NatPunch(n) => encode_utf8(n.host).len() <= MAX_STRING_BYTES && encode_utf8(
            n.full_identifier,
        ).len() <= MAX_STRING_BYTES,
        RequestV::Connect(c) => encode_utf8(c.short_identifier).len() <= MAX_STRING_BYTES,
    }
}

/// The encoded form of a request under the given revision.
pub open spec fn spec_encode_request(v: RequestV, rev: Revision) -> Seq<u8>
    recommends
        request_len_ok(v),
{
    match rev {
        Revision::One => match v {
            RequestV::NatPunch(n) => seq![TAG_NAT_PUNCH_REQUEST_R1] + string_bytes(n.host)
                + le32_bytes(n.port) + string_bytes(n.full_identifier),
            RequestV::Connect(c) => seq![TAG_CONNECT_REQUEST_R1, c.mystery_number] + string_bytes(
                c.short_identifier,
            ),
        },
        Revision::Two => match v {
            RequestV::NatPunch(n) => seq![TAG_TAGGED_R2] + be64_bytes(SUBTAG_NAT_PUNCH_REQUEST_R2)
                + string_bytes(n.host) + le32_bytes(n.port) + string_bytes(n.full_identifier),
            RequestV::Connect(c) => seq![TAG_TAGGED_R2] + be64_bytes(SUBTAG_CONNECT_R2)
                + string_bytes(c.short_identifier) + seq![c.mystery_number],
        },
    }
}

/// The request a buffer decodes to under the given revision, or `None` when
/// no request of that revision begins the buffer. Trailing bytes after a
/// complete message are ignored, as the field readers never look past the
/// fields they consume.
pub open spec fn spec_decode_request(b: Seq<u8>, rev: Revision) -> Option<RequestV> {
    match spec_read_u8(b, 0) {
        None => None,
        Some((tag, p)) => match rev {
            Revision::One => {
                if tag == TAG_NAT_PUNCH_REQUEST_R1 {
                    spec_decode_nat_punch_request(b, p)
                } else if tag == TAG_CONNECT_REQUEST_R1 {
                    spec_decode_connect_request_r1(b, p)
                } else {
                    None
                }
            },
            Revision::Two => {
                if tag == TAG_TAGGED_R2 {
                    match spec_read_u64_be(b, p) {
                        None => None,
                        Some((sub, q)) => {
                            if sub == SUBTAG_NAT_PUNCH_REQUEST_R2 {
                                spec_decode_nat_punch_request(b, q)
                            } else if sub == SUBTAG_CONNECT_R2 {
                                spec_decode_connect_request_r2(b, q)
                            } else {
                                None
                            }
                        },
                    }
                } else {
                    None
                }
            },
        },
    }
}

pub open spec fn spec_decode_nat_punch_request(b: Seq<u8>, pos: int) -> Option<RequestV> {
    match spec_read_string(b, pos) {
        None => None,
        Some((host, p1)) => match spec_read_u32(b, p1) {
            None => None,
            Some((port, p2)) => match spec_read_string(b, p2) {
                None => None,
                Some((fid, p3)) => Some(
                    RequestV::NatPunch(NatPunchV { host, port, full_identifier: fid }),
                ),
            },
        },
    }
}

pub open spec fn spec_decode_connect_request_r1(b: Seq<u8>, pos: int) -> Option<RequestV> {
    match spec_read_u8(b, pos) {
        None => None,
        Some((mystery, p1)) => match spec_read_string(b, p1) {
            None => None,
            Some((sid, p2)) => Some(
                RequestV::Connect(ConnectV { mystery_number: mystery, short_identifier: sid }),
            ),
        },
    }
}

pub open spec fn spec_decode_connect_request_r2(b: Seq<u8>, pos: int) -> Option<RequestV> {
    match spec_read_string(b, pos) {
        None => None,
        Some((sid, p1)) => match spec_read_u8(b, p1) {
            None => None,
            Some((mystery, p2)) => Some(
                RequestV::Connect(ConnectV { mystery_number: mystery, short_identifier: sid }),
            ),
        },
    }
}

impl Request {
    pub fn nat_punch(host: String, port: u32, full_identifier: String) -> (r: Request)
        ensures
            r@ == (RequestV::NatPunch(
                NatPunchV { host: host@, port: port, full_identifier: full_identifier@ },
            )),
    {
        Request::NatPunch(NatPunch { host, port, full_identifier })
    }

    pub fn connect(short_identifier: String) -> (r: Request)
        ensures
            r@ == (RequestV::Connect(
                ConnectV { mystery_number: 0, short_identifier: short_identifier@ },
            )),
    {
        Request::Connect(Connect { mystery_number: 0, short_identifier })
    }

    pub fn serialize(&self, revision: Revision) -> (r: Vec<u8>)
        requires
            request_len_ok(self@),
        ensures
            r@ == spec_encode_request(self@, revision),
    {
        match self {
            Request::NatPunch(n) => n.serialize(revision),
            Request::Connect(c) => c.serialize(revision),
        }
    }

    /// Reads one request back from a buffer. `None` exactly when no request
    /// of the given revision begins the buffer.
    pub fn deserialize(bytes: &Vec<u8>, revision: Revision) -> (r: Option<Request>)
        ensures
            match r {
                Some(req) => spec_decode_request(bytes@, revision) == Some(req@),
                None => spec_decode_request(bytes@, revision) is None,
            },
    {
        let mut pos: usize = 0;
        match read_u8(bytes, &mut pos) {
            Err(_) => None,
            Ok(tag) => match revision {
                Revision::One => {
                    if tag == TAG_NAT_PUNCH_REQUEST_R1 {
                        Self::read_nat_punch(bytes, &mut pos)
                    } else if tag == TAG_CONNECT_REQUEST_R1 {
                        Self::read_connect_r1(bytes, &mut pos)
                    } else {
                        None
                    }
                },
                Revision::Two => {
                    if tag == TAG_TAGGED_R2 {
                        match read_u64_be(bytes, &mut pos) {
                            Err(_) => None,
                            Ok(sub) => {
                                if sub == SUBTAG_NAT_PUNCH_REQUEST_R2 {
                                    Self::read_nat_punch(bytes, &mut pos)
                                } else if sub == SUBTAG_CONNECT_R2 {
                                    Self::read_connect_r2(bytes, &mut pos)
                                } else {
                                    None
                                }
                            },
                        }
                    } else {
                        None
                    }
                },
            },
        }
    }

    fn read_nat_punch(bytes: &Vec<u8>, pos: &mut usize) -> (r: Option<Request>)
        ensures
            match r {
                Some(req) => spec_decode_nat_punch_request(bytes@, *old(pos) as int) == Some(req@),
                None => spec_decode_nat_punch_request(bytes@, *old(pos) as int) is None,
            },
    {
        match read_string(bytes, pos) {
            Err(_) => None,
            Ok(host) => match read_u32(bytes, pos) {
                Err(_) => None,
                Ok(port) => match read_string(bytes, pos) {
                    Err(_) => None,
                    Ok(full_identifier) => Some(
                        Request::NatPunch(NatPunch { host, port, full_identifier }),
                    ),
                },
            },
        }
    }

    fn read_connect_r1(bytes: &Vec<u8>, pos: &mut usize) -> (r: Option<Request>)
        ensures
            match r {
                Some(req) => spec_decode_connect_request_r1(bytes@, *old(pos) as int) == Some(
                    req@,
                ),
                None => spec_decode_connect_request_r1(bytes@, *old(pos) as int) is None,
            },
    {
        match read_u8(bytes, pos) {
            Err(_) => None,
            Ok(mystery_number) => match read_string(bytes, pos) {
                Err(_) => None,
                Ok(short_identifier) => Some(
                    Request::Connect(Connect { mystery_number, short_identifier }),
                ),
            },
        }
    }

    fn read_connect_r2(bytes: &Vec<u8>, pos: &mut usize) -> (r: Option<Request>)
        ensures
            match r {
                Some(req) => spec_decode_connect_request_r2(bytes@, *old(pos) as int) == Some(
                    req@,
                ),
                None => spec_decode_connect_request_r2(bytes@, *old(pos) as int) is None,
            },
    {
        match read_string(bytes, pos) {
            Err(_) => None,
            Ok(short_identifier) => match read_u8(bytes, pos) {
                Err(_) => None,
                Ok(mystery_number) => Some(
                    Request::Connect(Connect { mystery_number, short_identifier }),
                ),
            },
        }
    }
}

impl NatPunch {
    pub fn serialize(&self, revision: Revision) -> (r: Vec<u8>)
        requires
            encode_utf8(self.host@).len() <= MAX_STRING_BYTES,
            encode_utf8(self.full_identifier@).len() <= MAX_STRING_BYTES,
        ensures
            r@ == spec_encode_request(RequestV::NatPunch(self@), revision),
    {
        let mut out: Vec<u8> = Vec::new();
        match revision {
            Revision::One => {
                out.push(TAG_NAT_PUNCH_REQUEST_R1);
            },
            Revision::Two => {
                out.push(TAG_TAGGED_R2);
                push_u64_be(&mut out, SUBTAG_NAT_PUNCH_REQUEST_R2);
            },
        }
        push_string(&mut out, self.host.as_str());
        push_u32_le(&mut out, self.port);
        push_string(&mut out, self.full_identifier.as_str());
        proof {
            assert(out@ =~= spec_encode_request(RequestV::NatPunch(self@), revision));
        }
        out
    }
}

impl Connect {
    pub fn serialize(&self, revision: Revision) -> (r: Vec<u8>)
        requires
            encode_utf8(self.short_identifier@).len() <= MAX_STRING_BYTES,
        ensures
            r@ == spec_encode_request(RequestV::Connect(self@), revision),
    {
        let mut out: Vec<u8> = Vec::new();
        match revision {
            Revision::One => {
                out.push(TAG_CONNECT_REQUEST_R1);
                out.push(self.mystery_number);
                push_string(&mut out, self.short_identifier.as_str());
            },
            Revision::Two => {
                out.push(TAG_TAGGED_R2);
                push_u64_be(&mut out, SUBTAG_CONNECT_R2);
                push_string(&mut out, self.short_identifier.as_str());
                out.push(self.mystery_number);
            },
        }
        proof {
            assert(out@ =~= spec_encode_request(RequestV::Connect(self@), revision));
        }
        out
    }
}

} // verus!
