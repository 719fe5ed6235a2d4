//! The four response kinds, with their wire encodings under both revisions.
//!
//! Under Revision 1 the coordinator's `NatPunch` report carries tag `0x0D`
//! and a leading flag byte, the error report carries tag `0x0B`, and the
//! peer's `Connect` echo carries tag `0x0E` with the flag byte before the
//! identifier. Under Revision 2 the `NatPunch` report and the `Connect`
//! echo share tag `0x10` with kind-specific sub-tags (`NatPunch` drops the
//! flag byte; `Connect` moves it after the identifier), and the error
//! report carries the plain tag `0x08`.
//!
//! Decoding never fails: any unrecognized tag or sub-tag, or any structural
//! failure while reading a field, yields `Unknown` carrying the entire
//! original byte sequence.

use vstd::prelude::*;
use vstd::utf8::encode_utf8;

use crate::codec::{Error, Revision, SUBTAG_CONNECT_R2, SUBTAG_NAT_PUNCH_RESPONSE_R2};
use crate::codec::{TAG_CONNECT_RESPONSE_R1, TAG_NAT_PUNCH_ERROR_R1, TAG_NAT_PUNCH_ERROR_R2};
use crate::codec::{TAG_NAT_PUNCH_RESPONSE_R1, TAG_TAGGED_R2};
use crate::wire::{be64_bytes, copy_bytes, le32_bytes, string_bytes, MAX_STRING_BYTES};
use crate::wire::{push_string, push_u32_le, push_u64_be};
use crate::wire::{read_string, read_u32, read_u64_be, read_u8};
use crate::wire::{spec_read_string, spec_read_u32, spec_read_u64_be, spec_read_u8};

verus! {

/// The coordinator's report: the caller's externally visible address and
/// the target peer's address.
#[derive(Debug, PartialEq, Eq)]
pub struct NatPunch {
    /// leading flag byte of the Revision 1 layout; absent on the wire under
    /// Revision 2, where it decodes as zero
    pub mystery_number: u8,
    pub local_host: String,
    pub local_port: u32,
    pub remote_host: String,
    pub remote_port: u32,
    /// lowercase, no prefix, otherwise matches the request
    pub short_identifier: String,
}

/// A coordinator-reported failure; the string is a machine-readable code.
#[derive(Debug, PartialEq, Eq)]
pub struct NatPunchError {
    pub response: String,
}

/// An echoed confirmation from a peer.
#[derive(Debug, PartialEq, Eq)]
pub struct Connect {
    /// opaque flag byte; observed values are 0 and 1, round-tripped verbatim
    pub mystery_number: u8,
    /// lowercase, no prefix, exactly matches the request
    pub short_identifier: String,
}

/// Any datagram that failed to match a recognized layout, with the raw
/// bytes preserved for diagnostics.
#[derive(Debug, PartialEq, Eq)]
pub struct Unknown {
    pub bytes: Vec<u8>,
}

#[derive(Debug, PartialEq, Eq)]
pub enum Response {
    NatPunch(NatPunch),
    NatPunchError(NatPunchError),
    Connect(Connect),
    Unknown(Unknown),
}

/// Mathematical image of a `NatPunch` response.
pub struct NatPunchV {
    pub mystery_number: u8,
    pub local_host: Seq<char>,
    pub local_port: u32,
    pub remote_host: Seq<char>,
    pub remote_port: u32,
    pub short_identifier: Seq<char>,
}

/// Mathematical image of a `NatPunchError` response.
pub struct NatPunchErrorV {
    pub response: Seq<char>,
}

/// Mathematical image of a `Connect` response.
pub struct ConnectV {
    pub mystery_number: u8,
    pub short_identifier: Seq<char>,
}

/// Mathematical image of an `Unknown` response.
pub struct UnknownV {
    pub bytes: Seq<u8>,
}

pub enum ResponseV {
    NatPunch(NatPunchV),
    NatPunchError(NatPunchErrorV),
    Connect(ConnectV),
    Unknown(UnknownV),
}

impl View for NatPunch {
    type V = NatPunchV;

    open spec fn view(&self) -> NatPunchV {
        NatPunchV {
            mystery_number: self.mystery_number,
            local_host: self.local_host@,
            local_port: self.local_port,
            remote_host: self.remote_host@,
            remote_port: self.remote_port,
            short_identifier: self.short_identifier@,
        }
    }
}

impl View for NatPunchError {
    type V = NatPunchErrorV;

    open spec fn view(&self) -> NatPunchErrorV {
        NatPunchErrorV { response: self.response@ }
    }
}

impl View for Connect {
    type V = ConnectV;

    open spec fn view(&self) -> ConnectV {
        ConnectV {
            mystery_number: self.mystery_number,
            short_identifier: self.short_identifier@,
        }
    }
}

impl View for Unknown {
    type V = UnknownV;

    open spec fn view(&self) -> UnknownV {
        UnknownV { bytes: self.bytes@ }
    }
}

impl View for Response {
    type V = ResponseV;

    open spec fn view(&self) -> ResponseV {
        match self {
            Response::NatPunch(r) => ResponseV::NatPunch(r@),
            Response::NatPunchError(r) => ResponseV::NatPunchError(r@),
            Response::Connect(r) => ResponseV::Connect(r@),
            Response::Unknown(r) => ResponseV::Unknown(r@),
        }
    }
}

/// The `Unknown` value carrying a whole buffer.
pub open spec fn unknown_v(b: Seq<u8>) -> ResponseV {
    ResponseV::Unknown(UnknownV { bytes: b })
}

/// Every string of the response fits the 32-bit length prefix.
pub open spec fn response_len_ok(v: ResponseV) -> bool {
    match v {
        ResponseV::NatPunch(n) => encode_utf8(n.local_host).len() <= MAX_STRING_BYTES
            && encode_utf8(n.remote_host).len() <= MAX_STRING_BYTES && encode_utf8(
            n.short_identifier,
        ).len() <= MAX_STRING_BYTES,
        ResponseV::NatPunchError(e) => encode_utf8(e.response).len() <= MAX_STRING_BYTES,
        ResponseV::Connect(c) => encode_utf8(c.short_identifier).len() <= MAX_STRING_BYTES,
        ResponseV::Unknown(_) => true,
    }
}

/// The encoded form of a response under the given revision. An `Unknown`
/// value re-emits the raw bytes it preserved. The Revision 2 `NatPunch`
/// layout has no place for the flag byte, which is therefore not encoded.
pub open spec fn spec_encode_response(v: ResponseV, rev: Revision) -> Seq<u8>
    recommends
        response_len_ok(v),
{
    match rev {
        Revision::One => match v {
            ResponseV::NatPunch(n) => seq![TAG_NAT_PUNCH_RESPONSE_R1, n.mystery_number]
                + string_bytes(n.local_host) + le32_bytes(n.local_port) + string_bytes(
                n.remote_host,
            ) + le32_bytes(n.remote_port) + string_bytes(n.short_identifier),
            ResponseV::NatPunchError(e) => seq![TAG_NAT_PUNCH_ERROR_R1] + string_bytes(e.response),
            ResponseV::Connect(c) => seq![TAG_CONNECT_RESPONSE_R1, c.mystery_number]
                + string_bytes(c.short_identifier),
            ResponseV::Unknown(u) => u.bytes,
        },
        Revision::Two => match v {
            ResponseV::NatPunch(n) => seq![TAG_TAGGED_R2] + be64_bytes(
                SUBTAG_NAT_PUNCH_RESPONSE_R2,
            ) + string_bytes(n.local_host) + le32_bytes(n.local_port) + string_bytes(
                n.remote_host,
            ) + le32_bytes(n.remote_port) + string_bytes(n.short_identifier),
            ResponseV::NatPunchError(e) => seq![TAG_NAT_PUNCH_ERROR_R2] + string_bytes(e.response),
            ResponseV::Connect(c) => seq![TAG_TAGGED_R2] + be64_bytes(SUBTAG_CONNECT_R2)
                + string_bytes(c.short_identifier) + seq![c.mystery_number],
            ResponseV::Unknown(u) => u.bytes,
        },
    }
}

/// The response a buffer decodes to under the given revision. Total:
/// anything that fails to parse becomes `Unknown` carrying the whole
/// buffer. Trailing bytes after a complete message are ignored.
pub open spec fn spec_decode_response(b: Seq<u8>, rev: Revision) -> ResponseV {
    match spec_read_u8(b, 0) {
        None => unknown_v(b),
        Some((tag, p)) => match rev {
            Revision::One => {
                if tag == TAG_NAT_PUNCH_ERROR_R1 {
                    spec_decode_nat_punch_error(b, p)
                } else if tag == TAG_NAT_PUNCH_RESPONSE_R1 {
                    match spec_read_u8(b, p) {
                        None => unknown_v(b),
                        Some((m, p2)) => spec_decode_nat_punch_response(b, p2, m),
                    }
                } else if tag == TAG_CONNECT_RESPONSE_R1 {
                    spec_decode_connect_response_r1(b, p)
                } else {
                    unknown_v(b)
                }
            },
            Revision::Two => {
                if tag == TAG_NAT_PUNCH_ERROR_R2 {
                    spec_decode_nat_punch_error(b, p)
                } else if tag == TAG_TAGGED_R2 {
                    match spec_read_u64_be(b, p) {
                        None => unknown_v(b),
                        Some((sub, q)) => {
                            if sub == SUBTAG_NAT_PUNCH_RESPONSE_R2 {
                                spec_decode_nat_punch_response(b, q, 0)
                            } else if sub == SUBTAG_CONNECT_R2 {
                                spec_decode_connect_response_r2(b, q)
                            } else {
                                unknown_v(b)
                            }
                        },
                    }
                } else {
                    unknown_v(b)
                }
            },
        },
    }
}

pub open spec fn spec_decode_nat_punch_response(b: Seq<u8>, pos: int, mystery: u8) -> ResponseV {
    match spec_read_string(b, pos) {
        None => unknown_v(b),
        Some((lh, p1)) => match spec_read_u32(b, p1) {
            None => unknown_v(b),
            Some((lp, p2)) => match spec_read_string(b, p2) {
                None => unknown_v(b),
                Some((rh, p3)) => match spec_read_u32(b, p3) {
                    None => unknown_v(b),
                    Some((rp, p4)) => match spec_read_string(b, p4) {
                        None => unknown_v(b),
                        Some((sid, p5)) => ResponseV::NatPunch(
                            NatPunchV {
                                mystery_number: mystery,
                                local_host: lh,
                                local_port: lp,
                                remote_host: rh,
                                remote_port: rp,
                                short_identifier: sid,
                            },
                        ),
                    },
                },
            },
        },
    }
}

pub open spec fn spec_decode_nat_punch_error(b: Seq<u8>, pos: int) -> ResponseV {
    match spec_read_string(b, pos) {
        None => unknown_v(b),
        Some((s, p1)) => ResponseV::NatPunchError(NatPunchErrorV { response: s }),
    }
}

pub open spec fn spec_decode_connect_response_r1(b: Seq<u8>, pos: int) -> ResponseV {
    match spec_read_u8(b, pos) {
        None => unknown_v(b),
        Some((m, p1)) => match spec_read_string(b, p1) {
            None => unknown_v(b),
            Some((sid, p2)) => ResponseV::Connect(
                ConnectV { mystery_number: m, short_identifier: sid },
            ),
        },
    }
}

pub open spec fn spec_decode_connect_response_r2(b: Seq<u8>, pos: int) -> ResponseV {
    match spec_read_string(b, pos) {
        None => unknown_v(b),
        Some((sid, p1)) => match spec_read_u8(b, p1) {
            None => unknown_v(b),
            Some((m, p2)) => ResponseV::Connect(
                ConnectV { mystery_number: m, short_identifier: sid },
            ),
        },
    }
}

impl Response {
    pub fn nat_punch(
        mystery_number: u8,
        local_host: String,
        local_port: u32,
        remote_host: String,
        remote_port: u32,
        short_identifier: String,
    ) -> (r: Response)
        ensures
            r@ == (ResponseV::NatPunch(
                NatPunchV {
                    mystery_number: mystery_number,
                    local_host: local_host@,
                    local_port: local_port,
                    remote_host: remote_host@,
                    remote_port: remote_port,
                    short_identifier: short_identifier@,
                },
            )),
    {
        Response::NatPunch(
            NatPunch {
                mystery_number,
                local_host,
                local_port,
                remote_host,
                remote_port,
                short_identifier,
            },
        )
    }

    pub fn nat_punch_error(response: String) -> (r: Response)
        ensures
            r@ == (ResponseV::NatPunchError(NatPunchErrorV { response: response@ })),
    {
        Response::NatPunchError(NatPunchError { response })
    }

    pub fn connect(mystery_number: u8, short_identifier: String) -> (r: Response)
        ensures
            r@ == (ResponseV::Connect(
                ConnectV {
                    mystery_number: mystery_number,
                    short_identifier: short_identifier@,
                },
            )),
    {
        Response::Connect(Connect { mystery_number, short_identifier })
    }

    pub fn unknown(bytes: Vec<u8>) -> (r: Response)
        ensures
            r@ == (ResponseV::Unknown(UnknownV { bytes: bytes@ })),
    {
        Response::Unknown(Unknown { bytes })
    }

    pub fn serialize(&self, revision: Revision) -> (r: Vec<u8>)
        requires
            response_len_ok(self@),
        ensures
            r@ == spec_encode_response(self@, revision),
    {
        let mut out: Vec<u8> = Vec::new();
        match self {
            Response::NatPunch(n) => {
                match revision {
                    Revision::One => {
                        out.push(TAG_NAT_PUNCH_RESPONSE_R1);
                        out.push(n.mystery_number);
                    },
                    Revision::Two => {
                        out.push(TAG_TAGGED_R2);
                        push_u64_be(&mut out, SUBTAG_NAT_PUNCH_RESPONSE_R2);
                    },
                }
                push_string(&mut out, n.local_host.as_str());
                push_u32_le(&mut out, n.local_port);
                push_string(&mut out, n.remote_host.as_str());
                push_u32_le(&mut out, n.remote_port);
                push_string(&mut out, n.short_identifier.as_str());
            },
            Response::NatPunchError(e) => {
                match revision {
                    Revision::One => out.push(TAG_NAT_PUNCH_ERROR_R1),
                    Revision::Two => out.push(TAG_NAT_PUNCH_ERROR_R2),
                }
                push_string(&mut out, e.response.as_str());
            },
            Response::Connect(c) => {
                match revision {
                    Revision::One => {
                        out.push(TAG_CONNECT_RESPONSE_R1);
                        out.push(c.mystery_number);
                        push_string(&mut out, c.short_identifier.as_str());
                    },
                    Revision::Two => {
                        out.push(TAG_TAGGED_R2);
                        push_u64_be(&mut out, SUBTAG_CONNECT_R2);
                        push_string(&mut out, c.short_identifier.as_str());
                        out.push(c.mystery_number);
                    },
                }
            },
            Response::Unknown(u) => {
                out = copy_bytes(&u.bytes);
            },
        }
        proof {
            assert(out@ =~= spec_encode_response(self@, revision));
        }
        out
    }

    /// Reads one response back from a buffer; never fails.
    pub fn deserialize(bytes: &Vec<u8>, revision: Revision) -> (r: Response)
        ensures
            r@ == spec_decode_response(bytes@, revision),
    {
        let mut pos: usize = 0;
        match read_u8(bytes, &mut pos) {
            Err(_) => Response::unknown(copy_bytes(bytes)),
            Ok(tag) => match revision {
                Revision::One => {
                    if tag == TAG_NAT_PUNCH_ERROR_R1 {
                        match Self::read_nat_punch_error(bytes, &mut pos) {
                            Ok(r) => r,
                            Err(_) => Response::unknown(copy_bytes(bytes)),
                        }
                    } else if tag == TAG_NAT_PUNCH_RESPONSE_R1 {
                        match read_u8(bytes, &mut pos) {
                            Err(_) => Response::unknown(copy_bytes(bytes)),
                            Ok(m) => match Self::read_nat_punch(bytes, &mut pos, m) {
                                Ok(r) => r,
                                Err(_) => Response::unknown(copy_bytes(bytes)),
                            },
                        }
                    } else if tag == TAG_CONNECT_RESPONSE_R1 {
                        match Self::read_connect_r1(bytes, &mut pos) {
                            Ok(r) => r,
                            Err(_) => Response::unknown(copy_bytes(bytes)),
                        }
                    } else {
                        Response::unknown(copy_bytes(bytes))
                    }
                },
                Revision::Two => {
                    if tag == TAG_NAT_PUNCH_ERROR_R2 {
                        match Self::read_nat_punch_error(bytes, &mut pos) {
                            Ok(r) => r,
                            Err(_) => Response::unknown(copy_bytes(bytes)),
                        }
                    } else if tag == TAG_TAGGED_R2 {
                        match read_u64_be(bytes, &mut pos) {
                            Err(_) => Response::unknown(copy_bytes(bytes)),
                            Ok(sub) => {
                                if sub == SUBTAG_NAT_PUNCH_RESPONSE_R2 {
                                    match Self::read_nat_punch(bytes, &mut pos, 0) {
                                        Ok(r) => r,
                                        Err(_) => Response::unknown(copy_bytes(bytes)),
                                    }
                                } else if sub == SUBTAG_CONNECT_R2 {
                                    match Self::read_connect_r2(bytes, &mut pos) {
                                        Ok(r) => r,
                                        Err(_) => Response::unknown(copy_bytes(bytes)),
                                    }
                                } else {
                                    Response::unknown(copy_bytes(bytes))
                                }
                            },
                        }
                    } else {
                        Response::unknown(copy_bytes(bytes))
                    }
                },
            },
        }
    }

    fn read_nat_punch(bytes: &Vec<u8>, pos: &mut usize, mystery_number: u8) -> (r: Result<
        Response,
        Error,
    >)
        ensures
            match r {
                Ok(resp) => spec_decode_nat_punch_response(bytes@, *old(pos) as int, mystery_number)
                    == resp@,
                Err(_) => spec_decode_nat_punch_response(bytes@, *old(pos) as int, mystery_number)
                    == unknown_v(bytes@),
            },
    {
        let local_host = match read_string(bytes, pos) {
            Ok(v) => v,
            Err(e) => {
                return Err(e);
            },
        };
        let local_port = match read_u32(bytes, pos) {
            Ok(v) => v,
            Err(e) => {
                return Err(e);
            },
        };
        let remote_host = match read_string(bytes, pos) {
            Ok(v) => v,
            Err(e) => {
                return Err(e);
            },
        };
        let remote_port = match read_u32(bytes, pos) {
            Ok(v) => v,
            Err(e) => {
                return Err(e);
            },
        };
        let short_identifier = match read_string(bytes, pos) {
            Ok(v) => v,
            Err(e) => {
                return Err(e);
            },
        };
        Ok(
            Response::NatPunch(
                NatPunch {
                    mystery_number,
                    local_host,
                    local_port,
                    remote_host,
                    remote_port,
                    short_identifier,
                },
            ),
        )
    }

    fn read_nat_punch_error(bytes: &Vec<u8>, pos: &mut usize) -> (r: Result<Response, Error>)
        ensures
            match r {
                Ok(resp) => spec_decode_nat_punch_error(bytes@, *old(pos) as int) == resp@,
                Err(_) => spec_decode_nat_punch_error(bytes@, *old(pos) as int) == unknown_v(
                    bytes@,
                ),
            },
    {
        match read_string(bytes, pos) {
            Ok(response) => Ok(Response::NatPunchError(NatPunchError { response })),
            Err(e) => Err(e),
        }
    }

    fn read_connect_r1(bytes: &Vec<u8>, pos: &mut usize) -> (r: Result<Response, Error>)
        ensures
            match r {
                Ok(resp) => spec_decode_connect_response_r1(bytes@, *old(pos) as int) == resp@,
                Err(_) => spec_decode_connect_response_r1(bytes@, *old(pos) as int) == unknown_v(
                    bytes@,
                ),
            },
    {
        let mystery_number = match read_u8(bytes, pos) {
            Ok(v) => v,
            Err(e) => {
                return Err(e);
            },
        };
        match read_string(bytes, pos) {
            Ok(short_identifier) => Ok(
                Response::Connect(Connect { mystery_number, short_identifier }),
            ),
            Err(e) => Err(e),
        }
    }

    fn read_connect_r2(bytes: &Vec<u8>, pos: &mut usize) -> (r: Result<Response, Error>)
        ensures
            match r {
                Ok(resp) => spec_decode_connect_response_r2(bytes@, *old(pos) as int) == resp@,
                Err(_) => spec_decode_connect_response_r2(bytes@, *old(pos) as int) == unknown_v(
                    bytes@,
                ),
            },
    {
        let short_identifier = match read_string(bytes, pos) {
            Ok(v) => v,
            Err(e) => {
                return Err(e);
            },
        };
        match read_u8(bytes, pos) {
            Ok(mystery_number) => Ok(
                Response::Connect(Connect { mystery_number, short_identifier }),
            ),
            Err(e) => Err(e),
        }
    }
}

} // verus!
