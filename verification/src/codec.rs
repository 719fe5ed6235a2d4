//! Protocol-level error type and the revision-selecting codec.

use vstd::prelude::*;

use crate::request::{request_len_ok, spec_encode_request, Request};
use crate::response::{spec_decode_response, Response};

verus! {

/// The two incompatible wire formats observed in the field. They are never
/// auto-detected: a caller picks one explicitly.
#[derive(Clone, Copy, PartialEq, Eq, Structural, Debug)]
pub enum Revision {
    One,
    Two,
}

// Discriminator bytes. Under Revision 1 each message kind has its own
// leading tag. Under Revision 2 requests and most responses share the tag
// 0x10 and are told apart by a fixed big-endian 64-bit sub-tag that follows
// it; the error report keeps a plain tag of its own.
pub const TAG_NAT_PUNCH_REQUEST_R1: u8 = 0x0C;
pub const TAG_CONNECT_REQUEST_R1: u8 = 0x0E;
pub const TAG_NAT_PUNCH_ERROR_R1: u8 = 0x0B;
pub const TAG_NAT_PUNCH_RESPONSE_R1: u8 = 0x0D;
pub const TAG_CONNECT_RESPONSE_R1: u8 = 0x0E;
pub const TAG_TAGGED_R2: u8 = 0x10;
pub const TAG_NAT_PUNCH_ERROR_R2: u8 = 0x08;
pub const SUBTAG_NAT_PUNCH_REQUEST_R2: u64 = 0x88BE1026BFB1669C;
pub const SUBTAG_NAT_PUNCH_RESPONSE_R2: u64 = 0x44DBCBFBC9229161;
pub const SUBTAG_CONNECT_R2: u64 = 0x4A4F5C2E7984F8D2;

/// A structural decoding failure, carrying the decoder's specific complaint.
#[derive(Debug)]
pub struct Error {
    pub value: String,
}

impl Error {
    pub fn from_string(value: &str) -> (e: Error)
        ensures
            e.value@ == value@,
    {
        Error { value: value.to_owned() }
    }
}

/// One encoder/decoder pair behind one value, in the shape a framed
/// transport consumes: requests out, responses in, one datagram each way.
pub struct Codec {
    pub revision: Revision,
}

impl Codec {
    pub fn new(revision: Revision) -> (c: Codec)
        ensures
            c.revision == revision,
    {
        Codec { revision }
    }

    /// Encodes one outbound request as a single datagram payload.
    pub fn encode(&self, item: &Request) -> (r: Vec<u8>)
        requires
            request_len_ok(item@),
        ensures
            r@ == spec_encode_request(item@, self.revision),
    {
        item.serialize(self.revision)
    }

    /// Decodes one inbound datagram payload; an empty buffer carries no
    /// message.
    pub fn decode(&self, src: &Vec<u8>) -> (r: Option<Response>)
        ensures
            match r {
                Some(resp) => src@.len() > 0 && resp@ == spec_decode_response(
                    src@,
                    self.revision,
                ),
                None => src@.len() == 0,
            },
    {
        if src.len() == 0 {
            None
        } else {
            Some(Response::deserialize(src, self.revision))
        }
    }
}

impl Default for Codec {
    /// The revision observed in current deployments.
    fn default() -> (c: Codec)
        ensures
            c.revision == Revision::Two,
    {
        Codec { revision: Revision::Two }
    }
}

} // verus!
