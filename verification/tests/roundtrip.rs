// The codec's governing properties exercised on concrete values: round
// trips under both revisions (including empty strings, multi-byte UTF-8
// and boundary ports), truncation at every byte offset, unrecognized
// tags, and revision isolation.

use natpunch::codec::{Codec, Revision};
use natpunch::request::{self, Request};
use natpunch::response::{self, Response};

fn request_values() -> Vec<Request> {
    vec![
        Request::NatPunch(request::NatPunch {
            host: "169.254.203.224".into(),
            port: 1234,
            full_identifier: "C;S-U-USFN-Orion:USFNLunarPark".into(),
        }),
        Request::NatPunch(request::NatPunch {
            host: "".into(),
            port: 0,
            full_identifier: "".into(),
        }),
        Request::NatPunch(request::NatPunch {
            host: "~ASCII-max:}".into(),
            port: 65535,
            full_identifier: "C;Grüße-εξαίρεση-世界".into(),
        }),
        Request::Connect(request::Connect {
            mystery_number: 0,
            short_identifier: "s-u-lexevonet:lexlab".into(),
        }),
        Request::Connect(request::Connect { mystery_number: 1, short_identifier: "".into() }),
        Request::Connect(request::Connect {
            mystery_number: 255,
            short_identifier: "δηλώσεις-𝄞".into(),
        }),
    ]
}

fn response_values(revision: Revision) -> Vec<Response> {
    // the Revision 2 NatPunch layout has no flag byte, so only a zero flag
    // survives the trip under that revision
    let mystery = match revision {
        Revision::One => 7,
        Revision::Two => 0,
    };
    vec![
        Response::nat_punch(
            mystery,
            "192.168.1.150".into(),
            39918,
            "71.36.101.196".into(),
            65535,
            "s-u-usfn-orion:usfnlunarpark".into(),
        ),
        Response::nat_punch(0, "".into(), 0, "".into(), 0, "".into()),
        Response::nat_punch(mystery, "Grüße".into(), 1, "世界".into(), 2, "𝄞-clef".into()),
        Response::nat_punch_error("SERVER_GONE:s-u-nyaruko:my-home-world".into()),
        Response::nat_punch_error("".into()),
        Response::connect(1, "s-u-usfn-orion:usfnlunarpark".into()),
        Response::connect(0, "".into()),
        Response::connect(255, "ħëłlö-мир".into()),
    ]
}

#[test]
fn request_round_trip_rev1() {
    for request in request_values() {
        let bytes = request.serialize(Revision::One);
        assert_eq!(Some(request), Request::deserialize(&bytes, Revision::One));
    }
}

#[test]
fn request_round_trip_rev2() {
    for request in request_values() {
        let bytes = request.serialize(Revision::Two);
        assert_eq!(Some(request), Request::deserialize(&bytes, Revision::Two));
    }
}

#[test]
fn response_round_trip_rev1() {
    for response in response_values(Revision::One) {
        let bytes = response.serialize(Revision::One);
        assert_eq!(response, Response::deserialize(&bytes, Revision::One));
    }
}

#[test]
fn response_round_trip_rev2() {
    for response in response_values(Revision::Two) {
        let bytes = response.serialize(Revision::Two);
        assert_eq!(response, Response::deserialize(&bytes, Revision::Two));
    }
}

#[test]
fn truncation_always_yields_unknown() {
    for revision in [Revision::One, Revision::Two] {
        for response in response_values(revision) {
            let bytes = response.serialize(revision);
            for cut in 0..bytes.len() {
                let prefix: Vec<u8> = bytes[..cut].to_vec();
                match Response::deserialize(&prefix, revision) {
                    Response::Unknown(u) => assert_eq!(prefix, u.bytes),
                    _ => panic!("truncated buffer did not decode to Unknown"),
                }
            }
        }
    }
}

#[test]
fn unrecognized_tag_yields_unknown() {
    let buffer: Vec<u8> = vec![0xFF, 0x0D, 0x00, 0x00, 0x00, 0x61];
    for revision in [Revision::One, Revision::Two] {
        match Response::deserialize(&buffer, revision) {
            Response::Unknown(u) => assert_eq!(buffer, u.bytes),
            _ => panic!("unrecognized tag did not decode to Unknown"),
        }
    }
}

#[test]
fn unrecognized_sub_tag_yields_unknown() {
    let mut buffer: Vec<u8> = vec![0x10];
    buffer.extend_from_slice(&[0x01, 0x02, 0x03, 0x04, 0x05, 0x06, 0x07, 0x08]);
    buffer.extend_from_slice(&[0x00, 0x00, 0x00, 0x00]);
    match Response::deserialize(&buffer, Revision::Two) {
        Response::Unknown(u) => assert_eq!(buffer, u.bytes),
        _ => panic!("unrecognized sub-tag did not decode to Unknown"),
    }
}

#[test]
fn invalid_utf8_yields_unknown() {
    // a complete Revision 1 error frame whose string bytes are not UTF-8
    let buffer: Vec<u8> = vec![0x0B, 0x02, 0x00, 0x00, 0x00, 0xFF, 0xFF];
    match Response::deserialize(&buffer, Revision::One) {
        Response::Unknown(u) => assert_eq!(buffer, u.bytes),
        _ => panic!("invalid UTF-8 did not decode to Unknown"),
    }
}

#[test]
fn revision_isolation_responses() {
    for (enc, dec) in [(Revision::One, Revision::Two), (Revision::Two, Revision::One)] {
        for response in response_values(enc) {
            let bytes = response.serialize(enc);
            match Response::deserialize(&bytes, dec) {
                Response::Unknown(u) => assert_eq!(bytes, u.bytes),
                _ => panic!("cross-revision buffer decoded as a message"),
            }
        }
    }
}

#[test]
fn revision_isolation_requests() {
    for (enc, dec) in [(Revision::One, Revision::Two), (Revision::Two, Revision::One)] {
        for request in request_values() {
            let bytes = request.serialize(enc);
            assert_eq!(None, Request::deserialize(&bytes, dec));
        }
    }
}

#[test]
fn unknown_round_trips_its_raw_bytes() {
    let raw: Vec<u8> = vec![0xFF, 0xEE, 0xDD];
    let response = Response::unknown(raw.clone());
    assert_eq!(raw, response.serialize(Revision::One));
    assert_eq!(raw, response.serialize(Revision::Two));
}

#[test]
fn codec_decode_empty_is_no_message() {
    let codec = Codec::new(Revision::Two);
    assert_eq!(None, codec.decode(&Vec::new()));
    let default_codec = Codec::default();
    assert_eq!(Revision::Two, default_codec.revision);
}

#[test]
fn codec_encode_matches_serialize() {
    let codec = Codec::new(Revision::One);
    let request = Request::nat_punch("10.0.0.1".into(), 9, "C;x".into());
    let direct = request.serialize(Revision::One);
    assert_eq!(direct, codec.encode(&request));
    let decoded = codec.decode(&direct).expect("a non-empty buffer carries a message");
    if let Response::Unknown(u) = decoded {
        // 0x0C is a request tag; the response decoder does not know it
        assert_eq!(direct, u.bytes);
    } else {
        panic!("a request buffer should not decode as a response");
    }
}
