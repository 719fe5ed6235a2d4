// Revision 2 wire format: the shared 0x10 tag with 64-bit sub-tags, the
// plain-tagged error report, and the observed datagrams.

use natpunch::codec::Revision;
use natpunch::request::{Connect, NatPunch};
use natpunch::response::Response;

#[test]
fn test_serialize_nat_punch() {
    let expected = hex::decode("1088be1026bfb1669c0b0000003137322e32322e302e3131e3ca000028000000433b532d33323434336264392d633730392d343739382d396636352d633339326432643230316134").unwrap();
    let request = NatPunch {
        host: "172.22.0.11".into(),
        port: 51939,
        full_identifier: "C;S-32443bd9-c709-4798-9f65-c392d2d201a4".into(),
    };
    let actual = request.serialize(Revision::Two);
    assert_eq!(expected, actual);
}

#[test]
fn test_serialize_connect() {
    let expected = hex::decode("104a4f5c2e7984f8d214000000732d752d6c657865766f6e65743a6c65786c616201").unwrap();
    let request = Connect { mystery_number: 1, short_identifier: "s-u-lexevonet:lexlab".into() };
    let actual = request.serialize(Revision::Two);
    assert_eq!(expected, actual);
}

#[test]
fn test_deserialize_nat_punch() {
    let vec = hex::decode("1044dbcbfbc92291610d0000003139322e3136382e312e31353007d500000c00000037312e33362e3132352e363307d5000016000000732d752d7573666e2d6f72696f6e3a7573666e617673").unwrap();
    let response = Response::deserialize(&vec, Revision::Two);
    if let Response::NatPunch(nat_punch) = response {
        assert_eq!("192.168.1.150", nat_punch.local_host);
        assert_eq!(54535, nat_punch.local_port);
        assert_eq!("71.36.125.63", nat_punch.remote_host);
        assert_eq!(54535, nat_punch.remote_port);
        assert_eq!("s-u-usfn-orion:usfnavs", nat_punch.short_identifier);
    } else {
        panic!("response was not a NatPunch");
    }
}

#[test]
fn test_deserialize_nat_punch_error() {
    let vec = hex::decode("08250000005345525645525f474f4e453a732d752d6e796172756b6f3a6d792d686f6d652d776f726c64").unwrap();
    let response = Response::deserialize(&vec, Revision::Two);
    if let Response::NatPunchError(nat_error) = response {
        assert_eq!("SERVER_GONE:s-u-nyaruko:my-home-world", nat_error.response);
    } else {
        panic!("response was not a NatPunchError");
    }
}

#[test]
fn test_deserialize_connect() {
    let vec = hex::decode("104a4f5c2e7984f8d214000000732d752d6c657865766f6e65743a6c65786c616201").unwrap();
    let response = Response::deserialize(&vec, Revision::Two);
    if let Response::Connect(connect) = response {
        assert_eq!(1, connect.mystery_number);
        assert_eq!("s-u-lexevonet:lexlab", connect.short_identifier);
    } else {
        panic!("response was not a Connect");
    }
}

#[test]
fn deserialize_nat_punch_rev2_flag_byte_is_zero() {
    // the Revision 2 layout carries no flag byte; it decodes as zero
    let vec = hex::decode("1044dbcbfbc92291610d0000003139322e3136382e312e31353007d500000c00000037312e33362e3132352e363307d5000016000000732d752d7573666e2d6f72696f6e3a7573666e617673").unwrap();
    let response = Response::deserialize(&vec, Revision::Two);
    if let Response::NatPunch(nat_punch) = response {
        assert_eq!(0, nat_punch.mystery_number);
    } else {
        panic!("response was not a NatPunch");
    }
}
