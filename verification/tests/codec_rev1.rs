// Revision 1 wire format: decoding the observed datagrams, and the exact
// golden encoding of the rendezvous request.

use natpunch::codec::Revision;
use natpunch::request::NatPunch;
use natpunch::response::Response;

#[test]
fn response_test_deserialize_nat_punch() {
    let vec = hex::decode("0D000D0000003139322E3136382E312E313530EE9B00000D00000037312E33362E3130312E313936EE9B00001C000000732D752D7573666E2D6F72696F6E3A7573666E6C756E61727061726B").unwrap();
    let response = Response::deserialize(&vec, Revision::One);
    if let Response::NatPunch(nat_punch) = response {
        assert_eq!(0, nat_punch.mystery_number);
        assert_eq!("192.168.1.150", nat_punch.local_host);
        assert_eq!(39918, nat_punch.local_port);
        assert_eq!("71.36.101.196", nat_punch.remote_host);
        assert_eq!(39918, nat_punch.remote_port);
        assert_eq!("s-u-usfn-orion:usfnlunarpark", nat_punch.short_identifier);
    } else {
        panic!("response was not a NatPunch");
    }
}

#[test]
fn response_test_deserialize_nat_punch_error() {
    let vec = hex::decode("0B300000005345525645525F474F4E453A31633336633131662D636238652D343366312D393835642D396162393364366638366432").unwrap();
    let response = Response::deserialize(&vec, Revision::One);
    if let Response::NatPunchError(nat_error) = response {
        assert_eq!("SERVER_GONE:1c36c11f-cb8e-43f1-985d-9ab93d6f86d2", nat_error.response);
    } else {
        panic!("response was not a NatPunchError");
    }
}

#[test]
fn response_test_deserialize_connect() {
    let vec = hex::decode("0e011c000000732d752d7573666e2d6f72696f6e3a7573666e6c756e61727061726b").unwrap();
    let response = Response::deserialize(&vec, Revision::One);
    if let Response::Connect(connect) = response {
        assert_eq!(1, connect.mystery_number);
        assert_eq!("s-u-usfn-orion:usfnlunarpark", connect.short_identifier);
    } else {
        panic!("response was not a Connect");
    }
}

#[test]
fn serialize_nat_punch_rev1_golden() {
    let expected = hex::decode("0C0F0000003136392E3235342E3230332E323234D20400001E000000433B532D552D5553464E2D4F72696F6E3A5553464E4C756E61725061726B").unwrap();
    let request = NatPunch {
        host: "169.254.203.224".into(),
        port: 1234,
        full_identifier: "C;S-U-USFN-Orion:USFNLunarPark".into(),
    };
    let actual = request.serialize(Revision::One);
    assert_eq!(expected, actual);
}

#[test]
fn serialize_connect_rev1() {
    // tag, flag byte, then the length-prefixed identifier
    let expected = hex::decode("0E0114000000732D752D6C657865766F6E65743A6C65786C6162").unwrap();
    let request = natpunch::request::Connect {
        mystery_number: 1,
        short_identifier: "s-u-lexevonet:lexlab".into(),
    };
    let actual = request.serialize(Revision::One);
    assert_eq!(expected, actual);
}
