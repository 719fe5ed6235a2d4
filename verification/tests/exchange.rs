// The exchange state machine driven by scripted transports, and the
// session-lookup decisions.

use natpunch::codec::Error;
use natpunch::exchange::{Exchange, ExchangeState, DRAIN_TIMEOUT_MS};
use natpunch::request::Request;
use natpunch::response::Response;
use natpunch::session::{session_missing, ErrorResponse, SessionResponse};

fn coordinator_nat_punch() -> Response {
    Response::nat_punch(
        0,
        "192.168.1.150".into(),
        39918,
        "71.36.101.196".into(),
        39918,
        "s-u-usfn-orion:usfnlunarpark".into(),
    )
}

#[test]
fn exchange_connects_after_nat_punch_then_drains() {
    // the transport answers the first send with a NatPunch report and then
    // never responds again: two sends in total, Done after one idle gap
    let mut exchange = Exchange::new("S-U-USFN-Orion:USFNLunarPark".to_string(), 1234);
    let request = exchange.start();
    match request {
        Request::NatPunch(np) => {
            assert_eq!("169.254.203.224", np.host);
            assert_eq!(1234, np.port);
            assert_eq!("C;S-U-USFN-Orion:USFNLunarPark", np.full_identifier);
        },
        _ => panic!("the first send must be a NatPunch request"),
    }
    assert_eq!(ExchangeState::AwaitingCoordinatorResponse, exchange.state);
    assert_eq!(1, exchange.requests_sent);

    let follow_up = exchange.on_coordinator_response(&coordinator_nat_punch());
    let (request, host, port) = follow_up.expect("a NatPunch report asks for a follow-up");
    assert_eq!("71.36.101.196", host);
    assert_eq!(39918, port);
    match request {
        Request::Connect(c) => {
            assert_eq!(0, c.mystery_number);
            assert_eq!("s-u-usfn-orion:usfnlunarpark", c.short_identifier);
        },
        _ => panic!("the follow-up must be a Connect request"),
    }
    assert_eq!(ExchangeState::Draining, exchange.state);
    assert_eq!(2, exchange.requests_sent);

    exchange.on_drain_timeout();
    assert_eq!(ExchangeState::Done, exchange.state);
    assert_eq!(2, exchange.requests_sent);
    assert!(!exchange.apparently_hidden(true));
}

#[test]
fn exchange_sends_nothing_after_error() {
    // the transport answers the first send with an error report: exactly
    // one send, straight to draining
    let mut exchange = Exchange::new("s-u-nyaruko:my-home-world".to_string(), 40000);
    let _request = exchange.start();
    assert_eq!(1, exchange.requests_sent);

    let error = Response::nat_punch_error("SERVER_GONE:s-u-nyaruko:my-home-world".into());
    let follow_up = exchange.on_coordinator_response(&error);
    assert!(follow_up.is_none());
    assert_eq!(ExchangeState::Draining, exchange.state);
    assert_eq!(1, exchange.requests_sent);

    exchange.on_drain_timeout();
    assert_eq!(ExchangeState::Done, exchange.state);
    assert_eq!(1, exchange.requests_sent);
}

#[test]
fn drain_wait_is_750_milliseconds() {
    assert_eq!(750, DRAIN_TIMEOUT_MS);
}

#[test]
fn follow_up_identifier_is_lowercased() {
    // fails if the case normalization handed its argument back unchanged
    let mut exchange = Exchange::new("S-U-USFN-Orion:USFNLunarPark".to_string(), 1);
    let _request = exchange.start();
    let (request, _, _) = exchange
        .on_coordinator_response(&coordinator_nat_punch())
        .expect("a NatPunch report asks for a follow-up");
    match request {
        Request::Connect(c) => assert_eq!("s-u-usfn-orion:usfnlunarpark", c.short_identifier),
        _ => panic!("the follow-up must be a Connect request"),
    }
}

#[test]
fn drained_responses_mark_the_run() {
    let mut exchange = Exchange::new("x".to_string(), 2);
    let _request = exchange.start();
    let unsolicited = Response::connect(1, "x".into());
    assert!(exchange.on_coordinator_response(&unsolicited).is_none());
    exchange.on_drain_response();
    exchange.on_drain_response();
    exchange.on_drain_timeout();
    assert_eq!(ExchangeState::Done, exchange.state);
    assert_eq!(1, exchange.requests_sent);
    assert!(exchange.apparently_hidden(true));
    assert!(!exchange.apparently_hidden(false));
}

#[test]
fn session_missing_only_on_not_found_report() {
    let not_found: Result<SessionResponse, String> = Ok(SessionResponse::Error(ErrorResponse {
        error_type: "https://tools.ietf.org/html/rfc7231#section-6.5.4".to_string(),
        title: "Not Found".to_string(),
        status: 404,
        trace_id: "00-0af7651916cd43dd8448eb211c80319c-b7ad6b7169203331-00".to_string(),
    }));
    assert!(session_missing(&not_found));

    let server_error: Result<SessionResponse, String> = Ok(SessionResponse::Error(ErrorResponse {
        error_type: "about:blank".to_string(),
        title: "Internal Server Error".to_string(),
        status: 500,
        trace_id: "trace".to_string(),
    }));
    assert!(!session_missing(&server_error));

    let transport_failure: Result<SessionResponse, String> = Err("connection refused".to_string());
    assert!(!session_missing(&transport_failure));
}

#[test]
fn error_keeps_its_complaint() {
    let error = Error::from_string("not enough buffer remaining to read a u8");
    assert_eq!("not enough buffer remaining to read a u8", error.value);
}
