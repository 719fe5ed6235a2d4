//! The exchange state machine driving the NAT-punch-then-connect sequence.
//!
//! The machine decides; the caller performs. Each step function takes the
//! event the caller observed (the coordinator's response, a drained
//! datagram, an idle timeout) and returns what to send next, if anything.
//! The caller owns the socket, the clock and the address resolution, and
//! drives the machine: send the rendezvous request, wait (untimed) for the
//! coordinator, optionally send the follow-up, then drain with a fixed
//! inactivity window until a wait elapses empty.

use vstd::prelude::*;
use vstd::string::StringExecFns;

use crate::request::{ConnectV, NatPunchV, Request, RequestV};
use crate::response::Response;

verus! {

/// The inactivity window, in milliseconds, bounding each wait of the
/// draining phase. Only the sum of consecutive idle gaps bounds the total
/// time: a peer that keeps answering faster than this keeps the drain
/// alive, a documented limitation of the protocol.
pub const DRAIN_TIMEOUT_MS: u64 = 750;

#[derive(Clone, Copy, PartialEq, Eq, Structural, Debug)]
pub enum ExchangeState {
    Start,
    AwaitingCoordinatorResponse,
    Draining,
    Done,
}

/// What `str::to_lowercase` returns; the result depends on the characters
/// alone.
pub uninterp spec fn lower_of(s: Seq<char>) -> Seq<char>;

/// Relies on `str::to_lowercase` for the protocol's case normalization:
/// the confirmation message carries the identifier in lowercase.
#[verifier::external_body]
fn lowercase(s: &str) -> (r: String)
    ensures
        r@ == lower_of(s@),
{
    s.to_lowercase()
}

/// One run of the rendezvous exchange. The run sends exactly one
/// rendezvous request, then at most one follow-up confirmation, and keeps
/// no other cross-message state.
pub struct Exchange {
    pub state: ExchangeState,
    /// the session identifier as supplied by the caller
    pub session_id: String,
    /// the local UDP port announced in the rendezvous request
    pub local_port: u32,
    /// how many sends the machine has asked for so far
    pub requests_sent: u64,
    /// whether any datagram arrived while draining
    pub got_response: bool,
}

impl Exchange {
    /// Each state pins down how many sends the machine has asked for: none
    /// before the run starts, one while the coordinator's answer is
    /// pending, and at most two from then on.
    pub open spec fn wf(self) -> bool {
        match self.state {
            ExchangeState::Start => self.requests_sent == 0 && !self.got_response,
            ExchangeState::AwaitingCoordinatorResponse => self.requests_sent == 1
                && !self.got_response,
            ExchangeState::Draining => self.requests_sent <= 2,
            ExchangeState::Done => self.requests_sent <= 2,
        }
    }

    pub fn new(session_id: String, local_port: u32) -> (e: Exchange)
        ensures
            e.wf(),
            e.state == ExchangeState::Start,
            e.session_id@ == session_id@,
            e.local_port == local_port,
            e.requests_sent == 0,
            !e.got_response,
    {
        Exchange {
            state: ExchangeState::Start,
            session_id,
            local_port,
            requests_sent: 0,
            got_response: false,
        }
    }

    /// The one rendezvous request of the run, to be sent to the fixed
    /// coordinator address: the announced link-local host, the local port,
    /// and the session identifier in its uppercase-prefixed form. The
    /// caller then waits, untimed, for the coordinator's single answer.
    pub fn start(&mut self) -> (r: Request)
        requires
            old(self).state == ExchangeState::Start,
            old(self).wf(),
        ensures
            final(self).wf(),
            final(self).state == ExchangeState::AwaitingCoordinatorResponse,
            final(self).requests_sent == 1,
            !final(self).got_response,
            final(self).session_id@ == old(self).session_id@,
            final(self).local_port == old(self).local_port,
            r@ == (RequestV::NatPunch(
                NatPunchV {
                    host: "169.254.203.224"@,
                    port: old(self).local_port,
                    full_identifier: "C;"@ + old(self).session_id@,
                },
            )),
    {
        let mut full_identifier = "C;".to_owned();
        full_identifier.append(self.session_id.as_str());
        let host = "169.254.203.224".to_owned();
        let request = Request::nat_punch(host, self.local_port, full_identifier);
        self.state = ExchangeState::AwaitingCoordinatorResponse;
        self.requests_sent = 1;
        request
    }

    /// Interprets the coordinator's one answer. A `NatPunch` report names
    /// the peer: the machine asks for exactly one follow-up `Connect`
    /// (lowercased identifier, zero flag) to the peer's advertised host
    /// and port. Any other answer asks for nothing. Either way the run
    /// moves on to draining.
    pub fn on_coordinator_response(&mut self, response: &Response) -> (r: Option<
        (Request, String, u32),
    >)
        requires
            old(self).state == ExchangeState::AwaitingCoordinatorResponse,
            old(self).wf(),
        ensures
            final(self).wf(),
            final(self).state == ExchangeState::Draining,
            final(self).session_id@ == old(self).session_id@,
            final(self).local_port == old(self).local_port,
            final(self).got_response == old(self).got_response,
            match response {
                Response::NatPunch(np) => {
                    &&& final(self).requests_sent == 2
                    &&& match r {
                        Some((req, host, port)) => {
                            &&& req@ == (RequestV::Connect(
                                ConnectV {
                                    mystery_number: 0,
                                    short_identifier: lower_of(old(self).session_id@),
                                },
                            ))
                            &&& host@ == np.remote_host@
                            &&& port == np.remote_port
                        },
                        None => false,
                    }
                },
                _ => final(self).requests_sent == 1 && r is None,
            },
    {
        self.state = ExchangeState::Draining;
        match response {
            Response::NatPunch(np) => {
                let short_identifier = lowercase(self.session_id.as_str());
                let request = Request::connect(short_identifier);
                let host = np.remote_host.clone();
                self.requests_sent = 2;
                Some((request, host, np.remote_port))
            },
            _ => None,
        }
    }

    /// A datagram arrived while draining: the caller reports it and
    /// restarts the wait. The machine only records that something came.
    pub fn on_drain_response(&mut self)
        requires
            old(self).state == ExchangeState::Draining,
            old(self).wf(),
        ensures
            final(self).wf(),
            final(self).state == ExchangeState::Draining,
            final(self).got_response,
            final(self).requests_sent == old(self).requests_sent,
            final(self).session_id@ == old(self).session_id@,
            final(self).local_port == old(self).local_port,
    {
        self.got_response = true;
    }

    /// A drain wait elapsed with nothing received: the run is over.
    pub fn on_drain_timeout(&mut self)
        requires
            old(self).state == ExchangeState::Draining,
            old(self).wf(),
        ensures
            final(self).wf(),
            final(self).state == ExchangeState::Done,
            final(self).got_response == old(self).got_response,
            final(self).requests_sent == old(self).requests_sent,
            final(self).session_id@ == old(self).session_id@,
            final(self).local_port == old(self).local_port,
    {
        self.state = ExchangeState::Done;
    }

    /// The "apparently hidden" note of the final report: some peer
    /// answered during draining although the metadata service reported the
    /// session absent.
    pub fn apparently_hidden(&self, session_missing: bool) -> (r: bool)
        ensures
            r == (self.got_response && session_missing),
    {
        self.got_response && session_missing
    }
}

/// However the exchange is driven, a well-formed run never asks for more
/// than two sends: the rendezvous request and at most one follow-up.
pub proof fn lemma_at_most_two_requests(e: Exchange)
    requires
        e.wf(),
    ensures
        e.requests_sent <= 2,
{
}

} // verus!
