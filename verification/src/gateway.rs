//! The payment gateway: holds the set of connected screens, answers
//! `PaymentCapture` requests (holding the charge with a fixed success
//! probability), records `PaymentConfirmation`s in the ledger, and releases
//! a screen on `Disconnect`.
use vstd::prelude::*;

use crate::messages::{Disconnect, PaymentCapture, PaymentCaptureV, PaymentConfirmation};
use crate::text::{comma_join, dec_rep, fmt_usize, join_commas};

verus! {

/// The gateway's identity, written into every capture reply.
pub const GATEWAY_ID: &'static str = "GATEWAY";

/// The gateway's listening address, written into every capture reply.
pub const GATEWAY_IP: &'static str = "127.0.0.1:20000";

/// Percentage of capture requests that keep their `valid` flag.
pub const CAPTURE_PROBABILITY: usize = 90;

/// Relies on rand's `thread_rng` and `Rng::gen_range` over `0..100`: a draw
/// from a non-empty range (so the call cannot panic) whose result lies in
/// that range.  Nothing more is assumed of a random value.
#[verifier::external_body]
fn draw_percent() -> (r: usize)
    ensures
        r < 100,
{
    rand::Rng::gen_range(&mut rand::thread_rng(), 0usize..100usize)
}

/// Relies on chrono's `Local::now` and `DateTime::format` with
/// `%Y-%m-%d %H:%M:%S`: the current local time as text.  Nothing is assumed
/// of the clock's value.
#[verifier::external_body]
fn now_timestamp() -> (r: String) {
    chrono::Local::now().format("%Y-%m-%d %H:%M:%S").to_string()
}

impl PaymentCapture {
    /// The capture decision applied to a known draw: the hold stands exactly
    /// when it was still valid and the draw fell under the success
    /// probability; `ip` and `id` are rewritten to the responder's identity.
    pub fn apply_capture(capture: Self, roll: usize, new_id: &str, new_ip: &str) -> (r: Self)
        requires
            roll < 100,
        ensures
            r@ == (PaymentCaptureV {
                ip: new_ip@,
                id: new_id@,
                message: capture@.message,
                valid: capture@.valid && roll < CAPTURE_PROBABILITY,
            }),
    {
        let mut capture = capture;
        if roll >= CAPTURE_PROBABILITY {
            capture.valid = false;
        }
        capture.id = String::from_str(new_id);
        capture.ip = String::from_str(new_ip);
        capture
    }

    /// Captures a payment: draws once and applies `apply_capture`.  The
    /// reply carries the responder's identity and can only lose, never
    /// gain, validity; what it is for each draw is `apply_capture`'s
    /// contract.
    pub fn capture_payment(capture: Self, new_id: &str, new_ip: &str) -> (r: Self)
        ensures
            r@.ip == new_ip@,
            r@.id == new_id@,
            r@.message == capture@.message,
            r@.valid ==> capture@.valid,
    {
        let roll = draw_percent();
        Self::apply_capture(capture, roll, new_id, new_ip)
    }
}

/// The ledger text recorded for one confirmed order, after the timestamp:
/// the confirming screen's id, the order size, and the flavour list in the
/// order's own sequence.
pub open spec fn ledger_body(screen_id: Seq<char>, size: nat, flavours: Seq<Seq<char>>) -> Seq<
    char,
> {
    screen_id + " completed order of size "@ + dec_rep(size) + " with flavours "@ + comma_join(
        flavours,
    )
}

/// Builds one full ledger line from a timestamp and a confirmation.
pub fn ledger_entry(ts: String, confirmation: &PaymentConfirmation) -> (line: String)
    ensures
        line@ == ts@ + " "@ + ledger_body(
            confirmation@.id,
            confirmation@.order_data.size as nat,
            confirmation@.order_data.flavours,
        ),
{
    let mut line = ts;
    line.append(" ");
    line.append(confirmation.id.as_str());
    line.append(" completed order of size ");
    let size_str = fmt_usize(confirmation.order_data.size);
    line.append(size_str.as_str());
    line.append(" with flavours ");
    let flavours_str = join_commas(&confirmation.order_data.flavours);
    line.append(flavours_str.as_str());
    proof {
        assert(line@ =~= ts@ + " "@ + ledger_body(
            confirmation@.id,
            confirmation@.order_data.size as nat,
            confirmation@.order_data.flavours,
        ));
    }
    line
}

/// A frame the gateway can receive, already decoded.
pub enum GatewayEvent {
    Capture(PaymentCapture),
    Confirmation(PaymentConfirmation),
    Bye(Disconnect),
}

/// What the gateway asks its shell to do in response to one frame.
pub enum GatewayAction {
    /// Send the capture reply back on the originating screen's connection.
    Reply { to: String, capture: PaymentCapture },
    /// Append one line to the ledger.
    Append { line: String },
}

/// True when `conns` holds an entry for the address `ip`.
pub open spec fn has_conn(conns: Seq<Seq<char>>, ip: Seq<char>) -> bool {
    exists|i: int| 0 <= i < conns.len() && conns[i] == ip
}

/// The connection list with every entry for `ip` dropped.
pub open spec fn remaining_connections(conns: Seq<Seq<char>>, ip: Seq<char>) -> Seq<Seq<char>> {
    conns.filter(|c: Seq<char>| c != ip)
}

pub ghost struct GatewayV {
    pub connections: Seq<Seq<char>>,
}

/// The gateway's state: the addresses of the screens still connected.
pub struct Gateway {
    pub connections: Vec<String>,
}

impl View for Gateway {
    type V = GatewayV;

    open spec fn view(&self) -> GatewayV {
        GatewayV { connections: self.connections.deep_view() }
    }
}

impl Gateway {
    pub fn new(_connections: Vec<String>) -> (r: Self)
        ensures
            r@.connections == _connections.deep_view(),
    {
        Gateway { connections: _connections }
    }

    /// The index of the first connection for `ip`, if one is held.
    fn find_conn(&self, ip: &String) -> (r: Option<usize>)
        ensures
            match r {
                Some(i) => i < self@.connections.len() && self@.connections[i as int] == ip@,
                None => !has_conn(self@.connections, ip@),
            },
    {
        let mut i: usize = 0;
        while i < self.connections.len()
            invariant
                i <= self@.connections.len(),
                forall|j: int| 0 <= j < i ==> self@.connections[j] != ip@,
            decreases self@.connections.len() - i,
        {
            proof {
                assert(self@.connections[i as int] == self.connections@[i as int]@);
            }
            if self.connections[i] == *ip {
                return Some(i);
            }
            i = i + 1;
        }
        None
    }

    /// All screens have disconnected: service is over.
    pub fn finished(&self) -> (r: bool)
        ensures
            r == (self@.connections.len() == 0),
    {
        self.connections.is_empty()
    }

    /// One step of the gateway: dispatch one decoded frame.
    ///
    /// A capture from a connected screen is answered exactly once, with the
    /// gateway's identity and a validity that the draw can only revoke; a
    /// confirmation appends exactly one ledger line and is never answered; a
    /// disconnect removes the sender's connection and nothing else.
    pub fn handle(&mut self, event: GatewayEvent) -> (out: Vec<GatewayAction>)
        ensures
            match event {
                GatewayEvent::Capture(c) => {
                    &&& final(self)@ == old(self)@
                    &&& has_conn(old(self)@.connections, c@.ip) ==> {
                        &&& out@.len() == 1
                        &&& out@[0] matches GatewayAction::Reply { to, capture }
                            && to@ == c@.ip
                            && capture@.id == GATEWAY_ID@
                            && capture@.ip == GATEWAY_IP@
                            && capture@.message == c@.message
                            && (capture@.valid ==> c@.valid)
                    }
                    &&& !has_conn(old(self)@.connections, c@.ip) ==> out@.len() == 0
                },
                GatewayEvent::Confirmation(conf) => {
                    &&& final(self)@ == old(self)@
                    &&& out@.len() == 1
                    &&& out@[0] matches GatewayAction::Append { line }
                        && exists|ts: Seq<char>|
                            line@ == ts + " "@ + ledger_body(
                                conf@.id,
                                conf@.order_data.size as nat,
                                conf@.order_data.flavours,
                            )
                },
                GatewayEvent::Bye(d) => {
                    &&& out@.len() == 0
                    &&& final(self)@.connections == remaining_connections(
                        old(self)@.connections,
                        d@.ip,
                    )
                },
            },
    {
        match event {
            GatewayEvent::Capture(c) => {
                let client_ip = c.ip.clone();
                let found = self.find_conn(&client_ip);
                let reply = PaymentCapture::capture_payment(c, GATEWAY_ID, GATEWAY_IP);
                let mut out: Vec<GatewayAction> = Vec::new();
                if let Some(_i) = found {
                    out.push(GatewayAction::Reply { to: client_ip, capture: reply });
                }
                out
            },
            GatewayEvent::Confirmation(conf) => {
                let ts = now_timestamp();
                let ghost ts_view = ts@;
                let line = ledger_entry(ts, &conf);
                let mut out: Vec<GatewayAction> = Vec::new();
                out.push(GatewayAction::Append { line });
                out
            },
            GatewayEvent::Bye(d) => {
                self.remove_conn(&d.ip);
                Vec::new()
            },
        }
    }

    /// Drops every connection entry whose address equals `ip`.
    fn remove_conn(&mut self, ip: &String)
        ensures
            final(self)@.connections == remaining_connections(old(self)@.connections, ip@),
    {
        let mut kept: Vec<String> = Vec::new();
        let mut i: usize = 0;
        while i < self.connections.len()
            invariant
                i <= self.connections.len(),
                self@ == old(self)@,
                kept.deep_view() == remaining_connections(
                    self.connections.deep_view().subrange(0, i as int),
                    ip@,
                ),
            decreases self.connections.len() - i,
        {
            let ghost pre_kept = kept.deep_view();
            proof {
                assert(self.connections.deep_view()[i as int] == self.connections@[i as int]@);
            }
            if self.connections[i] != *ip {
                let item = self.connections[i].clone();
                kept.push(item);
                proof {
                    assert(kept.deep_view() =~= pre_kept.push(
                        self.connections.deep_view()[i as int],
                    ));
                }
            }
            proof {
                let pre = self.connections.deep_view().subrange(0, i as int);
                let cur = self.connections.deep_view().subrange(0, (i + 1) as int);
                assert(cur.drop_last() =~= pre);
                assert(cur.last() == self.connections.deep_view()[i as int]);
                reveal_with_fuel(Seq::<_>::filter, 2);
                assert(kept.deep_view() =~= remaining_connections(cur, ip@));
            }
            i = i + 1;
        }
        proof {
            assert(self.connections.deep_view().subrange(0, self.connections.len() as int)
                =~= self.connections.deep_view());
        }
        self.connections = kept;
    }
}

} // verus!
