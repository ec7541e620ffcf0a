//! A fabrication robot: one node of the unidirectional token ring.  It
//! forwards every ingredient token it receives, consumes from a token when
//! its current order needs that flavour, accepts at most one order at a
//! time, and heals the ring by skipping a dead next-hop neighbour.
use vstd::prelude::*;
use vstd::pervasive::VecAdditionalExecFns;

use crate::messages::{
    Disconnect, DisconnectV, Flavour, FlavourV, OrderPrep, OrderPrepV, OrderRequest,
    OrderRequestV, ORDER_FAILED, ORDER_SUCCESS, ROBOT_OCCUPIED,
};
use crate::text::{dec_rep, fmt_usize};

verus! {

/// A robot's listening address is this prefix followed by its id in decimal.
pub const ROBOT_IP_PREFIX: &'static str = "127.0.0.1:3000";

/// Token amounts count thousandths of a unit, so that sharing an order's
/// size over its flavours stays exact integer arithmetic.
pub const AMOUNT_SCALE: u64 = 1000;

/// The amount a fresh token carries: ten units.
pub const DEFAULT_AMOUNT: u64 = 10000;

/// The address the robot with this id listens on.
pub open spec fn robot_addr_view(id: nat) -> Seq<char> {
    ROBOT_IP_PREFIX@ + dec_rep(id)
}

/// Builds the listening address of robot `id`.
pub fn robot_addr(id: usize) -> (r: String)
    ensures
        r@ == robot_addr_view(id as nat),
{
    let mut r = String::from_str(ROBOT_IP_PREFIX);
    let digits = fmt_usize(id);
    r.append(digits.as_str());
    r
}

/// How much of one flavour the current order still requires.
pub struct NeedEntry {
    pub name: String,
    pub amount: u64,
}

pub ghost struct NeedEntryV {
    pub name: Seq<char>,
    pub amount: int,
}

impl View for NeedEntry {
    type V = NeedEntryV;

    open spec fn view(&self) -> NeedEntryV {
        NeedEntryV { name: self.name@, amount: self.amount as int }
    }
}

impl DeepView for NeedEntry {
    type V = NeedEntryV;

    open spec fn deep_view(&self) -> NeedEntryV {
        self.view()
    }
}

/// True when some entry tracks the flavour `name`.
pub open spec fn has_need(needs: Seq<NeedEntryV>, name: Seq<char>) -> bool {
    exists|i: int| 0 <= i < needs.len() && needs[i].name == name
}

/// The amount still required of the flavour `name`: the tracked amount, or
/// zero when no entry tracks it.
pub open spec fn need_of(needs: Seq<NeedEntryV>, name: Seq<char>) -> int {
    if has_need(needs, name) {
        needs[choose|i: int| 0 <= i < needs.len() && needs[i].name == name].amount
    } else {
        0
    }
}

/// No two entries track the same flavour.
pub open spec fn wf_needs(needs: Seq<NeedEntryV>) -> bool {
    forall|i: int, j: int| 0 <= i < j < needs.len() ==> needs[i].name != needs[j].name
}

/// Every tracked amount is zero: no order is waiting on a flavour.
pub open spec fn all_zero(needs: Seq<NeedEntryV>) -> bool {
    forall|i: int| 0 <= i < needs.len() ==> needs[i].amount == 0
}

/// `post` is `pre` with every amount set to zero, names kept.
pub open spec fn needs_cleared(pre: Seq<NeedEntryV>, post: Seq<NeedEntryV>) -> bool {
    &&& post.len() == pre.len()
    &&& forall|i: int| 0 <= i < pre.len() ==> post[i] == (NeedEntryV { name: pre[i].name, amount: 0 })
}

/// `post` is `pre` with the amount for `name` set to zero and every other
/// entry unchanged.
pub open spec fn needs_zeroed(pre: Seq<NeedEntryV>, post: Seq<NeedEntryV>, name: Seq<char>) -> bool {
    &&& post.len() == pre.len()
    &&& forall|i: int|
        0 <= i < pre.len() ==> post[i] == (NeedEntryV {
            name: pre[i].name,
            amount: if pre[i].name == name { 0 } else { pre[i].amount },
        })
}

/// The per-flavour share of an order: `size` units split evenly over
/// `count` flavours, in thousandths, capped at what a token can carry.
pub open spec fn per_need(size: int, count: int) -> int
    recommends
        count > 0,
{
    let raw = size * (AMOUNT_SCALE as int) / count;
    if raw > u64::MAX as int { u64::MAX as int } else { raw }
}

/// `post` tracks `per` for every flavour of the order and is otherwise
/// `pre`: entries for other names keep their amounts, and no entry for any
/// further name appears.
pub open spec fn needs_loaded(
    pre: Seq<NeedEntryV>,
    post: Seq<NeedEntryV>,
    flavours: Seq<Seq<char>>,
    per: int,
) -> bool {
    &&& wf_needs(post)
    &&& forall|n: Seq<char>|
        flavours.contains(n) ==> #[trigger] has_need(post, n) && need_of(post, n) == per
    &&& forall|n: Seq<char>|
        !flavours.contains(n) ==> ((#[trigger] has_need(post, n) <==> has_need(pre, n))
            && need_of(post, n) == need_of(pre, n))
}

/// Local boot event: robot 0 answers it by putting the tokens in
/// circulation.
pub struct RobotStart();

/// Orderly local shutdown request.
pub struct Shutdown();

/// A new previous-ring neighbour has connected in: `addr` is the peer's
/// address, `local` our own address on that link.
pub struct RobotReconnect {
    pub addr: String,
    pub local: String,
}

/// A frame or local event a robot can receive, already decoded.
pub enum RobotEvent {
    Token(Flavour),
    Request(OrderRequest),
    Prep(OrderPrep),
    Bye(Disconnect),
    Start(RobotStart),
    Reconnect(RobotReconnect),
    Quit(Shutdown),
}

/// What the robot asks its shell to do in response to one event.
pub enum RobotAction {
    /// Pass a token on to the next robot in the ring.
    Forward(Flavour),
    /// Send an order message to the screen reachable at `addr`.
    ToScreen { addr: String, prep: OrderPrep },
    /// Answer an order request on the screen link at `addr`.
    ReplyRequest { addr: String, request: OrderRequest },
    /// Simulate preparation work: two seconds per consumed unit, i.e. two
    /// milliseconds per thousandth.
    Pause { milli_units: u64 },
    /// Open a new outbound ring connection to this robot: the next-hop
    /// neighbour died.
    Dial { robot_id: usize },
    /// Announce orderly exit on the previous ring link.
    ByePrevious(Disconnect),
    /// Announce orderly exit on the next ring link.
    ByeNext(Disconnect),
}

pub ghost struct RobotV {
    pub id: int,
    pub ring_size: int,
    pub addr_previous: Seq<char>,
    pub local_previous: Seq<char>,
    pub local_next: Seq<char>,
    pub flavours: Seq<Seq<char>>,
    pub needs: Seq<NeedEntryV>,
    pub current_order: Option<OrderPrepV>,
}

/// A robot's protocol state.  Connections themselves live outside; the
/// robot keeps only the addresses it writes into protocol messages and
/// compares disconnect notices against.
pub struct Robot {
    pub id: usize,
    pub ring_size: usize,
    pub addr_previous: String,
    pub local_previous: String,
    pub local_next: String,
    pub flavours: Vec<String>,
    pub need_flavours: Vec<NeedEntry>,
    pub current_order: Option<OrderPrep>,
}

impl View for Robot {
    type V = RobotV;

    open spec fn view(&self) -> RobotV {
        RobotV {
            id: self.id as int,
            ring_size: self.ring_size as int,
            addr_previous: self.addr_previous@,
            local_previous: self.local_previous@,
            local_next: self.local_next@,
            flavours: self.flavours.deep_view(),
            needs: self.need_flavours.deep_view(),
            current_order: match self.current_order {
                Some(o) => Some(o@),
                None => None,
            },
        }
    }
}

/// Handling an order request leaves the robot unchanged; a free robot
/// answers the asking screen once, with its own address and id, and a busy
/// robot stays silent.
pub open spec fn request_step(pre: RobotV, post: RobotV, req: OrderRequestV, out: Seq<RobotAction>) -> bool {
    &&& post == pre
    &&& if pre.current_order is None {
        &&& out.len() == 1
        &&& out[0] matches RobotAction::ReplyRequest { addr, request }
            && addr@ == req.ip
            && request@ == (OrderRequestV {
                message: req.message,
                ip: robot_addr_view(pre.id as nat),
                id: pre.id,
            })
    } else {
        out.len() == 0
    }
}

/// Handing an order to a busy robot bounces it back to the sending screen
/// with `ROBOT_OCCUPIED` and changes nothing; a free robot stores it as its
/// current order, loads the per-flavour needs, and stays silent until
/// tokens arrive.
pub open spec fn prep_step(pre: RobotV, post: RobotV, o: OrderPrepV, out: Seq<RobotAction>) -> bool {
    if pre.current_order is Some {
        &&& post == pre
        &&& out.len() == 1
        &&& out[0] matches RobotAction::ToScreen { addr, prep }
            && addr@ == o.ip
            && prep@ == (OrderPrepV {
                ip: robot_addr_view(pre.id as nat),
                fail_flag: ROBOT_OCCUPIED as int,
                ..o
            })
    } else {
        &&& out.len() == 0
        &&& post == (RobotV { needs: post.needs, current_order: Some(o), ..pre })
        &&& if o.flavours.len() > 0 {
            needs_loaded(pre.needs, post.needs, o.flavours, per_need(o.size, o.flavours.len() as int))
        } else {
            post.needs == pre.needs
        }
    }
}

/// Handling a token always forwards it, exactly once, under its own name.
/// A robot whose current order does not need this flavour forwards it
/// unchanged.  Otherwise the robot consumes the needed share (pausing two
/// seconds per unit) when the token carries enough, completing the order if
/// that was the last need; a token too small cancels the order with
/// `ORDER_FAILED` and travels on untouched.
pub open spec fn flavour_step(pre: RobotV, post: RobotV, f: FlavourV, out: Seq<RobotAction>) -> bool {
    let need = need_of(pre.needs, f.name);
    if pre.current_order is Some && need > 0 {
        let order = pre.current_order->0;
        if f.amount >= need {
            &&& needs_zeroed(pre.needs, post.needs, f.name)
            &&& if all_zero(post.needs) {
                &&& post == (RobotV { needs: post.needs, current_order: None::<OrderPrepV>, ..pre })
                &&& out.len() == 3
                &&& out[0] matches RobotAction::Pause { milli_units } && milli_units == need
                &&& out[1] matches RobotAction::ToScreen { addr, prep }
                    && addr@ == order.ip
                    && prep@ == (OrderPrepV {
                        ip: robot_addr_view(pre.id as nat),
                        fail_flag: ORDER_SUCCESS as int,
                        ..order
                    })
                &&& out[2] matches RobotAction::Forward(g) && g@ == (FlavourV {
                    name: f.name,
                    amount: f.amount - need,
                })
            } else {
                &&& post == (RobotV { needs: post.needs, ..pre })
                &&& out.len() == 2
                &&& out[0] matches RobotAction::Pause { milli_units } && milli_units == need
                &&& out[1] matches RobotAction::Forward(g) && g@ == (FlavourV {
                    name: f.name,
                    amount: f.amount - need,
                })
            }
        } else {
            &&& needs_cleared(pre.needs, post.needs)
            &&& post == (RobotV { needs: post.needs, current_order: None::<OrderPrepV>, ..pre })
            &&& out.len() == 2
            &&& out[0] matches RobotAction::ToScreen { addr, prep }
                && addr@ == order.ip
                && prep@ == (OrderPrepV {
                    ip: robot_addr_view(pre.id as nat),
                    fail_flag: ORDER_FAILED as int,
                    ..order
                })
            &&& out[1] matches RobotAction::Forward(g) && g@ == f
        }
    } else {
        &&& post == pre
        &&& out.len() == 1
        &&& out[0] matches RobotAction::Forward(g) && g@ == f
    }
}

/// A disconnect naming the previous link makes the robot wait for the ring
/// to heal inward; any other disconnect is the next link going down, and
/// the robot dials two hops ahead.  State is unchanged either way.
pub open spec fn disconnect_step(pre: RobotV, post: RobotV, d: DisconnectV, out: Seq<RobotAction>) -> bool {
    &&& post == pre
    &&& if d.ip == pre.addr_previous {
        out.len() == 0
    } else {
        &&& out.len() == 1
        &&& out[0] matches RobotAction::Dial { robot_id } && robot_id as int == (pre.id + 2)
            % pre.ring_size
    }
}

/// Only robot 0 answers the start event, by emitting one fresh token per
/// configured flavour, in configuration order; every other robot emits
/// nothing.
pub open spec fn start_step(pre: RobotV, post: RobotV, out: Seq<RobotAction>) -> bool {
    &&& post == pre
    &&& if pre.id == 0 {
        &&& out.len() == pre.flavours.len()
        &&& forall|i: int|
            0 <= i < out.len() ==> (#[trigger] out[i] matches RobotAction::Forward(g) && g@
                == (FlavourV { name: pre.flavours[i], amount: DEFAULT_AMOUNT as int }))
    } else {
        out.len() == 0
    }
}

/// A new previous neighbour replaces the stored previous-link addresses;
/// nothing is sent.
pub open spec fn reconnect_step(pre: RobotV, post: RobotV, r: RobotReconnect, out: Seq<RobotAction>) -> bool {
    &&& post == (RobotV { addr_previous: r.addr@, local_previous: r.local@, ..pre })
    &&& out.len() == 0
}

/// Shutdown announces the local address of each ring link to the
/// corresponding peer, previous first, and changes nothing.
pub open spec fn shutdown_step(pre: RobotV, post: RobotV, out: Seq<RobotAction>) -> bool {
    &&& post == pre
    &&& out.len() == 2
    &&& out[0] matches RobotAction::ByePrevious(d) && d@ == (DisconnectV {
        ip: pre.local_previous,
        id: dec_rep(pre.id as nat),
        message: "Disconnect"@,
    })
    &&& out[1] matches RobotAction::ByeNext(d) && d@ == (DisconnectV {
        ip: pre.local_next,
        id: dec_rep(pre.id as nat),
        message: "Disconnect"@,
    })
}

impl Robot {
    /// The robot's internal invariant: a real ring position, uniquely named
    /// needs, and no leftover need when no order is held.
    pub open spec fn wf(&self) -> bool {
        &&& self@.ring_size >= 2
        &&& self@.id < self@.ring_size
        &&& wf_needs(self@.needs)
        &&& (self@.current_order is None ==> all_zero(self@.needs))
    }

    pub fn new(
        id: usize,
        ring_size: usize,
        addr_previous: String,
        local_previous: String,
        local_next: String,
        flavours: Vec<String>,
        need_flavours: Vec<NeedEntry>,
        current_order: Option<OrderPrep>,
    ) -> (r: Self)
        requires
            2 <= ring_size,
            id < ring_size,
            wf_needs(need_flavours.deep_view()),
            current_order is None ==> all_zero(need_flavours.deep_view()),
        ensures
            r.wf(),
            r@ == (RobotV {
                id: id as int,
                ring_size: ring_size as int,
                addr_previous: addr_previous@,
                local_previous: local_previous@,
                local_next: local_next@,
                flavours: flavours.deep_view(),
                needs: need_flavours.deep_view(),
                current_order: match current_order {
                    Some(o) => Some(o@),
                    None => None,
                },
            }),
    {
        Robot {
            id,
            ring_size,
            addr_previous,
            local_previous,
            local_next,
            flavours,
            need_flavours,
            current_order,
        }
    }

    /// The tracked amount for `name`, zero when untracked.
    fn lookup_need(&self, name: &String) -> (r: u64)
        requires
            wf_needs(self@.needs),
        ensures
            r as int == need_of(self@.needs, name@),
    {
        let mut i: usize = 0;
        while i < self.need_flavours.len()
            invariant
                i <= self@.needs.len(),
                wf_needs(self@.needs),
                forall|j: int| 0 <= j < i ==> self@.needs[j].name != name@,
            decreases self@.needs.len() - i,
        {
            proof {
                assert(self@.needs[i as int] == self.need_flavours@[i as int]@);
            }
            if self.need_flavours[i].name == *name {
                proof {
                    let k = choose|k: int|
                        0 <= k < self@.needs.len() && self@.needs[k].name == name@;
                    assert(k == i as int);
                }
                return self.need_flavours[i].amount;
            }
            i = i + 1;
        }
        proof {
            assert(!has_need(self@.needs, name@));
        }
        0
    }

    /// True when no tracked amount is left.
    fn all_needs_zero(&self) -> (r: bool)
        ensures
            r == all_zero(self@.needs),
    {
        let mut i: usize = 0;
        while i < self.need_flavours.len()
            invariant
                i <= self@.needs.len(),
                forall|j: int| 0 <= j < i ==> self@.needs[j].amount == 0,
            decreases self@.needs.len() - i,
        {
            proof {
                assert(self@.needs[i as int] == self.need_flavours@[i as int]@);
            }
            if self.need_flavours[i].amount != 0 {
                return false;
            }
            i = i + 1;
        }
        true
    }

    /// Sets the tracked amount for `name` to zero, touching nothing else.
    fn zero_need(&mut self, name: &String)
        ensures
            needs_zeroed(old(self)@.needs, final(self)@.needs, name@),
            final(self)@ == (RobotV { needs: final(self)@.needs, ..old(self)@ }),
    {
        let mut i: usize = 0;
        while i < self.need_flavours.len()
            invariant
                i <= self.need_flavours.len(),
                self.need_flavours.len() == old(self).need_flavours.len(),
                self@ == (RobotV { needs: self@.needs, ..old(self)@ }),
                forall|j: int|
                    0 <= j < i ==> self@.needs[j] == (NeedEntryV {
                        name: old(self)@.needs[j].name,
                        amount: if old(self)@.needs[j].name == name@ {
                            0
                        } else {
                            old(self)@.needs[j].amount
                        },
                    }),
                forall|j: int| i <= j < self.need_flavours.len() ==> self@.needs[j] == old(self)@.needs[j],
            decreases self.need_flavours.len() - i,
        {
            proof {
                assert(self@.needs[i as int] == self.need_flavours@[i as int]@);
            }
            let ghost elem = self@.needs[i as int];
            if self.need_flavours[i].name == *name {
                let fresh_name = self.need_flavours[i].name.clone();
                let ghost mid = self@.needs;
                self.need_flavours.set(i, NeedEntry { name: fresh_name, amount: 0 });
                proof {
                    assert(self@.needs =~= mid.update(
                        i as int,
                        NeedEntryV { name: elem.name, amount: 0 },
                    ));
                }
            }
            i = i + 1;
        }
    }

    /// Sets every tracked amount to zero, keeping the names.
    fn clear_needs(&mut self)
        ensures
            needs_cleared(old(self)@.needs, final(self)@.needs),
            final(self)@ == (RobotV { needs: final(self)@.needs, ..old(self)@ }),
    {
        let mut i: usize = 0;
        while i < self.need_flavours.len()
            invariant
                i <= self.need_flavours.len(),
                self.need_flavours.len() == old(self).need_flavours.len(),
                self@ == (RobotV { needs: self@.needs, ..old(self)@ }),
                forall|j: int|
                    0 <= j < i ==> self@.needs[j] == (NeedEntryV {
                        name: old(self)@.needs[j].name,
                        amount: 0,
                    }),
                forall|j: int| i <= j < self.need_flavours.len() ==> self@.needs[j] == old(self)@.needs[j],
            decreases self.need_flavours.len() - i,
        {
            proof {
                assert(self@.needs[i as int] == self.need_flavours@[i as int]@);
            }
            let ghost elem = self@.needs[i as int];
            let fresh_name = self.need_flavours[i].name.clone();
            let ghost mid = self@.needs;
            self.need_flavours.set(i, NeedEntry { name: fresh_name, amount: 0 });
            proof {
                assert(self@.needs =~= mid.update(
                    i as int,
                    NeedEntryV { name: elem.name, amount: 0 },
                ));
            }
            i = i + 1;
        }
    }

    /// Tracks `amount` for `name`: updates the entry if one exists, adds
    /// one otherwise.
    fn set_need(&mut self, name: &String, amount: u64)
        requires
            wf_needs(old(self)@.needs),
        ensures
            wf_needs(final(self)@.needs),
            final(self)@ == (RobotV { needs: final(self)@.needs, ..old(self)@ }),
            has_need(final(self)@.needs, name@),
            need_of(final(self)@.needs, name@) == amount as int,
            forall|n: Seq<char>|
                n != name@ ==> ((#[trigger] has_need(final(self)@.needs, n) <==> has_need(
                    old(self)@.needs,
                    n,
                )) && need_of(final(self)@.needs, n) == need_of(old(self)@.needs, n)),
    {
        let mut i: usize = 0;
        while i < self.need_flavours.len()
            invariant
                i <= self.need_flavours.len(),
                self@ == old(self)@,
                wf_needs(self@.needs),
                forall|j: int| 0 <= j < i ==> self@.needs[j].name != name@,
            decreases self.need_flavours.len() - i,
        {
            proof {
                assert(self@.needs[i as int] == self.need_flavours@[i as int]@);
            }
            if self.need_flavours[i].name == *name {
                let fresh_name = self.need_flavours[i].name.clone();
                self.need_flavours.set(i, NeedEntry { name: fresh_name, amount });
                proof {
                    assert(self@.needs =~= old(self)@.needs.update(
                        i as int,
                        NeedEntryV { name: name@, amount: amount as int },
                    ));
                    lemma_need_update(old(self)@.needs, self@.needs, i as int, name@, amount as int);
                }
                return ;
            }
            i = i + 1;
        }
        self.need_flavours.push(NeedEntry { name: name.clone(), amount });
        proof {
            assert(self@.needs =~= old(self)@.needs.push(
                NeedEntryV { name: name@, amount: amount as int },
            ));
            lemma_need_push(old(self)@.needs, self@.needs, name@, amount as int);
        }
    }

    /// Takes the current order and shapes its result message: `ip`
    /// rewritten to this robot's address, the given outcome flag set.
    /// Returns the owning screen's link address and the message.
    fn send_order_prep(&mut self, fail_flag: usize) -> (r: (String, OrderPrep))
        requires
            old(self).current_order is Some,
        ensures
            final(self)@ == (RobotV { current_order: None::<OrderPrepV>, ..old(self)@ }),
            r.0@ == old(self)@.current_order->0.ip,
            r.1@ == (OrderPrepV {
                ip: robot_addr_view(old(self)@.id as nat),
                fail_flag: fail_flag as int,
                ..old(self)@.current_order->0
            }),
    {
        let order = self.current_order.take().unwrap();
        let OrderPrep { message, ip, id, size, flavours, fail_flag: _ } = order;
        let prep = OrderPrep {
            message,
            ip: robot_addr(self.id),
            id,
            size,
            flavours,
            fail_flag,
        };
        (ip, prep)
    }

    /// Handles an incoming token (the per-token critical section); see
    /// `flavour_step` for the full contract.
    pub fn process_flavour(&mut self, flavour: Flavour) -> (out: Vec<RobotAction>)
        requires
            old(self).wf(),
        ensures
            final(self).wf(),
            flavour_step(old(self)@, final(self)@, flavour@, out@),
    {
        let need = self.lookup_need(&flavour.name);
        let mut out: Vec<RobotAction> = Vec::new();
        if self.current_order.is_some() && need > 0 {
            if flavour.amount >= need {
                self.zero_need(&flavour.name);
                out.push(RobotAction::Pause { milli_units: need });
                if self.all_needs_zero() {
                    let (addr, prep) = self.send_order_prep(ORDER_SUCCESS);
                    out.push(RobotAction::ToScreen { addr, prep });
                }
                let fwd = Flavour { name: flavour.name, amount: flavour.amount - need };
                out.push(RobotAction::Forward(fwd));
            } else {
                let (addr, prep) = self.send_order_prep(ORDER_FAILED);
                self.clear_needs();
                out.push(RobotAction::ToScreen { addr, prep });
                out.push(RobotAction::Forward(flavour));
            }
        } else {
            out.push(RobotAction::Forward(flavour));
        }
        out
    }

    /// Handles an order request from a screen; see `request_step`.
    pub fn process_order_request(&mut self, request: OrderRequest) -> (out: Vec<RobotAction>)
        requires
            old(self).wf(),
        ensures
            final(self).wf(),
            request_step(old(self)@, final(self)@, request@, out@),
    {
        let mut out: Vec<RobotAction> = Vec::new();
        if self.current_order.is_none() {
            let OrderRequest { message, ip, id: _ } = request;
            let reply = OrderRequest { message, ip: robot_addr(self.id), id: self.id };
            out.push(RobotAction::ReplyRequest { addr: ip, request: reply });
        }
        out
    }

    /// Handles an order handed over by a screen; see `prep_step`.
    pub fn process_order_prep(&mut self, order: OrderPrep) -> (out: Vec<RobotAction>)
        requires
            old(self).wf(),
        ensures
            final(self).wf(),
            prep_step(old(self)@, final(self)@, order@, out@),
    {
        let mut out: Vec<RobotAction> = Vec::new();
        if self.current_order.is_some() {
            let OrderPrep { message, ip, id, size, flavours, fail_flag: _ } = order;
            let prep = OrderPrep {
                message,
                ip: robot_addr(self.id),
                id,
                size,
                flavours,
                fail_flag: ROBOT_OCCUPIED,
            };
            out.push(RobotAction::ToScreen { addr: ip, prep });
        } else {
            if order.flavours.len() > 0 {
                let per = compute_per_need(order.size, order.flavours.len());
                let ghost pre_needs = self@.needs;
                let mut k: usize = 0;
                while k < order.flavours.len()
                    invariant
                        k <= order.flavours.len(),
                        wf_needs(self@.needs),
                        self@ == (RobotV { needs: self@.needs, ..old(self)@ }),
                        per as int == per_need(order@.size, order@.flavours.len() as int),
                        forall|n: Seq<char>|
                            order@.flavours.subrange(0, k as int).contains(n)
                                ==> #[trigger] has_need(self@.needs, n) && need_of(self@.needs, n)
                                == per as int,
                        forall|n: Seq<char>|
                            !order@.flavours.subrange(0, k as int).contains(n) ==> ((
                            #[trigger] has_need(self@.needs, n) <==> has_need(old(self)@.needs, n))
                                && need_of(self@.needs, n) == need_of(old(self)@.needs, n)),
                    decreases order.flavours.len() - k,
                {
                    proof {
                        assert(order@.flavours[k as int] == order.flavours@[k as int]@);
                    }
                    let ghost mid = self@.needs;
                    self.set_need(&order.flavours[k], per);
                    proof {
                        let elem = order@.flavours[k as int];
                        let prefix = order@.flavours.subrange(0, k as int);
                        let cur = order@.flavours.subrange(0, (k + 1) as int);
                        assert(cur =~= prefix.push(elem));
                        assert(cur[k as int] == elem);
                        assert forall|n: Seq<char>| cur.contains(n) implies #[trigger] has_need(
                            self@.needs,
                            n,
                        ) && need_of(self@.needs, n) == per as int by {
                            if n == elem {
                            } else {
                                let w = choose|w: int| 0 <= w < cur.len() && cur[w] == n;
                                assert(prefix[w] == n);
                                assert(prefix.contains(n));
                            }
                        }
                        assert forall|n: Seq<char>| !cur.contains(n) implies ((
                        #[trigger] has_need(self@.needs, n) <==> has_need(old(self)@.needs, n))
                            && need_of(self@.needs, n) == need_of(old(self)@.needs, n)) by {
                            assert(n != elem) by {
                                if n == elem {
                                    assert(cur[k as int] == n);
                                    assert(cur.contains(n));
                                }
                            }
                            assert(!prefix.contains(n)) by {
                                if prefix.contains(n) {
                                    let w = choose|w: int|
                                        0 <= w < prefix.len() && prefix[w] == n;
                                    assert(cur[w] == n);
                                    assert(cur.contains(n));
                                }
                            }
                            assert(has_need(mid, n) <==> has_need(old(self)@.needs, n));
                        }
                    }
                    k = k + 1;
                }
                proof {
                    assert(order@.flavours.subrange(0, order@.flavours.len() as int)
                        =~= order@.flavours);
                }
            }
            self.current_order = Some(order);
        }
        out
    }

    /// Handles a disconnect notice on a ring link; see `disconnect_step`.
    pub fn process_disconnect(&mut self, disconnect: Disconnect) -> (out: Vec<RobotAction>)
        requires
            old(self).wf(),
        ensures
            final(self).wf(),
            disconnect_step(old(self)@, final(self)@, disconnect@, out@),
    {
        let mut out: Vec<RobotAction> = Vec::new();
        if disconnect.ip == self.addr_previous {
            // the ring heals inward: wait for a reconnect event
        } else {
            let target = self.skip_dead_robot();
            out.push(RobotAction::Dial { robot_id: target });
        }
        out
    }

    /// The id dialled when the next-hop neighbour dies: two hops ahead,
    /// around the ring.
    pub fn skip_dead_robot(&self) -> (target: usize)
        requires
            self.wf(),
        ensures
            target as int == (self@.id + 2) % self@.ring_size,
            target < self.ring_size,
    {
        let target = if self.id == self.ring_size - 1 || self.id == self.ring_size - 2 {
            self.id - (self.ring_size - 2)
        } else {
            self.id + 2
        };
        proof {
            let id = self@.id;
            let n = self@.ring_size;
            if id == n - 1 || id == n - 2 {
                vstd::arithmetic::div_mod::lemma_mod_multiples_vanish(1, id + 2 - n, n);
                vstd::arithmetic::div_mod::lemma_small_mod((id + 2 - n) as nat, n as nat);
            } else {
                vstd::arithmetic::div_mod::lemma_small_mod((id + 2) as nat, n as nat);
            }
        }
        target
    }

    /// Replaces the previous ring link after an inward reconnection; see
    /// `reconnect_step`.
    pub fn process_reconnect(&mut self, msg: RobotReconnect) -> (out: Vec<RobotAction>)
        requires
            old(self).wf(),
        ensures
            final(self).wf(),
            reconnect_step(old(self)@, final(self)@, msg, out@),
    {
        self.addr_previous = msg.addr;
        self.local_previous = msg.local;
        Vec::new()
    }

    /// Puts the initial tokens in circulation, on robot 0 only; see
    /// `start_step`.
    pub fn process_start(&mut self, _msg: RobotStart) -> (out: Vec<RobotAction>)
        requires
            old(self).wf(),
        ensures
            final(self).wf(),
            start_step(old(self)@, final(self)@, out@),
    {
        let mut out: Vec<RobotAction> = Vec::new();
        if self.id == 0 {
            let mut i: usize = 0;
            while i < self.flavours.len()
                invariant
                    i <= self.flavours.len(),
                    out.len() == i,
                    forall|j: int|
                        0 <= j < i ==> (#[trigger] out@[j] matches RobotAction::Forward(g) && g@
                            == (FlavourV {
                            name: self@.flavours[j],
                            amount: DEFAULT_AMOUNT as int,
                        })),
                decreases self.flavours.len() - i,
            {
                proof {
                    assert(self@.flavours[i as int] == self.flavours@[i as int]@);
                }
                let token = Flavour { name: self.flavours[i].clone(), amount: DEFAULT_AMOUNT };
                out.push(RobotAction::Forward(token));
                i = i + 1;
            }
        }
        out
    }

    /// Builds the orderly-exit notices for both ring links; see
    /// `shutdown_step`.
    pub fn process_shutdown(&mut self, _msg: Shutdown) -> (out: Vec<RobotAction>)
        requires
            old(self).wf(),
        ensures
            final(self).wf(),
            shutdown_step(old(self)@, final(self)@, out@),
    {
        let mut out: Vec<RobotAction> = Vec::new();
        let bye_previous = Disconnect::new(self.local_previous.clone(), fmt_usize(self.id));
        out.push(RobotAction::ByePrevious(bye_previous));
        let bye_next = Disconnect::new(self.local_next.clone(), fmt_usize(self.id));
        out.push(RobotAction::ByeNext(bye_next));
        out
    }

    /// Records the robot's own address on the next link after a `Dial`
    /// action was performed, so a later shutdown names the right side.
    pub fn set_next_link(&mut self, local: String)
        ensures
            final(self)@ == (RobotV { local_next: local@, ..old(self)@ }),
    {
        self.local_next = local;
    }

    /// Dispatches one decoded event to its handler: the robot's whole
    /// behaviour, one step at a time.
    pub fn handle(&mut self, event: RobotEvent) -> (out: Vec<RobotAction>)
        requires
            old(self).wf(),
        ensures
            final(self).wf(),
            match event {
                RobotEvent::Token(f) => flavour_step(old(self)@, final(self)@, f@, out@),
                RobotEvent::Request(r) => request_step(old(self)@, final(self)@, r@, out@),
                RobotEvent::Prep(o) => prep_step(old(self)@, final(self)@, o@, out@),
                RobotEvent::Bye(d) => disconnect_step(old(self)@, final(self)@, d@, out@),
                RobotEvent::Start(_) => start_step(old(self)@, final(self)@, out@),
                RobotEvent::Reconnect(r) => reconnect_step(old(self)@, final(self)@, r, out@),
                RobotEvent::Quit(_) => shutdown_step(old(self)@, final(self)@, out@),
            },
    {
        match event {
            RobotEvent::Token(f) => self.process_flavour(f),
            RobotEvent::Request(r) => self.process_order_request(r),
            RobotEvent::Prep(o) => self.process_order_prep(o),
            RobotEvent::Bye(d) => self.process_disconnect(d),
            RobotEvent::Start(m) => self.process_start(m),
            RobotEvent::Reconnect(r) => self.process_reconnect(r),
            RobotEvent::Quit(m) => self.process_shutdown(m),
        }
    }
}

/// The per-flavour share computed in machine arithmetic.
fn compute_per_need(size: usize, count: usize) -> (r: u64)
    requires
        count > 0,
    ensures
        r as int == per_need(size as int, count as int),
{
    let wide: u128 = (size as u128) * (AMOUNT_SCALE as u128) / (count as u128);
    if wide > u64::MAX as u128 {
        u64::MAX
    } else {
        wide as u64
    }
}

/// A robot already holding an order bounces any handed-over order straight
/// back to its screen with `ROBOT_OCCUPIED`, its own address as sender,
/// and keeps its state — including its own order — untouched.
pub proof fn lemma_busy_robot_bounces(pre: RobotV, post: RobotV, o: OrderPrepV, out: Seq<RobotAction>)
    requires
        prep_step(pre, post, o, out),
        pre.current_order is Some,
    ensures
        post == pre,
        out.len() == 1,
        out[0] matches RobotAction::ToScreen { addr, prep } && addr@ == o.ip && prep@.fail_flag
            == ROBOT_OCCUPIED as int && prep@.ip == robot_addr_view(pre.id as nat),
{
}

/// A token that the robot's current order does not need — or that arrives
/// while no order is held — is forwarded unchanged, and nothing else
/// happens.
pub proof fn lemma_passthrough_token(pre: RobotV, post: RobotV, f: FlavourV, out: Seq<RobotAction>)
    requires
        flavour_step(pre, post, f, out),
        !(pre.current_order is Some && need_of(pre.needs, f.name) > 0),
    ensures
        post == pre,
        out.len() == 1,
        out[0] matches RobotAction::Forward(g) && g@ == f,
{
}

/// Only robot 0 puts tokens in circulation: the start event is inert on
/// every other robot, so no duplicate tokens can enter the ring.
pub proof fn lemma_single_initialiser(pre: RobotV, post: RobotV, out: Seq<RobotAction>)
    requires
        start_step(pre, post, out),
        pre.id != 0,
    ensures
        post == pre,
        out.len() == 0,
{
}

/// A robot that has just accepted an order answers no further order
/// request: at most one binding per robot at a time.
pub proof fn lemma_robot_binds_once(
    pre: RobotV,
    mid: RobotV,
    post: RobotV,
    o: OrderPrepV,
    r: OrderRequestV,
    out1: Seq<RobotAction>,
    out2: Seq<RobotAction>,
)
    requires
        pre.current_order is None,
        prep_step(pre, mid, o, out1),
        request_step(mid, post, r, out2),
    ensures
        post == mid,
        out2.len() == 0,
{
}

/// Updating the entry at a known index for `name` changes that flavour's
/// tracked amount and no other.
proof fn lemma_need_update(
    pre: Seq<NeedEntryV>,
    post: Seq<NeedEntryV>,
    i: int,
    name: Seq<char>,
    amount: int,
)
    requires
        wf_needs(pre),
        0 <= i < pre.len(),
        pre[i].name == name,
        post == pre.update(i, NeedEntryV { name: name, amount: amount }),
    ensures
        wf_needs(post),
        has_need(post, name),
        need_of(post, name) == amount,
        forall|n: Seq<char>|
            n != name ==> ((#[trigger] has_need(post, n) <==> has_need(pre, n)) && need_of(post, n)
                == need_of(pre, n)),
{
    assert forall|n: Seq<char>| n != name implies ((#[trigger] has_need(post, n) <==> has_need(
        pre,
        n,
    )) && need_of(post, n) == need_of(pre, n)) by {
        if has_need(pre, n) {
            let k = choose|k: int| 0 <= k < pre.len() && pre[k].name == n;
            assert(post[k].name == n);
            assert(has_need(post, n));
        }
        if has_need(post, n) {
            let k = choose|k: int| 0 <= k < post.len() && post[k].name == n;
            assert(pre[k].name == n);
            assert(has_need(pre, n));
        }
        if has_need(post, n) {
            let k1 = choose|k: int| 0 <= k < post.len() && post[k].name == n;
            let k2 = choose|k: int| 0 <= k < pre.len() && pre[k].name == n;
            assert(post[k2].name == n);
            assert(k1 == k2);
        }
    }
    let k = choose|k: int| 0 <= k < post.len() && post[k].name == name;
    assert(post[i].name == name);
    assert(k == i);
}

/// Appending an entry for a fresh `name` tracks it and changes no other
/// flavour.
proof fn lemma_need_push(pre: Seq<NeedEntryV>, post: Seq<NeedEntryV>, name: Seq<char>, amount: int)
    requires
        wf_needs(pre),
        !has_need(pre, name),
        post == pre.push(NeedEntryV { name: name, amount: amount }),
    ensures
        wf_needs(post),
        has_need(post, name),
        need_of(post, name) == amount,
        forall|n: Seq<char>|
            n != name ==> ((#[trigger] has_need(post, n) <==> has_need(pre, n)) && need_of(post, n)
                == need_of(pre, n)),
{
    assert(post[pre.len() as int].name == name);
    assert forall|n: Seq<char>| n != name implies ((#[trigger] has_need(post, n) <==> has_need(
        pre,
        n,
    )) && need_of(post, n) == need_of(pre, n)) by {
        if has_need(pre, n) {
            let k = choose|k: int| 0 <= k < pre.len() && pre[k].name == n;
            assert(post[k].name == n);
            assert(has_need(post, n));
        }
        if has_need(post, n) {
            let k = choose|k: int| 0 <= k < post.len() && post[k].name == n;
            assert(k < pre.len());
            assert(pre[k].name == n);
            let k2 = choose|k2: int| 0 <= k2 < pre.len() && pre[k2].name == n;
            assert(post[k2].name == n);
            assert(k == k2);
        }
    }
    let k = choose|k: int| 0 <= k < post.len() && post[k].name == name;
    assert(k == pre.len() as int);
}

} // verus!
