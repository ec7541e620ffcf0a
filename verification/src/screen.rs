//! A point-of-sale screen: reads orders one at a time, drives the
//! two-phase payment with the gateway, broadcasts each captured order to
//! the robots, awards it to the first robot that answers, and either
//! confirms or cancels the payment when the result comes back.
use vstd::prelude::*;

use crate::messages::{
    Disconnect, DisconnectV, OrderJSON, OrderJSONV, OrderPrep, OrderPrepV, OrderRequest,
    OrderRequestV,
    PaymentCapture, PaymentCaptureV, PaymentConfirmation, PaymentConfirmationV, ORDER_FAILED,
    ORDER_SUCCESS, ROBOT_OCCUPIED,
};
use crate::text::{dec_rep, fmt_u64};

verus! {

/// Where the screen stands with its one in-flight order.
#[derive(Clone, Copy, PartialEq, Eq, Structural, Debug)]
pub enum Phase {
    /// No order in flight.
    Idle,
    /// Waiting for the gateway's capture reply.
    Capturing,
    /// Order request broadcast (or due for re-broadcast); no robot bound.
    Broadcasting,
    /// A robot holds the order; waiting for its result.
    AwaitingResult,
}

/// One robot connection: the robot's listening address and our own address
/// on that link (which the robot sees as our identity).
pub struct RobotLink {
    pub addr: String,
    pub local: String,
}

pub ghost struct RobotLinkV {
    pub addr: Seq<char>,
    pub local: Seq<char>,
}

impl View for RobotLink {
    type V = RobotLinkV;

    open spec fn view(&self) -> RobotLinkV {
        RobotLinkV { addr: self.addr@, local: self.local@ }
    }
}

impl DeepView for RobotLink {
    type V = RobotLinkV;

    open spec fn deep_view(&self) -> RobotLinkV {
        self.view()
    }
}

/// Local event: read and process the next line of the order file.
pub struct ReceiveOrder();

/// Orderly local shutdown request.
pub struct Shutdown();

/// The award timer for order `id` has fired.
pub struct ReBroadcastOrder {
    pub id: usize,
}

/// A frame or local event a screen can receive, already decoded.
pub enum ScreenEvent {
    Order(OrderJSON),
    CaptureReply(PaymentCapture),
    RequestReply(OrderRequest),
    Result(OrderPrep),
    Timer(ReBroadcastOrder),
    Quit(Shutdown),
}

/// What the screen asks its shell to do in response to one event.
pub enum ScreenAction {
    /// Send a capture request to the gateway.
    SendCapture(PaymentCapture),
    /// Send a confirmation to the gateway.
    SendConfirmation(PaymentConfirmation),
    /// Announce orderly exit to the gateway.
    SendBye(Disconnect),
    /// Ask the robot at `addr` whether it can take the order.
    SendRequest { addr: String, request: OrderRequest },
    /// Hand the order to the robot at `addr`.
    ToRobot { addr: String, prep: OrderPrep },
    /// Arm the award timer for this order id.
    StartTimer { id: usize },
    /// Read the next order from the file.
    NextOrder(ReceiveOrder),
}

/// Robot addresses are map keys: no two links share one.
pub open spec fn distinct_addrs(robots: Seq<RobotLinkV>) -> bool {
    forall|i: int, j: int| 0 <= i < j < robots.len() ==> robots[i].addr != robots[j].addr
}

/// True when some link leads to the robot at `addr`.
pub open spec fn has_link(robots: Seq<RobotLinkV>, addr: Seq<char>) -> bool {
    exists|i: int| 0 <= i < robots.len() && robots[i].addr == addr
}

/// The link to the robot at `addr`.
pub open spec fn link_of(robots: Seq<RobotLinkV>, addr: Seq<char>) -> RobotLinkV {
    robots[choose|i: int| 0 <= i < robots.len() && robots[i].addr == addr]
}

pub ghost struct ScreenV {
    pub id: int,
    pub gateway_local: Seq<char>,
    pub robots: Seq<RobotLinkV>,
    pub phase: Phase,
    pub current_order: Option<OrderPrepV>,
    pub order_in_process: bool,
    pub finished_orders: Seq<int>,
}

/// A screen's protocol state.  Connections themselves live outside; the
/// screen keeps the addresses it writes into messages and routes by.
pub struct Screen {
    pub id: u8,
    pub gateway_local: String,
    pub robots: Vec<RobotLink>,
    pub phase: Phase,
    pub current_order: Option<OrderPrep>,
    pub order_in_process: bool,
    pub finished_orders: Vec<usize>,
}

impl View for Screen {
    type V = ScreenV;

    open spec fn view(&self) -> ScreenV {
        ScreenV {
            id: self.id as int,
            gateway_local: self.gateway_local@,
            robots: self.robots.deep_view(),
            phase: self.phase,
            current_order: match self.current_order {
                Some(o) => Some(o@),
                None => None,
            },
            order_in_process: self.order_in_process,
            finished_orders: self.finished_orders@.map_values(|x: usize| x as int),
        }
    }
}

/// The order wrapped for the protocol, as a screen first stores it.
pub open spec fn fresh_prep(o: OrderJSONV) -> OrderPrepV {
    OrderPrepV {
        message: "OrderPrep"@,
        ip: Seq::<char>::empty(),
        id: o.id,
        size: o.size,
        flavours: o.flavours,
        fail_flag: 0,
    }
}

/// One order request per robot link, in link order, each carrying the
/// screen's own address on that link.
pub open spec fn is_broadcast(out: Seq<ScreenAction>, robots: Seq<RobotLinkV>, order_id: int) -> bool {
    &&& out.len() == robots.len()
    &&& forall|i: int|
        0 <= i < robots.len() ==> (#[trigger] out[i] matches ScreenAction::SendRequest {
            addr,
            request,
        } && addr@ == robots[i].addr && request@ == (OrderRequestV {
            message: "OrderRequest"@,
            ip: robots[i].local,
            id: order_id,
        }))
}

/// An idle screen takes a well-formed order, stores it and asks the
/// gateway to capture the payment; a malformed order (empty or sized zero)
/// is rejected and the next one is read; a busy screen drops the event.
pub open spec fn new_order_step(pre: ScreenV, post: ScreenV, o: OrderJSONV, out: Seq<ScreenAction>) -> bool {
    if pre.phase is Idle {
        if o.size > 0 && o.flavours.len() > 0 {
            &&& post == (ScreenV {
                phase: Phase::Capturing,
                current_order: Some(fresh_prep(o)),
                ..pre
            })
            &&& out.len() == 1
            &&& out[0] matches ScreenAction::SendCapture(c) && c@ == (PaymentCaptureV {
                ip: pre.gateway_local,
                id: dec_rep(pre.id as nat),
                message: "PaymentCapture"@,
                valid: true,
            })
        } else {
            &&& post == pre
            &&& out.len() == 1
            &&& out[0] is NextOrder
        }
    } else {
        &&& post == pre
        &&& out.len() == 0
    }
}

/// A valid capture reply turns into the order-request broadcast; an
/// invalid one cancels the order and reads the next.  A reply outside the
/// capturing phase is dropped.
pub open spec fn capture_step(pre: ScreenV, post: ScreenV, c: PaymentCaptureV, out: Seq<ScreenAction>) -> bool {
    if pre.phase is Capturing {
        if c.valid {
            &&& post == (ScreenV { phase: Phase::Broadcasting, ..pre })
            &&& is_broadcast(out, pre.robots, pre.current_order->0.id)
        } else {
            &&& post == (ScreenV {
                phase: Phase::Idle,
                current_order: None::<OrderPrepV>,
                ..pre
            })
            &&& out.len() == 1
            &&& out[0] is NextOrder
        }
    } else {
        &&& post == pre
        &&& out.len() == 0
    }
}

/// The first robot to answer while no robot is bound gets the order: its
/// `ip` is rewritten to the screen's address on that link, the award timer
/// is armed, and later answers are ignored.
pub open spec fn request_reply_step(pre: ScreenV, post: ScreenV, r: OrderRequestV, out: Seq<ScreenAction>) -> bool {
    if pre.phase is Broadcasting && has_link(pre.robots, r.ip) {
        let link = link_of(pre.robots, r.ip);
        let order = pre.current_order->0;
        let sent = OrderPrepV { ip: link.local, ..order };
        &&& post == (ScreenV {
            phase: Phase::AwaitingResult,
            order_in_process: true,
            current_order: Some(sent),
            ..pre
        })
        &&& out.len() == 2
        &&& out[0] matches ScreenAction::ToRobot { addr, prep } && addr@ == r.ip && prep@ == sent
        &&& out[1] matches ScreenAction::StartTimer { id } && id as int == order.id
    } else {
        &&& post == pre
        &&& out.len() == 0
    }
}

/// A successful result records the order as finished and confirms the
/// payment; exhausted stock records it and cancels without confirmation; a
/// busy bounce merely unbinds the robot and leaves the rest to the timer;
/// any other flag clears the order without recording it.  Results outside
/// the awaiting phase are dropped.
pub open spec fn result_step(pre: ScreenV, post: ScreenV, res: OrderPrepV, out: Seq<ScreenAction>) -> bool {
    if pre.phase is AwaitingResult {
        if res.fail_flag == ORDER_SUCCESS as int {
            &&& post == (ScreenV {
                phase: Phase::Idle,
                current_order: None::<OrderPrepV>,
                order_in_process: false,
                finished_orders: pre.finished_orders.push(res.id),
                ..pre
            })
            &&& out.len() == 2
            &&& out[0] matches ScreenAction::SendConfirmation(conf) && conf@
                == (PaymentConfirmationV {
                ip: pre.gateway_local,
                id: dec_rep(pre.id as nat),
                message: "PaymentConfirmation"@,
                order_data: res,
            })
            &&& out[1] is NextOrder
        } else if res.fail_flag == ORDER_FAILED as int {
            &&& post == (ScreenV {
                phase: Phase::Idle,
                current_order: None::<OrderPrepV>,
                order_in_process: false,
                finished_orders: pre.finished_orders.push(res.id),
                ..pre
            })
            &&& out.len() == 1
            &&& out[0] is NextOrder
        } else if res.fail_flag == ROBOT_OCCUPIED as int {
            &&& post == (ScreenV { phase: Phase::Broadcasting, order_in_process: false, ..pre })
            &&& out.len() == 0
        } else {
            &&& post == (ScreenV {
                phase: Phase::Idle,
                current_order: None::<OrderPrepV>,
                order_in_process: false,
                ..pre
            })
            &&& out.len() == 1
            &&& out[0] is NextOrder
        }
    } else {
        &&& post == pre
        &&& out.len() == 0
    }
}

/// A timer for an already finished order is a no-op; otherwise, while an
/// order is in flight, the screen unbinds the robot and broadcasts the
/// order request again.
pub open spec fn timer_step(pre: ScreenV, post: ScreenV, id: int, out: Seq<ScreenAction>) -> bool {
    if pre.finished_orders.contains(id) {
        &&& post == pre
        &&& out.len() == 0
    } else if pre.current_order is Some {
        &&& post == (ScreenV { phase: Phase::Broadcasting, order_in_process: false, ..pre })
        &&& is_broadcast(out, pre.robots, pre.current_order->0.id)
    } else {
        &&& post == pre
        &&& out.len() == 0
    }
}

/// Shutdown announces the screen's exit to the gateway and changes
/// nothing.
pub open spec fn quit_step(pre: ScreenV, post: ScreenV, out: Seq<ScreenAction>) -> bool {
    &&& post == pre
    &&& out.len() == 1
    &&& out[0] matches ScreenAction::SendBye(d) && d@ == (DisconnectV {
        ip: pre.gateway_local,
        id: dec_rep(pre.id as nat),
        message: "Disconnect"@,
    })
}

/// The order-request broadcast is idempotent in acceptance: once the first
/// answering robot has been awarded the order, every further answer is
/// ignored and the screen does not move.
pub proof fn lemma_single_award(
    pre: ScreenV,
    mid: ScreenV,
    post: ScreenV,
    r1: OrderRequestV,
    r2: OrderRequestV,
    out1: Seq<ScreenAction>,
    out2: Seq<ScreenAction>,
)
    requires
        request_reply_step(pre, mid, r1, out1),
        out1.len() > 0,
        request_reply_step(mid, post, r2, out2),
    ensures
        post == mid,
        out2.len() == 0,
{
}

/// Re-broadcast is idempotent on a completed order: a stale timer for an
/// id already recorded as finished produces no network traffic and no
/// state change.
pub proof fn lemma_stale_timer_silent(pre: ScreenV, post: ScreenV, id: int, out: Seq<ScreenAction>)
    requires
        timer_step(pre, post, id, out),
        pre.finished_orders.contains(id),
    ensures
        post == pre,
        out.len() == 0,
{
}

/// A well-formed order: a positive size and at least one flavour.
/// Anything else is rejected when the order is read.
pub fn order_acceptable(o: &OrderJSON) -> (r: bool)
    ensures
        r == (o@.size > 0 && o@.flavours.len() > 0),
{
    o.size > 0 && o.flavours.len() > 0
}

impl Screen {
    /// The screen's internal invariant: an order is held exactly while the
    /// screen is not idle, a robot is bound exactly while a result is
    /// awaited, and robot addresses are map keys.
    pub open spec fn wf(&self) -> bool {
        &&& (self@.current_order is Some <==> !(self@.phase is Idle))
        &&& (self@.order_in_process <==> self@.phase is AwaitingResult)
        &&& distinct_addrs(self@.robots)
    }

    pub fn new(id: u8, gateway_local: String, robots: Vec<RobotLink>) -> (r: Self)
        requires
            distinct_addrs(robots.deep_view()),
        ensures
            r.wf(),
            r@ == (ScreenV {
                id: id as int,
                gateway_local: gateway_local@,
                robots: robots.deep_view(),
                phase: Phase::Idle,
                current_order: None::<OrderPrepV>,
                order_in_process: false,
                finished_orders: Seq::<int>::empty(),
            }),
    {
        let r = Screen {
            id,
            gateway_local,
            robots,
            phase: Phase::Idle,
            current_order: None,
            order_in_process: false,
            finished_orders: Vec::new(),
        };
        proof {
            assert(r@.finished_orders =~= Seq::<int>::empty());
        }
        r
    }

    /// The index of the link to the robot at `addr`, if one is held.
    fn find_link(&self, addr: &String) -> (r: Option<usize>)
        requires
            self.wf(),
        ensures
            match r {
                Some(i) => i < self@.robots.len() && self@.robots[i as int].addr == addr@
                    && self@.robots[i as int] == link_of(self@.robots, addr@),
                None => !has_link(self@.robots, addr@),
            },
    {
        let mut i: usize = 0;
        while i < self.robots.len()
            invariant
                i <= self@.robots.len(),
                self.wf(),
                forall|j: int| 0 <= j < i ==> self@.robots[j].addr != addr@,
            decreases self@.robots.len() - i,
        {
            proof {
                assert(self@.robots[i as int] == self.robots@[i as int]@);
            }
            if self.robots[i].addr == *addr {
                proof {
                    let k = choose|k: int|
                        0 <= k < self@.robots.len() && self@.robots[k].addr == addr@;
                    assert(k == i as int);
                }
                return Some(i);
            }
            i = i + 1;
        }
        None
    }

    /// True when `id` was recorded as finished.
    fn is_finished(&self, id: usize) -> (r: bool)
        ensures
            r == self@.finished_orders.contains(id as int),
    {
        let mut i: usize = 0;
        while i < self.finished_orders.len()
            invariant
                i <= self.finished_orders@.len(),
                forall|j: int| 0 <= j < i ==> self@.finished_orders[j] != id as int,
            decreases self.finished_orders@.len() - i,
        {
            proof {
                assert(self@.finished_orders[i as int] == self.finished_orders@[i as int] as int);
            }
            if self.finished_orders[i] == id {
                proof {
                    assert(self@.finished_orders[i as int] == id as int);
                }
                return true;
            }
            i = i + 1;
        }
        proof {
            if self@.finished_orders.contains(id as int) {
                let k = choose|k: int|
                    0 <= k < self@.finished_orders.len() && self@.finished_orders[k] == id as int;
            }
        }
        false
    }

    /// Builds the order-request broadcast for the current order: one
    /// request per robot, carrying the screen's address on that link.
    pub fn broadcast_request(&self) -> (out: Vec<ScreenAction>)
        requires
            self.current_order is Some,
        ensures
            is_broadcast(out@, self@.robots, self@.current_order->0.id),
    {
        let order_id = match &self.current_order {
            Some(o) => o.id,
            None => 0,
        };
        let mut out: Vec<ScreenAction> = Vec::new();
        let mut i: usize = 0;
        while i < self.robots.len()
            invariant
                i <= self.robots.len(),
                out@.len() == i,
                order_id as int == self@.current_order->0.id,
                forall|j: int|
                    0 <= j < i ==> (#[trigger] out@[j] matches ScreenAction::SendRequest {
                        addr,
                        request,
                    } && addr@ == self@.robots[j].addr && request@ == (OrderRequestV {
                        message: "OrderRequest"@,
                        ip: self@.robots[j].local,
                        id: order_id as int,
                    })),
            decreases self.robots.len() - i,
        {
            proof {
                assert(self@.robots[i as int] == self.robots@[i as int]@);
            }
            let request = OrderRequest::new(self.robots[i].local.clone(), order_id);
            out.push(ScreenAction::SendRequest { addr: self.robots[i].addr.clone(), request });
            i = i + 1;
        }
        out
    }

    /// Wraps the result in a payment confirmation for the gateway.
    pub fn confirm_payment(&self, order_data: OrderPrep) -> (c: PaymentConfirmation)
        ensures
            c@ == (PaymentConfirmationV {
                ip: self@.gateway_local,
                id: dec_rep(self@.id as nat),
                message: "PaymentConfirmation"@,
                order_data: order_data@,
            }),
    {
        PaymentConfirmation::new(self.gateway_local.clone(), fmt_u64(self.id as u64), order_data)
    }

    /// Takes a freshly read order into the protocol; see `new_order_step`.
    pub fn handle_new_order(&mut self, order: OrderJSON) -> (out: Vec<ScreenAction>)
        requires
            old(self).wf(),
        ensures
            final(self).wf(),
            new_order_step(old(self)@, final(self)@, order@, out@),
    {
        let mut out: Vec<ScreenAction> = Vec::new();
        if !matches!(self.phase, Phase::Idle) {
            return out;
        }
        if order_acceptable(&order) {
            self.current_order = Some(OrderPrep::from(order));
            self.phase = Phase::Capturing;
            let capture = PaymentCapture::new(
                self.gateway_local.clone(),
                fmt_u64(self.id as u64),
                true,
            );
            out.push(ScreenAction::SendCapture(capture));
        } else {
            out.push(ScreenAction::NextOrder(ReceiveOrder()));
        }
        out
    }

    /// Acts on the gateway's capture reply; see `capture_step`.
    pub fn handle_payment_capture(&mut self, capture: PaymentCapture) -> (out: Vec<ScreenAction>)
        requires
            old(self).wf(),
        ensures
            final(self).wf(),
            capture_step(old(self)@, final(self)@, capture@, out@),
    {
        let mut out: Vec<ScreenAction> = Vec::new();
        if !matches!(self.phase, Phase::Capturing) {
            return out;
        }
        if capture.valid {
            self.phase = Phase::Broadcasting;
            self.broadcast_request()
        } else {
            self.current_order = None;
            self.phase = Phase::Idle;
            out.push(ScreenAction::NextOrder(ReceiveOrder()));
            out
        }
    }

    /// Awards the order to the first robot that answered; see
    /// `request_reply_step`.
    pub fn handle_order_request(&mut self, request: OrderRequest) -> (out: Vec<ScreenAction>)
        requires
            old(self).wf(),
        ensures
            final(self).wf(),
            request_reply_step(old(self)@, final(self)@, request@, out@),
    {
        let mut out: Vec<ScreenAction> = Vec::new();
        if !matches!(self.phase, Phase::Broadcasting) {
            return out;
        }
        let found = self.find_link(&request.ip);
        if let Some(i) = found {
            let local = self.robots[i].local.clone();
            let order = self.current_order.take().unwrap();
            let OrderPrep { message, ip: _, id, size, flavours, fail_flag } = order;
            let stored = OrderPrep { message, ip: local, id, size, flavours, fail_flag };
            let sent = stored.duplicate();
            let order_id = stored.id;
            self.current_order = Some(stored);
            self.order_in_process = true;
            self.phase = Phase::AwaitingResult;
            out.push(ScreenAction::ToRobot { addr: request.ip, prep: sent });
            out.push(ScreenAction::StartTimer { id: order_id });
        }
        out
    }

    /// Acts on the robot's result for the awarded order; see
    /// `result_step`.
    pub fn handle_order_result(&mut self, result: OrderPrep) -> (out: Vec<ScreenAction>)
        requires
            old(self).wf(),
        ensures
            final(self).wf(),
            result_step(old(self)@, final(self)@, result@, out@),
    {
        let mut out: Vec<ScreenAction> = Vec::new();
        if !matches!(self.phase, Phase::AwaitingResult) {
            return out;
        }
        let ghost pre_finished = self@.finished_orders;
        if result.fail_flag == ORDER_SUCCESS {
            self.finished_orders.push(result.id);
            proof {
                assert(self@.finished_orders =~= pre_finished.push(result@.id));
            }
            let conf = self.confirm_payment(result);
            out.push(ScreenAction::SendConfirmation(conf));
            out.push(ScreenAction::NextOrder(ReceiveOrder()));
            self.order_in_process = false;
            self.current_order = None;
            self.phase = Phase::Idle;
        } else if result.fail_flag == ORDER_FAILED {
            self.finished_orders.push(result.id);
            proof {
                assert(self@.finished_orders =~= pre_finished.push(result@.id));
            }
            out.push(ScreenAction::NextOrder(ReceiveOrder()));
            self.order_in_process = false;
            self.current_order = None;
            self.phase = Phase::Idle;
        } else if result.fail_flag == ROBOT_OCCUPIED {
            self.order_in_process = false;
            self.phase = Phase::Broadcasting;
        } else {
            out.push(ScreenAction::NextOrder(ReceiveOrder()));
            self.order_in_process = false;
            self.current_order = None;
            self.phase = Phase::Idle;
        }
        out
    }

    /// Acts on a fired award timer; see `timer_step`.
    pub fn handle_rebroadcast(&mut self, msg: ReBroadcastOrder) -> (out: Vec<ScreenAction>)
        requires
            old(self).wf(),
        ensures
            final(self).wf(),
            timer_step(old(self)@, final(self)@, msg.id as int, out@),
    {
        if self.is_finished(msg.id) {
            Vec::new()
        } else if self.current_order.is_some() {
            self.order_in_process = false;
            self.phase = Phase::Broadcasting;
            self.broadcast_request()
        } else {
            Vec::new()
        }
    }

    /// Builds the orderly-exit notice for the gateway; see `quit_step`.
    pub fn handle_shutdown(&mut self, _msg: Shutdown) -> (out: Vec<ScreenAction>)
        requires
            old(self).wf(),
        ensures
            final(self).wf(),
            quit_step(old(self)@, final(self)@, out@),
    {
        let mut out: Vec<ScreenAction> = Vec::new();
        let bye = Disconnect::new(self.gateway_local.clone(), fmt_u64(self.id as u64));
        out.push(ScreenAction::SendBye(bye));
        out
    }

    /// Dispatches one decoded event to its handler: the screen's whole
    /// behaviour, one step at a time.
    pub fn handle(&mut self, event: ScreenEvent) -> (out: Vec<ScreenAction>)
        requires
            old(self).wf(),
        ensures
            final(self).wf(),
            match event {
                ScreenEvent::Order(o) => new_order_step(old(self)@, final(self)@, o@, out@),
                ScreenEvent::CaptureReply(c) => capture_step(old(self)@, final(self)@, c@, out@),
                ScreenEvent::RequestReply(r) => request_reply_step(
                    old(self)@,
                    final(self)@,
                    r@,
                    out@,
                ),
                ScreenEvent::Result(res) => result_step(old(self)@, final(self)@, res@, out@),
                ScreenEvent::Timer(t) => timer_step(old(self)@, final(self)@, t.id as int, out@),
                ScreenEvent::Quit(_) => quit_step(old(self)@, final(self)@, out@),
            },
    {
        match event {
            ScreenEvent::Order(o) => self.handle_new_order(o),
            ScreenEvent::CaptureReply(c) => self.handle_payment_capture(c),
            ScreenEvent::RequestReply(r) => self.handle_order_request(r),
            ScreenEvent::Result(res) => self.handle_order_result(res),
            ScreenEvent::Timer(t) => self.handle_rebroadcast(t),
            ScreenEvent::Quit(m) => self.handle_shutdown(m),
        }
    }
}

} // verus!
