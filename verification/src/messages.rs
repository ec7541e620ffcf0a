//! The wire-level message model: every frame exchanged between screens,
//! robots and the gateway is one of these records, identified by its
//! `message` discriminator field.
use vstd::prelude::*;

verus! {

/// Outcome code carried on an `OrderPrep` reply: the order was prepared.
pub const ORDER_SUCCESS: usize = 0;

/// Outcome code carried on an `OrderPrep` reply: a flavour ran out.
pub const ORDER_FAILED: usize = 1;

/// Outcome code carried on an `OrderPrep` reply: the robot already holds an order.
pub const ROBOT_OCCUPIED: usize = 2;

/// An orderly-exit announcement from a node to a peer.
pub struct Disconnect {
    pub ip: String,
    pub id: String,
    pub message: String,
}

pub ghost struct DisconnectV {
    pub ip: Seq<char>,
    pub id: Seq<char>,
    pub message: Seq<char>,
}

impl View for Disconnect {
    type V = DisconnectV;

    open spec fn view(&self) -> DisconnectV {
        DisconnectV { ip: self.ip@, id: self.id@, message: self.message@ }
    }
}

impl Disconnect {
    pub fn new(_ip: String, _id: String) -> (r: Self)
        ensures
            r@ == (DisconnectV { ip: _ip@, id: _id@, message: "Disconnect"@ }),
    {
        Disconnect { ip: _ip, id: _id, message: String::from_str("Disconnect") }
    }
}

/// A customer order as read from a screen's order file, before it enters
/// the protocol.
pub struct OrderJSON {
    pub id: usize,
    pub size: usize,
    pub flavours: Vec<String>,
}

pub ghost struct OrderJSONV {
    pub id: int,
    pub size: int,
    pub flavours: Seq<Seq<char>>,
}

impl View for OrderJSON {
    type V = OrderJSONV;

    open spec fn view(&self) -> OrderJSONV {
        OrderJSONV { id: self.id as int, size: self.size as int, flavours: self.flavours.deep_view() }
    }
}

/// The protocol-level carrier of an order. `ip` is rewritten at each hop to
/// the sender's own listening address; `fail_flag` reports the outcome on
/// the way back from robot to screen.
pub struct OrderPrep {
    pub message: String,
    pub ip: String,
    pub id: usize,
    pub size: usize,
    pub flavours: Vec<String>,
    pub fail_flag: usize,
}

pub ghost struct OrderPrepV {
    pub message: Seq<char>,
    pub ip: Seq<char>,
    pub id: int,
    pub size: int,
    pub flavours: Seq<Seq<char>>,
    pub fail_flag: int,
}

impl View for OrderPrep {
    type V = OrderPrepV;

    open spec fn view(&self) -> OrderPrepV {
        OrderPrepV {
            message: self.message@,
            ip: self.ip@,
            id: self.id as int,
            size: self.size as int,
            flavours: self.flavours.deep_view(),
            fail_flag: self.fail_flag as int,
        }
    }
}

impl OrderPrep {
    /// Wraps a freshly parsed order; `ip` is left empty and is assigned
    /// when the order is first sent.
    pub fn from(order_json: OrderJSON) -> (r: Self)
        ensures
            r@ == (OrderPrepV {
                message: "OrderPrep"@,
                ip: Seq::<char>::empty(),
                id: order_json@.id,
                size: order_json@.size,
                flavours: order_json@.flavours,
                fail_flag: 0,
            }),
    {
        OrderPrep {
            message: String::from_str("OrderPrep"),
            ip: String::new(),
            id: order_json.id,
            size: order_json.size,
            flavours: order_json.flavours,
            fail_flag: 0,
        }
    }

    /// A fresh copy carrying the same contents.
    pub fn duplicate(&self) -> (r: Self)
        ensures
            r@ == self@,
    {
        let flavours = self.flavours.clone();
        proof {
            assert forall|i: int| 0 <= i < self.flavours@.len() implies flavours@[i]
                == self.flavours@[i] by {
                assert(cloned::<String>(self.flavours@[i], flavours@[i]));
            }
            assert(flavours@ =~= self.flavours@);
        }
        OrderPrep {
            message: self.message.clone(),
            ip: self.ip.clone(),
            id: self.id,
            size: self.size,
            flavours,
            fail_flag: self.fail_flag,
        }
    }
}

/// The screen-to-robot handshake asking "can you take order `id`?", and the
/// robot's affirmative answer (with `ip` and `id` rewritten to the robot's own).
pub struct OrderRequest {
    pub message: String,
    pub ip: String,
    pub id: usize,
}

pub ghost struct OrderRequestV {
    pub message: Seq<char>,
    pub ip: Seq<char>,
    pub id: int,
}

impl View for OrderRequest {
    type V = OrderRequestV;

    open spec fn view(&self) -> OrderRequestV {
        OrderRequestV { message: self.message@, ip: self.ip@, id: self.id as int }
    }
}

impl OrderRequest {
    pub fn new(ip: String, id: usize) -> (r: Self)
        ensures
            r@ == (OrderRequestV { message: "OrderRequest"@, ip: ip@, id: id as int }),
    {
        OrderRequest { message: String::from_str("OrderRequest"), ip, id }
    }
}

/// A request to hold a charge; the gateway echoes it back with `valid`
/// possibly flipped to false.
pub struct PaymentCapture {
    pub ip: String,
    pub id: String,
    pub message: String,
    pub valid: bool,
}

pub ghost struct PaymentCaptureV {
    pub ip: Seq<char>,
    pub id: Seq<char>,
    pub message: Seq<char>,
    pub valid: bool,
}

impl View for PaymentCapture {
    type V = PaymentCaptureV;

    open spec fn view(&self) -> PaymentCaptureV {
        PaymentCaptureV { ip: self.ip@, id: self.id@, message: self.message@, valid: self.valid }
    }
}

impl PaymentCapture {
    pub fn new(_ip: String, _id: String, _valid: bool) -> (r: Self)
        ensures
            r@ == (PaymentCaptureV {
                ip: _ip@,
                id: _id@,
                message: "PaymentCapture"@,
                valid: _valid,
            }),
    {
        PaymentCapture { ip: _ip, id: _id, message: String::from_str("PaymentCapture"), valid: _valid }
    }
}

/// The commit of a previously captured payment; the gateway records it in
/// the ledger.
pub struct PaymentConfirmation {
    pub ip: String,
    pub id: String,
    pub message: String,
    pub order_data: OrderPrep,
}

pub ghost struct PaymentConfirmationV {
    pub ip: Seq<char>,
    pub id: Seq<char>,
    pub message: Seq<char>,
    pub order_data: OrderPrepV,
}

impl View for PaymentConfirmation {
    type V = PaymentConfirmationV;

    open spec fn view(&self) -> PaymentConfirmationV {
        PaymentConfirmationV {
            ip: self.ip@,
            id: self.id@,
            message: self.message@,
            order_data: self.order_data@,
        }
    }
}

impl PaymentConfirmation {
    pub fn new(_ip: String, _id: String, order_data: OrderPrep) -> (r: Self)
        ensures
            r@ == (PaymentConfirmationV {
                ip: _ip@,
                id: _id@,
                message: "PaymentConfirmation"@,
                order_data: order_data@,
            }),
    {
        PaymentConfirmation {
            ip: _ip,
            id: _id,
            message: String::from_str("PaymentConfirmation"),
            order_data,
        }
    }
}

/// One ingredient token of the ring. `amount` counts thousandths of a unit,
/// so that consuming `size / |flavours|` units stays exact integer
/// arithmetic; a fresh token carries `DEFAULT_AMOUNT`.
pub struct Flavour {
    pub name: String,
    pub amount: u64,
}

pub ghost struct FlavourV {
    pub name: Seq<char>,
    pub amount: int,
}

impl View for Flavour {
    type V = FlavourV;

    open spec fn view(&self) -> FlavourV {
        FlavourV { name: self.name@, amount: self.amount as int }
    }
}

impl Flavour {
    pub fn new(name: String, amount: u64) -> (r: Self)
        ensures
            r@ == (FlavourV { name: name@, amount: amount as int }),
    {
        Flavour { name, amount }
    }
}

} // verus!
