//! Verified coordination core of a small distributed ice-cream shop:
//! point-of-sale screens take orders, a ring of fabrication robots shares
//! ingredient tokens, and a single payment gateway settles charges and
//! keeps a ledger.  The per-process state machines live here as pure,
//! contract-checked step functions; sockets, files and timers are driven
//! by an unverified shell around them.
pub mod framing;
pub mod gateway;
pub mod messages;
pub mod ring;
pub mod robot;
pub mod screen;
pub mod text;
