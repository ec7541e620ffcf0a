use icecream_ring::messages::{
    Disconnect, Flavour, OrderJSON, OrderPrep, OrderRequest, PaymentCapture, PaymentConfirmation,
};
use icecream_ring::text::{fmt_u64, fmt_usize, join_commas};

#[test]
fn disconnect_new_sets_discriminator() {
    let d = Disconnect::new("127.0.0.1:4567".to_string(), "3".to_string());
    assert_eq!(d.ip, "127.0.0.1:4567");
    assert_eq!(d.id, "3");
    assert_eq!(d.message, "Disconnect");
}

#[test]
fn order_request_new_sets_discriminator() {
    let r = OrderRequest::new("127.0.0.1:5555".to_string(), 42);
    assert_eq!(r.message, "OrderRequest");
    assert_eq!(r.ip, "127.0.0.1:5555");
    assert_eq!(r.id, 42);
}

#[test]
fn payment_capture_new_starts_valid() {
    let c = PaymentCapture::new("127.0.0.1:6666".to_string(), "1".to_string(), true);
    assert_eq!(c.message, "PaymentCapture");
    assert_eq!(c.ip, "127.0.0.1:6666");
    assert_eq!(c.id, "1");
    assert!(c.valid);
}

#[test]
fn payment_confirmation_new_wraps_order() {
    let order = OrderPrep {
        message: "OrderPrep".to_string(),
        ip: "127.0.0.1:7777".to_string(),
        id: 9,
        size: 3,
        flavours: vec!["Vainilla".to_string()],
        fail_flag: 0,
    };
    let c = PaymentConfirmation::new("127.0.0.1:8888".to_string(), "2".to_string(), order);
    assert_eq!(c.message, "PaymentConfirmation");
    assert_eq!(c.ip, "127.0.0.1:8888");
    assert_eq!(c.id, "2");
    assert_eq!(c.order_data.id, 9);
    assert_eq!(c.order_data.size, 3);
}

#[test]
fn order_prep_from_order_json() {
    let o = OrderJSON {
        id: 7,
        size: 6,
        flavours: vec!["Vainilla".to_string(), "Tramontana".to_string()],
    };
    let p = OrderPrep::from(o);
    assert_eq!(p.message, "OrderPrep");
    assert_eq!(p.ip, "");
    assert_eq!(p.id, 7);
    assert_eq!(p.size, 6);
    assert_eq!(p.flavours, vec!["Vainilla".to_string(), "Tramontana".to_string()]);
    assert_eq!(p.fail_flag, 0);
}

#[test]
fn order_prep_duplicate_copies_everything() {
    let p = OrderPrep {
        message: "OrderPrep".to_string(),
        ip: "127.0.0.1:1111".to_string(),
        id: 1,
        size: 2,
        flavours: vec!["Dulce de leche".to_string()],
        fail_flag: 2,
    };
    let q = p.duplicate();
    assert_eq!(q.message, p.message);
    assert_eq!(q.ip, p.ip);
    assert_eq!(q.id, p.id);
    assert_eq!(q.size, p.size);
    assert_eq!(q.flavours, p.flavours);
    assert_eq!(q.fail_flag, p.fail_flag);
}

#[test]
fn flavour_new_keeps_fields() {
    let f = Flavour::new("Vainilla".to_string(), 10000);
    assert_eq!(f.name, "Vainilla");
    assert_eq!(f.amount, 10000);
}

#[test]
fn fmt_renders_decimal() {
    assert_eq!(fmt_u64(0), "0");
    assert_eq!(fmt_u64(7), "7");
    assert_eq!(fmt_u64(10), "10");
    assert_eq!(fmt_u64(12345), "12345");
    assert_eq!(fmt_u64(u64::MAX), "18446744073709551615");
    assert_eq!(fmt_usize(30002), "30002");
}

#[test]
fn join_commas_matches_ledger_format() {
    assert_eq!(join_commas(&vec![]), "");
    assert_eq!(join_commas(&vec!["Vainilla".to_string()]), "Vainilla");
    assert_eq!(
        join_commas(&vec![
            "Vainilla".to_string(),
            "Dulce de leche".to_string(),
            "Tramontana".to_string()
        ]),
        "Vainilla,Dulce de leche,Tramontana"
    );
}
