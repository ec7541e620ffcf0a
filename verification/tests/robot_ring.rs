use icecream_ring::messages::{
    Disconnect, Flavour, OrderPrep, OrderRequest, ORDER_FAILED, ORDER_SUCCESS, ROBOT_OCCUPIED,
};
use icecream_ring::ring::{boot_order, next_robot_id, BootOrder};
use icecream_ring::robot::{
    robot_addr, NeedEntry, Robot, RobotAction, RobotEvent, RobotReconnect, RobotStart,
    DEFAULT_AMOUNT,
};

fn flavour_names() -> Vec<String> {
    vec![
        "Vainilla".to_string(),
        "Dulce de leche".to_string(),
        "Tramontana".to_string(),
    ]
}

fn zero_needs() -> Vec<NeedEntry> {
    flavour_names()
        .into_iter()
        .map(|name| NeedEntry { name, amount: 0 })
        .collect()
}

fn make_robot(id: usize, ring_size: usize) -> Robot {
    Robot::new(
        id,
        ring_size,
        "127.0.0.1:40001".to_string(),
        "127.0.0.1:40002".to_string(),
        "127.0.0.1:40003".to_string(),
        flavour_names(),
        zero_needs(),
        None,
    )
}

fn order(id: usize, size: usize, flavours: Vec<&str>) -> OrderPrep {
    OrderPrep {
        message: "OrderPrep".to_string(),
        ip: "127.0.0.1:50001".to_string(),
        id,
        size,
        flavours: flavours.into_iter().map(|f| f.to_string()).collect(),
        fail_flag: 0,
    }
}

fn need_of(robot: &Robot, name: &str) -> u64 {
    robot
        .need_flavours
        .iter()
        .find(|e| e.name == name)
        .map(|e| e.amount)
        .unwrap_or(0)
}

#[test]
fn robot_addr_appends_id() {
    assert_eq!(robot_addr(0), "127.0.0.1:30000");
    assert_eq!(robot_addr(2), "127.0.0.1:30002");
}

#[test]
fn free_robot_answers_order_request() {
    let mut r = make_robot(2, 5);
    let req = OrderRequest::new("127.0.0.1:50001".to_string(), 7);
    let out = r.process_order_request(req);
    assert_eq!(out.len(), 1);
    match &out[0] {
        RobotAction::ReplyRequest { addr, request } => {
            assert_eq!(addr, "127.0.0.1:50001");
            assert_eq!(request.ip, "127.0.0.1:30002");
            assert_eq!(request.id, 2);
            assert_eq!(request.message, "OrderRequest");
        }
        _ => panic!("expected a request reply"),
    }
}

#[test]
fn busy_robot_ignores_order_request() {
    let mut r = make_robot(2, 5);
    assert!(r.process_order_prep(order(7, 3, vec!["Vainilla"])).is_empty());
    let req = OrderRequest::new("127.0.0.1:50001".to_string(), 8);
    assert!(r.process_order_request(req).is_empty());
}

#[test]
fn accepting_an_order_splits_size_over_flavours() {
    let mut r = make_robot(0, 3);
    let out = r.process_order_prep(order(1, 3, vec!["Vainilla", "Dulce de leche", "Tramontana"]));
    assert!(out.is_empty());
    assert_eq!(need_of(&r, "Vainilla"), 1000);
    assert_eq!(need_of(&r, "Dulce de leche"), 1000);
    assert_eq!(need_of(&r, "Tramontana"), 1000);
    assert!(r.current_order.is_some());
}

#[test]
fn busy_robot_bounces_order_prep() {
    let mut r = make_robot(1, 3);
    r.process_order_prep(order(1, 3, vec!["Vainilla"]));
    let out = r.process_order_prep(order(2, 6, vec!["Tramontana"]));
    assert_eq!(out.len(), 1);
    match &out[0] {
        RobotAction::ToScreen { addr, prep } => {
            assert_eq!(addr, "127.0.0.1:50001");
            assert_eq!(prep.fail_flag, ROBOT_OCCUPIED);
            assert_eq!(prep.ip, "127.0.0.1:30001");
            assert_eq!(prep.id, 2);
        }
        _ => panic!("expected a bounce"),
    }
    // the robot still holds its first order
    assert_eq!(r.current_order.as_ref().unwrap().id, 1);
}

#[test]
fn token_consumption_decrements_and_forwards() {
    let mut r = make_robot(0, 3);
    r.process_order_prep(order(1, 3, vec!["Vainilla", "Dulce de leche", "Tramontana"]));
    let out = r.process_flavour(Flavour::new("Vainilla".to_string(), 10000));
    assert_eq!(out.len(), 2);
    match &out[0] {
        RobotAction::Pause { milli_units } => assert_eq!(*milli_units, 1000),
        _ => panic!("expected a pause"),
    }
    match &out[1] {
        RobotAction::Forward(g) => {
            assert_eq!(g.name, "Vainilla");
            assert_eq!(g.amount, 9000);
        }
        _ => panic!("expected the token forwarded"),
    }
    assert_eq!(need_of(&r, "Vainilla"), 0);
    assert!(r.current_order.is_some());
}

#[test]
fn last_needed_token_completes_the_order() {
    let mut r = make_robot(0, 3);
    r.process_order_prep(order(1, 3, vec!["Vainilla"]));
    let out = r.process_flavour(Flavour::new("Vainilla".to_string(), 10000));
    assert_eq!(out.len(), 3);
    match &out[1] {
        RobotAction::ToScreen { addr, prep } => {
            assert_eq!(addr, "127.0.0.1:50001");
            assert_eq!(prep.fail_flag, ORDER_SUCCESS);
            assert_eq!(prep.ip, "127.0.0.1:30000");
        }
        _ => panic!("expected the success report"),
    }
    match &out[2] {
        RobotAction::Forward(g) => assert_eq!(g.amount, 7000),
        _ => panic!("expected the token forwarded"),
    }
    assert!(r.current_order.is_none());
}

#[test]
fn insufficient_token_cancels_and_travels_unchanged() {
    let mut r = make_robot(0, 3);
    r.process_order_prep(order(2, 30, vec!["Vainilla"]));
    let out = r.process_flavour(Flavour::new("Vainilla".to_string(), 10000));
    assert_eq!(out.len(), 2);
    match &out[0] {
        RobotAction::ToScreen { prep, .. } => assert_eq!(prep.fail_flag, ORDER_FAILED),
        _ => panic!("expected the failure report"),
    }
    match &out[1] {
        RobotAction::Forward(g) => {
            assert_eq!(g.name, "Vainilla");
            assert_eq!(g.amount, 10000);
        }
        _ => panic!("expected the token forwarded unchanged"),
    }
    assert!(r.current_order.is_none());
}

#[test]
fn unneeded_token_passes_through_unchanged() {
    let mut r = make_robot(0, 3);
    r.process_order_prep(order(1, 3, vec!["Vainilla"]));
    let out = r.process_flavour(Flavour::new("Tramontana".to_string(), 8500));
    assert_eq!(out.len(), 1);
    match &out[0] {
        RobotAction::Forward(g) => {
            assert_eq!(g.name, "Tramontana");
            assert_eq!(g.amount, 8500);
        }
        _ => panic!("expected the token forwarded unchanged"),
    }
    assert!(r.current_order.is_some());
}

#[test]
fn only_robot_zero_initialises_tokens() {
    let mut r0 = make_robot(0, 3);
    let out = r0.process_start(RobotStart());
    assert_eq!(out.len(), 3);
    let mut names = Vec::new();
    for a in &out {
        match a {
            RobotAction::Forward(g) => {
                assert_eq!(g.amount, DEFAULT_AMOUNT);
                names.push(g.name.clone());
            }
            _ => panic!("expected a token"),
        }
    }
    assert_eq!(names, flavour_names());

    let mut r1 = make_robot(1, 3);
    assert!(r1.process_start(RobotStart()).is_empty());
}

#[test]
fn next_link_down_dials_two_hops_ahead() {
    let mut r = make_robot(1, 5);
    let bye = Disconnect::new("127.0.0.1:33333".to_string(), "2".to_string());
    let out = r.process_disconnect(bye);
    assert_eq!(out.len(), 1);
    match &out[0] {
        RobotAction::Dial { robot_id } => assert_eq!(*robot_id, 3),
        _ => panic!("expected a dial"),
    }
    // wrap-around at the end of the ring
    let mut last = make_robot(4, 5);
    let bye = Disconnect::new("127.0.0.1:33333".to_string(), "0".to_string());
    match &last.process_disconnect(bye)[0] {
        RobotAction::Dial { robot_id } => assert_eq!(*robot_id, 1),
        _ => panic!("expected a dial"),
    }
}

#[test]
fn previous_link_down_waits_for_reconnection() {
    let mut r = make_robot(1, 5);
    let bye = Disconnect::new("127.0.0.1:40001".to_string(), "0".to_string());
    assert!(r.process_disconnect(bye).is_empty());
}

#[test]
fn reconnect_replaces_previous_link() {
    let mut r = make_robot(1, 5);
    r.process_reconnect(RobotReconnect {
        addr: "127.0.0.1:44444".to_string(),
        local: "127.0.0.1:44445".to_string(),
    });
    assert_eq!(r.addr_previous, "127.0.0.1:44444");
    // a disconnect from the new previous link is now waited out
    let bye = Disconnect::new("127.0.0.1:44444".to_string(), "0".to_string());
    assert!(r.process_disconnect(bye).is_empty());
}

#[test]
fn shutdown_names_each_local_link_address() {
    let mut r = make_robot(1, 5);
    let out = r.process_shutdown(icecream_ring::robot::Shutdown());
    assert_eq!(out.len(), 2);
    match &out[0] {
        RobotAction::ByePrevious(d) => {
            assert_eq!(d.ip, "127.0.0.1:40002");
            assert_eq!(d.id, "1");
            assert_eq!(d.message, "Disconnect");
        }
        _ => panic!("expected the previous-link notice"),
    }
    match &out[1] {
        RobotAction::ByeNext(d) => assert_eq!(d.ip, "127.0.0.1:40003"),
        _ => panic!("expected the next-link notice"),
    }
}

#[test]
fn boot_order_alternates_by_parity() {
    assert_eq!(boot_order(0), BootOrder::ConnectThenAccept);
    assert_eq!(boot_order(1), BootOrder::AcceptThenConnect);
    assert_eq!(boot_order(4), BootOrder::ConnectThenAccept);
}

#[test]
fn next_robot_id_wraps() {
    assert_eq!(next_robot_id(0, 3), 1);
    assert_eq!(next_robot_id(2, 3), 0);
}

#[test]
fn inexact_division_floors_to_thousandths() {
    let mut r = make_robot(0, 3);
    let out = r.process_order_prep(order(5, 10, vec!["Vainilla", "Dulce de leche", "Tramontana"]));
    assert!(out.is_empty());
    // 10 units over 3 flavours: 3.333 units each, floored in thousandths
    assert_eq!(need_of(&r, "Vainilla"), 3333);
    assert_eq!(need_of(&r, "Dulce de leche"), 3333);
    assert_eq!(need_of(&r, "Tramontana"), 3333);
}

#[test]
fn robot_dispatcher_routes_events() {
    let mut r = make_robot(0, 3);
    let out = r.handle(RobotEvent::Token(Flavour::new("Vainilla".to_string(), 500)));
    assert_eq!(out.len(), 1);
    match &out[0] {
        RobotAction::Forward(g) => assert_eq!(g.amount, 500),
        _ => panic!("expected the token forwarded"),
    }
    let out = r.handle(RobotEvent::Request(OrderRequest::new(
        "127.0.0.1:50001".to_string(),
        4,
    )));
    assert_eq!(out.len(), 1);
}
