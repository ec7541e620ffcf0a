//! End-to-end runs of the coordination fabric, with the three state
//! machines driven by hand and the network replaced by moving the produced
//! messages between them.
use icecream_ring::gateway::{Gateway, GatewayAction, GatewayEvent};
use icecream_ring::messages::{
    Flavour, OrderJSON, OrderPrep, PaymentCapture, ORDER_FAILED, ORDER_SUCCESS, ROBOT_OCCUPIED,
};
use icecream_ring::robot::{NeedEntry, Robot, RobotAction, RobotStart};
use icecream_ring::screen::{Phase, ReBroadcastOrder, RobotLink, Screen, ScreenAction, Shutdown};

fn flavour_names() -> Vec<String> {
    vec![
        "Vainilla".to_string(),
        "Dulce de leche".to_string(),
        "Tramontana".to_string(),
    ]
}

fn zero_needs() -> Vec<NeedEntry> {
    flavour_names()
        .into_iter()
        .map(|name| NeedEntry { name, amount: 0 })
        .collect()
}

fn make_robot(id: usize, ring_size: usize) -> Robot {
    Robot::new(
        id,
        ring_size,
        "127.0.0.1:40000".to_string(),
        "127.0.0.1:40001".to_string(),
        "127.0.0.1:40002".to_string(),
        flavour_names(),
        zero_needs(),
        None,
    )
}

fn make_screen(robot_count: usize) -> Screen {
    let robots = (0..robot_count)
        .map(|i| RobotLink {
            addr: format!("127.0.0.1:3000{}", i),
            local: format!("127.0.0.1:5000{}", i),
        })
        .collect();
    Screen::new(0, "127.0.0.1:5555".to_string(), robots)
}

fn valid_capture_reply() -> PaymentCapture {
    PaymentCapture::new("127.0.0.1:20000".to_string(), "GATEWAY".to_string(), true)
}

/// One screen, three robots, one order of size 3 over all three flavours:
/// exactly one ledger line with the comma-joined flavour list, and the
/// tokens leave the serving robot summing to 27 units.
#[test]
fn one_order_end_to_end() {
    let mut gateway = Gateway::new(vec!["127.0.0.1:5555".to_string()]);
    let mut robots: Vec<Robot> = (0..3).map(|i| make_robot(i, 3)).collect();
    let mut screen = make_screen(3);

    // robot 0 puts the tokens in circulation
    let started = robots[0].process_start(RobotStart());
    let mut tokens: Vec<Flavour> = started
        .into_iter()
        .map(|a| match a {
            RobotAction::Forward(f) => f,
            _ => panic!("expected a token"),
        })
        .collect();
    assert_eq!(tokens.len(), 3);

    // the screen reads the order and captures the payment
    let order = OrderJSON {
        id: 1,
        size: 3,
        flavours: flavour_names(),
    };
    let out = screen.handle_new_order(order);
    assert!(matches!(out[0], ScreenAction::SendCapture(_)));
    // the reply arrives valid: the request goes out to all three robots
    let requests = screen.handle_payment_capture(valid_capture_reply());
    assert_eq!(requests.len(), 3);

    // robot 1 answers first and gets the order
    let request = match &requests[1] {
        ScreenAction::SendRequest { request, .. } => {
            icecream_ring::messages::OrderRequest::new(request.ip.clone(), request.id)
        }
        _ => panic!("expected a request"),
    };
    let answered = robots[1].process_order_request(request);
    let screen_award = match &answered[0] {
        RobotAction::ReplyRequest { request, .. } => screen.handle_order_request(
            icecream_ring::messages::OrderRequest::new(request.ip.clone(), request.id),
        ),
        _ => panic!("expected an answer"),
    };
    let prep = match &screen_award[0] {
        ScreenAction::ToRobot { prep, .. } => prep.duplicate(),
        _ => panic!("expected the hand-over"),
    };
    assert!(robots[1].process_order_prep(prep).is_empty());

    // the three tokens make their round through robot 1
    let mut result: Option<OrderPrep> = None;
    let mut forwarded: Vec<Flavour> = Vec::new();
    for token in tokens.drain(..) {
        for action in robots[1].process_flavour(token) {
            match action {
                RobotAction::Forward(f) => forwarded.push(f),
                RobotAction::ToScreen { prep, .. } => result = Some(prep),
                RobotAction::Pause { .. } => {}
                _ => panic!("unexpected action"),
            }
        }
    }
    let result = result.expect("the order should have completed");
    assert_eq!(result.fail_flag, ORDER_SUCCESS);
    assert_eq!(forwarded.iter().map(|f| f.amount).sum::<u64>(), 27000);

    // the screen confirms, the gateway writes exactly one matching line
    let confirm = screen.handle_order_result(result);
    let conf = match &confirm[0] {
        ScreenAction::SendConfirmation(c) => GatewayEvent::Confirmation(
            icecream_ring::messages::PaymentConfirmation::new(
                c.ip.clone(),
                c.id.clone(),
                c.order_data.duplicate(),
            ),
        ),
        _ => panic!("expected a confirmation"),
    };
    let appended = gateway.handle(conf);
    assert_eq!(appended.len(), 1);
    match &appended[0] {
        GatewayAction::Append { line } => assert!(line.ends_with(
            " 0 completed order of size 3 with flavours Vainilla,Dulce de leche,Tramontana"
        )),
        _ => panic!("expected a ledger line"),
    }
    assert_eq!(screen.phase, Phase::Idle);
}

/// An invalid capture cancels the order: no request is broadcast, no
/// ledger line is written, the screen just reads the next order.
#[test]
fn invalid_capture_cancels_before_broadcast() {
    let mut screen = make_screen(3);
    screen.handle_new_order(OrderJSON { id: 1, size: 3, flavours: flavour_names() });
    let invalid = PaymentCapture::new("127.0.0.1:20000".to_string(), "GATEWAY".to_string(), false);
    let out = screen.handle_payment_capture(invalid);
    assert_eq!(out.len(), 1);
    assert!(matches!(out[0], ScreenAction::NextOrder(_)));
    assert_eq!(screen.phase, Phase::Idle);
}

/// An order of 30 units of one flavour against a 10-unit token: the robot
/// cancels with `ORDER_FAILED` and the token keeps its full amount.
#[test]
fn oversized_order_fails_without_consuming() {
    let mut robot = make_robot(0, 3);
    let order = OrderPrep {
        message: "OrderPrep".to_string(),
        ip: "127.0.0.1:50000".to_string(),
        id: 2,
        size: 30,
        flavours: vec!["Vainilla".to_string()],
        fail_flag: 0,
    };
    assert!(robot.process_order_prep(order).is_empty());
    let out = robot.process_flavour(Flavour::new("Vainilla".to_string(), 10000));
    assert_eq!(out.len(), 2);
    match &out[0] {
        RobotAction::ToScreen { prep, .. } => assert_eq!(prep.fail_flag, ORDER_FAILED),
        _ => panic!("expected the cancellation"),
    }
    match &out[1] {
        RobotAction::Forward(f) => assert_eq!(f.amount, 10000),
        _ => panic!("expected the token unchanged"),
    }
}

/// Two robots answer; the award goes to the busy one on purpose, which
/// bounces `ROBOT_OCCUPIED`; the screen then waits for its timer and the
/// timer re-broadcasts.
#[test]
fn busy_award_bounces_and_timer_rebroadcasts() {
    let mut busy = make_robot(0, 3);
    let mut screen = make_screen(3);

    // make robot 0 busy with someone else's order
    let other = OrderPrep {
        message: "OrderPrep".to_string(),
        ip: "127.0.0.1:59999".to_string(),
        id: 99,
        size: 3,
        flavours: vec!["Vainilla".to_string()],
        fail_flag: 0,
    };
    assert!(busy.process_order_prep(other).is_empty());

    screen.handle_new_order(OrderJSON { id: 3, size: 3, flavours: flavour_names() });
    screen.handle_payment_capture(valid_capture_reply());
    // the busy robot's (stale) answer wins the award
    let award = screen.handle_order_request(icecream_ring::messages::OrderRequest::new(
        "127.0.0.1:30000".to_string(),
        0,
    ));
    let prep = match &award[0] {
        ScreenAction::ToRobot { prep, .. } => prep.duplicate(),
        _ => panic!("expected the hand-over"),
    };
    let bounced = busy.process_order_prep(prep);
    let bounce = match &bounced[0] {
        RobotAction::ToScreen { prep, .. } => {
            assert_eq!(prep.fail_flag, ROBOT_OCCUPIED);
            prep.duplicate()
        }
        _ => panic!("expected the bounce"),
    };
    // the screen takes the bounce and produces no traffic: the timer decides
    let out = screen.handle_order_result(bounce);
    assert!(out.is_empty());
    assert_eq!(screen.phase, Phase::Broadcasting);
    // the timer fires for the unfinished order: the request goes out again
    let rebroadcast = screen.handle_rebroadcast(ReBroadcastOrder { id: 3 });
    assert_eq!(rebroadcast.len(), 3);
}

/// A screen quits: its goodbye reaches the gateway, which releases it and
/// keeps serving the remaining screen.
#[test]
fn screen_quit_releases_it_at_the_gateway() {
    let mut gateway = Gateway::new(vec![
        "127.0.0.1:5555".to_string(),
        "127.0.0.1:6666".to_string(),
    ]);
    let mut screen = make_screen(3);

    let out = screen.handle_shutdown(Shutdown());
    let bye = match &out[0] {
        ScreenAction::SendBye(d) => icecream_ring::messages::Disconnect::new(
            d.ip.clone(),
            d.id.clone(),
        ),
        _ => panic!("expected the goodbye"),
    };
    assert!(gateway.handle(GatewayEvent::Bye(bye)).is_empty());
    assert!(!gateway.finished());

    // the remaining screen is still served
    let capture = PaymentCapture::new("127.0.0.1:6666".to_string(), "1".to_string(), true);
    let replies = gateway.handle(GatewayEvent::Capture(capture));
    assert_eq!(replies.len(), 1);
}
