use fetchline::bridge::{
    connect_controller, connect_controller_once, BridgeConnection, BridgeMode, ConnectFault,
    ControllerJsonRpcResponse, ExchangeAction, ExchangeEvent, RawAction, RawEvent, RawExchange,
    SERVO_TIMEOUT_MS,
};
use fetchline::connect::{
    client_session, connect, BridgeChange, BrowserAction, BrowserEvent, ConnectAction,
    ConnectEvent, ConnectRun,
};
use fetchline::host::{
    answer_request, handle_request, id_change_result, position_result, scan_result,
    validate_id, validate_id_change, validate_scan_range, CallReply, ClientMessage, Direction,
    HostAction, HostEvent, HostRun, Position, ReplyKind, RequestStart, ServerMessage,
    ServoIdChangeResult,
};
use fetchline::host_log::TransportMode;
use fetchline::servo_bus::checksum_for_status;
use serde_json::Value;

fn json(text: &str) -> Value {
    serde_json::from_str(text).unwrap()
}

fn status_packet(id: u8, payload: &[u8]) -> Vec<u8> {
    let length = u8::try_from(payload.len() + 2).unwrap();
    let mut packet = vec![0xff, 0xff, id, length, 0];
    packet.extend_from_slice(payload);
    packet.push(checksum_for_status(id, length, &packet[4..]));
    packet
}

/// Starts a request over a connection of the given mode.
fn start(request: ClientMessage, controller: bool) -> (HostRun, HostAction) {
    match handle_request(request, Some(controller)) {
        RequestStart::Carry(run, action) => (run, action),
        other => panic!("unexpected start {other:?}"),
    }
}

/// Carries out a request through the raw tunnel, where each packet gets the given reply or none.
fn run_raw(
    request: ClientMessage,
    replies: &[Option<Vec<u8>>],
) -> (Vec<Vec<u8>>, Result<ServerMessage, String>) {
    let mut packets = Vec::new();
    let mut replies = replies.iter();
    let (mut run, mut action) = start(request, false);
    loop {
        let transaction = match action {
            HostAction::Finish(result) => return (packets, result),
            HostAction::Exchange(transaction) => transaction,
            HostAction::Call { method, .. } => panic!("unexpected call of {method}"),
        };
        let (mut exchange, packet) =
            RawExchange::start(&transaction, BridgeMode::DebugRaw).unwrap();
        packets.push(packet);
        let reply = replies.next().expect("a reply for each packet");
        let mut rest: &[u8] = reply.as_deref().unwrap_or(&[]);
        let mut step = exchange.read_status(RawEvent::Sent);
        let reply = loop {
            match step {
                RawAction::Finish(reply) => break reply,
                RawAction::Read { count } if rest.len() < count => {
                    step = exchange.read_status(RawEvent::ReadTimedOut);
                }
                RawAction::Read { count } => {
                    let (bytes, left) = rest.split_at(count);
                    rest = left;
                    step = exchange.read_status(RawEvent::Read(bytes.to_vec()));
                }
            }
        };
        (run, action) = run.step(HostEvent::Exchanged(reply)).unwrap();
    }
}

/// Reads the result of a call as the run asked for.
fn reply_of(kind: ReplyKind, value: Value) -> CallReply {
    match kind {
        ReplyKind::Value => CallReply::Value(value),
        ReplyKind::Position => CallReply::Position(Ok(Position {
            id: value["id"].as_u64().unwrap() as u8,
            position: value["position"].as_i64().unwrap() as i16,
        })),
        ReplyKind::Scan => CallReply::Scan(Ok(value["ids"]
            .as_array()
            .unwrap()
            .iter()
            .map(|id| id.as_u64().unwrap() as u8)
            .collect())),
        ReplyKind::IdChange => CallReply::IdChange(Ok(ServoIdChangeResult {
            previous_id: value["previousId"].as_u64().unwrap() as u8,
            new_id: value["newId"].as_u64().unwrap() as u8,
        })),
    }
}

/// Carries out a request over a controller connection with the given results, after a stale reply
/// to each call.
fn run_controller(
    bridge: &mut BridgeConnection,
    request: ClientMessage,
    results: &[&str],
) -> (Vec<Value>, Result<ServerMessage, String>) {
    let mut requests = Vec::new();
    let mut results = results.iter();
    let (mut run, mut action) = start(request, bridge.is_controller());
    loop {
        let (method, params, timeout_ms, reply) = match action {
            HostAction::Finish(result) => return (requests, result),
            HostAction::Call { method, params, timeout_ms, reply } => {
                (method, params, timeout_ms, reply)
            }
            HostAction::Exchange(_) => panic!("unexpected packet"),
        };
        let (mut exchange, text) =
            bridge.controller_request_with_timeout(method, params, timeout_ms).unwrap();
        let request = json(&text);
        let answer = |id: u64, result: &str| {
            ExchangeEvent::Response(ControllerJsonRpcResponse {
                jsonrpc: "2.0".to_owned(),
                id: Some(id as u32),
                result: Some(json(result)),
                error: None,
            })
        };
        assert!(matches!(exchange.step(ExchangeEvent::Sent), ExchangeAction::Receive));
        assert!(matches!(exchange.step(answer(0, "{}")), ExchangeAction::Receive));
        let result = results.next().expect("a result for each call");
        let ExchangeAction::Finish(called) =
            exchange.step(answer(request["id"].as_u64().unwrap(), result))
        else {
            panic!("the MCU answered");
        };
        requests.push(request);
        (run, action) =
            run.step(HostEvent::Called(called.map(|value| reply_of(reply, value)))).unwrap();
    }
}

fn controller_bridge() -> BridgeConnection {
    BridgeConnection::new("127.0.0.1:3333".to_owned())
}

#[test]
fn accepts_only_unicast_servo_ids() {
    assert!(validate_id(1).is_ok());
    assert!(validate_id(253).is_ok());
    assert!(validate_id(0).is_err());
    assert!(validate_id(254).is_err());
    assert!(validate_id(255).is_err());
}

#[test]
fn limits_servo_scans_to_unicast_addresses() {
    assert!(validate_scan_range(1, 253).is_ok());
    assert!(validate_scan_range(0, 10).is_err());
    assert!(validate_scan_range(1, 254).is_err());
    assert!(validate_scan_range(10, 1).is_err());
}

#[test]
fn permits_only_safe_servo_id_changes() {
    assert!(validate_id_change(1, 253).is_ok());
    assert!(validate_id_change(0, 5).is_err());
    assert!(validate_id_change(5, 254).is_err());
    assert!(validate_id_change(5, 5).is_err());
}

#[test]
fn explains_refused_ids() {
    assert_eq!(validate_id(0).unwrap_err(), "Servo ID must be between 1 and 253");
    assert_eq!(
        validate_scan_range(10, 1).unwrap_err(),
        "Servo search IDs must be between 1 and 253, with a start no greater than the end"
    );
    assert_eq!(validate_id_change(5, 0).unwrap_err(), "Servo ID must be between 1 and 253");
    assert_eq!(
        validate_id_change(5, 5).unwrap_err(),
        "The current and new servo IDs must differ"
    );
}

#[test]
fn motor_start_selects_continuous_mode_then_writes_speed() {
    let request = ClientMessage::StartMotor {
        id: 1,
        speed: 1024,
        acceleration: 20,
        direction: Direction::Clockwise,
    };
    let reply = Some(status_packet(1, &[]));
    let (packets, result) = run_raw(request, &[reply.clone(), reply.clone(), reply]);
    assert_eq!(
        packets,
        [
            vec![0xff, 0xff, 1, 4, 3, 33, 1, 213],
            vec![0xff, 0xff, 1, 4, 3, 40, 1, 206],
            vec![0xff, 0xff, 1, 10, 3, 41, 20, 0, 0, 0, 0, 0, 4, 176],
        ]
    );
    assert!(matches!(result, Ok(ServerMessage::Complete { action: "motor_started" })));
}

#[test]
fn controller_mode_uses_a_high_level_command_and_discards_a_stale_response() {
    let mut bridge = controller_bridge();
    let request =
        ClientMessage::MovePosition { id: 5, position: 1625, acceleration: 20, torque_limit: 1000 };
    let (requests, result) = run_controller(&mut bridge, request, &[r#"{"accepted":true}"#]);
    let request = &requests[0];
    assert_eq!(request["jsonrpc"], "2.0");
    assert_eq!(request["method"], "servo.setPosition");
    assert_eq!(request["params"]["id"], 5);
    assert_eq!(request["params"]["position"], 1625);
    assert_eq!(request["params"]["acceleration"], 20);
    assert_eq!(request["params"]["torqueLimit"], 1000);
    assert!(matches!(result, Ok(ServerMessage::Complete { action: "position_commanded" })));
}

#[test]
fn controller_mode_scans_servo_ids_on_the_mcu() {
    let mut bridge = controller_bridge();
    let request = ClientMessage::ScanServos { start_id: 1, end_id: 10 };
    let (requests, result) = run_controller(&mut bridge, request, &[r#"{"ids":[2,5,7]}"#]);
    assert_eq!(requests[0]["method"], "servo.scan");
    assert_eq!(requests[0]["params"]["startId"], 1);
    assert_eq!(requests[0]["params"]["endId"], 10);
    let Ok(ServerMessage::ServoScan { start_id, end_id, ids }) = result else {
        panic!("servo scan should return a scan response");
    };
    assert_eq!((start_id, end_id), (1, 10));
    assert_eq!(ids, vec![2, 5, 7]);
}

#[test]
fn controller_mode_changes_a_servo_id_on_the_mcu() {
    let mut bridge = controller_bridge();
    let request = ClientMessage::SetServoId { current_id: 5, new_id: 6 };
    let (requests, result) =
        run_controller(&mut bridge, request, &[r#"{"previousId":5,"newId":6}"#]);
    assert_eq!(requests[0]["method"], "servo.setId");
    assert_eq!(requests[0]["params"]["currentId"], 5);
    assert_eq!(requests[0]["params"]["newId"], 6);
    let Ok(ServerMessage::ServoIdChanged { previous_id, new_id }) = result else {
        panic!("servo ID change should return its old and new IDs");
    };
    assert_eq!((previous_id, new_id), (5, 6));
}

#[test]
fn position_refresh_continues_after_one_servo_times_out() {
    let (packets, result) = run_raw(
        ClientMessage::ReadPositions { ids: vec![2, 3, 4] },
        &[Some(status_packet(2, &[2, 0])), None, Some(status_packet(4, &[4, 0]))],
    );
    assert_eq!(
        packets,
        [
            vec![0xff, 0xff, 2, 4, 2, 56, 2, 189],
            vec![0xff, 0xff, 3, 4, 2, 56, 2, 188],
            vec![0xff, 0xff, 4, 4, 2, 56, 2, 187],
        ]
    );
    let Ok(ServerMessage::Positions { positions, errors }) = result else {
        panic!("position refresh should return a positions response");
    };
    assert_eq!(positions.len(), 2);
    assert_eq!(positions[0].id, 2);
    assert_eq!(positions[1].id, 4);
    assert_eq!(errors.len(), 1);
    assert!(errors[0].starts_with("Servo 3: Timed out"));
}

#[test]
fn controller_mode_starts_stops_and_locates() {
    let mut bridge = controller_bridge();
    let request = ClientMessage::StartMotor {
        id: 1,
        speed: 100,
        acceleration: 20,
        direction: Direction::Counterclockwise,
    };
    let (requests, result) = run_controller(&mut bridge, request, &[r#"{"accepted":true}"#]);
    assert_eq!(
        requests[0]["params"],
        json(r#"{"id":1,"speed":100,"acceleration":20,"direction":"counterclockwise"}"#)
    );
    assert!(matches!(result, Ok(ServerMessage::Complete { action: "motor_started" })));
    let (requests, result) =
        run_controller(&mut bridge, ClientMessage::StopMotor { id: 1 }, &["{}"]);
    assert_eq!(requests[0]["method"], "motor.stop");
    assert_eq!(
        result.unwrap_err(),
        "MCU rejected the controller command without an accepted result"
    );
    let (requests, result) = run_controller(
        &mut bridge,
        ClientMessage::ReadPosition { id: 5 },
        &[r#"{"id":5,"position":-3}"#],
    );
    assert_eq!(requests[0]["method"], "servo.getPosition");
    assert!(matches!(result, Ok(ServerMessage::Position { id: 5, position: -3 })));
    let (requests, result) = run_controller(
        &mut bridge,
        ClientMessage::ReadPositions { ids: vec![5, 0, 6] },
        &[r#"{"id":5,"position":1}"#, r#"{"id":5,"position":2}"#],
    );
    assert_eq!(requests.len(), 2);
    let Ok(ServerMessage::Positions { positions, errors }) = result else {
        panic!("positions were read");
    };
    assert_eq!(positions, [Position { id: 5, position: 1 }]);
    assert_eq!(
        errors,
        [
            "Servo 0: Servo ID must be between 1 and 253",
            "Servo 6: MCU returned a position for servo 5, but servo 6 was requested",
        ]
    );
}

#[test]
fn refuses_invalid_requests_without_asking_the_mcu() {
    for (request, message) in [
        (
            ClientMessage::StartMotor {
                id: 1,
                speed: 4096,
                acceleration: 0,
                direction: Direction::Clockwise,
            },
            "Motor speed must be between 0 and 4095",
        ),
        (
            ClientMessage::MovePosition {
                id: 1,
                position: 4096,
                acceleration: 0,
                torque_limit: 1001,
            },
            "Position must be between 0 and 4095",
        ),
        (
            ClientMessage::MovePosition {
                id: 1,
                position: 0,
                acceleration: 0,
                torque_limit: 1001,
            },
            "Torque limit must be between 0 and 1000",
        ),
        (ClientMessage::StopMotor { id: 254 }, "Servo ID must be between 1 and 253"),
        (ClientMessage::ReadPosition { id: 0 }, "Servo ID must be between 1 and 253"),
        (
            ClientMessage::ReadPositions { ids: vec![1; 7] },
            "At most six position servos can be read at once",
        ),
        (
            ClientMessage::SetServoId { current_id: 1, new_id: 1 },
            "The current and new servo IDs must differ",
        ),
    ] {
        let (requests, result) = run_controller(&mut controller_bridge(), request, &[]);
        assert!(requests.is_empty());
        assert_eq!(result.unwrap_err(), message);
    }
    let (_, result) = run_raw(ClientMessage::ScanServos { start_id: 1, end_id: 2 }, &[]);
    assert_eq!(
        result.unwrap_err(),
        "Servo search is available only in JSON-RPC controller mode, not through the raw debug tunnel"
    );
    let (_, result) = run_raw(ClientMessage::SetServoId { current_id: 1, new_id: 2 }, &[]);
    assert_eq!(
        result.unwrap_err(),
        "Changing a servo ID is available only in JSON-RPC controller mode, not through the raw debug tunnel"
    );
}

#[test]
fn checks_what_the_mcu_reports() {
    let cause = || "missing field".to_owned();
    assert_eq!(
        position_result(5, Err(cause())).unwrap_err(),
        "MCU returned an invalid position result: missing field"
    );
    assert_eq!(
        scan_result(1, 10, Err(cause())).unwrap_err(),
        "MCU returned an invalid servo-scan result: missing field"
    );
    assert_eq!(
        scan_result(1, 10, Ok(vec![5, 11, 0])).unwrap_err(),
        "MCU returned an invalid scanned servo ID 11"
    );
    assert_eq!(
        id_change_result(5, 6, Err(cause())).unwrap_err(),
        "MCU returned an invalid servo-ID change result: missing field"
    );
    for change in [
        ServoIdChangeResult { previous_id: 5, new_id: 7 },
        ServoIdChangeResult { previous_id: 4, new_id: 6 },
    ] {
        assert_eq!(
            id_change_result(5, 6, Ok(change)).unwrap_err(),
            "MCU confirmed different servo IDs than requested"
        );
    }
}

#[test]
fn a_failed_request_tells_whether_the_bridge_is_left() {
    for (message, kept) in [
        ("MCU JSON-RPC error -32001: STS servo timeout", true),
        ("MCU closed the JSON-RPC WebSocket", false),
    ] {
        let (answer, keep) = answer_request(Err(message.to_owned()));
        let ServerMessage::Error { message: told, bridge_connected } = answer else {
            panic!("a failure is answered with an error");
        };
        assert_eq!((told.as_str(), bridge_connected, keep), (message, kept, kept));
    }
    let (answer, keep) = answer_request(Ok(ServerMessage::Complete { action: "motor_stopped" }));
    assert!(keep && matches!(answer, ServerMessage::Complete { action: "motor_stopped" }));

    let (run, _) = start(ClientMessage::ReadPositions { ids: vec![1, 2] }, true);
    let broken = "MCU closed the JSON-RPC WebSocket".to_owned();
    let (_, action) = run.step(HostEvent::Called(Err(broken.clone()))).unwrap();
    assert!(matches!(action, HostAction::Finish(Err(message)) if message == broken));
}

#[test]
fn refuses_servo_requests_without_a_connection() {
    for request in [
        ClientMessage::StopMotor { id: 1 },
        ClientMessage::StopMotor { id: 0 },
        ClientMessage::ReadPositions { ids: Vec::new() },
        ClientMessage::ScanServos { start_id: 1, end_id: 10 },
    ] {
        let RequestStart::Refuse(ServerMessage::Error { message, bridge_connected }) =
            handle_request(request, None)
        else {
            panic!("a servo request needs a connection");
        };
        assert_eq!(message, "Connect to the MCU before sending servo commands");
        assert!(!bridge_connected);
    }
    for present in [None, Some(true), Some(false)] {
        let request = ClientMessage::Connect { host: " mcu ".to_owned(), port: 3333 };
        assert!(matches!(
            handle_request(request, present),
            RequestStart::Connect { host, port: 3333 } if host == " mcu "
        ));
    }
}

#[test]
fn summarizes_requests() {
    for (request, summary) in [
        (
            ClientMessage::Connect { host: "mcu".to_owned(), port: 3333 },
            "connect MCU mcu:3333",
        ),
        (
            ClientMessage::StartMotor {
                id: 1,
                speed: 1024,
                acceleration: 20,
                direction: Direction::Counterclockwise,
            },
            "start motor servo=1 direction=Counterclockwise speed=1024 acceleration=20",
        ),
        (ClientMessage::StopMotor { id: 1 }, "stop motor servo=1"),
        (
            ClientMessage::MovePosition {
                id: 5,
                position: 1625,
                acceleration: 20,
                torque_limit: 1000,
            },
            "move servo=5 position=1625 acceleration=20 torque_limit=1000",
        ),
        (ClientMessage::ReadPosition { id: 5 }, "read position servo=5"),
        (
            ClientMessage::ReadPositions { ids: vec![2, 13, 255] },
            "read positions servos=[2, 13, 255]",
        ),
        (ClientMessage::ReadPositions { ids: vec![] }, "read positions servos=[]"),
        (
            ClientMessage::ScanServos { start_id: 1, end_id: 10 },
            "scan servobus start_id=1 end_id=10",
        ),
        (
            ClientMessage::SetServoId { current_id: 5, new_id: 6 },
            "change servo ID current_id=5 new_id=6",
        ),
    ] {
        assert_eq!(request.summary(), summary);
    }
}

fn connected_to(action: ConnectAction) -> (String, BridgeChange) {
    match action {
        ConnectAction::Finish { answer: ServerMessage::Connected { address }, bridge } => {
            (address, bridge)
        }
        action => panic!("unexpected action {action:?}"),
    }
}

fn refused(action: ConnectAction) -> (String, BridgeChange) {
    match action {
        ConnectAction::Finish {
            answer: ServerMessage::Error { message, bridge_connected: false },
            bridge,
        } => (message, bridge),
        action => panic!("unexpected action {action:?}"),
    }
}

fn ready() -> ConnectEvent {
    ConnectEvent::Called(Ok(json(r#"{"ready":true}"#)))
}

/// Connects to an MCU that answers.
fn open(run: ConnectRun) -> (String, BridgeChange) {
    let (run, action) = run.step(ConnectEvent::Opened(Ok(()))).unwrap();
    assert!(matches!(action, ConnectAction::PingNew));
    let (_, action) = run.step(ready()).unwrap();
    connected_to(action)
}

#[test]
fn reconnecting_to_the_same_mcu_health_checks_its_websocket_client() {
    let (run, action) = connect(" 127.0.0.1 ", 3333, TransportMode::Controller, None);
    assert!(matches!(action, ConnectAction::Open { peer } if peer == "127.0.0.1:3333"));
    let (peer, change) = open(run);
    assert_eq!(change, BridgeChange::Install(BridgeMode::Controller));

    let (run, action) =
        connect("127.0.0.1", 3333, TransportMode::Controller, Some((&peer, true)));
    assert!(matches!(action, ConnectAction::PingPresent));
    let (_, action) = run.step(ready()).unwrap();
    assert_eq!(connected_to(action), (peer, BridgeChange::Keep));
}

#[test]
fn reconnecting_replaces_a_stale_controller_websocket() {
    let present = Some(("127.0.0.1:3333", true));
    for called in [
        Err("MCU closed the JSON-RPC WebSocket".to_owned()),
        Ok(json(r#"{"ready":false}"#)),
    ] {
        let (run, _) = connect("127.0.0.1", 3333, TransportMode::Controller, present);
        let (run, action) = run.step(ConnectEvent::Called(called)).unwrap();
        assert!(matches!(action, ConnectAction::Open { peer } if peer == "127.0.0.1:3333"));
        assert_eq!(open(run).1, BridgeChange::Install(BridgeMode::Controller));
    }
    let (_, action) = connect("127.0.0.1", 3334, TransportMode::Controller, present);
    assert!(matches!(action, ConnectAction::Open { peer } if peer == "127.0.0.1:3334"));
}

#[test]
fn reconnecting_waits_for_a_controller_listener_returning_after_handover() {
    let (run, action) = connect("127.0.0.1", 3333, TransportMode::Controller, None);
    let ConnectAction::Open { peer } = action else {
        panic!("a new connection is opened");
    };
    // The first TCP connection is accepted by an MCU that does not complete its WebSocket
    // handover in time; the second one is served.
    let mut faults = vec![ConnectFault::UpgradeTimedOut].into_iter();
    let mut elapsed_ms = 0;
    let mut attempts = 0;
    let opened = loop {
        attempts += 1;
        let Some(fault) = faults.next() else {
            break Ok(());
        };
        elapsed_ms += SERVO_TIMEOUT_MS;
        let message = connect_controller_once(&peer, &fault);
        match connect_controller(&message, elapsed_ms) {
            Some(wait) => elapsed_ms += wait,
            None => break Err(message),
        }
    };
    assert_eq!((attempts, elapsed_ms), (2, 850));
    let (run, action) = run.step(ConnectEvent::Opened(opened)).unwrap();
    assert!(matches!(action, ConnectAction::PingNew));
    let (_, action) = run.step(ready()).unwrap();
    assert_eq!(
        connected_to(action),
        ("127.0.0.1:3333".to_owned(), BridgeChange::Install(BridgeMode::Controller))
    );
}

#[test]
fn connection_refusal_is_reported_without_a_bridge() {
    let (run, _) = connect("127.0.0.1", 3333, TransportMode::Controller, None);
    let error = "Could not connect to 127.0.0.1:3333: Connection refused (os error 111)";
    let (_, action) = run.step(ConnectEvent::Opened(Err(error.to_owned()))).unwrap();
    let (message, change) = refused(action);
    assert!(message.starts_with("Could not connect"));
    assert_eq!(change, BridgeChange::Clear);
}

#[test]
fn refuses_incomplete_endpoints() {
    let (_, action) = connect(" \t", 3333, TransportMode::Controller, None);
    assert_eq!(
        refused(action),
        ("The MCU host name or IP address is required".to_owned(), BridgeChange::Keep)
    );
    let (_, action) = connect("mcu", 0, TransportMode::Controller, None);
    assert_eq!(
        refused(action),
        ("The MCU TCP port must be between 1 and 65535".to_owned(), BridgeChange::Keep)
    );
}

#[test]
fn connects_through_the_raw_tunnel() {
    let start = || {
        let (run, _) = connect("mcu", 3333, TransportMode::DebugRawTunnel, None);
        let (run, action) = run.step(ConnectEvent::Opened(Ok(()))).unwrap();
        assert!(matches!(action, ConnectAction::EnableTunnel));
        run
    };
    let enabled = || ConnectEvent::Called(Ok(json(r#"{"port":3334,"active":true}"#)));
    let (run, action) = start().step(enabled()).unwrap();
    assert!(matches!(action, ConnectAction::OpenRaw { peer } if peer == "mcu:3334"));
    let (_, action) = run.step(ConnectEvent::RawOpened(Ok(()))).unwrap();
    assert_eq!(
        connected_to(action),
        ("mcu:3333".to_owned(), BridgeChange::Install(BridgeMode::DebugRaw))
    );

    let (run, _) = start().step(enabled()).unwrap();
    let failure = "Timed out connecting to raw tunnel mcu:3334".to_owned();
    let (_, action) = run.step(ConnectEvent::RawOpened(Err(failure.clone()))).unwrap();
    assert_eq!(refused(action), (failure, BridgeChange::Clear));
    let (_, action) = start().step(ConnectEvent::Called(Ok(json("{}")))).unwrap();
    assert_eq!(refused(action).0, "MCU did not return a raw tunnel TCP port");
    let (_, action) = start().step(ConnectEvent::Called(Err("gone".to_owned()))).unwrap();
    assert_eq!(refused(action).0, "gone");

    let (_, action) =
        connect("mcu", 3333, TransportMode::DebugRawTunnel, Some(("mcu:3333", false)));
    assert_eq!(connected_to(action), ("mcu:3333".to_owned(), BridgeChange::Keep));
    assert!(start().step(ConnectEvent::RawOpened(Ok(()))).is_none());
}

#[test]
fn decides_about_the_messages_of_a_browser() {
    let request = ClientMessage::StopMotor { id: 1 };
    assert!(matches!(
        client_session(BrowserEvent::Text(Ok(request))),
        BrowserAction::Handle(ClientMessage::StopMotor { id: 1 })
    ));
    for (event, expected) in [
        (
            BrowserEvent::Text(Err("expected value".to_owned())),
            "Invalid control request: expected value",
        ),
        (BrowserEvent::Binary, "Binary WebSocket messages are not supported"),
    ] {
        let BrowserAction::Answer(ServerMessage::Error { message, bridge_connected: false }) =
            client_session(event)
        else {
            panic!("the message is answered with an error");
        };
        assert_eq!(message, expected);
    }
    assert!(matches!(client_session(BrowserEvent::PingOrPong), BrowserAction::Ignore));
    assert!(matches!(client_session(BrowserEvent::Close), BrowserAction::End));
    assert!(matches!(client_session(BrowserEvent::Failed), BrowserAction::End));
}

#[test]
fn browser_host_and_controller_complete_a_servo_scan_end_to_end() {
    let (run, _) = connect("127.0.0.1", 3333, TransportMode::Controller, None);
    let (peer, _) = open(run);
    let mut bridge = BridgeConnection::new(peer);
    let request = ClientMessage::ScanServos { start_id: 1, end_id: 10 };
    let (requests, result) = run_controller(&mut bridge, request, &[r#"{"ids":[5]}"#]);
    assert_eq!(requests[0]["method"], "servo.scan");
    assert_eq!(requests[0]["params"]["startId"], 1);
    assert_eq!(requests[0]["params"]["endId"], 10);
    assert!(matches!(
        result,
        Ok(ServerMessage::ServoScan { start_id: 1, end_id: 10, ids }) if ids == [5]
    ));
    let request = ClientMessage::SetServoId { current_id: 5, new_id: 6 };
    let (requests, result) =
        run_controller(&mut bridge, request, &[r#"{"previousId":5,"newId":6}"#]);
    assert_eq!(requests[0]["method"], "servo.setId");
    assert_eq!(requests[0]["params"]["currentId"], 5);
    assert_eq!(requests[0]["params"]["newId"], 6);
    assert_eq!(requests[0]["id"], 2);
    assert!(matches!(result, Ok(ServerMessage::ServoIdChanged { previous_id: 5, new_id: 6 })));
}
