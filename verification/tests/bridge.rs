use fetchline::bridge::{
    accepted_result, connect_controller, connect_controller_once, connect_raw_tunnel,
    connection_is_usable_after, controller_connection_is_retryable, controller_endpoint,
    expect_controller_accepted, expect_controller_ready, open_raw_tunnel, raw_tunnel_unusable,
    ready_result, status_fault_message, tunnel_port, write_packet, BridgeConnection, BridgeMode,
    ConnectFault, ControllerExchange, ControllerJsonRpcError, ControllerJsonRpcResponse,
    ExchangeAction, ExchangeEvent, RawAction, RawEvent, RawExchange,
};
use fetchline::servo_bus::{
    checksum_for_status, decode_position, read_position, StatusFault, Transaction,
};
use serde_json::Value;

fn json(text: &str) -> Value {
    serde_json::from_str(text).unwrap()
}

fn object(text: &str) -> serde_json::Map<String, Value> {
    serde_json::from_str(text).unwrap()
}

fn response(id: Option<u32>, result: &str) -> ExchangeEvent {
    ExchangeEvent::Response(ControllerJsonRpcResponse {
        jsonrpc: "2.0".to_owned(),
        id,
        result: Some(json(result)),
        error: None,
    })
}

fn failure(action: ExchangeAction) -> String {
    match action {
        ExchangeAction::Finish(Err(message)) => message,
        action => panic!("unexpected action {action:?}"),
    }
}

fn exchange() -> ControllerExchange {
    ControllerExchange { request_id: 7, remaining: 32, response_timeout_ms: 750 }
}

fn status_packet_with_error(id: u8, error: u8, payload: &[u8]) -> Vec<u8> {
    let length = u8::try_from(payload.len() + 2).unwrap();
    let mut packet = vec![0xff, 0xff, id, length, error];
    packet.extend_from_slice(payload);
    packet.push(checksum_for_status(id, length, &packet[4..]));
    packet
}

fn status_packet(id: u8, payload: &[u8]) -> Vec<u8> {
    status_packet_with_error(id, 0, payload)
}

/// Sends an instruction to a servo that answers with the given bytes and then closes the
/// connection.
fn exchange_with(transaction: &Transaction, mut reply: &[u8]) -> (Vec<u8>, Result<Vec<u8>, String>) {
    let (mut exchange, packet) = RawExchange::start(transaction, BridgeMode::DebugRaw).unwrap();
    let mut action = exchange.read_status(RawEvent::Sent);
    loop {
        match action {
            RawAction::Finish(result) => return (packet, result),
            RawAction::Read { count } if count > reply.len() => {
                action = exchange.read_status(RawEvent::ReadFailed("early eof".to_owned()));
            }
            RawAction::Read { count } => {
                let (bytes, rest) = reply.split_at(count);
                reply = rest;
                action = exchange.read_status(RawEvent::Read(bytes.to_vec()));
            }
        }
    }
}

#[test]
fn servo_timeouts_do_not_require_reconnecting_the_bridge() {
    assert!(connection_is_usable_after(
        "Timed out waiting for an STS servo reply"
    ));
    assert!(connection_is_usable_after(
        "STS reply checksum did not match"
    ));
    assert!(!connection_is_usable_after(
        "Could not send command to the MCU: Connection reset by peer"
    ));
    assert!(!connection_is_usable_after(
        "Could not send a JSON-RPC command to the MCU: IO error: Broken pipe (os error 32)"
    ));
    assert!(!connection_is_usable_after(
        "Timed out waiting for an MCU JSON-RPC response"
    ));
}

#[test]
fn every_kind_of_broken_transport_ends_the_connection() {
    for prefix in [
        "Timed out sending command to the MCU",
        "Could not send command to the MCU",
        "Could not read STS servo reply",
        "Timed out sending a JSON-RPC command to the MCU",
        "Could not send a JSON-RPC command to the MCU",
        "Timed out waiting for an MCU JSON-RPC response",
        "MCU closed the JSON-RPC WebSocket",
        "Could not read an MCU JSON-RPC response",
        "MCU sent invalid JSON-RPC",
        "MCU sent a JSON-RPC response with an unsupported version",
        "Could not answer MCU WebSocket ping",
        "MCU sent an unsupported WebSocket message",
        "MCU sent too many stale JSON-RPC responses",
    ] {
        assert!(!connection_is_usable_after(prefix));
        assert!(!connection_is_usable_after(&format!("{prefix}: cause")));
        assert!(connection_is_usable_after(&prefix[1..]));
    }
}

#[test]
fn requests_carry_rising_ids() {
    let mut bridge = BridgeConnection::new("127.0.0.1:3333".to_owned());
    assert!(bridge.is_controller());
    for id in [1, 2] {
        let (exchange, text) = bridge
            .controller_request("servo.setPosition", object(r#"{"id":5,"position":1625}"#))
            .unwrap();
        assert_eq!(
            exchange,
            ControllerExchange { request_id: id, remaining: 32, response_timeout_ms: 750 }
        );
        assert_eq!(
            text,
            format!(
                r#"{{"id":{id},"jsonrpc":"2.0","method":"servo.setPosition","params":{{"id":5,"position":1625}}}}"#
            )
        );
    }
    bridge.next_request_id = u32::MAX;
    let (exchange, _) =
        bridge.controller_request_with_timeout("servo.scan", serde_json::Map::new(), 20000).unwrap();
    assert_eq!(exchange.request_id, u32::MAX);
    assert_eq!(exchange.response_timeout_ms, 20000);
    assert_eq!(bridge.next_request_id, 0);

    bridge.attach_raw_tunnel();
    assert_eq!(bridge.mode, BridgeMode::DebugRaw);
    assert_eq!(
        bridge.controller_request("system.ping", serde_json::Map::new()).unwrap_err(),
        "the MCU connection is in debug raw-tunnel mode"
    );
    assert_eq!(bridge.next_request_id, 1);
}

#[test]
fn discards_replies_to_earlier_requests() {
    let mut exchange = exchange();
    assert!(matches!(exchange.step(ExchangeEvent::Sent), ExchangeAction::Receive));
    for id in [Some(6), None] {
        assert!(matches!(exchange.step(response(id, "{}")), ExchangeAction::Receive));
    }
    assert!(matches!(
        exchange.step(response(Some(7), r#"{"accepted":true}"#)),
        ExchangeAction::Finish(Ok(value)) if value == json(r#"{"accepted":true}"#)
    ));
}

#[test]
fn gives_up_after_32_messages() {
    let mut request = exchange();
    for _ in 0..31 {
        assert!(matches!(request.step(response(Some(1), "{}")), ExchangeAction::Receive));
    }
    assert_eq!(
        failure(request.step(response(Some(1), "{}"))),
        "MCU sent too many stale JSON-RPC responses"
    );
    let mut request = exchange();
    for _ in 0..31 {
        assert!(matches!(request.step(ExchangeEvent::Ping), ExchangeAction::SendPong));
        assert!(matches!(request.step(ExchangeEvent::PongSent), ExchangeAction::Receive));
    }
    assert_eq!(
        failure(request.step(ExchangeEvent::Pong)),
        "MCU sent too many stale JSON-RPC responses"
    );
}

#[test]
fn reports_every_way_in_which_a_request_fails() {
    let cause = || "cause".to_owned();
    for (event, message) in [
        (ExchangeEvent::SendTimedOut, "Timed out sending a JSON-RPC command to the MCU"),
        (
            ExchangeEvent::SendFailed(cause()),
            "Could not send a JSON-RPC command to the MCU: cause",
        ),
        (ExchangeEvent::ReceiveTimedOut, "Timed out waiting for an MCU JSON-RPC response"),
        (ExchangeEvent::StreamEnded, "MCU closed the JSON-RPC WebSocket"),
        (ExchangeEvent::Close, "MCU closed the JSON-RPC WebSocket"),
        (
            ExchangeEvent::ReceiveFailed(cause()),
            "Could not read an MCU JSON-RPC response: cause",
        ),
        (ExchangeEvent::InvalidText(cause()), "MCU sent invalid JSON-RPC: cause"),
        (
            ExchangeEvent::PongFailed(cause()),
            "Could not answer MCU WebSocket ping: cause",
        ),
        (ExchangeEvent::Unsupported, "MCU sent an unsupported WebSocket message"),
        (
            ExchangeEvent::Response(ControllerJsonRpcResponse {
                jsonrpc: "1.0".to_owned(),
                id: Some(7),
                result: None,
                error: None,
            }),
            "MCU sent a JSON-RPC response with an unsupported version",
        ),
    ] {
        let error = failure(exchange().step(event));
        assert_eq!(error, message);
        assert!(!connection_is_usable_after(&error));
    }
    let error = |code: i32| {
        Some(ControllerJsonRpcError { code, message: "STS servo timeout".to_owned() })
    };
    for (result, error, message) in [
        (None, error(-32001), "MCU JSON-RPC error -32001: STS servo timeout"),
        (None, None, "MCU returned an invalid JSON-RPC result/error combination"),
        (
            Some(json("1")),
            error(1),
            "MCU returned an invalid JSON-RPC result/error combination",
        ),
    ] {
        let response = ControllerJsonRpcResponse {
            jsonrpc: "2.0".to_owned(),
            id: Some(7),
            result,
            error,
        };
        let error = failure(exchange().step(ExchangeEvent::Response(response)));
        assert_eq!(error, message);
        assert!(connection_is_usable_after(&error));
    }
}

#[test]
fn checks_the_results_of_pings_and_commands() {
    assert_eq!(expect_controller_ready(&json(r#"{"ready":true}"#)), Ok(()));
    assert_eq!(expect_controller_accepted(&json(r#"{"accepted":true}"#)), Ok(()));
    for text in [r#"{"ready":false,"accepted":false}"#, r#"{"ready":1,"accepted":"true"}"#, "[]", "true", "{}"] {
        assert_eq!(
            expect_controller_ready(&json(text)).unwrap_err(),
            "MCU returned an unexpected result to system.ping"
        );
        assert_eq!(
            expect_controller_accepted(&json(text)).unwrap_err(),
            "MCU rejected the controller command without an accepted result"
        );
    }
    assert!(ready_result(Some(true)).is_ok() && ready_result(None).is_err());
    assert!(accepted_result(Some(true)).is_ok() && accepted_result(Some(false)).is_err());
}

#[test]
fn raw_tunnel_enable_is_an_explicit_json_rpc_command() {
    let mut bridge = BridgeConnection::new("127.0.0.1:3333".to_owned());
    let (mut exchange, text) =
        bridge.controller_request("debug.enableRawTunnel", serde_json::Map::new()).unwrap();
    let request = json(&text);
    assert_eq!(request["method"], "debug.enableRawTunnel");
    assert!(matches!(exchange.step(ExchangeEvent::Sent), ExchangeAction::Receive));
    let action = exchange.step(response(Some(1), r#"{"port":3334,"active":true}"#));
    let ExchangeAction::Finish(Ok(result)) = action else {
        panic!("the MCU answered the request");
    };
    assert_eq!(result["port"], fetchline::protocol::RAW_TUNNEL_TCP_PORT);
    assert_eq!(result["active"], true);
    assert_eq!(open_raw_tunnel("mcu", &result).unwrap(), "mcu:3334");
}

#[test]
fn refuses_a_raw_tunnel_on_another_port() {
    assert_eq!(
        open_raw_tunnel("mcu", &json(r#"{"port":3335}"#)).unwrap_err(),
        "MCU returned unexpected raw tunnel TCP port 3335"
    );
    for text in ["{}", r#"{"port":"3334"}"#, r#"{"port":-1}"#, r#"{"port":65536}"#, "null"] {
        assert_eq!(
            open_raw_tunnel("mcu", &json(text)).unwrap_err(),
            "MCU did not return a raw tunnel TCP port"
        );
    }
    assert_eq!(tunnel_port(Some(3334)), Ok(3334));
    assert!(tunnel_port(None).is_err());
}

#[test]
fn describes_and_retries_failed_connections() {
    let cause = || "refused".to_owned();
    for (fault, message, retryable) in [
        (ConnectFault::ConnectTimedOut, "Timed out connecting to mcu:1", true),
        (ConnectFault::ConnectFailed(cause()), "Could not connect to mcu:1: refused", true),
        (
            ConnectFault::ConfigureFailed(cause()),
            "Connected to mcu:1, but could not configure TCP: refused",
            false,
        ),
        (
            ConnectFault::UpgradeTimedOut,
            "Timed out opening the JSON-RPC WebSocket to mcu:1",
            true,
        ),
        (
            ConnectFault::UpgradeFailed(cause()),
            "Could not open the JSON-RPC WebSocket to mcu:1: refused",
            true,
        ),
    ] {
        assert_eq!(connect_controller_once("mcu:1", &fault), message);
        assert_eq!(controller_connection_is_retryable(message), retryable);
        assert_eq!(connect_controller(message, 2999), if retryable { Some(100) } else { None });
        assert_eq!(connect_controller(message, 3000), None);
    }
    assert_eq!(controller_endpoint("mcu:3333"), "ws://mcu:3333/rpc");
}

#[test]
fn limits_the_attempts_to_reach_the_raw_tunnel() {
    assert_eq!(connect_raw_tunnel("mcu:3334", 0), Ok(100_000_000));
    assert_eq!(connect_raw_tunnel("mcu:3334", 650_000_000), Ok(100_000_000));
    assert_eq!(connect_raw_tunnel("mcu:3334", 700_000_000), Ok(50_000_000));
    assert_eq!(connect_raw_tunnel("mcu:3334", 750_000_000), Ok(0));
    assert_eq!(
        connect_raw_tunnel("mcu:3334", 750_000_001).unwrap_err(),
        "Timed out connecting to raw tunnel mcu:3334"
    );
    assert_eq!(
        raw_tunnel_unusable("mcu:3334", "cause"),
        "Connected to raw tunnel mcu:3334, but could not configure TCP: cause"
    );
}

#[test]
fn position_read_decodes_the_servo_response() {
    let (packet, reply) = exchange_with(&read_position(2), &status_packet(2, &[0x34, 0x12]));
    assert_eq!(packet, vec![0xff, 0xff, 2, 4, 2, 56, 2, 189]);
    assert_eq!(decode_position(&reply.unwrap()), 0x1234);
}

#[test]
fn position_read_rejects_a_reply_from_another_servo() {
    let (_, reply) = exchange_with(&read_position(2), &status_packet(3, &[0, 0]));
    let error = reply.unwrap_err();
    assert!(error.contains("came from servo 3"));
    assert!(connection_is_usable_after(&error));
}

#[test]
fn position_read_rejects_a_bad_checksum_without_dropping_tcp() {
    let mut packet = status_packet(2, &[0, 0]);
    *packet.last_mut().unwrap() ^= 0xff;
    let (_, reply) = exchange_with(&read_position(2), &packet);
    let error = reply.unwrap_err();
    assert_eq!(error, "STS reply checksum did not match");
    assert!(connection_is_usable_after(&error));
}

#[test]
fn position_read_reports_a_servo_status_error() {
    let (_, reply) =
        exchange_with(&read_position(2), &status_packet_with_error(2, 0x20, &[0, 0]));
    let error = reply.unwrap_err();
    assert_eq!(error, "Servo 2 reported STS error 0x20");
    assert!(connection_is_usable_after(&error));
}

#[test]
fn position_read_drops_tcp_after_a_truncated_reply() {
    let (_, reply) = exchange_with(&read_position(2), &[0xff, 0xff, 2, 4, 0]);
    let error = reply.unwrap_err();
    assert!(error.starts_with("Could not read STS servo reply"));
    assert!(!connection_is_usable_after(&error));
}

#[test]
fn describes_faulty_replies() {
    let (_, reply) = exchange_with(&read_position(2), &status_packet(2, &[1, 2, 3]));
    assert_eq!(reply.unwrap_err(), "Servo 2 returned 3 data bytes; expected 2");
    for (fault, message) in [
        (StatusFault::NoHeader, "Could not find an STS response header"),
        (
            StatusFault::WrongServo { id: 3 },
            "STS reply came from servo 3, but servo 2 was addressed",
        ),
        (StatusFault::InvalidLength { length: 67 }, "STS reply has an invalid length (67)"),
        (StatusFault::InvalidChecksum, "STS reply checksum did not match"),
        (StatusFault::Reported { id: 2, error: 5 }, "Servo 2 reported STS error 0x05"),
    ] {
        assert_eq!(status_fault_message(fault, 2), message);
        assert!(connection_is_usable_after(message));
    }
    let (mut exchange, _) = RawExchange::start(&read_position(2), BridgeMode::DebugRaw).unwrap();
    for (event, message) in [
        (RawEvent::SendTimedOut, "Timed out sending command to the MCU"),
        (
            RawEvent::SendFailed("cause".to_owned()),
            "Could not send command to the MCU: cause",
        ),
        (RawEvent::ReadTimedOut, "Timed out waiting for an STS servo reply"),
        (RawEvent::ReadFailed("cause".to_owned()), "Could not read STS servo reply: cause"),
        (RawEvent::Read(Vec::new()), "Could not read STS servo reply: early eof"),
    ] {
        let RawAction::Finish(Err(error)) = exchange.read_status(event) else {
            panic!("the exchange failed");
        };
        assert_eq!(error, message);
    }
}

#[test]
fn sends_packets_only_through_the_raw_tunnel() {
    assert_eq!(
        RawExchange::start(&read_position(2), BridgeMode::Controller).unwrap_err(),
        "the MCU connection is in JSON-RPC controller mode"
    );
    assert_eq!(write_packet(1, 3, &[0; 254]).unwrap_err(), "STS command is too long");
    assert_eq!(write_packet(1, 3, &[0; 253]).unwrap().len(), 259);
}
