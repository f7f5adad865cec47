use fetchline::bounded::PositionResult;
use fetchline::raw_tunnel::{RawTunnelCommand, RawTunnelControl};
use fetchline::rpc::{
    command_from_request, finish_request, handle_json_rpc, ControllerCommand, ControllerResult,
    JsonRpcParams, JsonRpcReply, JsonRpcRequest, Member, MemberValue, MotorDirection, RpcFailure,
    RpcStep,
};
use fetchline::servo_bus::ServoFailure;
use serde_json_core::heapless::Vec as BoundedVec;

fn request(method: &str, params: JsonRpcParams, id: Option<u32>) -> Option<JsonRpcRequest<'_>> {
    Some(JsonRpcRequest { jsonrpc: "2.0", method, params, id })
}

fn written(members: Vec<Member<'_>>) -> Vec<(&'static str, String)> {
    members
        .into_iter()
        .map(|member| {
            let value = match member.value {
                MemberValue::Flag(flag) => format!("{flag}"),
                MemberValue::Number(number) => format!("{number}"),
                MemberValue::Ids(ids) => format!("{ids:?}"),
                MemberValue::Positions(positions) => format!("{}", positions.len()),
            };
            (member.name, value)
        })
        .collect()
}

#[test]
fn answers_a_ping() {
    let mut tunnel = RawTunnelControl::new();
    let (step, signal) =
        handle_json_rpc(request("system.ping", JsonRpcParams::default(), Some(7)), &mut tunnel);
    assert!(matches!(
        step,
        RpcStep::Done(Some(JsonRpcReply::Success { id: 7, result: ControllerResult::Ready }))
    ));
    assert_eq!(signal, None);
}

#[test]
fn answers_malformed_requests() {
    let mut tunnel = RawTunnelControl::new();
    let (step, _) = handle_json_rpc(None, &mut tunnel);
    assert!(matches!(
        step,
        RpcStep::Done(Some(JsonRpcReply::Failure { id: None, failure: RpcFailure::ParseError }))
    ));
    for id in [Some(3), None] {
        let old = JsonRpcRequest {
            jsonrpc: "1.0",
            method: "system.ping",
            params: JsonRpcParams::default(),
            id,
        };
        let (step, _) = handle_json_rpc(Some(old), &mut tunnel);
        let RpcStep::Done(Some(JsonRpcReply::Failure { id: answered, failure })) = step else {
            panic!("an old version is answered");
        };
        assert_eq!((answered, failure), (id, RpcFailure::InvalidRequest));
    }
}

#[test]
fn opens_and_closes_the_raw_tunnel() {
    let mut tunnel = RawTunnelControl::new();
    let mut ask = |method: &str| {
        let (step, signal) =
            handle_json_rpc(request(method, JsonRpcParams::default(), Some(1)), &mut tunnel);
        let RpcStep::Done(Some(reply)) = step else {
            panic!("the request is answered at once");
        };
        (reply, signal)
    };
    let (reply, signal) = ask("debug.enableRawTunnel");
    assert!(matches!(
        reply,
        JsonRpcReply::Success { id: 1, result: ControllerResult::RawTunnel { active: true } }
    ));
    assert_eq!(signal, Some(RawTunnelCommand::Enable));
    assert_eq!(ask("debug.enableRawTunnel").1, None);

    let (reply, _) = ask("motor.stop");
    assert!(matches!(
        reply,
        JsonRpcReply::Failure { id: Some(1), failure: RpcFailure::RawTunnelActive }
    ));
    let (reply, _) = ask("no.such.method");
    assert!(matches!(
        reply,
        JsonRpcReply::Failure { id: Some(1), failure: RpcFailure::RawTunnelActive }
    ));
    assert!(matches!(
        ask("system.ping").0,
        JsonRpcReply::Success { id: 1, result: ControllerResult::Ready }
    ));

    let (reply, signal) = ask("debug.disableRawTunnel");
    assert!(matches!(
        reply,
        JsonRpcReply::Success { id: 1, result: ControllerResult::RawTunnel { active: false } }
    ));
    assert_eq!(signal, Some(RawTunnelCommand::Disable));
    assert_eq!(ask("debug.disableRawTunnel").1, None);
    assert!(matches!(
        ask("motor.stop").0,
        JsonRpcReply::Failure { id: Some(1), failure: RpcFailure::InvalidParams }
    ));
}

#[test]
fn executes_servo_methods() {
    let mut tunnel = RawTunnelControl::new();
    let params = JsonRpcParams { id: Some(5), ..JsonRpcParams::default() };
    let (step, signal) =
        handle_json_rpc(request("servo.getPosition", params, Some(42)), &mut tunnel);
    assert!(matches!(
        step,
        RpcStep::Execute { command: ControllerCommand::GetPosition { id: 5 }, id: Some(42) }
    ));
    assert_eq!(signal, None);
}

#[test]
fn sends_no_reply_to_a_notification() {
    let mut tunnel = RawTunnelControl::new();
    for method in ["system.ping", "no.such.method", "motor.stop", "debug.enableRawTunnel"] {
        let (step, _) =
            handle_json_rpc(request(method, JsonRpcParams::default(), None), &mut tunnel);
        assert!(matches!(step, RpcStep::Done(None)));
    }
    assert!(tunnel.is_enabled());
    assert!(finish_request(None, Ok(ControllerResult::Accepted)).is_none());
    assert!(finish_request(None, Err(ServoFailure::Timeout)).is_none());
}

#[test]
fn reads_the_parameters_of_each_method() {
    let all = || JsonRpcParams {
        id: Some(5),
        speed: Some(100),
        acceleration: Some(20),
        direction: Some(MotorDirection::Counterclockwise),
        position: Some(1625),
        torque_limit: Some(1000),
        ids: Some(BoundedVec::from_slice(&[2, 3]).unwrap()),
        start_id: Some(1),
        end_id: Some(10),
        current_id: Some(5),
        new_id: Some(6),
    };
    assert!(matches!(
        command_from_request("motor.start", all()),
        Ok(ControllerCommand::StartMotor {
            id: 5,
            counter_clockwise: true,
            speed: 100,
            acceleration: 20
        })
    ));
    assert!(matches!(
        command_from_request("motor.stop", all()),
        Ok(ControllerCommand::StopMotor { id: 5 })
    ));
    assert!(matches!(
        command_from_request("servo.setPosition", all()),
        Ok(ControllerCommand::SetPosition {
            id: 5,
            position: 1625,
            acceleration: 20,
            torque_limit: 1000
        })
    ));
    assert!(matches!(
        command_from_request("servo.getPosition", all()),
        Ok(ControllerCommand::GetPosition { id: 5 })
    ));
    assert!(matches!(
        command_from_request("servo.getPositions", all()),
        Ok(ControllerCommand::GetPositions { ids }) if ids.as_slice() == [2, 3]
    ));
    assert!(matches!(
        command_from_request("servo.scan", all()),
        Ok(ControllerCommand::ScanServos { start_id: 1, end_id: 10 })
    ));
    assert!(matches!(
        command_from_request("servo.setId", all()),
        Ok(ControllerCommand::SetId { current_id: 5, new_id: 6 })
    ));
    assert_eq!(
        command_from_request("servo.reset", all()).unwrap_err(),
        RpcFailure::MethodNotFound
    );
    for method in [
        "motor.start",
        "motor.stop",
        "servo.setPosition",
        "servo.getPosition",
        "servo.getPositions",
        "servo.scan",
        "servo.setId",
    ] {
        assert_eq!(
            command_from_request(method, JsonRpcParams::default()).unwrap_err(),
            RpcFailure::InvalidParams
        );
    }
    let clockwise =
        JsonRpcParams { direction: Some(MotorDirection::Clockwise), ..all() };
    assert!(matches!(
        command_from_request("motor.start", clockwise),
        Ok(ControllerCommand::StartMotor { counter_clockwise: false, .. })
    ));
}

#[test]
fn names_the_members_of_results() {
    let text = |result: &ControllerResult| written(result.members());
    assert_eq!(text(&ControllerResult::Ready), [("ready", "true".to_owned())]);
    assert_eq!(text(&ControllerResult::Accepted), [("accepted", "true".to_owned())]);
    assert_eq!(
        text(&ControllerResult::Position(PositionResult { id: 5, position: -7 })),
        [("id", "5".to_owned()), ("position", "-7".to_owned())]
    );
    let mut positions = BoundedVec::new();
    positions.push(PositionResult { id: 5, position: 1 }).unwrap();
    assert_eq!(
        text(&ControllerResult::Positions(positions)),
        [("positions", "1".to_owned())]
    );
    let ids = BoundedVec::from_slice(&[2, 5, 7]).unwrap();
    assert_eq!(text(&ControllerResult::Servos(ids)), [("ids", "[2, 5, 7]".to_owned())]);
    assert_eq!(
        text(&ControllerResult::IdChanged { previous_id: 5, new_id: 6 }),
        [("previousId", "5".to_owned()), ("newId", "6".to_owned())]
    );
    assert_eq!(
        text(&ControllerResult::RawTunnel { active: true }),
        [("port", "3334".to_owned()), ("active", "true".to_owned())]
    );
    assert_eq!(
        text(&ControllerResult::RawTunnel { active: false }),
        [("active", "false".to_owned())]
    );
}

#[test]
fn reports_servo_failures_with_their_codes() {
    for (failure, code, message) in [
        (ServoFailure::InvalidServoId, -32602, "Invalid params"),
        (ServoFailure::InvalidArgument, -32602, "Invalid params"),
        (ServoFailure::Timeout, -32001, "STS servo timeout"),
        (ServoFailure::InvalidReply, -32002, "Invalid STS servo reply"),
        (ServoFailure::ReportedError, -32003, "Servo reported STS error"),
        (ServoFailure::Transport, -32004, "STS UART transport failure"),
        (ServoFailure::IdInUse, -32005, "STS servo ID is already in use"),
    ] {
        let Some(JsonRpcReply::Failure { id, failure }) = finish_request(Some(9), Err(failure))
        else {
            panic!("a failure is reported");
        };
        assert_eq!(id, Some(9));
        assert_eq!((failure.code(), failure.message()), (code, message));
    }
    for (failure, code, message) in [
        (RpcFailure::ParseError, -32700, "Parse error"),
        (RpcFailure::InvalidRequest, -32600, "Invalid Request"),
        (RpcFailure::MethodNotFound, -32601, "Method not found"),
        (RpcFailure::RawTunnelActive, -32010, "Raw tunnel is active"),
    ] {
        assert_eq!((failure.code(), failure.message()), (code, message));
    }
    assert!(matches!(
        finish_request(Some(9), Ok(ControllerResult::Accepted)),
        Some(JsonRpcReply::Success { id: 9, result: ControllerResult::Accepted })
    ));
}
