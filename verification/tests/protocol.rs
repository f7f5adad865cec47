use fetchline::protocol::{Command, DecodeError, ErrorCode, Frame, Response};

#[test]
fn position_command_round_trips() {
    let frame = Frame::command(
        42,
        Command::SetPosition {
            id: 7,
            position: 1234,
            acceleration: 20,
            torque_limit: 1000,
        },
    );
    let decoded = Frame::decode(frame.encode()).unwrap();
    assert_eq!(decoded.sequence(), 42);
    assert_eq!(
        decoded.as_command(),
        Ok(Command::SetPosition {
            id: 7,
            position: 1234,
            acceleration: 20,
            torque_limit: 1000,
        })
    );
}

#[test]
fn error_response_round_trips() {
    let frame = Frame::response(
        9,
        Response::Error {
            code: ErrorCode::ServoReportedError,
            detail: 0x20,
        },
    );
    let decoded = Frame::decode(frame.encode()).unwrap();
    assert_eq!(
        decoded.as_response(),
        Ok(Response::Error {
            code: ErrorCode::ServoReportedError,
            detail: 0x20,
        })
    );
}

#[test]
fn rejects_a_bad_envelope_and_invalid_motor_direction() {
    let mut bytes = Frame::command(1, Command::OpenRawTunnel).encode();
    bytes[0] = 0;
    assert_eq!(Frame::decode(bytes), Err(DecodeError::BadMagic));

    let mut bytes = Frame::command(
        1,
        Command::StartMotor {
            id: 1,
            counter_clockwise: false,
            speed: 100,
            acceleration: 20,
        },
    )
    .encode();
    bytes[9] = 2;
    assert_eq!(
        Frame::decode(bytes).unwrap().as_command(),
        Err(DecodeError::InvalidField)
    );
}

#[test]
fn frames_have_a_fixed_layout() {
    let frame = Frame::command(
        0x0403_0201,
        Command::StartMotor {
            id: 9,
            counter_clockwise: true,
            speed: 0x0fa0,
            acceleration: 254,
        },
    );
    assert_eq!(
        frame.encode(),
        [0x46, 0x4c, 1, 0x10, 1, 2, 3, 4, 9, 1, 0xa0, 0x0f, 254, 0, 0, 0]
    );
    let frame = Frame::response(1, Response::Position { id: 3, position: -2 });
    assert_eq!(
        frame.encode(),
        [0x46, 0x4c, 1, 0x81, 1, 0, 0, 0, 3, 0, 0xfe, 0xff, 0, 0, 0, 0]
    );
    assert_eq!(
        frame.as_response(),
        Ok(Response::Position { id: 3, position: -2 })
    );
}

#[test]
fn every_message_survives_its_frame() {
    let commands = [
        Command::Ping,
        Command::StopMotor { id: 4 },
        Command::ReadPosition { id: 253 },
        Command::OpenRawTunnel,
    ];
    for command in commands {
        let frame = Frame::decode(Frame::command(7, command).encode()).unwrap();
        assert_eq!(frame.as_command(), Ok(command));
        assert_eq!(frame.as_response(), Err(DecodeError::UnknownMessage));
    }
    let responses = [
        Response::Ack,
        Response::RawTunnelReady,
        Response::Position {
            id: 1,
            position: i16::MIN,
        },
    ];
    for response in responses {
        let frame = Frame::decode(Frame::response(7, response).encode()).unwrap();
        assert_eq!(frame.as_response(), Ok(response));
        assert_eq!(frame.as_command(), Err(DecodeError::UnknownMessage));
    }
}

#[test]
fn rejects_other_versions_and_unknown_error_numbers() {
    let mut bytes = Frame::command(1, Command::Ping).encode();
    bytes[2] = 2;
    assert_eq!(Frame::decode(bytes), Err(DecodeError::UnsupportedVersion));

    let mut bytes = Frame::response(
        1,
        Response::Error {
            code: ErrorCode::InvalidRequest,
            detail: 0,
        },
    )
    .encode();
    bytes[10] = 9;
    assert_eq!(
        Frame::decode(bytes).unwrap().as_response(),
        Err(DecodeError::InvalidField)
    );

    let mut bytes = Frame::command(
        1,
        Command::StartMotor {
            id: 1,
            counter_clockwise: false,
            speed: 1,
            acceleration: 1,
        },
    )
    .encode();
    bytes[13] = 1;
    assert_eq!(
        Frame::decode(bytes).unwrap().as_command(),
        Err(DecodeError::InvalidField)
    );
}

#[test]
fn error_classes_are_numbered_from_one_to_eight() {
    assert_eq!(ErrorCode::from_u16(0), None);
    assert_eq!(ErrorCode::from_u16(1), Some(ErrorCode::UnsupportedCommand));
    assert_eq!(ErrorCode::from_u16(8), Some(ErrorCode::InvalidRequest));
    assert_eq!(ErrorCode::from_u16(9), None);
    for number in 1..=8 {
        assert_eq!(ErrorCode::from_u16(number).unwrap().to_u16(), number);
    }
}
