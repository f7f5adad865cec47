use fetchline::bounded::PositionResult;
use fetchline::bridge::SERVO_SCAN_TIMEOUT_MS;
use fetchline::executor::{execute_command, BusAction, BusEvent, CommandRun};
use fetchline::rpc::{ControllerCommand, ControllerResult};
use fetchline::servo_bus::{
    ServoFailure, DRAIN_QUIET_MS, MAX_DRAIN_READS, STS_RESPONSE_TIMEOUT_MS,
};
use serde_json_core::heapless::Vec as BoundedVec;

/// Carries out a command with scripted replies; `D` in the trace stands for draining.
fn run(
    command: ControllerCommand,
    replies: &[Result<&[u8], ServoFailure>],
) -> (Vec<Option<Vec<u8>>>, Result<ControllerResult, ServoFailure>) {
    let mut trace = Vec::new();
    let mut replies = replies.iter();
    let (mut state, mut action): (CommandRun, BusAction) = execute_command(command);
    loop {
        let event = match action {
            BusAction::Finish(result) => {
                assert!(replies.next().is_none(), "replies left over");
                return (trace, result);
            }
            BusAction::Drain => {
                trace.push(None);
                BusEvent::Drained
            }
            BusAction::Exchange { id, packet } => {
                assert_eq!(packet[2], id);
                trace.push(Some(packet));
                let reply = replies.next().expect("a reply for each packet");
                BusEvent::Reply(reply.map(|parameters| parameters.to_vec()))
            }
        };
        (state, action) = state.step(event).expect("the event was asked for");
    }
}

fn ids(ids: &[u8]) -> BoundedVec<u8, 6> {
    BoundedVec::from_slice(ids).unwrap()
}

#[test]
fn starts_a_motor_in_continuous_mode() {
    let command = ControllerCommand::StartMotor {
        id: 1,
        counter_clockwise: false,
        speed: 1024,
        acceleration: 20,
    };
    let (trace, result) = run(command, &[Ok(&[]), Ok(&[]), Ok(&[])]);
    assert_eq!(
        trace,
        [
            Some(vec![0xff, 0xff, 1, 4, 3, 33, 1, 213]),
            Some(vec![0xff, 0xff, 1, 4, 3, 40, 1, 206]),
            Some(vec![0xff, 0xff, 1, 10, 3, 41, 20, 0, 0, 0, 0, 0, 4, 176]),
        ]
    );
    assert!(matches!(result, Ok(ControllerResult::Accepted)));
}

#[test]
fn stops_a_sequence_at_the_first_failure() {
    let command = ControllerCommand::SetPosition {
        id: 5,
        position: 1625,
        acceleration: 20,
        torque_limit: 1000,
    };
    let (trace, result) = run(command, &[Ok(&[]), Err(ServoFailure::Timeout)]);
    assert_eq!(trace.len(), 3);
    assert_eq!(trace[2], None);
    assert!(matches!(result, Err(ServoFailure::Timeout)));

    let (trace, result) = run(ControllerCommand::StopMotor { id: 5 }, &[Ok(&[1])]);
    assert_eq!(trace.len(), 2);
    assert!(matches!(result, Err(ServoFailure::InvalidReply)));

    for (reply, failure) in [
        (Err(ServoFailure::ReportedError), ServoFailure::ReportedError),
        (Ok(&[1][..]), ServoFailure::InvalidReply),
    ] {
        let command = ControllerCommand::GetPositions { ids: ids(&[4, 2, 3]) };
        let (trace, result) = run(command, &[Ok(&[1, 0]), reply]);
        let asked: Vec<Option<u8>> =
            trace.iter().map(|packet| packet.as_ref().map(|packet| packet[2])).collect();
        assert_eq!(asked, [Some(4), Some(2), None]);
        assert!(matches!(result, Err(found) if found == failure));
    }
}

#[test]
fn refuses_invalid_arguments_without_a_packet() {
    for (command, failure) in [
        (
            ControllerCommand::StartMotor {
                id: 254,
                counter_clockwise: true,
                speed: 5000,
                acceleration: 0,
            },
            ServoFailure::InvalidServoId,
        ),
        (
            ControllerCommand::StartMotor {
                id: 1,
                counter_clockwise: true,
                speed: 4096,
                acceleration: 0,
            },
            ServoFailure::InvalidArgument,
        ),
        (
            ControllerCommand::SetPosition {
                id: 1,
                position: 4096,
                acceleration: 0,
                torque_limit: 0,
            },
            ServoFailure::InvalidArgument,
        ),
        (
            ControllerCommand::SetPosition {
                id: 1,
                position: 0,
                acceleration: 0,
                torque_limit: 1001,
            },
            ServoFailure::InvalidArgument,
        ),
        (ControllerCommand::StopMotor { id: 0 }, ServoFailure::InvalidServoId),
        (ControllerCommand::GetPosition { id: 255 }, ServoFailure::InvalidServoId),
        (
            ControllerCommand::ScanServos { start_id: 1, end_id: 254 },
            ServoFailure::InvalidArgument,
        ),
        (
            ControllerCommand::ScanServos { start_id: 5, end_id: 4 },
            ServoFailure::InvalidArgument,
        ),
        (
            ControllerCommand::SetId { current_id: 5, new_id: 254 },
            ServoFailure::InvalidServoId,
        ),
        (
            ControllerCommand::SetId { current_id: 5, new_id: 5 },
            ServoFailure::InvalidArgument,
        ),
    ] {
        let (trace, result) = run(command, &[]);
        assert_eq!(trace, [None]);
        assert_eq!(result.unwrap_err(), failure);
    }
}

#[test]
fn reads_positions_in_order() {
    let (_, result) = run(ControllerCommand::GetPosition { id: 2 }, &[Ok(&[0x34, 0x12])]);
    let Ok(ControllerResult::Position(position)) = result else {
        panic!("a position was read");
    };
    assert_eq!(position, PositionResult { id: 2, position: 0x1234 });

    let command = ControllerCommand::GetPositions { ids: ids(&[4, 2]) };
    let (trace, result) = run(command, &[Ok(&[1, 0]), Ok(&[2, 0x80])]);
    assert_eq!(trace.len(), 2);
    let Ok(ControllerResult::Positions(positions)) = result else {
        panic!("positions were read");
    };
    assert_eq!(
        positions.as_slice(),
        [PositionResult { id: 4, position: 1 }, PositionResult { id: 2, position: -2 }]
    );

    let (trace, result) = run(ControllerCommand::GetPositions { ids: ids(&[]) }, &[]);
    assert!(trace.is_empty());
    assert!(matches!(result, Ok(ControllerResult::Positions(positions)) if positions.is_empty()));

    let command = ControllerCommand::GetPositions { ids: ids(&[4, 0, 3]) };
    let (trace, result) = run(command, &[Ok(&[1, 0])]);
    assert_eq!(trace.len(), 2);
    assert!(matches!(result, Err(ServoFailure::InvalidServoId)));

    let command = ControllerCommand::GetPositions { ids: ids(&[1, 2, 3, 4, 5, 6]) };
    let (_, result) = run(command, &[Ok(&[0, 0][..]); 6]);
    assert!(matches!(result, Ok(ControllerResult::Positions(positions)) if positions.len() == 6));
}

#[test]
fn searches_every_address_of_a_range() {
    let command = ControllerCommand::ScanServos { start_id: 2, end_id: 5 };
    let (trace, result) = run(
        command,
        &[Ok(&[]), Err(ServoFailure::Timeout), Err(ServoFailure::InvalidReply), Ok(&[1])],
    );
    let asked: Vec<Option<u8>> =
        trace.iter().map(|packet| packet.as_ref().map(|packet| packet[2])).collect();
    assert_eq!(asked, [Some(2), Some(3), None, Some(4), None, Some(5)]);
    assert!(matches!(result, Ok(ControllerResult::Servos(ids)) if ids.as_slice() == [2, 5]));
}

#[test]
fn searches_the_whole_bus() {
    let command = ControllerCommand::ScanServos { start_id: 1, end_id: 253 };
    let (trace, result) = run(command, &[Ok(&[][..]); 253]);
    assert_eq!(trace.len(), 253);
    let Ok(ControllerResult::Servos(ids)) = result else {
        panic!("a search reports servos");
    };
    assert!(ids.iter().copied().eq(1..=253));
}

#[test]
fn searches_a_silent_bus_before_the_host_gives_up() {
    let command = ControllerCommand::ScanServos { start_id: 1, end_id: 253 };
    let (trace, result) = run(command, &[Err(ServoFailure::Timeout); 253]);
    let drains = trace.iter().filter(|packet| packet.is_none()).count() as u64;
    let exchanges = trace.len() as u64 - drains;
    assert_eq!((exchanges, drains), (253, 253));
    let longest = exchanges * STS_RESPONSE_TIMEOUT_MS
        + drains * u64::from(MAX_DRAIN_READS) * DRAIN_QUIET_MS;
    assert_eq!(longest, 14_674);
    assert!(longest < SERVO_SCAN_TIMEOUT_MS);
    assert!(matches!(result, Ok(ControllerResult::Servos(ids)) if ids.is_empty()));
}

#[test]
fn ends_a_search_when_the_uart_fails() {
    let command = ControllerCommand::ScanServos { start_id: 1, end_id: 9 };
    let (trace, result) = run(command, &[Ok(&[]), Err(ServoFailure::Transport)]);
    assert_eq!(trace.len(), 4);
    assert_eq!(trace[2..], [None, None]);
    assert!(matches!(result, Err(ServoFailure::Transport)));
}

#[test]
fn changes_an_address_after_making_sure_that_it_is_free() {
    let command = || ControllerCommand::SetId { current_id: 5, new_id: 6 };
    let (trace, result) =
        run(command(), &[Ok(&[]), Err(ServoFailure::Timeout), Ok(&[]), Ok(&[])]);
    assert_eq!(
        trace,
        [
            Some(vec![0xff, 0xff, 5, 2, 1, 247]),
            Some(vec![0xff, 0xff, 6, 2, 1, 246]),
            None,
            Some(vec![0xff, 0xff, 5, 4, 3, 5, 6, 232]),
            Some(vec![0xff, 0xff, 6, 2, 1, 246]),
        ]
    );
    assert!(matches!(
        result,
        Ok(ControllerResult::IdChanged { previous_id: 5, new_id: 6 })
    ));

    for answer in [Ok(&[][..]), Err(ServoFailure::ReportedError)] {
        let (trace, result) = run(command(), &[Ok(&[]), answer]);
        assert_eq!(trace.len(), 3);
        assert!(matches!(result, Err(ServoFailure::IdInUse)));
    }
    let (trace, result) = run(command(), &[Err(ServoFailure::Timeout)]);
    assert_eq!(trace.len(), 2);
    assert!(matches!(result, Err(ServoFailure::Timeout)));
    let (_, result) = run(command(), &[Ok(&[]), Err(ServoFailure::InvalidReply)]);
    assert!(matches!(result, Err(ServoFailure::InvalidReply)));
    let (_, result) = run(command(), &[Ok(&[]), Err(ServoFailure::Timeout), Ok(&[1])]);
    assert!(matches!(result, Err(ServoFailure::InvalidReply)));
    let (_, result) = run(
        command(),
        &[Ok(&[]), Err(ServoFailure::Timeout), Ok(&[]), Err(ServoFailure::Timeout)],
    );
    assert!(matches!(result, Err(ServoFailure::Timeout)));
}

#[test]
fn ignores_events_that_were_not_asked_for() {
    let (run, _) = execute_command(ControllerCommand::StopMotor { id: 1 });
    assert!(run.step(BusEvent::Drained).is_none());
    let (run, _) = execute_command(ControllerCommand::StopMotor { id: 0 });
    assert!(run.step(BusEvent::Reply(Ok(vec![]))).is_none());
}
