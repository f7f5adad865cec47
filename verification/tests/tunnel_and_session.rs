use fetchline::board::{show_ip_address, OLED_CONTROLLER, OLED_HEIGHT, OLED_WIDTH};
use fetchline::controller::ControllerAdmission;
use fetchline::raw_tunnel::{
    raw_client_session, raw_tunnel_service, RawClientExit, RawSessionAction, RawSessionEvent,
    RawTunnelCommand, TunnelAction, TunnelEvent, TunnelPhase,
};
use fetchline::session::{controller_service, SlotAction, SlotEvent, SlotPhase};

#[test]
fn the_tunnel_stays_open_across_clients() {
    let mut phase = TunnelPhase::Checking;
    let mut step = |event: TunnelEvent| {
        let (next, action) = raw_tunnel_service(phase, event).unwrap();
        phase = next;
        action
    };
    assert_eq!(step(TunnelEvent::Checked { enabled: false }), TunnelAction::WaitForCommand);
    assert_eq!(
        step(TunnelEvent::Command(RawTunnelCommand::Enable)),
        TunnelAction::Check { abort: false }
    );
    for exit in [
        RawClientExit::ClientClosed,
        RawClientExit::NetworkError,
        RawClientExit::Disabled,
    ] {
        assert_eq!(step(TunnelEvent::Checked { enabled: true }), TunnelAction::Listen);
        assert_eq!(step(TunnelEvent::Accepted), TunnelAction::Serve);
        assert_eq!(step(TunnelEvent::SessionEnded(exit)), TunnelAction::Check { abort: true });
    }
    assert_eq!(step(TunnelEvent::Checked { enabled: true }), TunnelAction::Listen);
    assert_eq!(step(TunnelEvent::AcceptFailed), TunnelAction::Rest { milliseconds: 1000 });
    assert_eq!(step(TunnelEvent::Rested), TunnelAction::Check { abort: false });
    assert_eq!(step(TunnelEvent::Checked { enabled: true }), TunnelAction::Listen);
    assert_eq!(
        step(TunnelEvent::Command(RawTunnelCommand::Disable)),
        TunnelAction::Check { abort: true }
    );
    assert_eq!(step(TunnelEvent::Checked { enabled: false }), TunnelAction::WaitForCommand);
    assert_eq!(raw_tunnel_service(TunnelPhase::Idle, TunnelEvent::Accepted), None);
}

#[test]
fn forwards_between_client_and_uart() {
    let mut session = raw_client_session();
    assert_eq!(
        session.step(RawSessionEvent::NetworkRead { count: 5 }),
        RawSessionAction::WriteUart { count: 5 }
    );
    assert_eq!(
        session.step(RawSessionEvent::UartRead { count: 6 }),
        RawSessionAction::WriteNetwork { count: 6 }
    );
    assert_eq!(
        session.step(RawSessionEvent::UartRead { count: 0 }),
        RawSessionAction::Continue
    );
    assert_eq!(
        session.step(RawSessionEvent::Command(RawTunnelCommand::Enable)),
        RawSessionAction::Continue
    );
    for (event, exit) in [
        (RawSessionEvent::NetworkRead { count: 0 }, RawClientExit::ClientClosed),
        (RawSessionEvent::NetworkFailed, RawClientExit::NetworkError),
        (RawSessionEvent::ForwardFailed, RawClientExit::NetworkError),
        (RawSessionEvent::Command(RawTunnelCommand::Disable), RawClientExit::Disabled),
    ] {
        assert_eq!(session.step(event), RawSessionAction::Exit(exit));
    }
}

#[test]
fn reports_repeated_uart_errors_sparingly() {
    let mut session = raw_client_session();
    let mut reported = Vec::new();
    for count in 1..=70 {
        let RawSessionAction::Pause { milliseconds, errors, report } =
            session.step(RawSessionEvent::UartFailed)
        else {
            panic!("a failed read is followed by a pause");
        };
        assert_eq!((milliseconds, errors), (10, count));
        if report {
            reported.push(count);
        }
    }
    assert_eq!(reported, [1, 2, 3, 4, 8, 16, 32, 64]);
    session.step(RawSessionEvent::UartRead { count: 1 });
    assert_eq!(session.uart_read_errors, 0);
    session.uart_read_errors = u32::MAX;
    assert_eq!(
        session.step(RawSessionEvent::UartFailed),
        RawSessionAction::Pause { milliseconds: 10, errors: u32::MAX, report: false }
    );
}

/// Brings a slot from returning to the handshake of a client.
fn connect(admission: &mut ControllerAdmission) -> SlotPhase {
    let mut phase = SlotPhase::Returning;
    for (event, action) in [
        (SlotEvent::Listening, SlotAction::Accept),
        (SlotEvent::Connected, SlotAction::Upgrade),
    ] {
        let (next, taken) = controller_service(phase, event, admission).unwrap();
        assert_eq!(taken, action);
        phase = next;
    }
    phase
}

#[test]
fn the_newest_session_takes_over_the_controller() {
    let mut admission = ControllerAdmission::new();
    let first = connect(&mut admission);
    let (first, action) =
        controller_service(first, SlotEvent::Upgraded, &mut admission).unwrap();
    assert_eq!(action, SlotAction::Serve { replaces_active: false });
    assert_eq!(
        controller_service(first, SlotEvent::MessageRead, &mut admission),
        Some((first, SlotAction::Handle))
    );

    let second = connect(&mut admission);
    let third = connect(&mut admission);
    let (second, action) =
        controller_service(second, SlotEvent::Upgraded, &mut admission).unwrap();
    assert_eq!(action, SlotAction::Serve { replaces_active: true });
    let (third, action) =
        controller_service(third, SlotEvent::Upgraded, &mut admission).unwrap();
    assert_eq!((third, action), (SlotPhase::Waiting, SlotAction::WaitForListener));

    assert_eq!(
        controller_service(first, SlotEvent::MessageRead, &mut admission),
        Some((SlotPhase::Returning, SlotAction::Listen))
    );
    assert_eq!(
        controller_service(first, SlotEvent::BusGranted, &mut admission),
        Some((SlotPhase::Returning, SlotAction::Listen))
    );
    assert_eq!(
        controller_service(second, SlotEvent::BusGranted, &mut admission),
        Some((second, SlotAction::Execute))
    );
    assert_eq!(
        controller_service(second, SlotEvent::OwnerChanged, &mut admission),
        Some((second, SlotAction::ReadOn))
    );
    let (first, action) =
        controller_service(first, SlotEvent::OwnerChanged, &mut admission).unwrap();
    assert_eq!((first, action), (SlotPhase::Returning, SlotAction::Listen));
    controller_service(first, SlotEvent::Listening, &mut admission).unwrap();
    let (third, action) =
        controller_service(third, SlotEvent::ListenerReturned, &mut admission).unwrap();
    assert_eq!(action, SlotAction::Serve { replaces_active: true });
    assert_ne!(second, third);
    assert_eq!(
        controller_service(third, SlotEvent::MessageRead, &mut admission),
        Some((third, SlotAction::Handle))
    );
    assert_eq!(
        controller_service(second, SlotEvent::MessageRead, &mut admission),
        Some((SlotPhase::Returning, SlotAction::Listen))
    );
}

#[test]
fn a_disconnected_session_frees_the_controller() {
    let mut admission = ControllerAdmission::new();
    let first = connect(&mut admission);
    let (first, _) = controller_service(first, SlotEvent::Upgraded, &mut admission).unwrap();
    let (_, action) =
        controller_service(first, SlotEvent::SessionEnded, &mut admission).unwrap();
    assert_eq!(action, SlotAction::Listen);
    let next = connect(&mut admission);
    let (_, action) = controller_service(next, SlotEvent::Upgraded, &mut admission).unwrap();
    assert_eq!(action, SlotAction::Serve { replaces_active: false });
}

#[test]
fn slots_recover_from_failures() {
    let mut admission = ControllerAdmission::new();
    for phase in [SlotPhase::Returning, SlotPhase::Listening] {
        assert_eq!(
            controller_service(phase, SlotEvent::AcceptFailed, &mut admission),
            Some((SlotPhase::Resting, SlotAction::Rest { milliseconds: 1000 }))
        );
    }
    assert_eq!(
        controller_service(SlotPhase::Resting, SlotEvent::Rested, &mut admission),
        Some((SlotPhase::Returning, SlotAction::Listen))
    );
    assert_eq!(
        controller_service(SlotPhase::Upgrading, SlotEvent::UpgradeRefused, &mut admission),
        Some((SlotPhase::Returning, SlotAction::Listen))
    );
    assert_eq!(
        controller_service(SlotPhase::Waiting, SlotEvent::SessionEnded, &mut admission),
        Some((SlotPhase::Returning, SlotAction::Listen))
    );
    assert_eq!(
        controller_service(SlotPhase::Listening, SlotEvent::MessageRead, &mut admission),
        None
    );
}

#[test]
fn shows_an_address_in_two_lines() {
    assert_eq!(show_ip_address([192, 168, 1, 123]), ["IP ADDRESS", "192.168.", "1.123"]);
    assert_eq!(show_ip_address([10, 0, 0, 7]), ["IP ADDRESS", "10.0.", "0.7"]);
    assert_eq!((OLED_CONTROLLER, OLED_WIDTH, OLED_HEIGHT), ("SSD1315", 72, 40));
}
