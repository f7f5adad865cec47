//! The raw UART tunnel, which exists for tests only.
//!
//! A debug command opens the tunnel and another one closes it. While it is open, one client at a
//! time talks to the UART directly; a client that leaves does not close the tunnel.

use vstd::arithmetic::power2::{lemma2_to64, lemma_pow2_unfold, pow2};
use vstd::prelude::*;

verus! {

/// How long the tunnel waits after a connection could not be accepted.
pub const ACCEPT_RETRY_MS: u64 = 1000;

/// How long a session waits after the UART could not be read.
pub const UART_RETRY_MS: u64 = 10;

#[derive(Clone, Copy, Debug, PartialEq, Eq, Structural)]
pub enum RawTunnelCommand {
    Enable,
    Disable,
}

/// Whether the tunnel is open.
#[derive(Clone, Copy, Debug, PartialEq, Eq, Structural)]
pub struct RawTunnelControl {
    enabled: bool,
}

impl View for RawTunnelControl {
    type V = bool;

    closed spec fn view(&self) -> bool {
        self.enabled
    }
}

impl RawTunnelControl {
    pub fn new() -> (control: Self)
        ensures
            !control@,
    {
        RawTunnelControl { enabled: false }
    }

    pub fn is_enabled(&self) -> (enabled: bool)
        ensures
            enabled == self@,
    {
        self.enabled
    }

    /// Opens the tunnel. The tunnel's task is told only where that changes something.
    pub fn enable(&mut self) -> (signal: Option<RawTunnelCommand>)
        ensures
            final(self)@,
            signal == if old(self)@ {
                None::<RawTunnelCommand>
            } else {
                Some(RawTunnelCommand::Enable)
            },
    {
        if self.enabled {
            None
        } else {
            self.enabled = true;
            Some(RawTunnelCommand::Enable)
        }
    }

    /// Closes the tunnel. The tunnel's task is told only where that changes something.
    pub fn disable(&mut self) -> (signal: Option<RawTunnelCommand>)
        ensures
            !final(self)@,
            signal == if old(self)@ {
                Some(RawTunnelCommand::Disable)
            } else {
                None::<RawTunnelCommand>
            },
    {
        if self.enabled {
            self.enabled = false;
            Some(RawTunnelCommand::Disable)
        } else {
            None
        }
    }
}

/// Why the session of a raw client ended.
#[derive(Clone, Copy, Debug, PartialEq, Eq, Structural)]
pub enum RawClientExit {
    ClientClosed,
    Disabled,
    NetworkError,
}

/// What the tunnel's task is doing.
#[derive(Clone, Copy, Debug, PartialEq, Eq, Structural)]
pub enum TunnelPhase {
    /// Looking whether the tunnel is open.
    Checking,
    /// Waiting for a command while the tunnel is closed.
    Idle,
    /// Waiting for a client or a command.
    Listening,
    /// Serving a client.
    Serving,
    /// Waiting before the next attempt to listen.
    Resting,
}

/// What has happened to the tunnel's task.
#[derive(Clone, Copy, Debug, PartialEq, Eq, Structural)]
pub enum TunnelEvent {
    Checked { enabled: bool },
    Command(RawTunnelCommand),
    Accepted,
    AcceptFailed,
    SessionEnded(RawClientExit),
    Rested,
}

/// What the tunnel's task does next.
#[derive(Clone, Copy, Debug, PartialEq, Eq, Structural)]
pub enum TunnelAction {
    /// Look whether the tunnel is open; `abort` tells whether to drop the socket first.
    Check { abort: bool },
    WaitForCommand,
    Listen,
    Serve,
    /// Drop the socket and wait.
    Rest { milliseconds: u64 },
}

/// What the tunnel's task does next; `None` where the event cannot come in that phase.
pub open spec fn tunnel_step(phase: TunnelPhase, event: TunnelEvent) -> Option<
    (TunnelPhase, TunnelAction),
> {
    match (phase, event) {
        (TunnelPhase::Checking, TunnelEvent::Checked { enabled }) => Some(
            if enabled {
                (TunnelPhase::Listening, TunnelAction::Listen)
            } else {
                (TunnelPhase::Idle, TunnelAction::WaitForCommand)
            },
        ),
        (TunnelPhase::Idle, TunnelEvent::Command(_)) => Some(
            (TunnelPhase::Checking, TunnelAction::Check { abort: false }),
        ),
        (TunnelPhase::Listening, TunnelEvent::Command(_)) => Some(
            (TunnelPhase::Checking, TunnelAction::Check { abort: true }),
        ),
        (TunnelPhase::Listening, TunnelEvent::Accepted) => Some(
            (TunnelPhase::Serving, TunnelAction::Serve),
        ),
        (TunnelPhase::Listening, TunnelEvent::AcceptFailed) => Some(
            (TunnelPhase::Resting, TunnelAction::Rest { milliseconds: ACCEPT_RETRY_MS }),
        ),
        (TunnelPhase::Serving, TunnelEvent::SessionEnded(_)) => Some(
            (TunnelPhase::Checking, TunnelAction::Check { abort: true }),
        ),
        (TunnelPhase::Resting, TunnelEvent::Rested) => Some(
            (TunnelPhase::Checking, TunnelAction::Check { abort: false }),
        ),
        _ => None,
    }
}

/// Decides what the tunnel's task does next. It starts in [`TunnelPhase::Checking`].
pub fn raw_tunnel_service(phase: TunnelPhase, event: TunnelEvent) -> (step: Option<
    (TunnelPhase, TunnelAction),
>)
    ensures
        step == tunnel_step(phase, event),
{
    match (phase, event) {
        (TunnelPhase::Checking, TunnelEvent::Checked { enabled }) => if enabled {
            Some((TunnelPhase::Listening, TunnelAction::Listen))
        } else {
            Some((TunnelPhase::Idle, TunnelAction::WaitForCommand))
        },
        (TunnelPhase::Idle, TunnelEvent::Command(_)) => Some(
            (TunnelPhase::Checking, TunnelAction::Check { abort: false }),
        ),
        (TunnelPhase::Listening, TunnelEvent::Command(_)) => Some(
            (TunnelPhase::Checking, TunnelAction::Check { abort: true }),
        ),
        (TunnelPhase::Listening, TunnelEvent::Accepted) => Some(
            (TunnelPhase::Serving, TunnelAction::Serve),
        ),
        (TunnelPhase::Listening, TunnelEvent::AcceptFailed) => Some(
            (TunnelPhase::Resting, TunnelAction::Rest { milliseconds: ACCEPT_RETRY_MS }),
        ),
        (TunnelPhase::Serving, TunnelEvent::SessionEnded(_)) => Some(
            (TunnelPhase::Checking, TunnelAction::Check { abort: true }),
        ),
        (TunnelPhase::Resting, TunnelEvent::Rested) => Some(
            (TunnelPhase::Checking, TunnelAction::Check { abort: false }),
        ),
        _ => None,
    }
}

/// A client that leaves does not close the tunnel: while it stays enabled, the task listens again
/// right after the session, however the session ended.
pub proof fn the_tunnel_outlives_its_clients(exit: RawClientExit)
    ensures
        tunnel_step(TunnelPhase::Serving, TunnelEvent::SessionEnded(exit)) == Some(
            (TunnelPhase::Checking, TunnelAction::Check { abort: true }),
        ),
        tunnel_step(TunnelPhase::Checking, TunnelEvent::Checked { enabled: true }) == Some(
            (TunnelPhase::Listening, TunnelAction::Listen),
        ),
{
}

/// The tunnel's port is opened only where the tunnel was just found enabled, and a client is
/// served only where one came to the open port. So one client is served at a time.
pub proof fn only_an_enabled_tunnel_listens(phase: TunnelPhase, event: TunnelEvent)
    ensures
        tunnel_step(phase, event) matches Some((next, action)) ==> {
            &&& action == TunnelAction::Listen <==> event == (TunnelEvent::Checked {
                enabled: true,
            })
            &&& action == TunnelAction::Serve <==> phase == TunnelPhase::Listening && event
                == TunnelEvent::Accepted
            &&& next == TunnelPhase::Listening <==> action == TunnelAction::Listen
            &&& next == TunnelPhase::Serving <==> action == TunnelAction::Serve
        },
{
}

/// What has happened in the session of a raw client.
#[derive(Clone, Copy, Debug, PartialEq, Eq, Structural)]
pub enum RawSessionEvent {
    Command(RawTunnelCommand),
    /// The client sent so many bytes; none means that it closed the connection.
    NetworkRead { count: usize },
    NetworkFailed,
    /// The UART received so many bytes.
    UartRead { count: usize },
    UartFailed,
    /// The bytes of the last read could not be passed on.
    ForwardFailed,
}

/// What the session of a raw client does next.
#[derive(Clone, Copy, Debug, PartialEq, Eq, Structural)]
pub enum RawSessionAction {
    /// Wait for the next event.
    Continue,
    WriteUart { count: usize },
    WriteNetwork { count: usize },
    /// Wait before the UART is read again, after an optional report of that many errors in a row.
    Pause { milliseconds: u64, errors: u32, report: bool },
    Exit(RawClientExit),
}

/// Whether a number is a power of two.
pub open spec fn is_power_of_two(value: u32) -> bool {
    exists|exponent: nat| value == #[trigger] vstd::arithmetic::power2::pow2(exponent)
}

/// Whether the errors in a row are reported when there are `errors` of them: the first three are,
/// then only powers of two.
pub open spec fn is_reported(errors: u32) -> bool {
    errors <= 3 || is_power_of_two(errors)
}

fn power_of_two(value: u32) -> (found: bool)
    ensures
        found == is_power_of_two(value),
{
    let mut power: u64 = 1;
    let ghost mut exponent: nat = 0;
    proof {
        vstd::arithmetic::power2::lemma2_to64();
    }
    while power < value as u64
        invariant
            power == vstd::arithmetic::power2::pow2(exponent),
            1 <= power <= 2 * 0xffff_ffff,
            forall|e: nat| e < exponent ==> #[trigger] vstd::arithmetic::power2::pow2(e) < value,
        decreases 0x2_0000_0000 - power,
    {
        proof {
            assert(vstd::arithmetic::power2::pow2(exponent) < value);
            vstd::arithmetic::power2::lemma_pow2_unfold(exponent + 1);
            exponent = exponent + 1;
        }
        power = power * 2;
    }
    proof {
        if is_power_of_two(value) {
            let e = choose|e: nat| value == #[trigger] vstd::arithmetic::power2::pow2(e);
            if e > exponent {
                vstd::arithmetic::power2::lemma_pow2_strictly_increases(exponent, e);
            }
        } else {
            assert(value != vstd::arithmetic::power2::pow2(exponent));
        }
    }
    power == value as u64
}

/// The session of a raw client, which counts how often in a row the UART could not be read.
#[derive(Clone, Copy, Debug, PartialEq, Eq, Structural)]
pub struct RawClientSession {
    pub uart_read_errors: u32,
}

/// What the session of a raw client does next, and its error count after it.
pub open spec fn raw_session_step(errors: u32, event: RawSessionEvent) -> (u32, RawSessionAction) {
    match event {
        RawSessionEvent::Command(RawTunnelCommand::Disable) => (
            errors,
            RawSessionAction::Exit(RawClientExit::Disabled),
        ),
        RawSessionEvent::Command(RawTunnelCommand::Enable) => (errors, RawSessionAction::Continue),
        RawSessionEvent::NetworkRead { count } => (
            errors,
            if count == 0 {
                RawSessionAction::Exit(RawClientExit::ClientClosed)
            } else {
                RawSessionAction::WriteUart { count }
            },
        ),
        RawSessionEvent::NetworkFailed | RawSessionEvent::ForwardFailed => (
            errors,
            RawSessionAction::Exit(RawClientExit::NetworkError),
        ),
        RawSessionEvent::UartRead { count } => if count == 0 {
            (errors, RawSessionAction::Continue)
        } else {
            (0, RawSessionAction::WriteNetwork { count })
        },
        RawSessionEvent::UartFailed => {
            let counted = if errors == u32::MAX {
                errors
            } else {
                (errors + 1) as u32
            };
            (
                counted,
                RawSessionAction::Pause {
                    milliseconds: UART_RETRY_MS,
                    errors: counted,
                    report: is_reported(counted),
                },
            )
        },
    }
}

/// The session of a client that has just connected.
pub fn raw_client_session() -> (session: RawClientSession)
    ensures
        session.uart_read_errors == 0,
{
    RawClientSession { uart_read_errors: 0 }
}

impl RawClientSession {
    /// Decides what the session does next.
    pub fn step(&mut self, event: RawSessionEvent) -> (action: RawSessionAction)
        ensures
            (final(self).uart_read_errors, action) == raw_session_step(
                old(self).uart_read_errors,
                event,
            ),
    {
        match event {
            RawSessionEvent::Command(RawTunnelCommand::Disable) => RawSessionAction::Exit(
                RawClientExit::Disabled,
            ),
            RawSessionEvent::Command(RawTunnelCommand::Enable) => RawSessionAction::Continue,
            RawSessionEvent::NetworkRead { count } => if count == 0 {
                RawSessionAction::Exit(RawClientExit::ClientClosed)
            } else {
                RawSessionAction::WriteUart { count }
            },
            RawSessionEvent::NetworkFailed | RawSessionEvent::ForwardFailed =>
            RawSessionAction::Exit(RawClientExit::NetworkError),
            RawSessionEvent::UartRead { count } => if count == 0 {
                RawSessionAction::Continue
            } else {
                self.uart_read_errors = 0;
                RawSessionAction::WriteNetwork { count }
            },
            RawSessionEvent::UartFailed => {
                let errors: u32 = self.uart_read_errors.saturating_add(1);
                self.uart_read_errors = errors;
                RawSessionAction::Pause {
                    milliseconds: UART_RETRY_MS,
                    errors,
                    report: errors <= 3 || power_of_two(errors),
                }
            },
        }
    }
}

/// A session ends only where the tunnel is disabled, the client leaves or the network fails: the
/// UART never ends it.
pub proof fn the_uart_never_ends_a_session(errors: u32, event: RawSessionEvent)
    ensures
        raw_session_step(errors, event).1 is Exit ==> event == RawSessionEvent::Command(
            RawTunnelCommand::Disable,
        ) || event is NetworkRead || event is NetworkFailed || event is ForwardFailed,
{
}

/// Disabling closes the tunnel, together with the session of a client: the session ends, the port
/// is closed, and the tunnel's task waits for the next command.
pub proof fn disabling_closes_the_tunnel(errors: u32)
    ensures
        raw_session_step(errors, RawSessionEvent::Command(RawTunnelCommand::Disable)).1
            == RawSessionAction::Exit(RawClientExit::Disabled),
        tunnel_step(TunnelPhase::Serving, TunnelEvent::SessionEnded(RawClientExit::Disabled))
            == Some((TunnelPhase::Checking, TunnelAction::Check { abort: true })),
        tunnel_step(TunnelPhase::Listening, TunnelEvent::Command(RawTunnelCommand::Disable))
            == Some((TunnelPhase::Checking, TunnelAction::Check { abort: true })),
        tunnel_step(TunnelPhase::Checking, TunnelEvent::Checked { enabled: false }) == Some(
            (TunnelPhase::Idle, TunnelAction::WaitForCommand),
        ),
{
}

/// A session passes on as many bytes as it has read, in either direction. What the client sends
/// leaves the count of errors as it is; bytes from the UART end a row of errors.
pub proof fn bytes_are_passed_on(errors: u32, count: usize)
    ensures
        count > 0 ==> raw_session_step(errors, RawSessionEvent::NetworkRead { count }) == (
            errors,
            RawSessionAction::WriteUart { count },
        ),
        count > 0 ==> raw_session_step(errors, RawSessionEvent::UartRead { count }) == (
            0u32,
            RawSessionAction::WriteNetwork { count },
        ),
        raw_session_step(errors, RawSessionEvent::UartRead { count: 0 }) == (
            errors,
            RawSessionAction::Continue,
        ),
        raw_session_step(errors, RawSessionEvent::NetworkRead { count: 0 }) == (
            errors,
            RawSessionAction::Exit(RawClientExit::ClientClosed),
        ),
        raw_session_step(errors, RawSessionEvent::Command(RawTunnelCommand::Enable)) == (
            errors,
            RawSessionAction::Continue,
        ),
        raw_session_step(errors, RawSessionEvent::NetworkFailed).1 == RawSessionAction::Exit(
            RawClientExit::NetworkError,
        ),
        raw_session_step(errors, RawSessionEvent::ForwardFailed).1 == RawSessionAction::Exit(
            RawClientExit::NetworkError,
        ),
{
}

/// A failure to read the UART is counted, up to the greatest number of 32 bits, and the session
/// waits ten milliseconds. The first three failures of a row are reported, then only every one
/// whose number is a power of two.
pub proof fn uart_failures_are_counted(errors: u32)
    ensures
        raw_session_step(errors, RawSessionEvent::UartFailed) matches (
            after,
            RawSessionAction::Pause { milliseconds, errors: told, report },
        ) && {
            &&& milliseconds == 10
            &&& told == after
            &&& errors < 4294967295 ==> after == errors + 1
            &&& errors == 4294967295 ==> after == errors
            &&& after < 4 ==> report
            &&& after >= 4 ==> (report <==> is_power_of_two(after))
        },
{
}

/// Powers of two are one and the doubles of powers of two, and no other numbers.
pub proof fn powers_of_two_are_doubles(value: u32)
    ensures
        !is_power_of_two(0),
        is_power_of_two(1),
        value > 1 && value % 2 == 1 ==> !is_power_of_two(value),
        value < 2147483648 ==> (is_power_of_two((2 * value) as u32) <==> is_power_of_two(value)),
{
    lemma2_to64();
    assert(1u32 == pow2(0));
    assert forall|exponent: nat| #[trigger] pow2(exponent) > 0 && (exponent > 0 ==> pow2(exponent)
        % 2 == 0) by {
        vstd::arithmetic::power2::lemma_pow2_pos(exponent);
        if exponent > 0 {
            lemma_pow2_unfold(exponent);
        }
    }
    if value < 2147483648 {
        let double = (2 * value) as u32;
        if is_power_of_two(value) {
            let exponent = choose|exponent: nat| value == #[trigger] pow2(exponent);
            lemma_pow2_unfold(exponent + 1);
            assert(double == pow2(exponent + 1));
        }
        if is_power_of_two(double) {
            let exponent = choose|exponent: nat| double == #[trigger] pow2(exponent);
            if exponent > 0 {
                lemma_pow2_unfold(exponent);
                assert(value == pow2((exponent - 1) as nat));
            }
        }
    }
}

/// A command wakes the task to look again; it drops its socket only where it was listening. After
/// a connection that could not be accepted it waits a second before it looks again.
pub proof fn commands_wake_the_tunnel(command: RawTunnelCommand)
    ensures
        tunnel_step(TunnelPhase::Idle, TunnelEvent::Command(command)) == Some(
            (TunnelPhase::Checking, TunnelAction::Check { abort: false }),
        ),
        tunnel_step(TunnelPhase::Listening, TunnelEvent::Command(command)) == Some(
            (TunnelPhase::Checking, TunnelAction::Check { abort: true }),
        ),
        tunnel_step(TunnelPhase::Listening, TunnelEvent::Accepted) == Some(
            (TunnelPhase::Serving, TunnelAction::Serve),
        ),
        tunnel_step(TunnelPhase::Listening, TunnelEvent::AcceptFailed) == Some(
            (TunnelPhase::Resting, TunnelAction::Rest { milliseconds: 1000 }),
        ),
        tunnel_step(TunnelPhase::Resting, TunnelEvent::Rested) == Some(
            (TunnelPhase::Checking, TunnelAction::Check { abort: false }),
        ),
{
}

} // verus!
