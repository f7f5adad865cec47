//! The transport slots of the controller.
//!
//! The MCU listens with several slots so that one stays free while a host takes over. A slot whose
//! WebSocket upgrade succeeds claims the controller. Only the newest session may have its messages
//! handled; older ones are closed.

use vstd::prelude::*;

use crate::controller::{
    claimed, listening, no_controller, released, AdmissionState, ControllerAdmission,
    ControllerAdmissionResult,
};

verus! {

/// How many slots the MCU reserves.
pub const CONTROLLER_SLOTS: usize = 3;

/// How long a slot waits after a connection could not be accepted.
pub const SLOT_RETRY_MS: u64 = 1000;

/// What a slot is doing.
#[derive(Clone, Copy, Debug, PartialEq, Eq, Structural)]
pub enum SlotPhase {
    /// Returning to listening.
    Returning,
    /// Waiting for a client.
    Listening,
    /// Waiting before the next attempt to listen.
    Resting,
    /// Waiting for the handshake of a client.
    Upgrading,
    /// Waiting until an earlier takeover is complete.
    Waiting,
    /// Serving the session of a generation.
    Serving { generation: u64 },
}

/// What has happened to a slot.
#[derive(Clone, Copy, Debug, PartialEq, Eq, Structural)]
pub enum SlotEvent {
    Listening,
    Connected,
    AcceptFailed,
    Rested,
    Upgraded,
    UpgradeRefused,
    /// Another slot has returned to listening.
    ListenerReturned,
    MessageRead,
    /// The session has the servo bus for the command of a message.
    BusGranted,
    /// Some session has claimed the controller.
    OwnerChanged,
    SessionEnded,
}

/// What a slot does next.
#[derive(Clone, Copy, Debug, PartialEq, Eq, Structural)]
pub enum SlotAction {
    /// Drop the connection, if there is one, and listen.
    Listen,
    Accept,
    /// Drop the connection and wait.
    Rest { milliseconds: u64 },
    Upgrade,
    WaitForListener,
    /// Read the messages of the session; `replaces_active` tells whether another one is closed.
    Serve { replaces_active: bool },
    /// Handle the message, then read the next one.
    Handle,
    /// Carry out the command that the bus was granted for.
    Execute,
    /// Go on reading.
    ReadOn,
}

/// What a slot that has completed its handshake does.
pub open spec fn slot_claim(state: AdmissionState) -> (SlotPhase, SlotAction, AdmissionState) {
    match claimed(state) {
        (after, ControllerAdmissionResult::Granted { generation, replaces_active }) => (
            SlotPhase::Serving { generation },
            SlotAction::Serve { replaces_active },
            after,
        ),
        (after, ControllerAdmissionResult::WaitForListener) => (
            SlotPhase::Waiting,
            SlotAction::WaitForListener,
            after,
        ),
    }
}

/// What a slot does next, with the state of the controller after it; `None` where the event cannot
/// come in that phase.
pub open spec fn slot_step(phase: SlotPhase, event: SlotEvent, state: AdmissionState) -> Option<
    (SlotPhase, SlotAction, AdmissionState),
> {
    match (phase, event) {
        (SlotPhase::Returning, SlotEvent::Listening) => Some(
            (SlotPhase::Listening, SlotAction::Accept, listening(state)),
        ),
        (SlotPhase::Listening, SlotEvent::Connected) => Some(
            (SlotPhase::Upgrading, SlotAction::Upgrade, state),
        ),
        (SlotPhase::Returning, SlotEvent::AcceptFailed) | (
            SlotPhase::Listening,
            SlotEvent::AcceptFailed,
        ) => Some((SlotPhase::Resting, SlotAction::Rest { milliseconds: SLOT_RETRY_MS }, state)),
        (SlotPhase::Resting, SlotEvent::Rested) => Some(
            (SlotPhase::Returning, SlotAction::Listen, state),
        ),
        (SlotPhase::Upgrading, SlotEvent::UpgradeRefused) => Some(
            (SlotPhase::Returning, SlotAction::Listen, state),
        ),
        (SlotPhase::Upgrading, SlotEvent::Upgraded) => Some(slot_claim(state)),
        (SlotPhase::Waiting, SlotEvent::ListenerReturned) => Some(slot_claim(state)),
        (SlotPhase::Waiting, SlotEvent::SessionEnded) => Some(
            (SlotPhase::Returning, SlotAction::Listen, state),
        ),
        (SlotPhase::Serving { generation }, SlotEvent::MessageRead) => Some(
            if state.generation == generation {
                (phase, SlotAction::Handle, state)
            } else {
                (SlotPhase::Returning, SlotAction::Listen, state)
            },
        ),
        (SlotPhase::Serving { generation }, SlotEvent::BusGranted) => Some(
            if state.generation == generation {
                (phase, SlotAction::Execute, state)
            } else {
                (SlotPhase::Returning, SlotAction::Listen, state)
            },
        ),
        (SlotPhase::Serving { generation }, SlotEvent::OwnerChanged) => Some(
            if state.generation == generation {
                (phase, SlotAction::ReadOn, state)
            } else {
                (SlotPhase::Returning, SlotAction::Listen, state)
            },
        ),
        (SlotPhase::Serving { generation }, SlotEvent::SessionEnded) => Some(
            (SlotPhase::Returning, SlotAction::Listen, released(state, generation)),
        ),
        _ => None,
    }
}

fn claim(admission: &mut ControllerAdmission) -> (step: (SlotPhase, SlotAction))
    ensures
        (step.0, step.1, final(admission)@) == slot_claim(old(admission)@),
{
    match admission.try_claim() {
        ControllerAdmissionResult::Granted { generation, replaces_active } => (
            SlotPhase::Serving { generation },
            SlotAction::Serve { replaces_active },
        ),
        ControllerAdmissionResult::WaitForListener => (
            SlotPhase::Waiting,
            SlotAction::WaitForListener,
        ),
    }
}

/// Decides what a slot does next. It starts in [`SlotPhase::Returning`].
pub fn controller_service(
    phase: SlotPhase,
    event: SlotEvent,
    admission: &mut ControllerAdmission,
) -> (step: Option<(SlotPhase, SlotAction)>)
    ensures
        match step {
            Some(step) => slot_step(phase, event, old(admission)@) == Some(
                (step.0, step.1, final(admission)@),
            ),
            None => slot_step(phase, event, old(admission)@) is None && final(admission)@ == old(
                admission,
            )@,
        },
{
    match (phase, event) {
        (SlotPhase::Returning, SlotEvent::Listening) => {
            let _ = admission.listener_ready();
            Some((SlotPhase::Listening, SlotAction::Accept))
        },
        (SlotPhase::Listening, SlotEvent::Connected) => Some(
            (SlotPhase::Upgrading, SlotAction::Upgrade),
        ),
        (SlotPhase::Returning, SlotEvent::AcceptFailed) | (
            SlotPhase::Listening,
            SlotEvent::AcceptFailed,
        ) => Some((SlotPhase::Resting, SlotAction::Rest { milliseconds: SLOT_RETRY_MS })),
        (SlotPhase::Resting, SlotEvent::Rested) => Some((SlotPhase::Returning, SlotAction::Listen)),
        (SlotPhase::Upgrading, SlotEvent::UpgradeRefused) => Some(
            (SlotPhase::Returning, SlotAction::Listen),
        ),
        (SlotPhase::Upgrading, SlotEvent::Upgraded) => Some(claim(admission)),
        (SlotPhase::Waiting, SlotEvent::ListenerReturned) => Some(claim(admission)),
        (SlotPhase::Waiting, SlotEvent::SessionEnded) => Some(
            (SlotPhase::Returning, SlotAction::Listen),
        ),
        (SlotPhase::Serving { generation }, SlotEvent::MessageRead) => if admission.is_current(
            generation,
        ) {
            Some((phase, SlotAction::Handle))
        } else {
            Some((SlotPhase::Returning, SlotAction::Listen))
        },
        (SlotPhase::Serving { generation }, SlotEvent::BusGranted) => if admission.is_current(
            generation,
        ) {
            Some((phase, SlotAction::Execute))
        } else {
            Some((SlotPhase::Returning, SlotAction::Listen))
        },
        (SlotPhase::Serving { generation }, SlotEvent::OwnerChanged) => if admission.is_current(
            generation,
        ) {
            Some((phase, SlotAction::ReadOn))
        } else {
            Some((SlotPhase::Returning, SlotAction::Listen))
        },
        (SlotPhase::Serving { generation }, SlotEvent::SessionEnded) => {
            admission.release(generation);
            Some((SlotPhase::Returning, SlotAction::Listen))
        },
        _ => None,
    }
}

/// Whether a slot serves the session of a generation.
pub open spec fn serves(phase: SlotPhase, generation: u64) -> bool {
    phase == (SlotPhase::Serving { generation })
}

/// Whether the slots can come about together: no session is newer than the newest, and no two
/// slots serve the same one.
pub open spec fn slots_ok(phases: Seq<SlotPhase>, state: AdmissionState) -> bool {
    &&& forall|i: int, generation: u64|
        0 <= i < phases.len() && #[trigger] serves(phases[i], generation) ==> generation
            <= state.generation
    &&& forall|i: int, j: int, generation: u64|
        0 <= i < phases.len() && 0 <= j < phases.len() && #[trigger] serves(phases[i], generation)
            && #[trigger] serves(phases[j], generation) ==> i == j
}

/// Slots that return to listening before the first session can come about, and what any of them
/// does keeps it so, until the generations are used up.
pub proof fn sessions_have_generations_of_their_own(
    phases: Seq<SlotPhase>,
    slot: int,
    event: SlotEvent,
    state: AdmissionState,
)
    requires
        slots_ok(phases, state),
        0 <= slot < phases.len(),
        state.generation < u64::MAX,
    ensures
        slots_ok(Seq::new(phases.len(), |i: int| SlotPhase::Returning), no_controller()),
        slot_step(phases[slot], event, state) matches Some((next, _, after)) ==> slots_ok(
            phases.update(slot, next),
            after,
        ),
{
}

/// Whether a slot has its messages handled and its commands carried out.
pub open spec fn is_handled(phase: SlotPhase, state: AdmissionState) -> bool {
    ||| slot_step(phase, SlotEvent::MessageRead, state) matches Some((_, SlotAction::Handle, _))
    ||| slot_step(phase, SlotEvent::BusGranted, state) matches Some((_, SlotAction::Execute, _))
}

/// Whether a slot closes its session at its next message, and before its next command.
pub open spec fn is_closed(phase: SlotPhase, state: AdmissionState) -> bool {
    let closing = Some((SlotPhase::Returning, SlotAction::Listen, state));
    &&& slot_step(phase, SlotEvent::MessageRead, state) == closing
    &&& slot_step(phase, SlotEvent::BusGranted, state) == closing
}

/// At most one session has its messages handled and its commands carried out: of two slots at
/// most one is handled, and where both serve a session, one at least closes it.
pub proof fn only_one_session_is_handled(
    phases: Seq<SlotPhase>,
    left: int,
    right: int,
    state: AdmissionState,
)
    requires
        slots_ok(phases, state),
        0 <= left < phases.len(),
        0 <= right < phases.len(),
        left != right,
    ensures
        !(is_handled(phases[left], state) && is_handled(phases[right], state)),
        phases[left] is Serving && phases[right] is Serving ==> is_closed(phases[left], state)
            || is_closed(phases[right], state),
{
    assert(serves(phases[left], state.generation) && serves(phases[right], state.generation) ==> left
        == right);
}

/// A session that completes its handshake while no takeover is pending becomes the one whose
/// messages are handled, and the session before it is closed: right when it learns of the new
/// owner, and at its next message or before its next command at the latest.
pub proof fn the_newest_session_takes_over(previous: u64, state: AdmissionState)
    requires
        !state.listener_required,
        state.generation == previous,
    ensures
        ({
            let (phase, action, after) = slot_claim(state);
            &&& action == (SlotAction::Serve { replaces_active: state.active })
            &&& slot_step(phase, SlotEvent::MessageRead, after) == Some(
                (phase, SlotAction::Handle, after),
            )
            &&& slot_step(phase, SlotEvent::OwnerChanged, after) == Some(
                (phase, SlotAction::ReadOn, after),
            )
            &&& slot_step(phase, SlotEvent::BusGranted, after) == Some(
                (phase, SlotAction::Execute, after),
            )
            &&& slot_step(
                SlotPhase::Serving { generation: previous },
                SlotEvent::OwnerChanged,
                after,
            ) == Some((SlotPhase::Returning, SlotAction::Listen, after))
            &&& is_closed(SlotPhase::Serving { generation: previous }, after)
        }),
{
}

/// A host that comes during a takeover waits, and gets the controller once a slot listens again.
pub proof fn waiting_hosts_are_admitted(state: AdmissionState)
    requires
        state.listener_required,
    ensures
        slot_step(SlotPhase::Upgrading, SlotEvent::Upgraded, state) == Some(
            (SlotPhase::Waiting, SlotAction::WaitForListener, state),
        ),
        ({
            let after = slot_step(SlotPhase::Returning, SlotEvent::Listening, state)->Some_0.2;
            slot_step(SlotPhase::Waiting, SlotEvent::ListenerReturned, after)->Some_0.1
                is Serve
        }),
{
}

/// A slot goes round: it listens, accepts, upgrades and serves, and listens again after a refused
/// handshake, after its session, or a second after a connection could not be accepted. Only the
/// end of a session that it serves gives up the controller, and only listening lets a waiting host
/// in.
pub proof fn slots_go_round(generation: u64, state: AdmissionState)
    ensures
        slot_step(SlotPhase::Returning, SlotEvent::Listening, state) matches Some(
            (SlotPhase::Listening, SlotAction::Accept, after),
        ) && !after.listener_required && after.generation == state.generation && after.active
            == state.active,
        slot_step(SlotPhase::Listening, SlotEvent::Connected, state) == Some(
            (SlotPhase::Upgrading, SlotAction::Upgrade, state),
        ),
        slot_step(SlotPhase::Upgrading, SlotEvent::UpgradeRefused, state) == Some(
            (SlotPhase::Returning, SlotAction::Listen, state),
        ),
        slot_step(SlotPhase::Listening, SlotEvent::AcceptFailed, state) == Some(
            (SlotPhase::Resting, SlotAction::Rest { milliseconds: 1000 }, state),
        ),
        slot_step(SlotPhase::Returning, SlotEvent::AcceptFailed, state) == Some(
            (SlotPhase::Resting, SlotAction::Rest { milliseconds: 1000 }, state),
        ),
        slot_step(SlotPhase::Resting, SlotEvent::Rested, state) == Some(
            (SlotPhase::Returning, SlotAction::Listen, state),
        ),
        slot_step(SlotPhase::Waiting, SlotEvent::SessionEnded, state) == Some(
            (SlotPhase::Returning, SlotAction::Listen, state),
        ),
        slot_step(
            SlotPhase::Serving { generation },
            SlotEvent::SessionEnded,
            state,
        ) matches Some((SlotPhase::Returning, SlotAction::Listen, after)) && after.generation
            == state.generation && after.listener_required == state.listener_required && (
        after.active <==> state.active && state.generation != generation),
{
}

/// A slot that has completed its handshake, or waited for a listener, serves the generation that
/// it was granted, or goes on waiting without a change.
pub proof fn upgraded_slots_serve_their_generation(state: AdmissionState)
    ensures
        slot_step(SlotPhase::Upgrading, SlotEvent::Upgraded, state) == slot_step(
            SlotPhase::Waiting,
            SlotEvent::ListenerReturned,
            state,
        ),
        state.listener_required ==> slot_step(SlotPhase::Upgrading, SlotEvent::Upgraded, state)
            == Some((SlotPhase::Waiting, SlotAction::WaitForListener, state)),
        !state.listener_required ==> (slot_step(
            SlotPhase::Upgrading,
            SlotEvent::Upgraded,
            state,
        ) matches Some(
            (SlotPhase::Serving { generation }, SlotAction::Serve { replaces_active }, after),
        ) && after.generation == generation && after.active && replaces_active == state.active
            && after.listener_required == state.active),
{
}

/// A session whose generation is the newest is served; any other one is closed, whatever comes.
pub proof fn sessions_are_served_by_their_generation(generation: u64, state: AdmissionState)
    ensures
        ({
            let phase = SlotPhase::Serving { generation };
            let message = slot_step(phase, SlotEvent::MessageRead, state);
            let command = slot_step(phase, SlotEvent::BusGranted, state);
            let owner = slot_step(phase, SlotEvent::OwnerChanged, state);
            &&& state.generation == generation ==> {
                &&& message == Some((phase, SlotAction::Handle, state))
                &&& command == Some((phase, SlotAction::Execute, state))
                &&& owner == Some((phase, SlotAction::ReadOn, state))
            }
            &&& state.generation != generation ==> {
                let closing = Some((SlotPhase::Returning, SlotAction::Listen, state));
                message == closing && command == closing && owner == closing
            }
        }),
{
}

} // verus!
