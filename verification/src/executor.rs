//! How the MCU carries out a command: which packets it sends to the servos, when it drains the bus
//! and what it reports.
//!
//! A command is a run that asks for one thing after another: to exchange a packet for a reply, to
//! drain the bus, or to report the result. After a failure the bus is always drained before the
//! result is reported, so that a late reply is never taken for the reply to the next command.

use vstd::prelude::*;

use crate::bounded::{
    batch_ids, batch_positions, batch_slice, found_ids, no_positions, none_found, push_found,
    push_position, PositionResult,
};
use crate::controller::{carries, instruction_packet, instructions_are_carried_by_their_packets};
use crate::rpc::{reported_failure, ControllerCommand, ControllerResult, ResultView};
use crate::servo_bus::{
    decode_position, is_unicast_servo_id, move_plan, move_position, ping, ping_servo, plan_view,
    position_of, position_read, read_position, register_write, send_sts_packet, start_motor,
    start_plan, stop_motor, stop_plan, unicast, write_register, ServoFailure, Transaction,
    TransactionView, MAX_PACKET_LEN, MAX_SERVO_ID, STS_ID,
};

verus! {

/// What a sequence of instructions is for.
#[derive(Debug)]
pub enum Goal {
    Accepted,
    Position(PositionResult),
    Positions(serde_json_core::heapless::Vec<PositionResult, 6>),
}

#[verifier::ext_equal]
pub enum GoalView {
    Accepted,
    Position(PositionResult),
    Positions(Seq<PositionResult>),
}

impl View for Goal {
    type V = GoalView;

    open spec fn view(&self) -> GoalView {
        match self {
            Goal::Accepted => GoalView::Accepted,
            Goal::Position(position) => GoalView::Position(*position),
            Goal::Positions(positions) => GoalView::Positions(batch_positions(*positions)),
        }
    }
}

/// How far the change of an address has come.
#[derive(Clone, Copy, Debug, PartialEq, Eq, Structural)]
pub enum SetIdStage {
    /// Waiting for the servo to answer at its current address.
    PingCurrent,
    /// Waiting whether something answers at the new address.
    PingNew,
    /// Draining the bus, as nothing answered at the new address.
    Settle,
    /// Waiting for the servo to accept its new address.
    Write,
    /// Waiting for the servo to answer at its new address.
    Confirm,
}

/// A command that is being carried out.
#[allow(inconsistent_fields)]
#[derive(Debug)]
pub enum CommandRun {
    /// Waiting for the reply to one of a sequence of instructions.
    Sequence { goal: Goal, plan: Vec<Transaction>, at: usize },
    /// Waiting for a servo to answer a search.
    Scan { at: u8, end: u8, found: serde_json_core::heapless::Vec<u8, 253> },
    /// Draining the bus after an address that did not answer properly.
    ScanSettle { at: u8, end: u8, found: serde_json_core::heapless::Vec<u8, 253> },
    /// Draining the bus after the UART failed during a search.
    ScanFailed,
    SetId { stage: SetIdStage, current_id: u8, new_id: u8 },
    /// Draining the bus before a failure is reported.
    Draining { failure: ServoFailure },
    Finished,
}

#[allow(inconsistent_fields)]
#[verifier::ext_equal]
pub enum RunView {
    Sequence { goal: GoalView, plan: Seq<TransactionView>, at: nat },
    Scan { at: u8, end: u8, found: Seq<u8> },
    ScanSettle { at: u8, end: u8, found: Seq<u8> },
    ScanFailed,
    SetId { stage: SetIdStage, current_id: u8, new_id: u8 },
    Draining { failure: ServoFailure },
    Finished,
}

impl View for CommandRun {
    type V = RunView;

    open spec fn view(&self) -> RunView {
        match self {
            CommandRun::Sequence { goal, plan, at } => RunView::Sequence {
                goal: goal@,
                plan: plan_view(plan@),
                at: *at as nat,
            },
            CommandRun::Scan { at, end, found } => RunView::Scan {
                at: *at,
                end: *end,
                found: found_ids(*found),
            },
            CommandRun::ScanSettle { at, end, found } => RunView::ScanSettle {
                at: *at,
                end: *end,
                found: found_ids(*found),
            },
            CommandRun::ScanFailed => RunView::ScanFailed,
            CommandRun::SetId { stage, current_id, new_id } => RunView::SetId {
                stage: *stage,
                current_id: *current_id,
                new_id: *new_id,
            },
            CommandRun::Draining { failure } => RunView::Draining { failure: *failure },
            CommandRun::Finished => RunView::Finished,
        }
    }
}

/// What has happened on the bus.
#[derive(Debug)]
pub enum BusEvent {
    /// The parameters of the reply to the packet, or why there is none.
    Reply(Result<Vec<u8>, ServoFailure>),
    Drained,
}

#[verifier::ext_equal]
pub enum BusEventView {
    Reply(Result<Seq<u8>, ServoFailure>),
    Drained,
}

impl View for BusEvent {
    type V = BusEventView;

    open spec fn view(&self) -> BusEventView {
        match self {
            BusEvent::Reply(Ok(parameters)) => BusEventView::Reply(Ok(parameters@)),
            BusEvent::Reply(Err(failure)) => BusEventView::Reply(Err(*failure)),
            BusEvent::Drained => BusEventView::Drained,
        }
    }
}

/// What a run asks for.
#[derive(Debug)]
pub enum BusAction {
    /// Send the packet and wait for the reply of the servo.
    Exchange { id: u8, packet: Vec<u8> },
    /// Discard what arrives until the bus is quiet.
    Drain,
    Finish(Result<ControllerResult, ServoFailure>),
}

#[verifier::ext_equal]
pub enum BusActionView {
    Exchange { id: u8, packet: Seq<u8> },
    Drain,
    Finish(Result<ResultView, ServoFailure>),
}

impl View for BusAction {
    type V = BusActionView;

    open spec fn view(&self) -> BusActionView {
        match self {
            BusAction::Exchange { id, packet } => BusActionView::Exchange {
                id: *id,
                packet: packet@,
            },
            BusAction::Drain => BusActionView::Drain,
            BusAction::Finish(Ok(result)) => BusActionView::Finish(Ok(result@)),
            BusAction::Finish(Err(failure)) => BusActionView::Finish(Err(*failure)),
        }
    }
}

/// A run with what it asks for.
pub open spec fn step_view(step: (CommandRun, BusAction)) -> (RunView, BusActionView) {
    (step.0@, step.1@)
}

/// The packet of an instruction.
pub open spec fn packet_of(transaction: TransactionView) -> Seq<u8> {
    instruction_packet(transaction.id, transaction.instruction, transaction.parameters)
}

/// Asks for an exchange.
pub open spec fn exchange(transaction: TransactionView) -> BusActionView {
    BusActionView::Exchange { id: transaction.id, packet: packet_of(transaction) }
}

/// The run that fails: the bus is drained first.
pub open spec fn failing(failure: ServoFailure) -> (RunView, BusActionView) {
    (RunView::Draining { failure }, BusActionView::Drain)
}

/// The run that succeeds.
pub open spec fn succeeding(result: ResultView) -> (RunView, BusActionView) {
    (RunView::Finished, BusActionView::Finish(Ok(result)))
}

/// The result of a sequence that came to its end.
pub open spec fn goal_result(goal: GoalView) -> ResultView {
    match goal {
        GoalView::Accepted => ResultView::Accepted,
        GoalView::Position(position) => ResultView::Position(position),
        GoalView::Positions(positions) => ResultView::Positions(positions),
    }
}

/// The run of a sequence whose instructions before `at` are done.
pub open spec fn sequence_from(goal: GoalView, plan: Seq<TransactionView>, at: nat) -> (
    RunView,
    BusActionView,
) {
    if at >= plan.len() {
        succeeding(goal_result(goal))
    } else if !unicast(plan[at as int].id) {
        failing(ServoFailure::InvalidServoId)
    } else if plan[at as int].parameters.len() + 6 > MAX_PACKET_LEN {
        failing(ServoFailure::InvalidArgument)
    } else {
        (RunView::Sequence { goal, plan, at }, exchange(plan[at as int]))
    }
}

/// The goal of a sequence after the reply of the servo `id`; `Err` where the reply does not serve
/// the goal.
pub open spec fn goal_after(goal: GoalView, id: u8, parameters: Seq<u8>) -> Result<
    GoalView,
    ServoFailure,
> {
    match goal {
        GoalView::Accepted => Ok(GoalView::Accepted),
        GoalView::Position(_) => if parameters.len() == 2 {
            Ok(GoalView::Position(PositionResult { id, position: position_of(parameters) }))
        } else {
            Err(ServoFailure::InvalidReply)
        },
        GoalView::Positions(positions) => if parameters.len() != 2 {
            Err(ServoFailure::InvalidReply)
        } else if positions.len() >= 6 {
            Err(ServoFailure::InvalidArgument)
        } else {
            Ok(
                GoalView::Positions(
                    positions.push(PositionResult { id, position: position_of(parameters) }),
                ),
            )
        },
    }
}

/// The run of a sequence after the reply to the instruction at `at`.
pub open spec fn sequence_after(
    goal: GoalView,
    plan: Seq<TransactionView>,
    at: nat,
    reply: Result<Seq<u8>, ServoFailure>,
) -> (RunView, BusActionView) {
    match reply {
        Err(failure) => failing(failure),
        Ok(parameters) => if parameters.len() != plan[at as int].reply_len {
            failing(ServoFailure::InvalidReply)
        } else {
            match goal_after(goal, plan[at as int].id, parameters) {
                Err(failure) => failing(failure),
                Ok(goal) => sequence_from(goal, plan, at + 1),
            }
        },
    }
}

/// The run of a search that goes on with `at`.
pub open spec fn scan_from(at: u8, end: u8, found: Seq<u8>) -> (RunView, BusActionView) {
    if unicast(at) {
        (RunView::Scan { at, end, found }, exchange(ping(at)))
    } else {
        succeeding(ResultView::Servos(found))
    }
}

/// The run of a search that is done with `at`.
pub open spec fn scan_after(at: u8, end: u8, found: Seq<u8>) -> (RunView, BusActionView) {
    if at >= end {
        succeeding(ResultView::Servos(found))
    } else {
        scan_from((at + 1) as u8, end, found)
    }
}

/// The run that changes an address, after a reply.
pub open spec fn set_id_after(
    stage: SetIdStage,
    current_id: u8,
    new_id: u8,
    reply: Result<Seq<u8>, ServoFailure>,
) -> Option<(RunView, BusActionView)> {
    match (stage, reply) {
        (SetIdStage::Settle, _) => None,
        (SetIdStage::PingCurrent, Ok(_)) => Some(
            (
                RunView::SetId { stage: SetIdStage::PingNew, current_id, new_id },
                exchange(ping(new_id)),
            ),
        ),
        (SetIdStage::PingNew, Ok(_)) => Some(failing(ServoFailure::IdInUse)),
        (SetIdStage::PingNew, Err(ServoFailure::ReportedError)) => Some(
            failing(ServoFailure::IdInUse),
        ),
        (SetIdStage::PingNew, Err(ServoFailure::Timeout)) => Some(
            (
                RunView::SetId { stage: SetIdStage::Settle, current_id, new_id },
                BusActionView::Drain,
            ),
        ),
        (SetIdStage::Write, Ok(parameters)) => Some(
            if parameters.len() == 0 {
                (
                    RunView::SetId { stage: SetIdStage::Confirm, current_id, new_id },
                    exchange(ping(new_id)),
                )
            } else {
                failing(ServoFailure::InvalidReply)
            },
        ),
        (SetIdStage::Confirm, Ok(_)) => Some(
            succeeding(ResultView::IdChanged { previous_id: current_id, new_id }),
        ),
        (_, Err(failure)) => Some(failing(failure)),
    }
}

/// What a run does next; `None` where the event cannot come.
pub open spec fn run_step(run: RunView, event: BusEventView) -> Option<(RunView, BusActionView)> {
    match (run, event) {
        (RunView::Sequence { goal, plan, at }, BusEventView::Reply(reply)) => if at < plan.len() {
            Some(sequence_after(goal, plan, at, reply))
        } else {
            None
        },
        (RunView::Scan { at, end, found }, BusEventView::Reply(Ok(_))) => if found.len() < 253 {
            Some(scan_after(at, end, found.push(at)))
        } else {
            Some(failing(ServoFailure::InvalidArgument))
        },
        (RunView::Scan { .. }, BusEventView::Reply(Err(ServoFailure::Transport))) => Some(
            (RunView::ScanFailed, BusActionView::Drain),
        ),
        (RunView::Scan { at, end, found }, BusEventView::Reply(Err(_))) => Some(
            (RunView::ScanSettle { at, end, found }, BusActionView::Drain),
        ),
        (RunView::ScanSettle { at, end, found }, BusEventView::Drained) => Some(
            scan_after(at, end, found),
        ),
        (RunView::ScanFailed, BusEventView::Drained) => Some(failing(ServoFailure::Transport)),
        (
            RunView::SetId { stage: SetIdStage::Settle, current_id, new_id },
            BusEventView::Drained,
        ) => Some(
            (
                RunView::SetId { stage: SetIdStage::Write, current_id, new_id },
                exchange(register_write(current_id, STS_ID, seq![new_id])),
            ),
        ),
        (RunView::SetId { stage, current_id, new_id }, BusEventView::Reply(reply)) => set_id_after(
            stage,
            current_id,
            new_id,
            reply,
        ),
        (RunView::Draining { failure }, BusEventView::Drained) => Some(
            (RunView::Finished, BusActionView::Finish(Err(failure))),
        ),
        _ => None,
    }
}

/// The instructions that read the positions of some servos.
pub open spec fn position_reads(ids: Seq<u8>) -> Seq<TransactionView> {
    Seq::new(ids.len(), |i: int| position_read(ids[i]))
}

/// How a command starts.
pub open spec fn run_start(command: ControllerCommand) -> (RunView, BusActionView) {
    match command {
        ControllerCommand::StartMotor { id, counter_clockwise, speed, acceleration } => if !unicast(
            id,
        ) {
            failing(ServoFailure::InvalidServoId)
        } else if speed > 4095 {
            failing(ServoFailure::InvalidArgument)
        } else {
            sequence_from(
                GoalView::Accepted,
                start_plan(id, counter_clockwise, speed, acceleration),
                0,
            )
        },
        ControllerCommand::StopMotor { id } => sequence_from(GoalView::Accepted, stop_plan(id), 0),
        ControllerCommand::SetPosition { id, position, acceleration, torque_limit } => if !unicast(
            id,
        ) {
            failing(ServoFailure::InvalidServoId)
        } else if position > 4095 || torque_limit > 1000 {
            failing(ServoFailure::InvalidArgument)
        } else {
            sequence_from(
                GoalView::Accepted,
                move_plan(id, position, acceleration, torque_limit),
                0,
            )
        },
        ControllerCommand::GetPosition { id } => sequence_from(
            GoalView::Position(PositionResult { id, position: 0 }),
            seq![position_read(id)],
            0,
        ),
        ControllerCommand::GetPositions { ids } => sequence_from(
            GoalView::Positions(Seq::empty()),
            position_reads(batch_ids(ids)),
            0,
        ),
        ControllerCommand::ScanServos { start_id, end_id } => if start_id == 0 || start_id > end_id
            || end_id > MAX_SERVO_ID {
            failing(ServoFailure::InvalidArgument)
        } else {
            scan_from(start_id, end_id, Seq::empty())
        },
        ControllerCommand::SetId { current_id, new_id } => if !unicast(current_id) || !unicast(
            new_id,
        ) {
            failing(ServoFailure::InvalidServoId)
        } else if current_id == new_id {
            failing(ServoFailure::InvalidArgument)
        } else {
            (
                RunView::SetId { stage: SetIdStage::PingCurrent, current_id, new_id },
                exchange(ping(current_id)),
            )
        },
    }
}

fn fail(failure: ServoFailure) -> (step: (CommandRun, BusAction))
    ensures
        step_view(step) == failing(failure),
{
    (CommandRun::Draining { failure }, BusAction::Drain)
}

fn succeed(result: ControllerResult) -> (step: (CommandRun, BusAction))
    ensures
        step_view(step) == succeeding(result@),
{
    (CommandRun::Finished, BusAction::Finish(Ok(result)))
}

fn ask(run: CommandRun, transaction: &Transaction) -> (step: (CommandRun, BusAction))
    requires
        transaction@.parameters.len() + 6 <= MAX_PACKET_LEN,
    ensures
        step_view(step) == (run@, exchange(transaction@)),
{
    match send_sts_packet(
        transaction.id,
        transaction.instruction,
        transaction.parameters.as_slice(),
    ) {
        Ok(packet) => (run, BusAction::Exchange { id: transaction.id, packet }),
        Err(failure) => fail(failure),
    }
}

fn goal_reached(goal: Goal) -> (result: ControllerResult)
    ensures
        result@ == goal_result(goal@),
{
    match goal {
        Goal::Accepted => ControllerResult::Accepted,
        Goal::Position(position) => ControllerResult::Position(position),
        Goal::Positions(positions) => ControllerResult::Positions(positions),
    }
}

fn continue_sequence(goal: Goal, plan: Vec<Transaction>, at: usize) -> (step: (
    CommandRun,
    BusAction,
))
    ensures
        step_view(step) == sequence_from(goal@, plan_view(plan@), at as nat),
{
    if at >= plan.len() {
        return succeed(goal_reached(goal));
    }
    let id = plan[at].id;
    if !is_unicast_servo_id(id) {
        return fail(ServoFailure::InvalidServoId);
    }
    match send_sts_packet(id, plan[at].instruction, plan[at].parameters.as_slice()) {
        Ok(packet) => (
            CommandRun::Sequence { goal, plan, at },
            BusAction::Exchange { id, packet },
        ),
        Err(failure) => fail(failure),
    }
}

fn record_reply(goal: Goal, id: u8, parameters: &[u8]) -> (recorded: Result<Goal, ServoFailure>)
    ensures
        match recorded {
            Ok(recorded) => goal_after(goal@, id, parameters@) == Ok::<GoalView, ServoFailure>(
                recorded@,
            ),
            Err(failure) => goal_after(goal@, id, parameters@) == Err::<GoalView, ServoFailure>(
                failure,
            ),
        },
{
    match goal {
        Goal::Accepted => Ok(Goal::Accepted),
        Goal::Position(_) => {
            if parameters.len() != 2 {
                return Err(ServoFailure::InvalidReply);
            }
            Ok(Goal::Position(PositionResult { id, position: decode_position(parameters) }))
        },
        Goal::Positions(mut positions) => {
            if parameters.len() != 2 {
                return Err(ServoFailure::InvalidReply);
            }
            let position = PositionResult { id, position: decode_position(parameters) };
            if push_position(&mut positions, position) {
                Ok(Goal::Positions(positions))
            } else {
                Err(ServoFailure::InvalidArgument)
            }
        },
    }
}

/// The instructions that read the positions of some servos.
pub fn read_positions(ids: &[u8]) -> (plan: Vec<Transaction>)
    ensures
        plan_view(plan@) == position_reads(ids@),
{
    let mut plan: Vec<Transaction> = Vec::new();
    let mut index: usize = 0;
    while index < ids.len()
        invariant
            index <= ids@.len(),
            plan@.len() == index,
            forall|i: int| 0 <= i < index ==> (#[trigger] plan@[i])@ == position_read(ids@[i]),
        decreases ids@.len() - index,
    {
        plan.push(read_position(ids[index]));
        index += 1;
    }
    proof {
        assert(plan_view(plan@) =~= position_reads(ids@));
    }
    plan
}

fn begin_scan(at: u8, end: u8, found: serde_json_core::heapless::Vec<u8, 253>) -> (step: (
    CommandRun,
    BusAction,
))
    ensures
        step_view(step) == scan_from(at, end, found_ids(found)),
{
    if is_unicast_servo_id(at) {
        let transaction = ping_servo(at);
        ask(CommandRun::Scan { at, end, found }, &transaction)
    } else {
        succeed(ControllerResult::Servos(found))
    }
}

fn continue_scan(at: u8, end: u8, found: serde_json_core::heapless::Vec<u8, 253>) -> (step: (
    CommandRun,
    BusAction,
))
    ensures
        step_view(step) == scan_after(at, end, found_ids(found)),
{
    if at >= end {
        succeed(ControllerResult::Servos(found))
    } else {
        begin_scan(at + 1, end, found)
    }
}

/// Searches the addresses from `start_id` to `end_id`.
pub fn scan_servos(start_id: u8, end_id: u8) -> (step: (CommandRun, BusAction))
    ensures
        step_view(step) == run_start(ControllerCommand::ScanServos { start_id, end_id }),
{
    if start_id == 0 || start_id > end_id || end_id > MAX_SERVO_ID {
        return fail(ServoFailure::InvalidArgument);
    }
    begin_scan(start_id, end_id, none_found())
}

/// Changes the address of a servo.
pub fn set_servo_id(current_id: u8, new_id: u8) -> (step: (CommandRun, BusAction))
    ensures
        step_view(step) == run_start(ControllerCommand::SetId { current_id, new_id }),
{
    if !is_unicast_servo_id(current_id) || !is_unicast_servo_id(new_id) {
        return fail(ServoFailure::InvalidServoId);
    }
    if current_id == new_id {
        return fail(ServoFailure::InvalidArgument);
    }
    let transaction = ping_servo(current_id);
    ask(CommandRun::SetId { stage: SetIdStage::PingCurrent, current_id, new_id }, &transaction)
}

fn continue_set_id(
    stage: SetIdStage,
    current_id: u8,
    new_id: u8,
    reply: Result<Vec<u8>, ServoFailure>,
) -> (step: Option<(CommandRun, BusAction)>)
    ensures
        match step {
            Some(step) => set_id_after(
                stage,
                current_id,
                new_id,
                match reply {
                    Ok(parameters) => Ok(parameters@),
                    Err(failure) => Err(failure),
                },
            ) == Some(step_view(step)),
            None => stage == SetIdStage::Settle,
        },
{
    let failure = match reply {
        Err(failure) => failure,
        Ok(parameters) => {
            return match stage {
                SetIdStage::Settle => None,
                SetIdStage::PingCurrent => {
                    let transaction = ping_servo(new_id);
                    Some(
                        ask(
                            CommandRun::SetId { stage: SetIdStage::PingNew, current_id, new_id },
                            &transaction,
                        ),
                    )
                },
                SetIdStage::PingNew => Some(fail(ServoFailure::IdInUse)),
                SetIdStage::Write => if parameters.len() == 0 {
                    let transaction = ping_servo(new_id);
                    Some(
                        ask(
                            CommandRun::SetId { stage: SetIdStage::Confirm, current_id, new_id },
                            &transaction,
                        ),
                    )
                } else {
                    Some(fail(ServoFailure::InvalidReply))
                },
                SetIdStage::Confirm => Some(
                    succeed(ControllerResult::IdChanged { previous_id: current_id, new_id }),
                ),
            };
        },
    };
    match (stage, failure) {
        (SetIdStage::Settle, _) => None,
        (SetIdStage::PingNew, ServoFailure::ReportedError) => Some(fail(ServoFailure::IdInUse)),
        (SetIdStage::PingNew, ServoFailure::Timeout) => Some(
            (
                CommandRun::SetId { stage: SetIdStage::Settle, current_id, new_id },
                BusAction::Drain,
            ),
        ),
        _ => Some(fail(failure)),
    }
}

/// Starts to carry out a command.
pub fn execute_command(command: ControllerCommand) -> (step: (CommandRun, BusAction))
    ensures
        step_view(step) == run_start(command),
{
    match command {
        ControllerCommand::StartMotor { id, counter_clockwise, speed, acceleration } => {
            if !is_unicast_servo_id(id) {
                return fail(ServoFailure::InvalidServoId);
            }
            if speed > 4095 {
                return fail(ServoFailure::InvalidArgument);
            }
            continue_sequence(
                Goal::Accepted,
                start_motor(id, counter_clockwise, speed, acceleration),
                0,
            )
        },
        ControllerCommand::StopMotor { id } => continue_sequence(
            Goal::Accepted,
            stop_motor(id),
            0,
        ),
        ControllerCommand::SetPosition { id, position, acceleration, torque_limit } => {
            if !is_unicast_servo_id(id) {
                return fail(ServoFailure::InvalidServoId);
            }
            if position > 4095 || torque_limit > 1000 {
                return fail(ServoFailure::InvalidArgument);
            }
            continue_sequence(
                Goal::Accepted,
                move_position(id, position, acceleration, torque_limit),
                0,
            )
        },
        ControllerCommand::GetPosition { id } => {
            let mut plan: Vec<Transaction> = Vec::new();
            plan.push(read_position(id));
            proof {
                assert(plan_view(plan@) =~= seq![position_read(id)]);
            }
            continue_sequence(Goal::Position(PositionResult { id, position: 0 }), plan, 0)
        },
        ControllerCommand::GetPositions { ids } => continue_sequence(
            Goal::Positions(no_positions()),
            read_positions(batch_slice(&ids)),
            0,
        ),
        ControllerCommand::ScanServos { start_id, end_id } => scan_servos(start_id, end_id),
        ControllerCommand::SetId { current_id, new_id } => set_servo_id(current_id, new_id),
    }
}

impl CommandRun {
    /// Goes on with the run after an event on the bus; `None` where the event is not the one that
    /// the run asked for.
    pub fn step(self, event: BusEvent) -> (step: Option<(CommandRun, BusAction)>)
        ensures
            match step {
                Some(step) => run_step(self@, event@) == Some(step_view(step)),
                None => run_step(self@, event@) is None,
            },
    {
        match (self, event) {
            (CommandRun::Sequence { goal, plan, at }, BusEvent::Reply(reply)) => {
                if at >= plan.len() {
                    return None;
                }
                let parameters = match reply {
                    Ok(parameters) => parameters,
                    Err(failure) => return Some(fail(failure)),
                };
                if parameters.len() != plan[at].reply_len {
                    return Some(fail(ServoFailure::InvalidReply));
                }
                match record_reply(goal, plan[at].id, parameters.as_slice()) {
                    Ok(goal) => Some(continue_sequence(goal, plan, at + 1)),
                    Err(failure) => Some(fail(failure)),
                }
            },
            (CommandRun::Scan { at, end, mut found }, BusEvent::Reply(reply)) => match reply {
                Ok(_) => if push_found(&mut found, at) {
                    Some(continue_scan(at, end, found))
                } else {
                    Some(fail(ServoFailure::InvalidArgument))
                },
                Err(ServoFailure::Transport) => Some((CommandRun::ScanFailed, BusAction::Drain)),
                Err(_) => Some((CommandRun::ScanSettle { at, end, found }, BusAction::Drain)),
            },
            (CommandRun::ScanSettle { at, end, found }, BusEvent::Drained) => Some(
                continue_scan(at, end, found),
            ),
            (CommandRun::ScanFailed, BusEvent::Drained) => Some(fail(ServoFailure::Transport)),
            (
                CommandRun::SetId { stage: SetIdStage::Settle, current_id, new_id },
                BusEvent::Drained,
            ) => {
                let data = [new_id];
                proof {
                    assert(data@ =~= seq![new_id]);
                }
                match write_register(current_id, STS_ID, data.as_slice()) {
                    Ok(transaction) => Some(
                        ask(
                            CommandRun::SetId { stage: SetIdStage::Write, current_id, new_id },
                            &transaction,
                        ),
                    ),
                    Err(failure) => Some(fail(failure)),
                }
            },
            (CommandRun::SetId { stage, current_id, new_id }, BusEvent::Reply(reply)) =>
            continue_set_id(stage, current_id, new_id, reply),
            (CommandRun::Draining { failure }, BusEvent::Drained) => Some(
                (CommandRun::Finished, BusAction::Finish(Err(failure))),
            ),
            _ => None,
        }
    }
}

/// A failure is reported only after the bus was drained.
pub proof fn failures_are_reported_after_draining(
    command: ControllerCommand,
    run: RunView,
    event: BusEventView,
)
    ensures
        !(run_start(command).1 matches BusActionView::Finish(Err(_))),
        run_step(run, event) matches Some((next, BusActionView::Finish(Err(failure)))) ==> run == (
        RunView::Draining { failure }) && event == BusEventView::Drained,
{
}

/// Whether a run can come about.
pub open spec fn run_ok(run: RunView) -> bool {
    run matches RunView::SetId { current_id, new_id, .. } ==> unicast(current_id) && unicast(new_id)
        && current_id != new_id
}

/// No packet is ever sent to the broadcast address or to an invalid one.
pub proof fn only_single_servos_are_addressed(
    command: ControllerCommand,
    run: RunView,
    event: BusEventView,
)
    requires
        run_ok(run),
    ensures
        run_ok(run_start(command).0),
        run_start(command).1 matches BusActionView::Exchange { id, .. } ==> unicast(id),
        run_step(run, event) matches Some((next, action)) ==> run_ok(next) && (
        action matches BusActionView::Exchange { id, .. } ==> unicast(id)),
{
}

/// The packets that a run sends from a step on, and the result that it reports, where `bus` gives
/// the reply to each packet by its number and `sent` packets were sent before. At most `fuel`
/// steps are followed.
pub open spec fn trace(
    step: (RunView, BusActionView),
    bus: spec_fn(nat) -> Result<Seq<u8>, ServoFailure>,
    sent: nat,
    fuel: nat,
) -> (Seq<Seq<u8>>, Option<Result<ResultView, ServoFailure>>)
    decreases fuel,
{
    match step.1 {
        BusActionView::Finish(result) => (Seq::empty(), Some(result)),
        BusActionView::Drain => if fuel == 0 {
            (Seq::empty(), None)
        } else {
            match run_step(step.0, BusEventView::Drained) {
                Some(next) => trace(next, bus, sent, (fuel - 1) as nat),
                None => (Seq::empty(), None),
            }
        },
        BusActionView::Exchange { packet, .. } => if fuel == 0 {
            (Seq::empty(), None)
        } else {
            match run_step(step.0, BusEventView::Reply(bus(sent))) {
                Some(next) => {
                    let rest = trace(next, bus, sent + 1, (fuel - 1) as nat);
                    (seq![packet] + rest.0, rest.1)
                },
                None => (seq![packet], None),
            }
        },
    }
}

/// The packets of a plan.
pub open spec fn packets_of(plan: Seq<TransactionView>) -> Seq<Seq<u8>> {
    Seq::new(plan.len(), |i: int| packet_of(plan[i]))
}

/// Whether every instruction of a plan can be sent.
pub open spec fn sendable(plan: Seq<TransactionView>) -> bool {
    forall|i: int|
        0 <= i < plan.len() ==> unicast((#[trigger] plan[i]).id) && plan[i].parameters.len() + 6
            <= MAX_PACKET_LEN
}

/// A sequence whose replies are all as expected sends its packets in order, each once, and is
/// accepted.
pub proof fn sequences_run_in_order(
    plan: Seq<TransactionView>,
    at: nat,
    bus: spec_fn(nat) -> Result<Seq<u8>, ServoFailure>,
    fuel: nat,
)
    requires
        sendable(plan),
        at <= plan.len(),
        fuel + at >= plan.len(),
        forall|i: nat|
            at <= i < plan.len() ==> (#[trigger] bus(i) matches Ok(parameters) && parameters.len()
                == plan[i as int].reply_len),
    ensures
        trace(sequence_from(GoalView::Accepted, plan, at), bus, at, fuel) == (
            packets_of(plan.skip(at as int)),
            Some(Ok::<ResultView, ServoFailure>(ResultView::Accepted)),
        ),
    decreases plan.len() - at,
{
    let packets = packets_of(plan.skip(at as int));
    if at == plan.len() {
        assert(packets =~= Seq::<Seq<u8>>::empty());
    } else {
        assert(unicast(plan[at as int].id));
        assert(bus(at) matches Ok(parameters) && parameters.len() == plan[at as int].reply_len);
        sequences_run_in_order(plan, at + 1, bus, (fuel - 1) as nat);
        assert(packets =~= seq![packet_of(plan[at as int])] + packets_of(plan.skip(at as int + 1)));
    }
}

/// Why a reply ends a sequence whose instruction expects that many parameters.
pub open spec fn reply_failure(expected: nat, reply: Result<Seq<u8>, ServoFailure>) -> Option<
    ServoFailure,
> {
    match reply {
        Err(failure) => Some(failure),
        Ok(parameters) => if parameters.len() != expected {
            Some(ServoFailure::InvalidReply)
        } else {
            None
        },
    }
}

/// Whether the instructions of a plan from `at` on serve a goal: positions are read two bytes at a
/// time, and there are no more of them than the result can hold.
pub open spec fn serves_goal(plan: Seq<TransactionView>, at: nat, goal: GoalView) -> bool {
    &&& goal is Accepted || forall|i: int|
        at <= i < plan.len() ==> (#[trigger] plan[i]).reply_len == 2
    &&& goal matches GoalView::Positions(positions) ==> positions.len() + plan.len() <= 6 + at
}

/// A sequence stops at the first instruction that fails, be it for want of a reply, for an error
/// that the servo reports or for a reply of the wrong length: nothing is sent after it, and it is
/// what is reported. What was read before it is not.
pub proof fn sequences_stop_at_the_first_failure(
    goal: GoalView,
    plan: Seq<TransactionView>,
    at: nat,
    bus: spec_fn(nat) -> Result<Seq<u8>, ServoFailure>,
    failed: nat,
    failure: ServoFailure,
    fuel: nat,
)
    requires
        at <= failed < plan.len(),
        sendable(plan.take(failed as int + 1)),
        serves_goal(plan, at, goal),
        fuel + at >= failed + 2,
        forall|i: nat|
            at <= i < failed ==> reply_failure(plan[i as int].reply_len, #[trigger] bus(i)) is None,
        reply_failure(plan[failed as int].reply_len, bus(failed)) == Some(failure),
    ensures
        trace(sequence_from(goal, plan, at), bus, at, fuel) == (
            packets_of(plan.subrange(at as int, failed as int + 1)),
            Some(Err::<ResultView, ServoFailure>(failure)),
        ),
    decreases failed - at,
{
    let packets = packets_of(plan.subrange(at as int, failed as int + 1));
    let sent = plan.take(failed as int + 1);
    assert(sent[at as int] == plan[at as int]);
    assert(unicast(sent[at as int].id));
    let run = RunView::Sequence { goal, plan, at };
    if at == failed {
        assert(packets =~= seq![packet_of(plan[at as int])]);
        assert(run_step(run, BusEventView::Reply(bus(at))) == Some(failing(failure)));
        reveal_with_fuel(trace, 3);
        assert(packets =~= packets + Seq::<Seq<u8>>::empty());
    } else {
        assert(reply_failure(plan[at as int].reply_len, bus(at)) is None);
        let next = goal_after(goal, plan[at as int].id, bus(at)->Ok_0)->Ok_0;
        assert(run_step(run, BusEventView::Reply(bus(at))) == Some(
            sequence_from(next, plan, at + 1),
        ));
        sequences_stop_at_the_first_failure(
            next,
            plan,
            at + 1,
            bus,
            failed,
            failure,
            (fuel - 1) as nat,
        );
        assert(packets =~= seq![packet_of(plan[at as int])] + packets_of(
            plan.subrange(at as int + 1, failed as int + 1),
        ));
    }
}

/// The positions of several servos are reported only if all could be read: the first one that
/// could not ends the command, and its failure is what is reported.
pub proof fn position_reads_stop_at_the_first_failure(
    ids: serde_json_core::heapless::Vec<u8, 6>,
    bus: spec_fn(nat) -> Result<Seq<u8>, ServoFailure>,
    failed: nat,
    failure: ServoFailure,
)
    requires
        failed < batch_ids(ids).len() <= 6,
        forall|i: int| 0 <= i <= failed ==> unicast(#[trigger] batch_ids(ids)[i]),
        forall|i: nat| i < failed ==> reply_failure(2, #[trigger] bus(i)) is None,
        reply_failure(2, bus(failed)) == Some(failure),
    ensures
        trace(run_start(ControllerCommand::GetPositions { ids }), bus, 0, 7) == (
            packets_of(position_reads(batch_ids(ids).take(failed as int + 1))),
            Some(Err::<ResultView, ServoFailure>(failure)),
        ),
{
    let plan = position_reads(batch_ids(ids));
    let sent = plan.take(failed as int + 1);
    assert forall|i: int| 0 <= i < sent.len() implies unicast((#[trigger] sent[i]).id)
        && sent[i].parameters.len() + 6 <= MAX_PACKET_LEN by {
        assert(unicast(batch_ids(ids)[i]));
    }
    assert(plan.subrange(0, failed as int + 1) =~= position_reads(
        batch_ids(ids).take(failed as int + 1),
    ));
    sequences_stop_at_the_first_failure(
        GoalView::Positions(Seq::empty()),
        plan,
        0,
        bus,
        failed,
        failure,
        7,
    );
}

/// Starting a motor selects continuous mode, then enables torque, then sets the speed.
pub proof fn motors_start_in_continuous_mode(
    id: u8,
    counter_clockwise: bool,
    speed: u16,
    acceleration: u8,
    bus: spec_fn(nat) -> Result<Seq<u8>, ServoFailure>,
)
    requires
        unicast(id),
        speed <= 4095,
        forall|i: nat| i < 3 ==> #[trigger] bus(i) == Ok::<Seq<u8>, ServoFailure>(Seq::empty()),
    ensures
        trace(
            run_start(ControllerCommand::StartMotor { id, counter_clockwise, speed, acceleration }),
            bus,
            0,
            3,
        ) == (
            packets_of(start_plan(id, counter_clockwise, speed, acceleration)),
            Some(Ok::<ResultView, ServoFailure>(ResultView::Accepted)),
        ),
{
    let plan = start_plan(id, counter_clockwise, speed, acceleration);
    assert(plan.skip(0) =~= plan);
    sequences_run_in_order(plan, 0, bus, 3);
}

/// Positions that were read, by the replies to the reads.
pub open spec fn positions_read(
    ids: Seq<u8>,
    bus: spec_fn(nat) -> Result<Seq<u8>, ServoFailure>,
) -> Seq<PositionResult> {
    Seq::new(
        ids.len(),
        |i: int|
            PositionResult { id: ids[i], position: position_of(bus(i as nat)->Ok_0) },
    )
}

proof fn reads_are_collected(
    ids: Seq<u8>,
    at: nat,
    bus: spec_fn(nat) -> Result<Seq<u8>, ServoFailure>,
    fuel: nat,
)
    requires
        ids.len() <= 6,
        forall|i: int| 0 <= i < ids.len() ==> unicast(#[trigger] ids[i]),
        at <= ids.len(),
        fuel + at >= ids.len(),
        forall|i: nat|
            i < ids.len() ==> (#[trigger] bus(i) matches Ok(parameters) && parameters.len() == 2),
    ensures
        trace(
            sequence_from(
                GoalView::Positions(positions_read(ids, bus).take(at as int)),
                position_reads(ids),
                at,
            ),
            bus,
            at,
            fuel,
        ) == (
            packets_of(position_reads(ids).skip(at as int)),
            Some(Ok::<ResultView, ServoFailure>(ResultView::Positions(positions_read(ids, bus)))),
        ),
    decreases ids.len() - at,
{
    let read = positions_read(ids, bus);
    let plan = position_reads(ids);
    let packets = packets_of(plan.skip(at as int));
    if at == ids.len() {
        assert(read.take(at as int) =~= read);
        assert(packets =~= Seq::<Seq<u8>>::empty());
    } else {
        assert(unicast(ids[at as int]));
        assert(bus(at) matches Ok(parameters) && parameters.len() == 2);
        reads_are_collected(ids, at + 1, bus, (fuel - 1) as nat);
        assert(read.take(at as int + 1) =~= read.take(at as int).push(read[at as int]));
        assert(packets =~= seq![packet_of(plan[at as int])] + packets_of(plan.skip(at as int + 1)));
    }
}

/// The positions of up to six servos are read, each once, and reported in the order in which they
/// were asked for.
pub proof fn positions_are_reported_in_order(
    ids: serde_json_core::heapless::Vec<u8, 6>,
    bus: spec_fn(nat) -> Result<Seq<u8>, ServoFailure>,
)
    requires
        batch_ids(ids).len() <= 6,
        forall|i: int| 0 <= i < batch_ids(ids).len() ==> unicast(#[trigger] batch_ids(ids)[i]),
        forall|i: nat|
            i < batch_ids(ids).len() ==> (#[trigger] bus(i) matches Ok(parameters)
                && parameters.len() == 2),
    ensures
        trace(run_start(ControllerCommand::GetPositions { ids }), bus, 0, 6) == (
            packets_of(position_reads(batch_ids(ids))),
            Some(
                Ok::<ResultView, ServoFailure>(
                    ResultView::Positions(positions_read(batch_ids(ids), bus)),
                ),
            ),
        ),
{
    let read = positions_read(batch_ids(ids), bus);
    let plan = position_reads(batch_ids(ids));
    assert(plan.skip(0) =~= plan);
    assert(read.take(0) =~= Seq::<PositionResult>::empty());
    reads_are_collected(batch_ids(ids), 0, bus, 6);
}

/// The addresses from `start` on that answered, where the first `count` of them were asked and
/// `bus` gives the replies.
pub open spec fn answering(
    start: u8,
    count: nat,
    bus: spec_fn(nat) -> Result<Seq<u8>, ServoFailure>,
) -> Seq<u8>
    decreases count,
{
    if count == 0 {
        Seq::empty()
    } else if bus((count - 1) as nat) is Ok {
        answering(start, (count - 1) as nat, bus).push((start + count - 1) as u8)
    } else {
        answering(start, (count - 1) as nat, bus)
    }
}

proof fn answering_is_bounded(
    start: u8,
    count: nat,
    bus: spec_fn(nat) -> Result<Seq<u8>, ServoFailure>,
)
    ensures
        answering(start, count, bus).len() <= count,
    decreases count,
{
    if count > 0 {
        answering_is_bounded(start, (count - 1) as nat, bus);
    }
}

/// The packets that ask `count` addresses from `start` on.
pub open spec fn pings(start: int, count: nat) -> Seq<Seq<u8>> {
    Seq::new(count, |i: int| packet_of(ping((start + i) as u8)))
}

proof fn answers_are_collected(
    start: u8,
    end: u8,
    done: nat,
    bus: spec_fn(nat) -> Result<Seq<u8>, ServoFailure>,
    fuel: nat,
)
    requires
        1 <= start <= end <= MAX_SERVO_ID,
        start + done <= end,
        fuel >= 2 * (end - start + 1 - done),
        forall|i: nat| #[trigger] bus(i) != Err::<Seq<u8>, ServoFailure>(ServoFailure::Transport),
    ensures
        trace(
            scan_from((start + done) as u8, end, answering(start, done, bus)),
            bus,
            done,
            fuel,
        ) == (
            pings(start + done, (end - start + 1 - done) as nat),
            Some(
                Ok::<ResultView, ServoFailure>(
                    ResultView::Servos(answering(start, (end - start + 1) as nat, bus)),
                ),
            ),
        ),
    decreases end - start - done,
{
    let at = (start + done) as u8;
    let found = answering(start, done, bus);
    let run = RunView::Scan { at, end, found };
    let result = Some(
        Ok::<ResultView, ServoFailure>(
            ResultView::Servos(answering(start, (end - start + 1) as nat, bus)),
        ),
    );
    let rest = pings(start + done + 1, (end - start - done) as nat);
    answering_is_bounded(start, done, bus);
    assert(pings(start + done, (end - start + 1 - done) as nat) =~= seq![packet_of(ping(at))]
        + rest);
    let last = at == end;
    if last {
        assert(rest =~= Seq::<Seq<u8>>::empty());
    }
    match bus(done) {
        Ok(parameters) => {
            let next = scan_after(at, end, found.push(at));
            assert(answering(start, done + 1, bus) == found.push(at));
            assert(run_step(run, BusEventView::Reply(bus(done))) == Some(next));
            if !last {
                answers_are_collected(start, end, done + 1, bus, (fuel - 1) as nat);
            }
            assert(trace(next, bus, done + 1, (fuel - 1) as nat) == (rest, result));
        },
        Err(failure) => {
            let settle = (RunView::ScanSettle { at, end, found }, BusActionView::Drain);
            let next = scan_after(at, end, found);
            assert(failure != ServoFailure::Transport);
            assert(answering(start, done + 1, bus) == found);
            assert(run_step(run, BusEventView::Reply(bus(done))) == Some(settle));
            assert(run_step(settle.0, BusEventView::Drained) == Some(next));
            if !last {
                answers_are_collected(start, end, done + 1, bus, (fuel - 2) as nat);
            }
            assert(trace(next, bus, done + 1, (fuel - 2) as nat) == (rest, result));
            assert(trace(settle, bus, done + 1, (fuel - 1) as nat) == trace(
                next,
                bus,
                done + 1,
                (fuel - 2) as nat,
            ));
        },
    }
}

/// A search asks every address of its range and reports those that answered, in order; an address
/// that does not answer properly does not end it.
pub proof fn searches_report_the_servos_that_answer(
    start_id: u8,
    end_id: u8,
    bus: spec_fn(nat) -> Result<Seq<u8>, ServoFailure>,
    fuel: nat,
)
    requires
        1 <= start_id <= end_id <= MAX_SERVO_ID,
        fuel >= 2 * (end_id - start_id + 1),
        forall|i: nat| #[trigger] bus(i) != Err::<Seq<u8>, ServoFailure>(ServoFailure::Transport),
    ensures
        trace(run_start(ControllerCommand::ScanServos { start_id, end_id }), bus, 0, fuel) == (
            pings(start_id as int, (end_id - start_id + 1) as nat),
            Some(
                Ok::<ResultView, ServoFailure>(
                    ResultView::Servos(answering(start_id, (end_id - start_id + 1) as nat, bus)),
                ),
            ),
        ),
{
    answers_are_collected(start_id, end_id, 0, bus, fuel);
}

/// The addresses that a search reports are those of its range that answered, in rising order.
pub proof fn reported_servos_are_those_that_answered(
    start: u8,
    count: nat,
    bus: spec_fn(nat) -> Result<Seq<u8>, ServoFailure>,
)
    requires
        start + count <= 254,
    ensures
        forall|id: u8|
            #[trigger] answering(start, count, bus).contains(id) <==> start <= id < start + count
                && bus((id - start) as nat) is Ok,
        forall|i: int, j: int|
            0 <= i < j < answering(start, count, bus).len() ==> answering(start, count, bus)[i]
                < answering(start, count, bus)[j],
    decreases count,
{
    if count > 0 {
        let before = answering(start, (count - 1) as nat, bus);
        let after = answering(start, count, bus);
        let last = (start + count - 1) as u8;
        reported_servos_are_those_that_answered(start, (count - 1) as nat, bus);
        assert forall|i: int| 0 <= i < before.len() implies before[i] < last by {
            assert(before.contains(before[i]));
        }
        assert forall|id: u8| #[trigger] after.contains(id) <==> start <= id < start + count && bus(
            (id - start) as nat,
        ) is Ok by {
            if bus((count - 1) as nat) is Ok {
                assert(after == before.push(last));
                assert(after[before.len() as int] == last);
                if after.contains(id) {
                    let i = choose|i: int| 0 <= i < after.len() && after[i] == id;
                    if i < before.len() {
                        assert(before[i] == id);
                        assert(before.contains(id));
                    }
                }
                if before.contains(id) {
                    let i = choose|i: int| 0 <= i < before.len() && before[i] == id;
                    assert(after[i] == id);
                }
            }
            assert(before.contains(id) <==> start <= id < start + count - 1 && bus(
                (id - start) as nat,
            ) is Ok);
        }
    }
}

/// A new address that something answers at, if only with an error, is refused with the code
/// -32005, and nothing is written.
pub proof fn addresses_in_use_are_not_written(
    current_id: u8,
    new_id: u8,
    bus: spec_fn(nat) -> Result<Seq<u8>, ServoFailure>,
)
    requires
        unicast(current_id),
        unicast(new_id),
        current_id != new_id,
        bus(0) is Ok,
        bus(1) is Ok || bus(1) == Err::<Seq<u8>, ServoFailure>(ServoFailure::ReportedError),
    ensures
        trace(run_start(ControllerCommand::SetId { current_id, new_id }), bus, 0, 4) == (
            seq![packet_of(ping(current_id)), packet_of(ping(new_id))],
            Some(Err::<ResultView, ServoFailure>(ServoFailure::IdInUse)),
        ),
        reported_failure(ServoFailure::IdInUse).spec_code() == -32005,
{
    reveal_with_fuel(trace, 5);
    assert(trace(run_start(ControllerCommand::SetId { current_id, new_id }), bus, 0, 4).0 =~= seq![
        packet_of(ping(current_id)),
        packet_of(ping(new_id)),
    ]);
}

/// The address of a servo is written only after the servo answered at its current address and
/// nothing answered at the new one.
pub proof fn addresses_are_written_only_where_free(
    current_id: u8,
    new_id: u8,
    bus: spec_fn(nat) -> Result<Seq<u8>, ServoFailure>,
    fuel: nat,
)
    requires
        unicast(current_id),
        unicast(new_id),
        current_id != new_id,
        trace(run_start(ControllerCommand::SetId { current_id, new_id }), bus, 0, fuel).0.len() > 2,
    ensures
        bus(0) is Ok,
        bus(1) == Err::<Seq<u8>, ServoFailure>(ServoFailure::Timeout),
{
    reveal_with_fuel(trace, 5);
}

/// A change of address asks the servo at its current address, makes sure that the new address is
/// free, writes it and asks the servo there.
pub proof fn address_changes_are_confirmed(
    current_id: u8,
    new_id: u8,
    bus: spec_fn(nat) -> Result<Seq<u8>, ServoFailure>,
)
    requires
        unicast(current_id),
        unicast(new_id),
        current_id != new_id,
        bus(0) is Ok,
        bus(1) == Err::<Seq<u8>, ServoFailure>(ServoFailure::Timeout),
        bus(2) == Ok::<Seq<u8>, ServoFailure>(Seq::empty()),
        bus(3) is Ok,
    ensures
        trace(run_start(ControllerCommand::SetId { current_id, new_id }), bus, 0, 5) == (
            seq![
                packet_of(ping(current_id)),
                packet_of(ping(new_id)),
                packet_of(register_write(current_id, STS_ID, seq![new_id])),
                packet_of(ping(new_id)),
            ],
            Some(
                Ok::<ResultView, ServoFailure>(
                    ResultView::IdChanged { previous_id: current_id, new_id },
                ),
            ),
        ),
{
    reveal_with_fuel(trace, 6);
    assert(trace(run_start(ControllerCommand::SetId { current_id, new_id }), bus, 0, 5).0 =~= seq![
        packet_of(ping(current_id)),
        packet_of(ping(new_id)),
        packet_of(register_write(current_id, STS_ID, seq![new_id])),
        packet_of(ping(new_id)),
    ]);
}

/// How many events can at most follow before a run reports its result.
pub open spec fn run_rank(run: RunView) -> nat {
    match run {
        RunView::Finished => 0,
        RunView::Draining { .. } => 1,
        RunView::ScanFailed => 2,
        RunView::Sequence { plan, at, .. } => if at < plan.len() {
            (plan.len() - at + 1) as nat
        } else {
            1
        },
        RunView::ScanSettle { at, .. } => (2 * (255 - at) + 3) as nat,
        RunView::Scan { at, .. } => (2 * (255 - at) + 4) as nat,
        RunView::SetId { stage, .. } => match stage {
            SetIdStage::Confirm => 2,
            SetIdStage::Write => 3,
            SetIdStage::Settle => 4,
            SetIdStage::PingNew => 5,
            SetIdStage::PingCurrent => 6,
        },
    }
}

/// Every command ends, whatever the servos do: each event brings its run closer to the result.
pub proof fn commands_end(run: RunView, event: BusEventView)
    ensures
        run_step(run, event) matches Some((next, action)) ==> run_rank(next) < run_rank(run) && (
        action is Finish <==> next == RunView::Finished),
{
}

proof fn packets_carry_their_instruction(transaction: TransactionView, content: Seq<u8>)
    requires
        transaction.parameters.len() <= 253,
        content =~= seq![
            transaction.id,
            (transaction.parameters.len() + 2) as u8,
            transaction.instruction,
        ] + transaction.parameters,
    ensures
        carries(packet_of(transaction), content),
{
    instructions_are_carried_by_their_packets(
        transaction.id,
        transaction.instruction,
        transaction.parameters,
    );
}

/// Starting a motor writes 1 to register 33 and to register 40, and then, from register 41 on, the
/// acceleration, four zeros and the speed, low byte first, with 128 added to its high byte where
/// the motor turns counter-clockwise.
pub proof fn starting_a_motor_sets_mode_torque_and_speed(
    id: u8,
    counter_clockwise: bool,
    speed: u16,
    acceleration: u8,
    bus: spec_fn(nat) -> Result<Seq<u8>, ServoFailure>,
)
    requires
        1 <= id <= 253,
        speed <= 4095,
        forall|i: nat| i < 3 ==> #[trigger] bus(i) == Ok::<Seq<u8>, ServoFailure>(Seq::empty()),
    ensures
        ({
            let run = trace(
                run_start(
                    ControllerCommand::StartMotor { id, counter_clockwise, speed, acceleration },
                ),
                bus,
                0,
                3,
            );
            let high = speed / 256 + if counter_clockwise {
                128int
            } else {
                0
            };
            &&& run.1 == Some(Ok::<ResultView, ServoFailure>(ResultView::Accepted))
            &&& run.0.len() == 3
            &&& carries(run.0[0], seq![id, 4, 3, 33, 1])
            &&& carries(run.0[1], seq![id, 4, 3, 40, 1])
            &&& carries(
                run.0[2],
                seq![id, 10, 3, 41, acceleration, 0, 0, 0, 0, (speed % 256) as u8, high as u8],
            )
        }),
{
    let plan = start_plan(id, counter_clockwise, speed, acceleration);
    let high = speed / 256 + if counter_clockwise {
        128int
    } else {
        0
    };
    motors_start_in_continuous_mode(id, counter_clockwise, speed, acceleration, bus);
    packets_carry_their_instruction(plan[0], seq![id, 4, 3, 33, 1]);
    packets_carry_their_instruction(plan[1], seq![id, 4, 3, 40, 1]);
    packets_carry_their_instruction(
        plan[2],
        seq![id, 10, 3, 41, acceleration, 0, 0, 0, 0, (speed % 256) as u8, high as u8],
    );
}

/// Stopping a motor writes seven zeros from register 41 on, and nothing else.
pub proof fn stopping_a_motor_sets_its_speed_to_zero(
    id: u8,
    bus: spec_fn(nat) -> Result<Seq<u8>, ServoFailure>,
)
    requires
        1 <= id <= 253,
        bus(0) == Ok::<Seq<u8>, ServoFailure>(Seq::empty()),
    ensures
        ({
            let run = trace(run_start(ControllerCommand::StopMotor { id }), bus, 0, 1);
            &&& run.1 == Some(Ok::<ResultView, ServoFailure>(ResultView::Accepted))
            &&& run.0.len() == 1
            &&& carries(run.0[0], seq![id, 10, 3, 41, 0, 0, 0, 0, 0, 0, 0])
        }),
{
    let plan = stop_plan(id);
    assert(plan.skip(0) =~= plan);
    sequences_run_in_order(plan, 0, bus, 1);
    packets_carry_their_instruction(plan[0], seq![id, 10, 3, 41, 0, 0, 0, 0, 0, 0, 0]);
}

/// Moving a servo writes 1 to register 40, the torque limit, low byte first, from register 48 on,
/// and then, from register 41 on, the acceleration, the position, low byte first, and four zeros.
pub proof fn moving_a_servo_sets_torque_limit_and_position(
    id: u8,
    position: u16,
    acceleration: u8,
    torque_limit: u16,
    bus: spec_fn(nat) -> Result<Seq<u8>, ServoFailure>,
)
    requires
        1 <= id <= 253,
        position <= 4095,
        torque_limit <= 1000,
        forall|i: nat| i < 3 ==> #[trigger] bus(i) == Ok::<Seq<u8>, ServoFailure>(Seq::empty()),
    ensures
        ({
            let run = trace(
                run_start(
                    ControllerCommand::SetPosition { id, position, acceleration, torque_limit },
                ),
                bus,
                0,
                3,
            );
            &&& run.1 == Some(Ok::<ResultView, ServoFailure>(ResultView::Accepted))
            &&& run.0.len() == 3
            &&& carries(run.0[0], seq![id, 4, 3, 40, 1])
            &&& carries(
                run.0[1],
                seq![id, 5, 3, 48, (torque_limit % 256) as u8, (torque_limit / 256) as u8],
            )
            &&& carries(
                run.0[2],
                seq![
                    id,
                    10,
                    3,
                    41,
                    acceleration,
                    (position % 256) as u8,
                    (position / 256) as u8,
                    0,
                    0,
                    0,
                    0,
                ],
            )
        }),
{
    let plan = move_plan(id, position, acceleration, torque_limit);
    assert(plan.skip(0) =~= plan);
    sequences_run_in_order(plan, 0, bus, 3);
    packets_carry_their_instruction(plan[0], seq![id, 4, 3, 40, 1]);
    packets_carry_their_instruction(
        plan[1],
        seq![id, 5, 3, 48, (torque_limit % 256) as u8, (torque_limit / 256) as u8],
    );
    packets_carry_their_instruction(
        plan[2],
        seq![
            id,
            10,
            3,
            41,
            acceleration,
            (position % 256) as u8,
            (position / 256) as u8,
            0,
            0,
            0,
            0,
        ],
    );
}

/// A servo that stands at a position from -32767 to 32767 is asked for the two registers from 56
/// on, answers with the magnitude, low byte first, and the sign in the highest bit, and is
/// reported with that position.
pub proof fn positions_are_reported_as_they_are(
    id: u8,
    magnitude: u16,
    negative: bool,
    bus: spec_fn(nat) -> Result<Seq<u8>, ServoFailure>,
)
    requires
        1 <= id <= 253,
        magnitude <= 32767,
        bus(0) == Ok::<Seq<u8>, ServoFailure>(
            seq![
                (magnitude % 256) as u8,
                (magnitude / 256 + if negative {
                    128int
                } else {
                    0
                }) as u8,
            ],
        ),
    ensures
        ({
            let run = trace(run_start(ControllerCommand::GetPosition { id }), bus, 0, 1);
            &&& run.0.len() == 1
            &&& carries(run.0[0], seq![id, 4, 2, 56, 2])
            &&& run.1 matches Some(Ok(ResultView::Position(found))) && found.id == id
                && found.position == if negative {
                -magnitude
            } else {
                magnitude as int
            }
        }),
{
    crate::servo_bus::written_positions_are_read_back(magnitude);
    packets_carry_their_instruction(position_read(id), seq![id, 4, 2, 56, 2]);
    assert(run_start(ControllerCommand::GetPosition { id }).1 == exchange(position_read(id)));
    reveal_with_fuel(trace, 2);
}

/// Each of up to six servos is asked for the two registers from 56 on, in the order of the
/// request, and reported with the position that its answer stands for: the two bytes, low one
/// first, or the negative of what the lower 15 bits say where the highest is set.
pub proof fn positions_of_several_servos_are_reported_as_they_are(
    ids: serde_json_core::heapless::Vec<u8, 6>,
    bus: spec_fn(nat) -> Result<Seq<u8>, ServoFailure>,
)
    requires
        batch_ids(ids).len() <= 6,
        forall|i: int| 0 <= i < batch_ids(ids).len() ==> 1 <= #[trigger] batch_ids(ids)[i] <= 253,
        forall|i: nat|
            i < batch_ids(ids).len() ==> (#[trigger] bus(i) matches Ok(parameters)
                && parameters.len() == 2),
    ensures
        ({
            let run = trace(run_start(ControllerCommand::GetPositions { ids }), bus, 0, 6);
            &&& run.0.len() == batch_ids(ids).len()
            &&& run.1 matches Some(Ok(ResultView::Positions(positions))) && {
                &&& positions.len() == batch_ids(ids).len()
                &&& forall|i: nat|
                    i < batch_ids(ids).len() ==> {
                        let reply = (#[trigger] bus(i))->Ok_0;
                        &&& carries(run.0[i as int], seq![batch_ids(ids)[i as int], 4, 2, 56, 2])
                        &&& positions[i as int].id == batch_ids(ids)[i as int]
                        &&& positions[i as int].position == if reply[1] < 128 {
                            reply[0] + 256 * reply[1]
                        } else {
                            -(reply[0] + 256 * (reply[1] - 128))
                        }
                    }
            }
        }),
{
    assert forall|i: int| 0 <= i < batch_ids(ids).len() implies unicast(
        #[trigger] batch_ids(ids)[i],
    ) by {}
    positions_are_reported_in_order(ids, bus);
    let run = trace(run_start(ControllerCommand::GetPositions { ids }), bus, 0, 6);
    let positions = positions_read(batch_ids(ids), bus);
    assert forall|i: nat| i < batch_ids(ids).len() implies {
        let reply = (#[trigger] bus(i))->Ok_0;
        &&& carries(run.0[i as int], seq![batch_ids(ids)[i as int], 4, 2, 56, 2])
        &&& positions[i as int].id == batch_ids(ids)[i as int]
        &&& positions[i as int].position == if reply[1] < 128 {
            reply[0] + 256 * reply[1]
        } else {
            -(reply[0] + 256 * (reply[1] - 128))
        }
    } by {
        packets_carry_their_instruction(
            position_read(batch_ids(ids)[i as int]),
            seq![batch_ids(ids)[i as int], 4, 2, 56, 2],
        );
    }
}

/// A search asks each address of its range once, in rising order, and reports exactly those that
/// answered, in rising order too.
pub proof fn searches_ask_each_address_of_their_range(
    start_id: u8,
    end_id: u8,
    bus: spec_fn(nat) -> Result<Seq<u8>, ServoFailure>,
)
    requires
        1 <= start_id <= end_id <= 253,
        forall|i: nat| #[trigger] bus(i) != Err::<Seq<u8>, ServoFailure>(ServoFailure::Transport),
    ensures
        ({
            let run = trace(
                run_start(ControllerCommand::ScanServos { start_id, end_id }),
                bus,
                0,
                506,
            );
            &&& run.0.len() == end_id - start_id + 1
            &&& forall|i: int|
                0 <= i < run.0.len() ==> carries(#[trigger] run.0[i], seq![(start_id + i) as u8, 2, 1])
            &&& run.1 matches Some(Ok(ResultView::Servos(ids))) && {
                &&& forall|id: u8|
                    #[trigger] ids.contains(id) <==> start_id <= id <= end_id && bus(
                        (id - start_id) as nat,
                    ) is Ok
                &&& forall|i: int, j: int| 0 <= i < j < ids.len() ==> ids[i] < ids[j]
            }
        }),
{
    let run = trace(run_start(ControllerCommand::ScanServos { start_id, end_id }), bus, 0, 506);
    let count = (end_id - start_id + 1) as nat;
    searches_report_the_servos_that_answer(start_id, end_id, bus, 506);
    reported_servos_are_those_that_answered(start_id, count, bus);
    assert forall|i: int| 0 <= i < run.0.len() implies carries(
        #[trigger] run.0[i],
        seq![(start_id + i) as u8, 2, 1],
    ) by {
        packets_carry_their_instruction(
            ping((start_id + i) as u8),
            seq![(start_id + i) as u8, 2, 1],
        );
    }
}

/// A servo gets its new address in register 5, at its current address, between an answer there and
/// an answer at the new one.
pub proof fn addresses_are_changed_in_register_5(
    current_id: u8,
    new_id: u8,
    bus: spec_fn(nat) -> Result<Seq<u8>, ServoFailure>,
)
    requires
        1 <= current_id <= 253,
        1 <= new_id <= 253,
        current_id != new_id,
        bus(0) is Ok,
        bus(1) == Err::<Seq<u8>, ServoFailure>(ServoFailure::Timeout),
        bus(2) == Ok::<Seq<u8>, ServoFailure>(Seq::empty()),
        bus(3) is Ok,
    ensures
        ({
            let run = trace(
                run_start(ControllerCommand::SetId { current_id, new_id }),
                bus,
                0,
                5,
            );
            &&& run.0.len() == 4
            &&& carries(run.0[0], seq![current_id, 2, 1])
            &&& carries(run.0[1], seq![new_id, 2, 1])
            &&& carries(run.0[2], seq![current_id, 4, 3, 5, new_id])
            &&& carries(run.0[3], seq![new_id, 2, 1])
            &&& run.1 == Some(
                Ok::<ResultView, ServoFailure>(
                    ResultView::IdChanged { previous_id: current_id, new_id },
                ),
            )
        }),
{
    address_changes_are_confirmed(current_id, new_id, bus);
    packets_carry_their_instruction(ping(current_id), seq![current_id, 2, 1]);
    packets_carry_their_instruction(ping(new_id), seq![new_id, 2, 1]);
    packets_carry_their_instruction(
        register_write(current_id, STS_ID, seq![new_id]),
        seq![current_id, 4, 3, 5, new_id],
    );
}

/// A change of address ends at the first step that fails, with the failure of that step, and
/// writes nothing unless the new address stayed silent.
pub proof fn address_changes_end_at_the_first_failure(
    current_id: u8,
    new_id: u8,
    bus: spec_fn(nat) -> Result<Seq<u8>, ServoFailure>,
    failure: ServoFailure,
)
    requires
        1 <= current_id <= 253,
        1 <= new_id <= 253,
        current_id != new_id,
    ensures
        ({
            let run = trace(
                run_start(ControllerCommand::SetId { current_id, new_id }),
                bus,
                0,
                6,
            );
            let failed = Err::<Seq<u8>, ServoFailure>(failure);
            let reported = Some(Err::<ResultView, ServoFailure>(failure));
            let silent = bus(1) == Err::<Seq<u8>, ServoFailure>(ServoFailure::Timeout);
            &&& bus(0) == failed ==> run.0.len() == 1 && run.1 == reported
            &&& bus(0) is Ok && bus(1) == failed && !silent && failure
                != ServoFailure::ReportedError ==> run.0.len() == 2 && run.1 == reported
            &&& bus(0) is Ok && silent && bus(2) == failed ==> run.0.len() == 3 && run.1 == reported
            &&& bus(0) is Ok && silent && (bus(2) matches Ok(parameters) && parameters.len() > 0)
                ==> run.0.len() == 3 && run.1 == Some(
                Err::<ResultView, ServoFailure>(ServoFailure::InvalidReply),
            )
            &&& bus(0) is Ok && silent && bus(2) == Ok::<Seq<u8>, ServoFailure>(Seq::empty())
                && bus(3) == failed ==> run.0.len() == 4 && run.1 == reported
        }),
{
    reveal_with_fuel(trace, 7);
}

/// A command whose arguments are out of range is refused without a packet: an address that no
/// single servo has, a speed or a position above 4095, a torque limit above 1000, a range that is
/// empty or leaves the addresses of single servos, or a new address that is the current one.
pub proof fn arguments_out_of_range_are_refused(
    id: u8,
    other_id: u8,
    flag: bool,
    value: u16,
    limit: u16,
    acceleration: u8,
    bus: spec_fn(nat) -> Result<Seq<u8>, ServoFailure>,
)
    ensures
        ({
            let nobody = id == 0 || id >= 254;
            let other_nobody = other_id == 0 || other_id >= 254;
            let refused = |command: ControllerCommand, failure: ServoFailure|
                trace(run_start(command), bus, 0, 1) == (
                    Seq::<Seq<u8>>::empty(),
                    Some(Err::<ResultView, ServoFailure>(failure)),
                );
            let start = ControllerCommand::StartMotor {
                id,
                counter_clockwise: flag,
                speed: value,
                acceleration,
            };
            let moving = ControllerCommand::SetPosition {
                id,
                position: value,
                acceleration,
                torque_limit: limit,
            };
            let scan = ControllerCommand::ScanServos { start_id: id, end_id: other_id };
            let rename = ControllerCommand::SetId { current_id: id, new_id: other_id };
            &&& nobody ==> {
                &&& refused(start, ServoFailure::InvalidServoId)
                &&& refused(moving, ServoFailure::InvalidServoId)
                &&& refused(ControllerCommand::StopMotor { id }, ServoFailure::InvalidServoId)
                &&& refused(ControllerCommand::GetPosition { id }, ServoFailure::InvalidServoId)
            }
            &&& !nobody && value > 4095 ==> refused(start, ServoFailure::InvalidArgument)
            &&& !nobody && (value > 4095 || limit > 1000) ==> refused(
                moving,
                ServoFailure::InvalidArgument,
            )
            &&& id == 0 || other_id > 253 || id > other_id ==> refused(
                scan,
                ServoFailure::InvalidArgument,
            )
            &&& nobody || other_nobody ==> refused(rename, ServoFailure::InvalidServoId)
            &&& !nobody && id == other_id ==> refused(rename, ServoFailure::InvalidArgument)
        }),
{
    reveal_with_fuel(trace, 2);
}

proof fn failed_searches_end(
    start: u8,
    end: u8,
    done: nat,
    found: Seq<u8>,
    bus: spec_fn(nat) -> Result<Seq<u8>, ServoFailure>,
    failed: nat,
    fuel: nat,
)
    requires
        1 <= start,
        start + failed <= end <= 253,
        done <= failed,
        found.len() <= done,
        fuel >= 2 * (failed - done) + 3,
        forall|i: nat|
            i < failed ==> #[trigger] bus(i) != Err::<Seq<u8>, ServoFailure>(
                ServoFailure::Transport,
            ),
        bus(failed) == Err::<Seq<u8>, ServoFailure>(ServoFailure::Transport),
    ensures
        ({
            let run = trace(scan_from((start + done) as u8, end, found), bus, done, fuel);
            &&& run.0.len() == failed - done + 1
            &&& run.1 == Some(Err::<ResultView, ServoFailure>(ServoFailure::Transport))
        }),
    decreases failed - done,
{
    let at = (start + done) as u8;
    let run = RunView::Scan { at, end, found };
    if done == failed {
        reveal_with_fuel(trace, 4);
    } else {
        match bus(done) {
            Ok(_) => {
                failed_searches_end(start, end, done + 1, found.push(at), bus, failed, (fuel
                    - 1) as nat);
                assert(run_step(run, BusEventView::Reply(bus(done))) == Some(
                    scan_from((at + 1) as u8, end, found.push(at)),
                ));
            },
            Err(failure) => {
                let settle = (RunView::ScanSettle { at, end, found }, BusActionView::Drain);
                assert(failure != ServoFailure::Transport);
                failed_searches_end(start, end, done + 1, found, bus, failed, (fuel - 2) as nat);
                assert(run_step(run, BusEventView::Reply(bus(done))) == Some(settle));
                assert(run_step(settle.0, BusEventView::Drained) == Some(
                    scan_from((at + 1) as u8, end, found),
                ));
                assert(trace(settle, bus, done + 1, (fuel - 1) as nat) == trace(
                    scan_from((at + 1) as u8, end, found),
                    bus,
                    done + 1,
                    (fuel - 2) as nat,
                ));
            },
        }
    }
}

/// A search ends where the UART fails: no further address is asked, and the failure is reported in
/// place of what was found.
pub proof fn searches_end_where_the_uart_fails(
    start_id: u8,
    end_id: u8,
    bus: spec_fn(nat) -> Result<Seq<u8>, ServoFailure>,
    failed: nat,
)
    requires
        1 <= start_id,
        start_id + failed <= end_id <= 253,
        forall|i: nat|
            i < failed ==> #[trigger] bus(i) != Err::<Seq<u8>, ServoFailure>(
                ServoFailure::Transport,
            ),
        bus(failed) == Err::<Seq<u8>, ServoFailure>(ServoFailure::Transport),
    ensures
        ({
            let run = trace(
                run_start(ControllerCommand::ScanServos { start_id, end_id }),
                bus,
                0,
                2 * failed + 3,
            );
            &&& run.0.len() == failed + 1
            &&& run.1 == Some(Err::<ResultView, ServoFailure>(ServoFailure::Transport))
        }),
{
    failed_searches_end(start_id, end_id, 0, Seq::empty(), bus, failed, 2 * failed + 3);
}

/// A reply is awaited from the very servo that the packet is addressed to.
pub proof fn replies_are_awaited_from_the_addressed_servo(
    command: ControllerCommand,
    run: RunView,
    event: BusEventView,
)
    ensures
        run_start(command).1 matches BusActionView::Exchange { id, packet } ==> packet[2] == id,
        run_step(run, event) matches Some((_, action)) ==> (action matches BusActionView::Exchange {
            id,
            packet,
        } ==> packet[2] == id),
{
}

/// The bus is drained after every exchange that failed, before anything else is sent or reported.
/// After a reply it is drained only to report a failure, and after draining only a search that the
/// UART has failed in drains it again.
pub proof fn the_bus_is_drained_after_each_failure(
    run: RunView,
    failure: ServoFailure,
    parameters: Seq<u8>,
)
    ensures
        run_step(run, BusEventView::Reply(Err(failure))) matches Some((_, action)) ==> action
            is Drain,
        run_step(run, BusEventView::Reply(Ok(parameters))) matches Some((next, action)) ==> (action
            is Drain <==> next is Draining),
        run_step(run, BusEventView::Drained) matches Some((_, action)) ==> (action is Drain <==> run
            is ScanFailed),
{
}

/// What holds of the view of an action or an event holds of itself: it is seen field by field.
pub proof fn bus_steps_are_seen_field_by_field(run: CommandRun, action: BusAction, event: BusEvent)
    ensures
        step_view((run, action)) == (run@, action@),
        match action {
            BusAction::Exchange { id, packet } => action@ == (BusActionView::Exchange {
                id,
                packet: packet@,
            }),
            BusAction::Drain => action@ is Drain,
            BusAction::Finish(Ok(result)) => action@ matches BusActionView::Finish(Ok(seen)) && seen
                == result@,
            BusAction::Finish(Err(failure)) => action@ matches BusActionView::Finish(Err(seen))
                && seen == failure,
        },
        match event {
            BusEvent::Reply(Ok(parameters)) => event@ matches BusEventView::Reply(Ok(seen)) && seen
                == parameters@,
            BusEvent::Reply(Err(failure)) => event@ matches BusEventView::Reply(Err(seen)) && seen
                == failure,
            BusEvent::Drained => event@ is Drained,
        },
{
}

} // verus!
