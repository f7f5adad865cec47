//! The requests of the browsers: what the host asks the MCU or the servos for, and how it answers.

use vstd::prelude::*;

use crate::bridge::{
    because, connection_broken, connection_is_usable_after, expect_controller_accepted, is_affirmed,
    with_cause, NOT_ACCEPTED, SERVO_SCAN_TIMEOUT_MS, SERVO_TIMEOUT_MS,
};
use crate::executor::{
    run_start, searches_ask_each_address_of_their_range, sequence_from, trace, GoalView,
};
use crate::json::{insert_number, insert_text, members, new_object, no_members, JsonModel};
use crate::rpc::{
    methods_stand_for_their_commands, requested_command, ControllerCommand, JsonRpcParams,
    MotorDirection, ResultView,
};
use crate::servo_bus::{
    self, decode_position, is_unicast_servo_id, move_plan, plan_view, position_of, position_read,
    start_plan, stop_plan, unicast, ServoFailure, Transaction, TransactionView, DRAIN_QUIET_MS,
    MAX_DRAIN_READS, MAX_SERVO_ID, STS_RESPONSE_TIMEOUT_MS,
};
use crate::text::{decimal, list_notation, push_decimal, push_list};

verus! {

/// How many positions a browser can ask for at once.
pub const MAX_POSITION_READS: usize = 6;

pub const ID_INVALID: &'static str = "Servo ID must be between 1 and 253";

pub const SCAN_RANGE_INVALID: &'static str = "Servo search IDs must be between 1 and 253, with a start no greater than the end";

pub const IDS_EQUAL: &'static str = "The current and new servo IDs must differ";

pub const SPEED_INVALID: &'static str = "Motor speed must be between 0 and 4095";

pub const POSITION_INVALID: &'static str = "Position must be between 0 and 4095";

pub const TORQUE_INVALID: &'static str = "Torque limit must be between 0 and 1000";

pub const TOO_MANY_READS: &'static str = "At most six position servos can be read at once";

pub const SCAN_NEEDS_CONTROLLER: &'static str = "Servo search is available only in JSON-RPC controller mode, not through the raw debug tunnel";

pub const SET_ID_NEEDS_CONTROLLER: &'static str = "Changing a servo ID is available only in JSON-RPC controller mode, not through the raw debug tunnel";

pub const POSITION_RESULT_INVALID: &'static str = "MCU returned an invalid position result";

pub const SCAN_RESULT_INVALID: &'static str = "MCU returned an invalid servo-scan result";

pub const SCANNED_ID_INVALID: &'static str = "MCU returned an invalid scanned servo ID ";

pub const ID_CHANGE_RESULT_INVALID: &'static str = "MCU returned an invalid servo-ID change result";

pub const OTHER_IDS_CONFIRMED: &'static str = "MCU confirmed different servo IDs than requested";

pub const NOT_CONNECTED: &'static str = "Connect to the MCU before sending servo commands";

pub const BINARY_UNSUPPORTED: &'static str = "Binary WebSocket messages are not supported";

pub const REQUEST_INVALID: &'static str = "Invalid control request";

/// Checks the address of a servo.
pub fn validate_id(id: u8) -> (verdict: Result<(), String>)
    ensures
        match verdict {
            Ok(_) => unicast(id),
            Err(message) => !unicast(id) && message@ == ID_INVALID@,
        },
{
    if is_unicast_servo_id(id) {
        Ok(())
    } else {
        Err(ID_INVALID.to_owned())
    }
}

/// Whether a search can be made from `start_id` to `end_id`.
pub open spec fn scannable(start_id: u8, end_id: u8) -> bool {
    1 <= start_id <= end_id <= MAX_SERVO_ID
}

/// Checks the range of a search.
pub fn validate_scan_range(start_id: u8, end_id: u8) -> (verdict: Result<(), String>)
    ensures
        match verdict {
            Ok(_) => scannable(start_id, end_id),
            Err(message) => !scannable(start_id, end_id) && message@ == SCAN_RANGE_INVALID@,
        },
{
    if start_id == 0 || start_id > end_id || end_id > MAX_SERVO_ID {
        Err(SCAN_RANGE_INVALID.to_owned())
    } else {
        Ok(())
    }
}

/// What is wrong with a change of address.
pub open spec fn id_change_fault(current_id: u8, new_id: u8) -> Option<Seq<char>> {
    if !unicast(current_id) || !unicast(new_id) {
        Some(ID_INVALID@)
    } else if current_id == new_id {
        Some(IDS_EQUAL@)
    } else {
        None
    }
}

/// Checks a change of address.
pub fn validate_id_change(current_id: u8, new_id: u8) -> (verdict: Result<(), String>)
    ensures
        match verdict {
            Ok(_) => id_change_fault(current_id, new_id) is None,
            Err(message) => id_change_fault(current_id, new_id) == Some(message@),
        },
{
    if !is_unicast_servo_id(current_id) || !is_unicast_servo_id(new_id) {
        return Err(ID_INVALID.to_owned());
    }
    if current_id == new_id {
        return Err(IDS_EQUAL.to_owned());
    }
    Ok(())
}

#[derive(Clone, Copy, Debug, PartialEq, Eq, Structural)]
pub enum Direction {
    Clockwise,
    Counterclockwise,
}

/// A request of a browser.
#[derive(Debug)]
pub enum ClientMessage {
    Connect { host: String, port: u16 },
    StartMotor { id: u8, speed: u16, acceleration: u8, direction: Direction },
    StopMotor { id: u8 },
    MovePosition { id: u8, position: u16, acceleration: u8, torque_limit: u16 },
    ReadPosition { id: u8 },
    ReadPositions { ids: Vec<u8> },
    ScanServos { start_id: u8, end_id: u8 },
    SetServoId { current_id: u8, new_id: u8 },
}

/// The name of a direction in the log.
pub open spec fn direction_name(direction: Direction) -> Seq<char> {
    match direction {
        Direction::Clockwise => "Clockwise"@,
        Direction::Counterclockwise => "Counterclockwise"@,
    }
}

/// A request in one line.
pub open spec fn summary_text(message: ClientMessage) -> Seq<char> {
    match message {
        ClientMessage::Connect { host, port } => "connect MCU "@ + host@ + ":"@ + decimal(
            port as nat,
        ),
        ClientMessage::StartMotor { id, speed, acceleration, direction } => "start motor servo="@
            + decimal(id as nat) + " direction="@ + direction_name(direction) + " speed="@
            + decimal(speed as nat) + " acceleration="@ + decimal(acceleration as nat),
        ClientMessage::StopMotor { id } => "stop motor servo="@ + decimal(id as nat),
        ClientMessage::MovePosition { id, position, acceleration, torque_limit } => "move servo="@
            + decimal(id as nat) + " position="@ + decimal(position as nat) + " acceleration="@
            + decimal(acceleration as nat) + " torque_limit="@ + decimal(torque_limit as nat),
        ClientMessage::ReadPosition { id } => "read position servo="@ + decimal(id as nat),
        ClientMessage::ReadPositions { ids } => "read positions servos="@ + list_notation(ids@),
        ClientMessage::ScanServos { start_id, end_id } => "scan servobus start_id="@ + decimal(
            start_id as nat,
        ) + " end_id="@ + decimal(end_id as nat),
        ClientMessage::SetServoId { current_id, new_id } => "change servo ID current_id="@
            + decimal(current_id as nat) + " new_id="@ + decimal(new_id as nat),
    }
}

fn push_field(text: &mut String, name: &str, value: u64)
    ensures
        final(text)@ == old(text)@ + name@ + decimal(value as nat),
{
    text.append(name);
    push_decimal(text, value);
}

impl ClientMessage {
    /// The request in one line.
    pub fn summary(&self) -> (text: String)
        ensures
            text@ == summary_text(*self),
    {
        let mut text = String::new();
        match self {
            ClientMessage::Connect { host, port } => {
                text.append("connect MCU ");
                text.append(host.as_str());
                push_field(&mut text, ":", *port as u64);
            },
            ClientMessage::StartMotor { id, speed, acceleration, direction } => {
                push_field(&mut text, "start motor servo=", *id as u64);
                text.append(" direction=");
                text.append(
                    match direction {
                        Direction::Clockwise => "Clockwise",
                        Direction::Counterclockwise => "Counterclockwise",
                    },
                );
                push_field(&mut text, " speed=", *speed as u64);
                push_field(&mut text, " acceleration=", *acceleration as u64);
            },
            ClientMessage::StopMotor { id } => {
                push_field(&mut text, "stop motor servo=", *id as u64);
            },
            ClientMessage::MovePosition { id, position, acceleration, torque_limit } => {
                push_field(&mut text, "move servo=", *id as u64);
                push_field(&mut text, " position=", *position as u64);
                push_field(&mut text, " acceleration=", *acceleration as u64);
                push_field(&mut text, " torque_limit=", *torque_limit as u64);
            },
            ClientMessage::ReadPosition { id } => {
                push_field(&mut text, "read position servo=", *id as u64);
            },
            ClientMessage::ReadPositions { ids } => {
                text.append("read positions servos=");
                push_list(&mut text, ids);
            },
            ClientMessage::ScanServos { start_id, end_id } => {
                push_field(&mut text, "scan servobus start_id=", *start_id as u64);
                push_field(&mut text, " end_id=", *end_id as u64);
            },
            ClientMessage::SetServoId { current_id, new_id } => {
                push_field(&mut text, "change servo ID current_id=", *current_id as u64);
                push_field(&mut text, " new_id=", *new_id as u64);
            },
        }
        proof {
            assert(text@ =~= summary_text(*self));
        }
        text
    }
}

/// A servo with its position.
#[derive(Clone, Copy, Debug, PartialEq, Eq, Structural)]
pub struct Position {
    pub id: u8,
    pub position: i16,
}

/// The addresses of a servo before and after a change.
#[derive(Clone, Copy, Debug, PartialEq, Eq, Structural)]
pub struct ServoIdChangeResult {
    pub previous_id: u8,
    pub new_id: u8,
}

/// An answer to a browser.
#[derive(Debug)]
pub enum ServerMessage {
    Connected { address: String },
    Complete { action: &'static str },
    Position { id: u8, position: i16 },
    Positions { positions: Vec<Position>, errors: Vec<String> },
    ServoScan { start_id: u8, end_id: u8, ids: Vec<u8> },
    ServoIdChanged { previous_id: u8, new_id: u8 },
    Error { message: String, bridge_connected: bool },
}

#[verifier::ext_equal]
pub enum ServerView {
    Connected { address: Seq<char> },
    Complete { action: Seq<char> },
    Position { id: u8, position: i16 },
    Positions { positions: Seq<Position>, errors: Seq<Seq<char>> },
    ServoScan { start_id: u8, end_id: u8, ids: Seq<u8> },
    ServoIdChanged { previous_id: u8, new_id: u8 },
    Error { message: Seq<char>, bridge_connected: bool },
}

/// Texts by their characters.
pub open spec fn texts(strings: Seq<String>) -> Seq<Seq<char>> {
    Seq::new(strings.len(), |i: int| strings[i]@)
}

impl View for ServerMessage {
    type V = ServerView;

    open spec fn view(&self) -> ServerView {
        match self {
            ServerMessage::Connected { address } => ServerView::Connected { address: address@ },
            ServerMessage::Complete { action } => ServerView::Complete { action: action@ },
            ServerMessage::Position { id, position } => ServerView::Position {
                id: *id,
                position: *position,
            },
            ServerMessage::Positions { positions, errors } => ServerView::Positions {
                positions: positions@,
                errors: texts(errors@),
            },
            ServerMessage::ServoScan { start_id, end_id, ids } => ServerView::ServoScan {
                start_id: *start_id,
                end_id: *end_id,
                ids: ids@,
            },
            ServerMessage::ServoIdChanged { previous_id, new_id } => ServerView::ServoIdChanged {
                previous_id: *previous_id,
                new_id: *new_id,
            },
            ServerMessage::Error { message, bridge_connected } => ServerView::Error {
                message: message@,
                bridge_connected: *bridge_connected,
            },
        }
    }
}

/// What the result of a call is read as.
#[derive(Clone, Copy, Debug, PartialEq, Eq, Structural)]
pub enum ReplyKind {
    /// A JSON value.
    Value,
    /// A position.
    Position,
    /// A list of addresses.
    Scan,
    /// The addresses before and after a change.
    IdChange,
}

/// The result of a call, or why it cannot be read as what it should be.
#[derive(Debug)]
pub enum CallReply {
    Value(serde_json::Value),
    Position(Result<Position, String>),
    Scan(Result<Vec<u8>, String>),
    IdChange(Result<ServoIdChangeResult, String>),
}

/// A request that is being carried out.
#[derive(Debug)]
pub enum HostRun {
    /// Waiting for the MCU to accept a command.
    Accepting { action: &'static str },
    /// Waiting for the MCU to report a position.
    Locating { id: u8 },
    /// Waiting for the MCU to report the servos that it found.
    Scanning { start_id: u8, end_id: u8 },
    /// Waiting for the MCU to report a change of address.
    Renaming { current_id: u8, new_id: u8 },
    /// Waiting for a servo to answer one of a sequence of instructions.
    Writing { plan: Vec<Transaction>, at: usize, action: &'static str },
    /// Waiting for a servo to report its position.
    Reading { id: u8 },
    /// Waiting for one of several positions.
    Collecting {
        ids: Vec<u8>,
        at: usize,
        controller: bool,
        positions: Vec<Position>,
        errors: Vec<String>,
    },
    Finished,
}

#[verifier::ext_equal]
pub enum HostRunView {
    Accepting { action: Seq<char> },
    Locating { id: u8 },
    Scanning { start_id: u8, end_id: u8 },
    Renaming { current_id: u8, new_id: u8 },
    Writing { plan: Seq<TransactionView>, at: nat, action: Seq<char> },
    Reading { id: u8 },
    Collecting {
        ids: Seq<u8>,
        at: nat,
        controller: bool,
        positions: Seq<Position>,
        errors: Seq<Seq<char>>,
    },
    Finished,
}

impl View for HostRun {
    type V = HostRunView;

    open spec fn view(&self) -> HostRunView {
        match self {
            HostRun::Accepting { action } => HostRunView::Accepting { action: action@ },
            HostRun::Locating { id } => HostRunView::Locating { id: *id },
            HostRun::Scanning { start_id, end_id } => HostRunView::Scanning {
                start_id: *start_id,
                end_id: *end_id,
            },
            HostRun::Renaming { current_id, new_id } => HostRunView::Renaming {
                current_id: *current_id,
                new_id: *new_id,
            },
            HostRun::Writing { plan, at, action } => HostRunView::Writing {
                plan: plan_view(plan@),
                at: *at as nat,
                action: action@,
            },
            HostRun::Reading { id } => HostRunView::Reading { id: *id },
            HostRun::Collecting { ids, at, controller, positions, errors } =>
            HostRunView::Collecting {
                ids: ids@,
                at: *at as nat,
                controller: *controller,
                positions: positions@,
                errors: texts(errors@),
            },
            HostRun::Finished => HostRunView::Finished,
        }
    }
}

/// What the host does about a request.
#[derive(Debug)]
pub enum HostAction {
    /// Call a method of the MCU.
    Call {
        method: &'static str,
        params: serde_json::Map<String, serde_json::Value>,
        timeout_ms: u64,
        reply: ReplyKind,
    },
    /// Send an instruction to a servo through the raw tunnel.
    Exchange(Transaction),
    Finish(Result<ServerMessage, String>),
}

#[verifier::ext_equal]
pub enum HostActionView {
    Call { method: Seq<char>, params: Map<Seq<char>, JsonModel>, timeout_ms: u64, reply: ReplyKind },
    Exchange(TransactionView),
    Finish(Result<ServerView, Seq<char>>),
}

impl View for HostAction {
    type V = HostActionView;

    open spec fn view(&self) -> HostActionView {
        match self {
            HostAction::Call { method, params, timeout_ms, reply } => HostActionView::Call {
                method: method@,
                params: members(*params),
                timeout_ms: *timeout_ms,
                reply: *reply,
            },
            HostAction::Exchange(transaction) => HostActionView::Exchange(transaction@),
            HostAction::Finish(Ok(message)) => HostActionView::Finish(Ok(message@)),
            HostAction::Finish(Err(message)) => HostActionView::Finish(Err(message@)),
        }
    }
}

/// What has happened to a request.
#[derive(Debug)]
pub enum HostEvent {
    /// The MCU answered the call, or why it did not.
    Called(Result<CallReply, String>),
    /// The parameters of the servo's reply, or why there is none.
    Exchanged(Result<Vec<u8>, String>),
}

/// A step with its views.
pub open spec fn host_view(step: (HostRun, HostAction)) -> (HostRunView, HostActionView) {
    (step.0@, step.1@)
}

/// A request that fails.
pub open spec fn request_fails(message: Seq<char>) -> (HostRunView, HostActionView) {
    (HostRunView::Finished, HostActionView::Finish(Err(message)))
}

/// A request that succeeds.
pub open spec fn request_succeeds(message: ServerView) -> (HostRunView, HostActionView) {
    (HostRunView::Finished, HostActionView::Finish(Ok(message)))
}

/// A call of a method that is answered as soon as a servo command.
pub open spec fn call(
    method: Seq<char>,
    params: Map<Seq<char>, JsonModel>,
    reply: ReplyKind,
) -> HostActionView {
    HostActionView::Call { method, params, timeout_ms: SERVO_TIMEOUT_MS, reply }
}

/// The parameters of a call, with one number added.
pub open spec fn with_number(
    params: Map<Seq<char>, JsonModel>,
    name: Seq<char>,
    value: u16,
) -> Map<Seq<char>, JsonModel> {
    params.insert(name, JsonModel::Number(value as nat))
}

/// The parameters that name one servo.
pub open spec fn servo_params(id: u8) -> Map<Seq<char>, JsonModel> {
    with_number(no_members(), "id"@, id as u16)
}

/// The parameters of `motor.start`.
pub open spec fn start_params(id: u8, speed: u16, acceleration: u8, direction: Direction) -> Map<
    Seq<char>,
    JsonModel,
> {
    with_number(
        with_number(servo_params(id), "speed"@, speed),
        "acceleration"@,
        acceleration as u16,
    ).insert(
        "direction"@,
        JsonModel::Text(
            match direction {
                Direction::Clockwise => "clockwise"@,
                Direction::Counterclockwise => "counterclockwise"@,
            },
        ),
    )
}

/// The parameters of `servo.setPosition`.
pub open spec fn move_params(id: u8, position: u16, acceleration: u8, torque_limit: u16) -> Map<
    Seq<char>,
    JsonModel,
> {
    with_number(
        with_number(
            with_number(servo_params(id), "position"@, position),
            "acceleration"@,
            acceleration as u16,
        ),
        "torqueLimit"@,
        torque_limit,
    )
}

/// A sequence of instructions whose first `at` ones are done.
pub open spec fn writing_from(plan: Seq<TransactionView>, at: nat, action: Seq<char>) -> (
    HostRunView,
    HostActionView,
) {
    if at < plan.len() {
        (
            HostRunView::Writing { plan, at, action },
            HostActionView::Exchange(plan[at as int]),
        )
    } else {
        request_succeeds(ServerView::Complete { action })
    }
}

/// The message for a position that could not be read.
pub open spec fn read_error(id: u8, message: Seq<char>) -> Seq<char> {
    "Servo "@ + decimal(id as nat) + ": "@ + message
}

/// Several positions of which the first `at` ones are done. An invalid address is reported without
/// asking for it.
pub open spec fn collecting_from(
    ids: Seq<u8>,
    at: nat,
    controller: bool,
    positions: Seq<Position>,
    errors: Seq<Seq<char>>,
) -> (HostRunView, HostActionView)
    decreases ids.len() - at,
{
    if at >= ids.len() {
        request_succeeds(ServerView::Positions { positions, errors })
    } else if !unicast(ids[at as int]) {
        collecting_from(
            ids,
            at + 1,
            controller,
            positions,
            errors.push(read_error(ids[at as int], ID_INVALID@)),
        )
    } else {
        (
            HostRunView::Collecting { ids, at, controller, positions, errors },
            if controller {
                call("servo.getPosition"@, servo_params(ids[at as int]), ReplyKind::Position)
            } else {
                HostActionView::Exchange(position_read(ids[at as int]))
            },
        )
    }
}

/// Several positions after the one at `at` was read or not.
pub open spec fn collecting_after(
    ids: Seq<u8>,
    at: nat,
    controller: bool,
    positions: Seq<Position>,
    errors: Seq<Seq<char>>,
    read: Result<i16, Seq<char>>,
) -> (HostRunView, HostActionView) {
    match read {
        Ok(position) => collecting_from(
            ids,
            at + 1,
            controller,
            positions.push(Position { id: ids[at as int], position }),
            errors,
        ),
        Err(message) => if connection_broken(message) {
            request_fails(message)
        } else {
            collecting_from(
                ids,
                at + 1,
                controller,
                positions,
                errors.push(read_error(ids[at as int], message)),
            )
        },
    }
}

/// What the MCU's report of the position of servo `id` comes to.
pub open spec fn reported_position(id: u8, reported: Result<Position, String>) -> Result<
    i16,
    Seq<char>,
> {
    match reported {
        Err(cause) => Err(because(POSITION_RESULT_INVALID@, cause@)),
        Ok(position) => if position.id != id {
            Err(
                "MCU returned a position for servo "@ + decimal(position.id as nat)
                    + ", but servo "@ + decimal(id as nat) + " was requested"@,
            )
        } else {
            Ok(position.position)
        },
    }
}

/// What a servo's report of its position comes to.
pub open spec fn raw_position(reply: Result<Seq<u8>, Seq<char>>) -> Result<i16, Seq<char>> {
    match reply {
        Err(message) => Err(message),
        Ok(parameters) => Ok(position_of(parameters)),
    }
}

/// The first address that a search should not have reported.
pub open spec fn stray_id(ids: Seq<u8>, start_id: u8, end_id: u8) -> Option<u8>
    decreases ids.len(),
{
    if ids.len() == 0 {
        None
    } else if !(start_id <= ids[0] <= end_id) || !unicast(ids[0]) {
        Some(ids[0])
    } else {
        stray_id(ids.drop_first(), start_id, end_id)
    }
}

/// What the MCU's report of a search comes to.
pub open spec fn reported_scan(
    start_id: u8,
    end_id: u8,
    reported: Result<Vec<u8>, String>,
) -> Result<ServerView, Seq<char>> {
    match reported {
        Err(cause) => Err(because(SCAN_RESULT_INVALID@, cause@)),
        Ok(ids) => match stray_id(ids@, start_id, end_id) {
            Some(id) => Err(SCANNED_ID_INVALID@ + decimal(id as nat)),
            None => Ok(ServerView::ServoScan { start_id, end_id, ids: ids@ }),
        },
    }
}

/// What the MCU's report of a change of address comes to.
pub open spec fn reported_change(
    current_id: u8,
    new_id: u8,
    reported: Result<ServoIdChangeResult, String>,
) -> Result<ServerView, Seq<char>> {
    match reported {
        Err(cause) => Err(because(ID_CHANGE_RESULT_INVALID@, cause@)),
        Ok(change) => if change.previous_id != current_id || change.new_id != new_id {
            Err(OTHER_IDS_CONFIRMED@)
        } else {
            Ok(ServerView::ServoIdChanged { previous_id: current_id, new_id })
        },
    }
}

/// A request with its result.
pub open spec fn request_ends(result: Result<ServerView, Seq<char>>) -> (
    HostRunView,
    HostActionView,
) {
    (HostRunView::Finished, HostActionView::Finish(result))
}

/// The parameters of a servo's reply by their view.
pub open spec fn exchanged_view(reply: Result<Vec<u8>, String>) -> Result<Seq<u8>, Seq<char>> {
    match reply {
        Ok(parameters) => Ok(parameters@),
        Err(message) => Err(message@),
    }
}

/// How a request other than to connect starts, over a connection of the given mode.
pub open spec fn host_start(request: ClientMessage, controller: bool) -> Option<
    (HostRunView, HostActionView),
> {
    match request {
        ClientMessage::Connect { .. } => None,
        ClientMessage::StartMotor { id, speed, acceleration, direction } => Some(
            if !unicast(id) {
                request_fails(ID_INVALID@)
            } else if speed > 4095 {
                request_fails(SPEED_INVALID@)
            } else if controller {
                (
                    HostRunView::Accepting { action: "motor_started"@ },
                    call(
                        "motor.start"@,
                        start_params(id, speed, acceleration, direction),
                        ReplyKind::Value,
                    ),
                )
            } else {
                writing_from(
                    start_plan(id, direction is Counterclockwise, speed, acceleration),
                    0,
                    "motor_started"@,
                )
            },
        ),
        ClientMessage::StopMotor { id } => Some(
            if !unicast(id) {
                request_fails(ID_INVALID@)
            } else if controller {
                (
                    HostRunView::Accepting { action: "motor_stopped"@ },
                    call("motor.stop"@, servo_params(id), ReplyKind::Value),
                )
            } else {
                writing_from(stop_plan(id), 0, "motor_stopped"@)
            },
        ),
        ClientMessage::MovePosition { id, position, acceleration, torque_limit } => Some(
            if !unicast(id) {
                request_fails(ID_INVALID@)
            } else if position > 4095 {
                request_fails(POSITION_INVALID@)
            } else if torque_limit > 1000 {
                request_fails(TORQUE_INVALID@)
            } else if controller {
                (
                    HostRunView::Accepting { action: "position_commanded"@ },
                    call(
                        "servo.setPosition"@,
                        move_params(id, position, acceleration, torque_limit),
                        ReplyKind::Value,
                    ),
                )
            } else {
                writing_from(
                    move_plan(id, position, acceleration, torque_limit),
                    0,
                    "position_commanded"@,
                )
            },
        ),
        ClientMessage::ReadPosition { id } => Some(
            if !unicast(id) {
                request_fails(ID_INVALID@)
            } else if controller {
                (
                    HostRunView::Locating { id },
                    call("servo.getPosition"@, servo_params(id), ReplyKind::Position),
                )
            } else {
                (HostRunView::Reading { id }, HostActionView::Exchange(position_read(id)))
            },
        ),
        ClientMessage::ReadPositions { ids } => Some(
            if ids@.len() > MAX_POSITION_READS {
                request_fails(TOO_MANY_READS@)
            } else {
                collecting_from(ids@, 0, controller, Seq::empty(), Seq::empty())
            },
        ),
        ClientMessage::ScanServos { start_id, end_id } => Some(
            if !scannable(start_id, end_id) {
                request_fails(SCAN_RANGE_INVALID@)
            } else if !controller {
                request_fails(SCAN_NEEDS_CONTROLLER@)
            } else {
                (
                    HostRunView::Scanning { start_id, end_id },
                    HostActionView::Call {
                        method: "servo.scan"@,
                        params: with_number(
                            with_number(no_members(), "startId"@, start_id as u16),
                            "endId"@,
                            end_id as u16,
                        ),
                        timeout_ms: SERVO_SCAN_TIMEOUT_MS,
                        reply: ReplyKind::Scan,
                    },
                )
            },
        ),
        ClientMessage::SetServoId { current_id, new_id } => Some(
            match id_change_fault(current_id, new_id) {
                Some(fault) => request_fails(fault),
                None => if !controller {
                    request_fails(SET_ID_NEEDS_CONTROLLER@)
                } else {
                    (
                        HostRunView::Renaming { current_id, new_id },
                        call(
                            "servo.setId"@,
                            with_number(
                                with_number(no_members(), "currentId"@, current_id as u16),
                                "newId"@,
                                new_id as u16,
                            ),
                            ReplyKind::IdChange,
                        ),
                    )
                },
            },
        ),
    }
}

/// What the host does about a request after an event; `None` where the event cannot come.
pub open spec fn host_step(run: HostRunView, event: HostEvent) -> Option<
    (HostRunView, HostActionView),
> {
    match (run, event) {
        (HostRunView::Finished, _) => None,
        (HostRunView::Collecting { ids, at, controller, positions, errors }, event) => if at
            >= ids.len() {
            None
        } else {
            match event {
                HostEvent::Called(Err(message)) => Some(
                    collecting_after(ids, at, controller, positions, errors, Err(message@)),
                ),
                HostEvent::Called(Ok(CallReply::Position(reported))) => Some(
                    collecting_after(
                        ids,
                        at,
                        controller,
                        positions,
                        errors,
                        reported_position(ids[at as int], reported),
                    ),
                ),
                HostEvent::Called(Ok(_)) => None,
                HostEvent::Exchanged(reply) => if reply matches Ok(parameters) && parameters@.len()
                    != 2 {
                    None
                } else {
                    Some(
                        collecting_after(
                            ids,
                            at,
                            controller,
                            positions,
                            errors,
                            raw_position(exchanged_view(reply)),
                        ),
                    )
                },
            }
        },
        (HostRunView::Writing { plan, at, action }, HostEvent::Exchanged(reply)) => Some(
            match reply {
                Ok(_) => writing_from(plan, at + 1, action),
                Err(message) => request_fails(message@),
            },
        ),
        (HostRunView::Reading { id }, HostEvent::Exchanged(reply)) => if
        reply matches Ok(parameters) && parameters@.len() != 2 {
            None
        } else {
            Some(
                match raw_position(exchanged_view(reply)) {
                    Ok(position) => request_succeeds(ServerView::Position { id, position }),
                    Err(message) => request_fails(message),
                },
            )
        },
        (HostRunView::Writing { .. }, _) | (HostRunView::Reading { .. }, _) => None,
        (_, HostEvent::Exchanged(_)) => None,
        (_, HostEvent::Called(Err(message))) => Some(request_fails(message@)),
        (HostRunView::Accepting { action }, HostEvent::Called(Ok(CallReply::Value(result)))) => Some(
            if is_affirmed(result, "accepted"@) {
                request_succeeds(ServerView::Complete { action })
            } else {
                request_fails(NOT_ACCEPTED@)
            },
        ),
        (HostRunView::Locating { id }, HostEvent::Called(Ok(CallReply::Position(reported)))) => Some(
            match reported_position(id, reported) {
                Ok(position) => request_succeeds(ServerView::Position { id, position }),
                Err(message) => request_fails(message),
            },
        ),
        (
            HostRunView::Scanning { start_id, end_id },
            HostEvent::Called(Ok(CallReply::Scan(reported))),
        ) => Some(request_ends(reported_scan(start_id, end_id, reported))),
        (
            HostRunView::Renaming { current_id, new_id },
            HostEvent::Called(Ok(CallReply::IdChange(reported))),
        ) => Some(request_ends(reported_change(current_id, new_id, reported))),
        _ => None,
    }
}

fn fail(message: String) -> (step: (HostRun, HostAction))
    ensures
        host_view(step) == request_fails(message@),
{
    (HostRun::Finished, HostAction::Finish(Err(message)))
}

fn succeed(message: ServerMessage) -> (step: (HostRun, HostAction))
    ensures
        host_view(step) == request_succeeds(message@),
{
    (HostRun::Finished, HostAction::Finish(Ok(message)))
}

fn add_number(params: &mut serde_json::Map<String, serde_json::Value>, name: &str, value: u16)
    ensures
        members(*final(params)) == with_number(members(*old(params)), name@, value),
{
    insert_number(params, name, value as u64);
}

fn params_for(id: u8) -> (params: serde_json::Map<String, serde_json::Value>)
    ensures
        members(params) == servo_params(id),
{
    let mut params = new_object();
    add_number(&mut params, "id", id as u16);
    params
}

fn call_method(
    run: HostRun,
    method: &'static str,
    params: serde_json::Map<String, serde_json::Value>,
    reply: ReplyKind,
) -> (step: (HostRun, HostAction))
    ensures
        host_view(step) == (run@, call(method@, members(params), reply)),
{
    (run, HostAction::Call { method, params, timeout_ms: SERVO_TIMEOUT_MS, reply })
}

fn copy_transaction(transaction: &Transaction) -> (copy: Transaction)
    ensures
        copy@ == transaction@,
{
    Transaction {
        id: transaction.id,
        instruction: transaction.instruction,
        parameters: vstd::slice::slice_to_vec(transaction.parameters.as_slice()),
        reply_len: transaction.reply_len,
    }
}

fn continue_writing(plan: Vec<Transaction>, at: usize, action: &'static str) -> (step: (
    HostRun,
    HostAction,
))
    ensures
        host_view(step) == writing_from(plan_view(plan@), at as nat, action@),
{
    if at < plan.len() {
        let transaction = copy_transaction(&plan[at]);
        (HostRun::Writing { plan, at, action }, HostAction::Exchange(transaction))
    } else {
        succeed(ServerMessage::Complete { action })
    }
}

/// Starts a motor.
pub fn start_motor(
    controller: bool,
    id: u8,
    speed: u16,
    acceleration: u8,
    direction: Direction,
) -> (step: (HostRun, HostAction))
    ensures
        host_start(ClientMessage::StartMotor { id, speed, acceleration, direction }, controller)
            == Some(host_view(step)),
{
    if let Err(message) = validate_id(id) {
        return fail(message);
    }
    if speed > 4095 {
        return fail(SPEED_INVALID.to_owned());
    }
    if controller {
        let mut params = params_for(id);
        add_number(&mut params, "speed", speed);
        add_number(&mut params, "acceleration", acceleration as u16);
        insert_text(
            &mut params,
            "direction",
            match direction {
                Direction::Clockwise => "clockwise",
                Direction::Counterclockwise => "counterclockwise",
            },
        );
        return call_method(
            HostRun::Accepting { action: "motor_started" },
            "motor.start",
            params,
            ReplyKind::Value,
        );
    }
    let counter_clockwise = match direction {
        Direction::Clockwise => false,
        Direction::Counterclockwise => true,
    };
    continue_writing(
        servo_bus::start_motor(id, counter_clockwise, speed, acceleration),
        0,
        "motor_started",
    )
}

/// Stops a motor.
pub fn stop_motor(controller: bool, id: u8) -> (step: (HostRun, HostAction))
    ensures
        host_start(ClientMessage::StopMotor { id }, controller) == Some(host_view(step)),
{
    if let Err(message) = validate_id(id) {
        return fail(message);
    }
    if controller {
        return call_method(
            HostRun::Accepting { action: "motor_stopped" },
            "motor.stop",
            params_for(id),
            ReplyKind::Value,
        );
    }
    continue_writing(servo_bus::stop_motor(id), 0, "motor_stopped")
}

/// Moves a servo.
pub fn move_position(
    controller: bool,
    id: u8,
    position: u16,
    acceleration: u8,
    torque_limit: u16,
) -> (step: (HostRun, HostAction))
    ensures
        host_start(
            ClientMessage::MovePosition { id, position, acceleration, torque_limit },
            controller,
        ) == Some(host_view(step)),
{
    if let Err(message) = validate_id(id) {
        return fail(message);
    }
    if position > 4095 {
        return fail(POSITION_INVALID.to_owned());
    }
    if torque_limit > 1000 {
        return fail(TORQUE_INVALID.to_owned());
    }
    if controller {
        let mut params = params_for(id);
        add_number(&mut params, "position", position);
        add_number(&mut params, "acceleration", acceleration as u16);
        add_number(&mut params, "torqueLimit", torque_limit);
        return call_method(
            HostRun::Accepting { action: "position_commanded" },
            "servo.setPosition",
            params,
            ReplyKind::Value,
        );
    }
    continue_writing(
        servo_bus::move_position(id, position, acceleration, torque_limit),
        0,
        "position_commanded",
    )
}

/// Reads the position of a servo.
pub fn read_position(controller: bool, id: u8) -> (step: (HostRun, HostAction))
    ensures
        host_start(ClientMessage::ReadPosition { id }, controller) == Some(host_view(step)),
{
    if let Err(message) = validate_id(id) {
        return fail(message);
    }
    if controller {
        return call_method(
            HostRun::Locating { id },
            "servo.getPosition",
            params_for(id),
            ReplyKind::Position,
        );
    }
    (HostRun::Reading { id }, HostAction::Exchange(servo_bus::read_position(id)))
}

fn read_failure(id: u8, message: &str) -> (text: String)
    ensures
        text@ == read_error(id, message@),
{
    let mut text = "Servo ".to_owned();
    push_decimal(&mut text, id as u64);
    text.append(": ");
    text.append(message);
    text
}

proof fn pushed_text(strings: Seq<String>, string: String)
    ensures
        texts(strings.push(string)) == texts(strings).push(string@),
{
    assert(texts(strings.push(string)) =~= texts(strings).push(string@));
}

fn continue_collecting(
    ids: Vec<u8>,
    at: usize,
    controller: bool,
    positions: Vec<Position>,
    errors: Vec<String>,
) -> (step: (HostRun, HostAction))
    ensures
        host_view(step) == collecting_from(
            ids@,
            at as nat,
            controller,
            positions@,
            texts(errors@),
        ),
{
    let mut errors = errors;
    let mut at: usize = at;
    let ghost wanted = collecting_from(ids@, at as nat, controller, positions@, texts(errors@));
    while at < ids.len() && !is_unicast_servo_id(ids[at])
        invariant
            wanted == collecting_from(ids@, at as nat, controller, positions@, texts(errors@)),
        decreases ids@.len() - at,
    {
        let message = read_failure(ids[at], ID_INVALID);
        proof {
            pushed_text(errors@, message);
        }
        errors.push(message);
        at += 1;
    }
    if at >= ids.len() {
        return succeed(ServerMessage::Positions { positions, errors });
    }
    let id = ids[at];
    let run = HostRun::Collecting { ids, at, controller, positions, errors };
    if controller {
        call_method(run, "servo.getPosition", params_for(id), ReplyKind::Position)
    } else {
        (run, HostAction::Exchange(servo_bus::read_position(id)))
    }
}

fn collect(
    ids: Vec<u8>,
    at: usize,
    controller: bool,
    positions: Vec<Position>,
    errors: Vec<String>,
    read: Result<i16, String>,
) -> (step: (HostRun, HostAction))
    requires
        at < ids@.len(),
    ensures
        host_view(step) == collecting_after(
            ids@,
            at as nat,
            controller,
            positions@,
            texts(errors@),
            match read {
                Ok(position) => Ok(position),
                Err(message) => Err(message@),
            },
        ),
{
    let mut positions = positions;
    let mut errors = errors;
    let id = ids[at];
    match read {
        Ok(position) => {
            positions.push(Position { id, position });
        },
        Err(message) => {
            if !connection_is_usable_after(message.as_str()) {
                return fail(message);
            }
            let text = read_failure(id, message.as_str());
            proof {
                pushed_text(errors@, text);
            }
            errors.push(text);
        },
    }
    proof {
        assert(at < ids.len());
    }
    continue_collecting(ids, at + 1, controller, positions, errors)
}

/// Reads the positions of several servos. One that fails is reported beside the others, unless it
/// broke the connection.
pub fn read_positions(controller: bool, ids: Vec<u8>) -> (step: (HostRun, HostAction))
    ensures
        host_start(ClientMessage::ReadPositions { ids }, controller) == Some(host_view(step)),
{
    if ids.len() > MAX_POSITION_READS {
        return fail(TOO_MANY_READS.to_owned());
    }
    let positions: Vec<Position> = Vec::new();
    let errors: Vec<String> = Vec::new();
    proof {
        assert(texts(errors@) =~= Seq::<Seq<char>>::empty());
    }
    continue_collecting(ids, 0, controller, positions, errors)
}

/// Searches for servos.
pub fn scan_servos(controller: bool, start_id: u8, end_id: u8) -> (step: (HostRun, HostAction))
    ensures
        host_start(ClientMessage::ScanServos { start_id, end_id }, controller) == Some(
            host_view(step),
        ),
{
    if let Err(message) = validate_scan_range(start_id, end_id) {
        return fail(message);
    }
    if !controller {
        return fail(SCAN_NEEDS_CONTROLLER.to_owned());
    }
    let mut params = new_object();
    add_number(&mut params, "startId", start_id as u16);
    add_number(&mut params, "endId", end_id as u16);
    (
        HostRun::Scanning { start_id, end_id },
        HostAction::Call {
            method: "servo.scan",
            params,
            timeout_ms: SERVO_SCAN_TIMEOUT_MS,
            reply: ReplyKind::Scan,
        },
    )
}

/// Changes the address of a servo.
pub fn set_servo_id(controller: bool, current_id: u8, new_id: u8) -> (step: (HostRun, HostAction))
    ensures
        host_start(ClientMessage::SetServoId { current_id, new_id }, controller) == Some(
            host_view(step),
        ),
{
    if let Err(message) = validate_id_change(current_id, new_id) {
        return fail(message);
    }
    if !controller {
        return fail(SET_ID_NEEDS_CONTROLLER.to_owned());
    }
    let mut params = new_object();
    add_number(&mut params, "currentId", current_id as u16);
    add_number(&mut params, "newId", new_id as u16);
    call_method(
        HostRun::Renaming { current_id, new_id },
        "servo.setId",
        params,
        ReplyKind::IdChange,
    )
}

/// What the host starts with a request.
#[derive(Debug)]
pub enum RequestStart {
    /// Connect to the MCU.
    Connect { host: String, port: u16 },
    /// Answer the browser; nothing is sent to the MCU.
    Refuse(ServerMessage),
    /// Carry out the request over the connection.
    Carry(HostRun, HostAction),
}

#[verifier::ext_equal]
pub enum RequestStartView {
    Connect { host: Seq<char>, port: u16 },
    Refuse(ServerView),
    Carry(HostRunView, HostActionView),
}

impl View for RequestStart {
    type V = RequestStartView;

    open spec fn view(&self) -> RequestStartView {
        match self {
            RequestStart::Connect { host, port } => RequestStartView::Connect {
                host: host@,
                port: *port,
            },
            RequestStart::Refuse(answer) => RequestStartView::Refuse(answer@),
            RequestStart::Carry(run, action) => RequestStartView::Carry(run@, action@),
        }
    }
}

/// What the host starts with a request, where `present` is whether the present connection is in
/// controller mode, and `None` stands for no connection.
pub open spec fn request_start(request: ClientMessage, present: Option<bool>) -> RequestStartView {
    match (request, present) {
        (ClientMessage::Connect { host, port }, _) => RequestStartView::Connect {
            host: host@,
            port,
        },
        (_, None) => RequestStartView::Refuse(
            ServerView::Error { message: NOT_CONNECTED@, bridge_connected: false },
        ),
        (_, Some(controller)) => {
            let step = host_start(request, controller)->Some_0;
            RequestStartView::Carry(step.0, step.1)
        },
    }
}

/// Decides what the host starts with a request, where `present` is whether the present connection
/// is in controller mode, and `None` stands for no connection. Without one, only a request to
/// connect is carried out.
pub fn handle_request(request: ClientMessage, present: Option<bool>) -> (start: RequestStart)
    ensures
        start@ == request_start(request, present),
{
    let (run, action) = match (request, present) {
        (ClientMessage::Connect { host, port }, _) => {
            return RequestStart::Connect { host, port };
        },
        (_, None) => {
            return RequestStart::Refuse(
                ServerMessage::Error { message: NOT_CONNECTED.to_owned(), bridge_connected: false },
            );
        },
        (
            ClientMessage::StartMotor { id, speed, acceleration, direction },
            Some(controller),
        ) => start_motor(controller, id, speed, acceleration, direction),
        (ClientMessage::StopMotor { id }, Some(controller)) => stop_motor(controller, id),
        (
            ClientMessage::MovePosition { id, position, acceleration, torque_limit },
            Some(controller),
        ) => move_position(controller, id, position, acceleration, torque_limit),
        (ClientMessage::ReadPosition { id }, Some(controller)) => read_position(controller, id),
        (ClientMessage::ReadPositions { ids }, Some(controller)) => read_positions(controller, ids),
        (ClientMessage::ScanServos { start_id, end_id }, Some(controller)) => scan_servos(
            controller,
            start_id,
            end_id,
        ),
        (ClientMessage::SetServoId { current_id, new_id }, Some(controller)) => set_servo_id(
            controller,
            current_id,
            new_id,
        ),
    };
    RequestStart::Carry(run, action)
}

/// What the MCU's report of the position of servo `id` comes to.
pub fn position_result(id: u8, reported: Result<Position, String>) -> (result: Result<i16, String>)
    ensures
        match result {
            Ok(position) => reported_position(id, reported) == Ok::<i16, Seq<char>>(position),
            Err(message) => reported_position(id, reported) == Err::<i16, Seq<char>>(message@),
        },
{
    match reported {
        Err(cause) => Err(with_cause(POSITION_RESULT_INVALID, cause.as_str())),
        Ok(position) => {
            if position.id != id {
                let mut message = "MCU returned a position for servo ".to_owned();
                push_decimal(&mut message, position.id as u64);
                message.append(", but servo ");
                push_decimal(&mut message, id as u64);
                message.append(" was requested");
                return Err(message);
            }
            Ok(position.position)
        },
    }
}

fn find_stray(ids: &Vec<u8>, start_id: u8, end_id: u8) -> (stray: Option<u8>)
    ensures
        stray == stray_id(ids@, start_id, end_id),
{
    let mut index: usize = 0;
    proof {
        assert(ids@.skip(0) =~= ids@);
    }
    while index < ids.len()
        invariant
            index <= ids@.len(),
            stray_id(ids@, start_id, end_id) == stray_id(ids@.skip(index as int), start_id, end_id),
        decreases ids@.len() - index,
    {
        let id = ids[index];
        proof {
            let rest = ids@.skip(index as int);
            assert(rest[0] == id);
            assert(rest.drop_first() =~= ids@.skip(index + 1));
        }
        if id < start_id || id > end_id || !is_unicast_servo_id(id) {
            return Some(id);
        }
        index += 1;
    }
    None
}

/// A result by its views.
pub open spec fn result_view(result: Result<ServerMessage, String>) -> Result<
    ServerView,
    Seq<char>,
> {
    match result {
        Ok(message) => Ok(message@),
        Err(message) => Err(message@),
    }
}

/// What the MCU's report of a search comes to.
pub fn scan_result(start_id: u8, end_id: u8, reported: Result<Vec<u8>, String>) -> (result: Result<
    ServerMessage,
    String,
>)
    ensures
        result_view(result) == reported_scan(start_id, end_id, reported),
{
    match reported {
        Err(cause) => Err(with_cause(SCAN_RESULT_INVALID, cause.as_str())),
        Ok(ids) => {
            if let Some(id) = find_stray(&ids, start_id, end_id) {
                let mut message = SCANNED_ID_INVALID.to_owned();
                push_decimal(&mut message, id as u64);
                return Err(message);
            }
            Ok(ServerMessage::ServoScan { start_id, end_id, ids })
        },
    }
}

/// What the MCU's report of a change of address comes to.
pub fn id_change_result(
    current_id: u8,
    new_id: u8,
    reported: Result<ServoIdChangeResult, String>,
) -> (result: Result<ServerMessage, String>)
    ensures
        result_view(result) == reported_change(current_id, new_id, reported),
{
    match reported {
        Err(cause) => Err(with_cause(ID_CHANGE_RESULT_INVALID, cause.as_str())),
        Ok(change) => {
            if change.previous_id != current_id || change.new_id != new_id {
                return Err(OTHER_IDS_CONFIRMED.to_owned());
            }
            Ok(
                ServerMessage::ServoIdChanged {
                    previous_id: change.previous_id,
                    new_id: change.new_id,
                },
            )
        },
    }
}

fn finish(result: Result<ServerMessage, String>) -> (step: (HostRun, HostAction))
    ensures
        host_view(step) == request_ends(result_view(result)),
{
    (HostRun::Finished, HostAction::Finish(result))
}

fn finish_position(id: u8, read: Result<i16, String>) -> (step: (HostRun, HostAction))
    ensures
        host_view(step) == match read {
            Ok(position) => request_succeeds(ServerView::Position { id, position }),
            Err(message) => request_fails(message@),
        },
{
    match read {
        Ok(position) => succeed(ServerMessage::Position { id, position }),
        Err(message) => fail(message),
    }
}

fn raw_read(reply: Result<Vec<u8>, String>) -> (read: Option<Result<i16, String>>)
    ensures
        match read {
            Some(Ok(position)) => raw_position(exchanged_view(reply)) == Ok::<i16, Seq<char>>(
                position,
            ) && (reply matches Ok(parameters) && parameters@.len() == 2),
            Some(Err(message)) => raw_position(exchanged_view(reply)) == Err::<i16, Seq<char>>(
                message@,
            ) && reply is Err,
            None => reply matches Ok(parameters) && parameters@.len() != 2,
        },
{
    match reply {
        Ok(parameters) => if parameters.len() == 2 {
            Some(Ok(decode_position(parameters.as_slice())))
        } else {
            None
        },
        Err(message) => Some(Err(message)),
    }
}

impl HostRun {
    /// Goes on with the request after an event; `None` where the event is not the one that the
    /// request waits for.
    pub fn step(self, event: HostEvent) -> (step: Option<(HostRun, HostAction)>)
        ensures
            match step {
                Some(step) => host_step(self@, event) == Some(host_view(step)),
                None => host_step(self@, event) is None,
            },
    {
        match self {
            HostRun::Finished => None,
            HostRun::Collecting { ids, at, controller, positions, errors } => {
                if at >= ids.len() {
                    return None;
                }
                let read = match event {
                    HostEvent::Called(Err(message)) => Err(message),
                    HostEvent::Called(Ok(CallReply::Position(reported))) => position_result(
                        ids[at],
                        reported,
                    ),
                    HostEvent::Called(Ok(_)) => return None,
                    HostEvent::Exchanged(reply) => match raw_read(reply) {
                        Some(read) => read,
                        None => return None,
                    },
                };
                Some(collect(ids, at, controller, positions, errors, read))
            },
            HostRun::Writing { plan, at, action } => match event {
                HostEvent::Exchanged(Ok(_)) => if at < plan.len() {
                    Some(continue_writing(plan, at + 1, action))
                } else {
                    Some(succeed(ServerMessage::Complete { action }))
                },
                HostEvent::Exchanged(Err(message)) => Some(fail(message)),
                HostEvent::Called(_) => None,
            },
            HostRun::Reading { id } => match event {
                HostEvent::Exchanged(reply) => match raw_read(reply) {
                    Some(read) => Some(finish_position(id, read)),
                    None => None,
                },
                HostEvent::Called(_) => None,
            },
            HostRun::Accepting { action } => match event {
                HostEvent::Called(Err(message)) => Some(fail(message)),
                HostEvent::Called(Ok(CallReply::Value(result))) => {
                    match expect_controller_accepted(&result) {
                        Ok(()) => Some(succeed(ServerMessage::Complete { action })),
                        Err(message) => Some(fail(message)),
                    }
                },
                _ => None,
            },
            HostRun::Locating { id } => match event {
                HostEvent::Called(Err(message)) => Some(fail(message)),
                HostEvent::Called(Ok(CallReply::Position(reported))) => Some(
                    finish_position(id, position_result(id, reported)),
                ),
                _ => None,
            },
            HostRun::Scanning { start_id, end_id } => match event {
                HostEvent::Called(Err(message)) => Some(fail(message)),
                HostEvent::Called(Ok(CallReply::Scan(reported))) => Some(
                    finish(scan_result(start_id, end_id, reported)),
                ),
                _ => None,
            },
            HostRun::Renaming { current_id, new_id } => match event {
                HostEvent::Called(Err(message)) => Some(fail(message)),
                HostEvent::Called(Ok(CallReply::IdChange(reported))) => Some(
                    finish(id_change_result(current_id, new_id, reported)),
                ),
                _ => None,
            },
        }
    }
}

/// The answer to a request that came to its end, and whether the connection is kept.
pub open spec fn request_answer(result: Result<ServerView, Seq<char>>) -> (ServerView, bool) {
    match result {
        Ok(message) => (message, true),
        Err(message) => (
            ServerView::Error { message, bridge_connected: !connection_broken(message) },
            !connection_broken(message),
        ),
    }
}

/// The answer to a request that came to its end, and whether the connection is kept.
pub fn answer_request(result: Result<ServerMessage, String>) -> (answer: (ServerMessage, bool))
    ensures
        (answer.0@, answer.1) == request_answer(result_view(result)),
{
    match result {
        Ok(message) => (message, true),
        Err(message) => {
            let bridge_connected = connection_is_usable_after(message.as_str());
            (ServerMessage::Error { message, bridge_connected }, bridge_connected)
        },
    }
}

/// Without a connection every request but one to connect is refused: nothing is sent, and the
/// browser is told that there is no connection. With one, every such request is carried out.
pub proof fn requests_need_a_connection(request: ClientMessage, present: Option<bool>)
    requires
        !(request is Connect),
    ensures
        present is None ==> request_start(request, present) == RequestStartView::Refuse(
            ServerView::Error { message: NOT_CONNECTED@, bridge_connected: false },
        ),
        present matches Some(controller) ==> (host_start(request, controller) matches Some(step)
            && request_start(request, present) == RequestStartView::Carry(step.0, step.1)),
{
}

/// Whether an action does not end a request with an error in place of a result.
pub open spec fn results_are_no_errors(action: HostActionView) -> bool {
    action matches HostActionView::Finish(Ok(message)) ==> !(message is Error)
}

proof fn collecting_gives_no_errors(
    ids: Seq<u8>,
    at: nat,
    controller: bool,
    positions: Seq<Position>,
    errors: Seq<Seq<char>>,
)
    ensures
        results_are_no_errors(collecting_from(ids, at, controller, positions, errors).1),
    decreases ids.len() - at,
{
    if at < ids.len() && !unicast(ids[at as int]) {
        collecting_gives_no_errors(
            ids,
            at + 1,
            controller,
            positions,
            errors.push(read_error(ids[at as int], ID_INVALID@)),
        );
    }
}

proof fn requests_give_no_errors(
    request: ClientMessage,
    present: Option<bool>,
    run: HostRunView,
    event: HostEvent,
)
    ensures
        request_start(request, present) matches RequestStartView::Carry(_, action)
            ==> results_are_no_errors(action),
        host_step(run, event) matches Some((_, action)) ==> results_are_no_errors(action),
{
    if let ClientMessage::ReadPositions { ids } = request {
        if let Some(controller) = present {
            collecting_gives_no_errors(ids@, 0, controller, Seq::empty(), Seq::empty());
        }
    }
    if let HostRunView::Collecting { ids, at, controller, positions, errors } = run {
        if let Some(read) = position_read_by(ids[at as int], event) {
            match read {
                Ok(position) => collecting_gives_no_errors(
                    ids,
                    at + 1,
                    controller,
                    positions.push(Position { id: ids[at as int], position }),
                    errors,
                ),
                Err(message) => collecting_gives_no_errors(
                    ids,
                    at + 1,
                    controller,
                    positions,
                    errors.push(read_error(ids[at as int], message)),
                ),
            }
        }
    }
}

/// The answer to a request tells what became of the connection: an error says whether it is left,
/// and that goes by the error's message alone; after any other answer it is left.
pub proof fn answers_tell_whether_the_connection_is_left(
    request: ClientMessage,
    present: Option<bool>,
    run: HostRunView,
    event: HostEvent,
    result: Result<ServerView, Seq<char>>,
)
    requires
        (request_start(request, present) matches RequestStartView::Carry(_, action) && action
            == HostActionView::Finish(result)) || (host_step(run, event) matches Some((_, action))
            && action == HostActionView::Finish(result)),
    ensures
        ({
            let (answer, left) = request_answer(result);
            match answer {
                ServerView::Error { message, bridge_connected } => bridge_connected == left && left
                    == !connection_broken(message),
                _ => left,
            }
        }),
{
    requests_give_no_errors(request, present, run, event);
}

/// Whether every position that a request is done with was either read or reported.
pub open spec fn accounted_for(run: HostRunView) -> bool {
    run matches HostRunView::Collecting { ids, at, positions, errors, .. } ==> at < ids.len()
        <= MAX_POSITION_READS && positions.len() + errors.len() == at && unicast(ids[at as int])
}

proof fn collecting_accounts_for_all(
    ids: Seq<u8>,
    at: nat,
    controller: bool,
    positions: Seq<Position>,
    errors: Seq<Seq<char>>,
)
    requires
        at <= ids.len() <= MAX_POSITION_READS,
        positions.len() + errors.len() == at,
    ensures
        ({
            let step = collecting_from(ids, at, controller, positions, errors);
            &&& accounted_for(step.0)
            &&& step.1 matches HostActionView::Finish(result) ==> (result matches Ok(
                ServerView::Positions { positions, errors },
            ) && positions.len() + errors.len() == ids.len())
            &&& step.0 matches HostRunView::Collecting { ids: left, .. } ==> left == ids
        }),
    decreases ids.len() - at,
{
    if at < ids.len() && !unicast(ids[at as int]) {
        collecting_accounts_for_all(
            ids,
            at + 1,
            controller,
            positions,
            errors.push(read_error(ids[at as int], ID_INVALID@)),
        );
    }
}

/// A servo that cannot be read does not keep the others from being read: each servo that a browser
/// asks for is either read or reported by itself, unless the connection breaks.
pub proof fn faulty_servos_are_reported_by_themselves(
    ids: Vec<u8>,
    controller: bool,
    run: HostRunView,
    event: HostEvent,
)
    requires
        accounted_for(run),
    ensures
        host_start(ClientMessage::ReadPositions { ids }, controller) matches Some(step)
            && accounted_for(step.0),
        host_step(run, event) matches Some((next, action)) ==> {
            &&& accounted_for(next)
            &&& run matches HostRunView::Collecting { ids, .. } ==> (
            action matches HostActionView::Finish(result) ==> match result {
                Ok(ServerView::Positions { positions, errors }) => positions.len() + errors.len()
                    == ids.len(),
                Ok(_) => false,
                Err(message) => connection_broken(message),
            })
        },
{
    if ids@.len() <= MAX_POSITION_READS {
        collecting_accounts_for_all(ids@, 0, controller, Seq::empty(), Seq::empty());
    }
    if let HostRunView::Collecting { ids, at, controller, positions, errors } = run {
        let read = match event {
            HostEvent::Called(Err(message)) => Err(message@),
            HostEvent::Called(Ok(CallReply::Position(reported))) => reported_position(
                ids[at as int],
                reported,
            ),
            HostEvent::Exchanged(reply) => raw_position(exchanged_view(reply)),
            _ => Ok(0i16),
        };
        match read {
            Ok(position) => collecting_accounts_for_all(
                ids,
                at + 1,
                controller,
                positions.push(Position { id: ids[at as int], position }),
                errors,
            ),
            Err(message) => collecting_accounts_for_all(
                ids,
                at + 1,
                controller,
                positions,
                errors.push(read_error(ids[at as int], message)),
            ),
        }
    }
}

/// What an event says of the position of servo `id`; `None` where it says nothing of a position.
pub open spec fn position_read_by(id: u8, event: HostEvent) -> Option<Result<i16, Seq<char>>> {
    match event {
        HostEvent::Called(Err(message)) => Some(Err(message@)),
        HostEvent::Called(Ok(CallReply::Position(reported))) => Some(
            reported_position(id, reported),
        ),
        HostEvent::Called(Ok(_)) => None,
        HostEvent::Exchanged(Ok(parameters)) => if parameters@.len() == 2 {
            Some(Ok(position_of(parameters@)))
        } else {
            None
        },
        HostEvent::Exchanged(Err(message)) => Some(Err(message@)),
    }
}

/// What becomes of the servo at a place of a request for positions, where `events` gives what
/// happens to each servo by its place.
pub open spec fn outcome_of(ids: Seq<u8>, events: spec_fn(nat) -> HostEvent, at: nat) -> Result<
    i16,
    Seq<char>,
> {
    if unicast(ids[at as int]) {
        position_read_by(ids[at as int], events(at))->Some_0
    } else {
        Err(ID_INVALID@)
    }
}

/// The positions of those of the first `count` servos that could be read, in order.
pub open spec fn servos_read(ids: Seq<u8>, events: spec_fn(nat) -> HostEvent, count: nat) -> Seq<
    Position,
>
    decreases count,
{
    if count == 0 {
        Seq::empty()
    } else {
        let before = servos_read(ids, events, (count - 1) as nat);
        match outcome_of(ids, events, (count - 1) as nat) {
            Ok(position) => before.push(Position { id: ids[count - 1], position }),
            Err(_) => before,
        }
    }
}

/// The messages for those of the first `count` servos that could not be read, in order.
pub open spec fn servos_missed(ids: Seq<u8>, events: spec_fn(nat) -> HostEvent, count: nat) -> Seq<
    Seq<char>,
>
    decreases count,
{
    if count == 0 {
        Seq::empty()
    } else {
        let before = servos_missed(ids, events, (count - 1) as nat);
        match outcome_of(ids, events, (count - 1) as nat) {
            Ok(_) => before,
            Err(message) => before.push(read_error(ids[count - 1], message)),
        }
    }
}

/// The result of a request for positions from a step on, where `events` gives what happens to each
/// servo by its place. At most `fuel` steps are followed.
pub open spec fn collected(
    step: (HostRunView, HostActionView),
    events: spec_fn(nat) -> HostEvent,
    fuel: nat,
) -> Option<Result<ServerView, Seq<char>>>
    decreases fuel,
{
    match (step.0, step.1) {
        (_, HostActionView::Finish(result)) => Some(result),
        (HostRunView::Collecting { at, .. }, _) => if fuel == 0 {
            None
        } else {
            match host_step(step.0, events(at)) {
                Some(next) => collected(next, events, (fuel - 1) as nat),
                None => None,
            }
        },
        _ => None,
    }
}

proof fn rest_is_collected(
    ids: Seq<u8>,
    at: nat,
    controller: bool,
    events: spec_fn(nat) -> HostEvent,
    fuel: nat,
)
    requires
        at <= ids.len() <= fuel + at,
        forall|i: nat|
            i < ids.len() && unicast(ids[i as int]) ==> (position_read_by(
                ids[i as int],
                #[trigger] events(i),
            ) matches Some(read) && (read matches Err(message) ==> !connection_broken(message))),
    ensures
        collected(
            collecting_from(
                ids,
                at,
                controller,
                servos_read(ids, events, at),
                servos_missed(ids, events, at),
            ),
            events,
            fuel,
        ) == Some(
            Ok::<ServerView, Seq<char>>(
                ServerView::Positions {
                    positions: servos_read(ids, events, ids.len()),
                    errors: servos_missed(ids, events, ids.len()),
                },
            ),
        ),
    decreases ids.len() - at,
{
    if at < ids.len() {
        let positions = servos_read(ids, events, at);
        let errors = servos_missed(ids, events, at);
        let outcome = outcome_of(ids, events, at);
        assert(servos_read(ids, events, at + 1) == match outcome {
            Ok(position) => positions.push(Position { id: ids[at as int], position }),
            Err(_) => positions,
        });
        assert(servos_missed(ids, events, at + 1) == match outcome {
            Ok(_) => errors,
            Err(message) => errors.push(read_error(ids[at as int], message)),
        });
        if unicast(ids[at as int]) {
            let run = HostRunView::Collecting { ids, at, controller, positions, errors };
            assert(host_step(run, events(at)) == Some(
                collecting_after(ids, at, controller, positions, errors, outcome),
            ));
            rest_is_collected(ids, at + 1, controller, events, (fuel - 1) as nat);
        } else {
            rest_is_collected(ids, at + 1, controller, events, fuel);
        }
    }
}

/// While the connection lasts, a request for up to six positions reports every servo by itself:
/// those that could be read with their positions, the others with what went wrong, each in the
/// order in which they were asked for.
pub proof fn every_servo_is_read_or_reported(
    ids: Vec<u8>,
    controller: bool,
    events: spec_fn(nat) -> HostEvent,
)
    requires
        ids@.len() <= MAX_POSITION_READS,
        forall|i: nat|
            i < ids@.len() && unicast(ids@[i as int]) ==> (position_read_by(
                ids@[i as int],
                #[trigger] events(i),
            ) matches Some(read) && (read matches Err(message) ==> !connection_broken(message))),
    ensures
        ({
            let start = host_start(ClientMessage::ReadPositions { ids }, controller)->Some_0;
            collected(start, events, 6) == Some(
                Ok::<ServerView, Seq<char>>(
                    ServerView::Positions {
                        positions: servos_read(ids@, events, ids@.len()),
                        errors: servos_missed(ids@, events, ids@.len()),
                    },
                ),
            )
        }),
{
    rest_is_collected(ids@, 0, controller, events, 6);
}

/// A search that succeeds reports addresses of its range only.
pub proof fn searches_report_their_range(start_id: u8, end_id: u8, ids: Vec<u8>)
    requires
        reported_scan(start_id, end_id, Ok(ids)) is Ok,
    ensures
        forall|i: int| 0 <= i < ids@.len() ==> start_id <= #[trigger] ids@[i] <= end_id && unicast(
            ids@[i],
        ),
{
    no_stray_ids(ids@, start_id, end_id);
}

proof fn no_stray_ids(ids: Seq<u8>, start_id: u8, end_id: u8)
    requires
        stray_id(ids, start_id, end_id) is None,
    ensures
        forall|i: int| 0 <= i < ids.len() ==> start_id <= #[trigger] ids[i] <= end_id && unicast(
            ids[i],
        ),
    decreases ids.len(),
{
    if ids.len() > 0 {
        let rest = ids.drop_first();
        no_stray_ids(rest, start_id, end_id);
        assert forall|i: int| 0 <= i < ids.len() implies start_id <= #[trigger] ids[i] <= end_id
            && unicast(ids[i]) by {
            if i > 0 {
                assert(rest[i - 1] == ids[i]);
            }
        }
    }
}

/// The host passes on to the MCU exactly the commands that the MCU carries out: it refuses those
/// that the MCU would refuse for their arguments.
pub proof fn host_and_mcu_refuse_the_same_commands(
    id: u8,
    other_id: u8,
    direction: Direction,
    value: u16,
    limit: u16,
    acceleration: u8,
)
    ensures
        host_start(
            ClientMessage::StartMotor { id, speed: value, acceleration, direction },
            true,
        )->Some_0.1 is Call <==> run_start(
            ControllerCommand::StartMotor {
                id,
                counter_clockwise: direction is Counterclockwise,
                speed: value,
                acceleration,
            },
        ).1 is Exchange,
        host_start(ClientMessage::StopMotor { id }, true)->Some_0.1 is Call <==> run_start(
            ControllerCommand::StopMotor { id },
        ).1 is Exchange,
        host_start(
            ClientMessage::MovePosition { id, position: value, acceleration, torque_limit: limit },
            true,
        )->Some_0.1 is Call <==> run_start(
            ControllerCommand::SetPosition {
                id,
                position: value,
                acceleration,
                torque_limit: limit,
            },
        ).1 is Exchange,
        host_start(ClientMessage::ReadPosition { id }, true)->Some_0.1 is Call <==> run_start(
            ControllerCommand::GetPosition { id },
        ).1 is Exchange,
        host_start(
            ClientMessage::ScanServos { start_id: id, end_id: other_id },
            true,
        )->Some_0.1 is Call <==> run_start(
            ControllerCommand::ScanServos { start_id: id, end_id: other_id },
        ).1 is Exchange,
        host_start(
            ClientMessage::SetServoId { current_id: id, new_id: other_id },
            true,
        )->Some_0.1 is Call <==> run_start(
            ControllerCommand::SetId { current_id: id, new_id: other_id },
        ).1 is Exchange,
{
}

/// Through the raw tunnel the host sends a servo the instructions that the MCU would send it.
pub proof fn raw_mode_sends_the_instructions_of_the_mcu(
    id: u8,
    direction: Direction,
    value: u16,
    limit: u16,
    acceleration: u8,
)
    requires
        unicast(id),
        value <= 4095,
        limit <= 1000,
    ensures
        ({
            let plan = start_plan(id, direction is Counterclockwise, value, acceleration);
            &&& host_start(
                ClientMessage::StartMotor { id, speed: value, acceleration, direction },
                false,
            ) == Some(writing_from(plan, 0, "motor_started"@))
            &&& run_start(
                ControllerCommand::StartMotor {
                    id,
                    counter_clockwise: direction is Counterclockwise,
                    speed: value,
                    acceleration,
                },
            ) == sequence_from(GoalView::Accepted, plan, 0)
        }),
        host_start(ClientMessage::StopMotor { id }, false) == Some(
            writing_from(stop_plan(id), 0, "motor_stopped"@),
        ) && run_start(ControllerCommand::StopMotor { id }) == sequence_from(
            GoalView::Accepted,
            stop_plan(id),
            0,
        ),
        ({
            let plan = move_plan(id, value, acceleration, limit);
            &&& host_start(
                ClientMessage::MovePosition {
                    id,
                    position: value,
                    acceleration,
                    torque_limit: limit,
                },
                false,
            ) == Some(writing_from(plan, 0, "position_commanded"@))
            &&& run_start(
                ControllerCommand::SetPosition {
                    id,
                    position: value,
                    acceleration,
                    torque_limit: limit,
                },
            ) == sequence_from(GoalView::Accepted, plan, 0)
        }),
{
}

/// The instructions that a request sends through the raw tunnel from a step on, and its result,
/// where `replies` gives what happens to each instruction by its number and `sent` were sent
/// before. At most `fuel` steps are followed.
pub open spec fn raw_trace(
    step: (HostRunView, HostActionView),
    replies: spec_fn(nat) -> HostEvent,
    sent: nat,
    fuel: nat,
) -> (Seq<TransactionView>, Option<Result<ServerView, Seq<char>>>)
    decreases fuel,
{
    match step.1 {
        HostActionView::Finish(result) => (Seq::empty(), Some(result)),
        HostActionView::Call { .. } => (Seq::empty(), None),
        HostActionView::Exchange(transaction) => if fuel == 0 {
            (Seq::empty(), None)
        } else {
            match host_step(step.0, replies(sent)) {
                Some(next) => {
                    let rest = raw_trace(next, replies, sent + 1, (fuel - 1) as nat);
                    (seq![transaction] + rest.0, rest.1)
                },
                None => (seq![transaction], None),
            }
        },
    }
}

/// A sequence of instructions that the servo accepts is sent in order, each once, and completes.
pub proof fn raw_sequences_run_in_order(
    plan: Seq<TransactionView>,
    at: nat,
    action: Seq<char>,
    replies: spec_fn(nat) -> HostEvent,
    fuel: nat,
)
    requires
        at <= plan.len() <= fuel + at,
        forall|i: nat|
            at <= i < plan.len() ==> (#[trigger] replies(i) matches HostEvent::Exchanged(Ok(_))),
    ensures
        raw_trace(writing_from(plan, at, action), replies, at, fuel) == (
            plan.skip(at as int),
            Some(Ok::<ServerView, Seq<char>>(ServerView::Complete { action })),
        ),
    decreases plan.len() - at,
{
    if at == plan.len() {
        assert(plan.skip(at as int) =~= Seq::<TransactionView>::empty());
    } else {
        assert(replies(at) matches HostEvent::Exchanged(Ok(_)));
        raw_sequences_run_in_order(plan, at + 1, action, replies, (fuel - 1) as nat);
        assert(plan.skip(at as int) =~= seq![plan[at as int]] + plan.skip(at as int + 1));
    }
}

/// A sequence of instructions stops at the first one that the servo does not accept, and fails as
/// that one did.
pub proof fn raw_sequences_stop_at_the_first_failure(
    plan: Seq<TransactionView>,
    at: nat,
    action: Seq<char>,
    replies: spec_fn(nat) -> HostEvent,
    failed: nat,
    message: String,
    fuel: nat,
)
    requires
        at <= failed < plan.len(),
        fuel + at > failed,
        forall|i: nat|
            at <= i < failed ==> (#[trigger] replies(i) matches HostEvent::Exchanged(Ok(_))),
        replies(failed) == HostEvent::Exchanged(Err(message)),
    ensures
        raw_trace(writing_from(plan, at, action), replies, at, fuel) == (
            plan.subrange(at as int, failed as int + 1),
            Some(Err::<ServerView, Seq<char>>(message@)),
        ),
    decreases failed - at,
{
    let sent = plan.subrange(at as int, failed as int + 1);
    if at == failed {
        let next = request_fails(message@);
        assert(raw_trace(next, replies, at + 1, (fuel - 1) as nat) == (
            Seq::<TransactionView>::empty(),
            Some(Err::<ServerView, Seq<char>>(message@)),
        ));
        assert(sent =~= seq![plan[at as int]] + Seq::<TransactionView>::empty());
    } else {
        assert(replies(at) matches HostEvent::Exchanged(Ok(_)));
        raw_sequences_stop_at_the_first_failure(
            plan,
            at + 1,
            action,
            replies,
            failed,
            message,
            (fuel - 1) as nat,
        );
        assert(sent =~= seq![plan[at as int]] + plan.subrange(at as int + 1, failed as int + 1));
    }
}

/// The browser is told that the MCU carried out a command only where the MCU said so.
pub proof fn commands_complete_where_accepted(event: HostEvent, action: Seq<char>)
    ensures
        host_step(HostRunView::Accepting { action }, event) == Some(
            request_succeeds(ServerView::Complete { action }),
        ) <==> (event matches HostEvent::Called(Ok(CallReply::Value(result))) && is_affirmed(
            result,
            "accepted"@,
        )),
{
}

/// The bus is done with a search before the host gives up on it: each address takes at most the
/// time of a reply and of draining the bus.
pub proof fn searches_end_in_time(start_id: u8, end_id: u8)
    requires
        scannable(start_id, end_id),
    ensures
        (end_id - start_id + 1) * (STS_RESPONSE_TIMEOUT_MS + MAX_DRAIN_READS * DRAIN_QUIET_MS)
            < SERVO_SCAN_TIMEOUT_MS,
{
    assert((end_id - start_id + 1) * 58 < 20000);
    assert(MAX_DRAIN_READS * DRAIN_QUIET_MS == 8) by (nonlinear_arith);
    assert(STS_RESPONSE_TIMEOUT_MS + MAX_DRAIN_READS * DRAIN_QUIET_MS == 58);
}

/// The number that an object has under a name.
pub open spec fn number_in(object: Map<Seq<char>, JsonModel>, name: Seq<char>) -> Option<nat> {
    if object.contains_key(name) {
        match object[name] {
            JsonModel::Number(number) => Some(number),
            _ => None,
        }
    } else {
        None
    }
}

/// Whether a parameter is the byte that an object has under a name, or is missing with it.
pub open spec fn is_byte_in(
    object: Map<Seq<char>, JsonModel>,
    name: Seq<char>,
    value: Option<u8>,
) -> bool {
    match number_in(object, name) {
        Some(number) => value matches Some(value) && value == number,
        None => value is None,
    }
}

/// Whether a parameter is the word that an object has under a name, or is missing with it.
pub open spec fn is_word_in(
    object: Map<Seq<char>, JsonModel>,
    name: Seq<char>,
    value: Option<u16>,
) -> bool {
    match number_in(object, name) {
        Some(number) => value matches Some(value) && value == number,
        None => value is None,
    }
}

/// Whether parameters are what the MCU reads out of an object: each under its name.
pub open spec fn are_read_from(params: JsonRpcParams, object: Map<Seq<char>, JsonModel>) -> bool {
    &&& is_byte_in(object, "id"@, params.id)
    &&& is_word_in(object, "speed"@, params.speed)
    &&& is_byte_in(object, "acceleration"@, params.acceleration)
    &&& is_word_in(object, "position"@, params.position)
    &&& is_word_in(object, "torqueLimit"@, params.torque_limit)
    &&& is_byte_in(object, "startId"@, params.start_id)
    &&& is_byte_in(object, "endId"@, params.end_id)
    &&& is_byte_in(object, "currentId"@, params.current_id)
    &&& is_byte_in(object, "newId"@, params.new_id)
    &&& object.contains_key("direction"@) && object["direction"@] == JsonModel::Text("clockwise"@)
        ==> params.direction == Some(MotorDirection::Clockwise)
    &&& object.contains_key("direction"@) && object["direction"@] == JsonModel::Text(
        "counterclockwise"@,
    ) ==> params.direction == Some(MotorDirection::Counterclockwise)
}

proof fn parameters_are_told_apart()
    ensures
        "id"@.len() == 2,
        "speed"@.len() == 5,
        "acceleration"@.len() == 12,
        "position"@.len() == 8,
        "torqueLimit"@.len() == 11,
        "direction"@.len() == 9,
        "startId"@.len() == 7,
        "endId"@.len() == 5,
        "currentId"@.len() == 9,
        "newId"@.len() == 5,
        "newId"@[0] == 'n' && "endId"@[0] == 'e' && "speed"@[0] == 's',
        "direction"@[0] == 'd' && "currentId"@[0] == 'c',
        "clockwise"@.len() == 9,
        "counterclockwise"@.len() == 16,
{
    reveal_strlit("id");
    reveal_strlit("speed");
    reveal_strlit("acceleration");
    reveal_strlit("position");
    reveal_strlit("torqueLimit");
    reveal_strlit("direction");
    reveal_strlit("startId");
    reveal_strlit("endId");
    reveal_strlit("currentId");
    reveal_strlit("newId");
    reveal_strlit("clockwise");
    reveal_strlit("counterclockwise");
}

/// The command that a browser's request is for.
pub open spec fn is_command_of(command: ControllerCommand, request: ClientMessage) -> bool {
    match request {
        ClientMessage::StartMotor { id, speed, acceleration, direction } => command == (
        ControllerCommand::StartMotor {
            id,
            counter_clockwise: direction == Direction::Counterclockwise,
            speed,
            acceleration,
        }),
        ClientMessage::StopMotor { id } => command == (ControllerCommand::StopMotor { id }),
        ClientMessage::MovePosition { id, position, acceleration, torque_limit } => command == (
        ControllerCommand::SetPosition { id, position, acceleration, torque_limit }),
        ClientMessage::ReadPosition { id } => command == (ControllerCommand::GetPosition { id }),
        ClientMessage::ScanServos { start_id, end_id } => command == (
        ControllerCommand::ScanServos { start_id, end_id }),
        ClientMessage::SetServoId { current_id, new_id } => command == (ControllerCommand::SetId {
            current_id,
            new_id,
        }),
        ClientMessage::ReadPositions { .. } | ClientMessage::Connect { .. } => false,
    }
}

/// What a browser asks for is what the MCU is told: the method and the parameters of the host's
/// call stand for the command of the request, with the same values.
pub proof fn commands_arrive_as_they_were_asked_for(
    request: ClientMessage,
    run: HostRunView,
    method: Seq<char>,
    object: Map<Seq<char>, JsonModel>,
    timeout_ms: u64,
    reply: ReplyKind,
    params: JsonRpcParams,
)
    requires
        !(request is ReadPositions),
        host_start(request, true) == Some(
            (run, HostActionView::Call { method, params: object, timeout_ms, reply }),
        ),
        are_read_from(params, object),
    ensures
        requested_command(method, params) matches Ok(command) && is_command_of(command, request),
        timeout_ms == if request is ScanServos {
            20000u64
        } else {
            750
        },
{
    parameters_are_told_apart();
    methods_stand_for_their_commands(params);
    match request {
        ClientMessage::StartMotor { id, speed, acceleration, direction } => {
            assert(number_in(object, "id"@) == Some(id as nat));
            assert(number_in(object, "speed"@) == Some(speed as nat));
            assert(number_in(object, "acceleration"@) == Some(acceleration as nat));
        },
        ClientMessage::MovePosition { id, position, acceleration, torque_limit } => {
            assert(number_in(object, "id"@) == Some(id as nat));
            assert(number_in(object, "position"@) == Some(position as nat));
            assert(number_in(object, "acceleration"@) == Some(acceleration as nat));
            assert(number_in(object, "torqueLimit"@) == Some(torque_limit as nat));
        },
        ClientMessage::StopMotor { id } | ClientMessage::ReadPosition { id } => {
            assert(number_in(object, "id"@) == Some(id as nat));
        },
        ClientMessage::ScanServos { start_id, end_id } => {
            assert(number_in(object, "startId"@) == Some(start_id as nat));
            assert(number_in(object, "endId"@) == Some(end_id as nat));
        },
        ClientMessage::SetServoId { current_id, new_id } => {
            assert(number_in(object, "currentId"@) == Some(current_id as nat));
            assert(number_in(object, "newId"@) == Some(new_id as nat));
        },
        _ => {},
    }
}

/// The MCU is called for every request whose arguments are in range: addresses of single servos,
/// a speed and a position of at most 4095, a torque limit of at most 1000, a range that is not
/// empty, and two different addresses. Any other such request fails without a call.
pub proof fn requests_in_range_are_passed_on(request: ClientMessage)
    requires
        !(request is ReadPositions) && !(request is Connect),
    ensures
        ({
            let action = host_start(request, true)->Some_0.1;
            let passed = match request {
                ClientMessage::StartMotor { id, speed, .. } => 0 < id < 254 && speed < 4096,
                ClientMessage::StopMotor { id } | ClientMessage::ReadPosition { id } => 0 < id
                    < 254,
                ClientMessage::MovePosition { id, position, torque_limit, .. } => 0 < id < 254
                    && position < 4096 && torque_limit < 1001,
                ClientMessage::ScanServos { start_id, end_id } => 0 < start_id <= end_id < 254,
                ClientMessage::SetServoId { current_id, new_id } => 0 < current_id < 254 && 0
                    < new_id < 254 && current_id != new_id,
                _ => true,
            };
            &&& host_start(request, true) is Some
            &&& passed ==> action is Call
            &&& !passed ==> action matches HostActionView::Finish(Err(_))
        }),
{
}

/// Each time a position of several is asked for, it is that of the servo whose turn it is.
pub proof fn positions_are_asked_for_in_turn(
    ids: Seq<u8>,
    at: nat,
    controller: bool,
    positions: Seq<Position>,
    errors: Seq<Seq<char>>,
    params: JsonRpcParams,
)
    ensures
        ({
            let (run, action) = collecting_from(ids, at, controller, positions, errors);
            &&& !(action is Finish) ==> (run matches HostRunView::Collecting {
                ids: of,
                at: turn,
                controller: mode,
                ..
            } && of == ids && mode == controller && at <= turn < ids.len() && 0 < ids[turn as int]
                < 254 && (forall|i: int| at <= i < turn ==> !(0 < #[trigger] ids[i] < 254)) && match
            action {
                HostActionView::Call { method, params: object, timeout_ms, .. } => controller
                    && timeout_ms == 750 && (are_read_from(params, object) ==> requested_command(
                    method,
                    params,
                ) == Ok::<ControllerCommand, crate::rpc::RpcFailure>(
                    ControllerCommand::GetPosition { id: ids[turn as int] },
                )),
                HostActionView::Exchange(transaction) => !controller && transaction.id
                    == ids[turn as int] && transaction.instruction == 2 && transaction.parameters
                    == seq![56u8, 2u8] && transaction.reply_len == 2,
                HostActionView::Finish(_) => false,
            })
            &&& action is Finish <==> forall|i: int| at <= i < ids.len() ==> !(0 < #[trigger] ids[i]
                < 254)
        }),
    decreases ids.len() - at,
{
    if at < ids.len() {
        let id = ids[at as int];
        if !unicast(id) {
            positions_are_asked_for_in_turn(
                ids,
                at + 1,
                controller,
                positions,
                errors.push(read_error(id, ID_INVALID@)),
                params,
            );
        } else {
            let object = servo_params(id);
            assert(number_in(object, "id"@) == Some(id as nat));
            methods_stand_for_their_commands(params);
        }
    }
}

/// Whether a step ends a request with the given answer.
pub open spec fn ends_with(
    step: Option<(HostRunView, HostActionView)>,
    answer: ServerView,
) -> bool {
    step matches Some((_, HostActionView::Finish(Ok(found)))) && found == answer
}

/// Whether a step ends a request with an error.
pub open spec fn ends_in_error(step: Option<(HostRunView, HostActionView)>) -> bool {
    step matches Some((_, HostActionView::Finish(Err(_))))
}

/// What the MCU reports is what the browser is answered, where it fits the request: the position
/// of the servo that was asked for, addresses of the range that was searched, or the two addresses
/// of the change. Otherwise the browser is answered with an error.
pub proof fn reports_that_fit_are_answered(
    id: u8,
    other_id: u8,
    position: Position,
    ids: Vec<u8>,
    change: ServoIdChangeResult,
)
    ensures
        ({
            let step = host_step(
                HostRunView::Locating { id },
                HostEvent::Called(Ok(CallReply::Position(Ok(position)))),
            );
            &&& position.id == id ==> ends_with(
                step,
                ServerView::Position { id, position: position.position },
            )
            &&& position.id != id ==> ends_in_error(step)
        }),
        ({
            let step = host_step(
                HostRunView::Scanning { start_id: id, end_id: other_id },
                HostEvent::Called(Ok(CallReply::Scan(Ok(ids)))),
            );
            let fits = forall|i: int|
                0 <= i < ids@.len() ==> id <= #[trigger] ids@[i] <= other_id && 0 < ids@[i] < 254;
            &&& fits ==> ends_with(
                step,
                ServerView::ServoScan { start_id: id, end_id: other_id, ids: ids@ },
            )
            &&& !fits ==> ends_in_error(step)
        }),
        ({
            let step = host_step(
                HostRunView::Renaming { current_id: id, new_id: other_id },
                HostEvent::Called(Ok(CallReply::IdChange(Ok(change)))),
            );
            let fits = change.previous_id == id && change.new_id == other_id;
            &&& fits ==> ends_with(
                step,
                ServerView::ServoIdChanged { previous_id: id, new_id: other_id },
            )
            &&& !fits ==> ends_in_error(step)
        }),
{
    strays_are_found(ids@, id, other_id);
}

proof fn strays_are_found(ids: Seq<u8>, start_id: u8, end_id: u8)
    ensures
        stray_id(ids, start_id, end_id) is None <==> forall|i: int|
            0 <= i < ids.len() ==> start_id <= #[trigger] ids[i] <= end_id && 0 < ids[i] < 254,
    decreases ids.len(),
{
    if ids.len() > 0 {
        let rest = ids.drop_first();
        strays_are_found(rest, start_id, end_id);
        if stray_id(ids, start_id, end_id) is None {
            no_stray_ids(ids, start_id, end_id);
        } else if forall|i: int|
            0 <= i < ids.len() ==> start_id <= #[trigger] ids[i] <= end_id && 0 < ids[i] < 254 {
            assert(ids[0] == ids[0]);
            assert forall|i: int| 0 <= i < rest.len() implies start_id <= #[trigger] rest[i]
                <= end_id && 0 < rest[i] < 254 by {
                assert(rest[i] == ids[i + 1]);
            }
        }
    }
}

/// Through the raw tunnel a position is asked for in the two registers from 56 on, and answered
/// with what the two bytes of the reply stand for: a magnitude, low byte first, with the sign in
/// the highest bit.
pub proof fn raw_positions_are_answered_as_they_are(
    id: u8,
    magnitude: u16,
    negative: bool,
    reply: Vec<u8>,
)
    requires
        0 < id < 254,
        magnitude <= 32767,
        reply@ == seq![
            (magnitude % 256) as u8,
            (magnitude / 256 + if negative {
                128int
            } else {
                0
            }) as u8,
        ],
    ensures
        host_start(ClientMessage::ReadPosition { id }, false) matches Some((run, action)) && {
            &&& action == HostActionView::Exchange(
                TransactionView {
                    id,
                    instruction: 2,
                    parameters: seq![56u8, 2u8],
                    reply_len: 2,
                },
            )
            &&& host_step(run, HostEvent::Exchanged(Ok(reply))) matches Some(
                (_, HostActionView::Finish(Ok(ServerView::Position { id: of, position }))),
            ) && of == id && position == if negative {
                -magnitude
            } else {
                magnitude as int
            }
        },
{
    servo_bus::written_positions_are_read_back(magnitude);
}

/// The instructions that a request sends through the raw tunnel while the servo accepts them, and
/// its result.
pub open spec fn raw_run(request: ClientMessage, replies: spec_fn(nat) -> HostEvent) -> (
    Seq<TransactionView>,
    Option<Result<ServerView, Seq<char>>>,
) {
    raw_trace(host_start(request, false)->Some_0, replies, 0, 3)
}

/// Whether an instruction writes the given bytes: the first register, then the data.
pub open spec fn writes(transaction: TransactionView, id: u8, parameters: Seq<u8>) -> bool {
    transaction.id == id && transaction.instruction == 3 && transaction.parameters == parameters
        && transaction.reply_len == 0
}

/// Through the raw tunnel a motor is started and stopped, and a servo moved, with these registers
/// and bytes: mode 33, torque 40, torque limit 48, and from 41 on the acceleration, the position
/// and the speed, low bytes first, with 128 added to the high byte of the speed where the motor
/// turns counter-clockwise.
pub proof fn raw_commands_write_these_registers(
    id: u8,
    direction: Direction,
    value: u16,
    limit: u16,
    acceleration: u8,
    replies: spec_fn(nat) -> HostEvent,
)
    requires
        0 < id < 254,
        value < 4096,
        limit < 1001,
        forall|i: nat| i < 3 ==> (#[trigger] replies(i) matches HostEvent::Exchanged(Ok(_))),
    ensures
        ({
            let (sent, result) = raw_run(
                ClientMessage::StartMotor { id, speed: value, acceleration, direction },
                replies,
            );
            let high = value / 256 + if direction == Direction::Counterclockwise {
                128int
            } else {
                0
            };
            &&& result == Some(
                Ok::<ServerView, Seq<char>>(ServerView::Complete { action: "motor_started"@ }),
            )
            &&& sent.len() == 3
            &&& writes(sent[0], id, seq![33u8, 1u8])
            &&& writes(sent[1], id, seq![40u8, 1u8])
            &&& writes(
                sent[2],
                id,
                seq![41u8, acceleration, 0, 0, 0, 0, (value % 256) as u8, high as u8],
            )
        }),
        ({
            let (sent, result) = raw_run(ClientMessage::StopMotor { id }, replies);
            &&& result == Some(
                Ok::<ServerView, Seq<char>>(ServerView::Complete { action: "motor_stopped"@ }),
            )
            &&& sent.len() == 1
            &&& writes(sent[0], id, seq![41u8, 0, 0, 0, 0, 0, 0, 0])
        }),
        ({
            let (sent, result) = raw_run(
                ClientMessage::MovePosition {
                    id,
                    position: value,
                    acceleration,
                    torque_limit: limit,
                },
                replies,
            );
            &&& result == Some(
                Ok::<ServerView, Seq<char>>(ServerView::Complete { action: "position_commanded"@ }),
            )
            &&& sent.len() == 3
            &&& writes(sent[0], id, seq![40u8, 1u8])
            &&& writes(sent[1], id, seq![48u8, (limit % 256) as u8, (limit / 256) as u8])
            &&& writes(
                sent[2],
                id,
                seq![
                    41u8,
                    acceleration,
                    (value % 256) as u8,
                    (value / 256) as u8,
                    0,
                    0,
                    0,
                    0,
                ],
            )
        }),
{
    let counter_clockwise = direction == Direction::Counterclockwise;
    let start = start_plan(id, counter_clockwise, value, acceleration);
    let stop = stop_plan(id);
    let moving = move_plan(id, value, acceleration, limit);
    raw_sequences_run_in_order(start, 0, "motor_started"@, replies, 3);
    raw_sequences_run_in_order(stop, 0, "motor_stopped"@, replies, 3);
    raw_sequences_run_in_order(moving, 0, "position_commanded"@, replies, 3);
    assert(start.skip(0) =~= start && stop.skip(0) =~= stop && moving.skip(0) =~= moving);
    let high = value / 256 + if counter_clockwise {
        128int
    } else {
        0
    };
    assert(start[0].parameters =~= seq![33u8, 1u8]);
    assert(start[1].parameters =~= seq![40u8, 1u8]);
    assert(start[2].parameters =~= seq![
        41u8,
        acceleration,
        0,
        0,
        0,
        0,
        (value % 256) as u8,
        high as u8,
    ]);
    assert(stop[0].parameters =~= seq![41u8, 0, 0, 0, 0, 0, 0, 0]);
    assert(moving[0].parameters =~= seq![40u8, 1u8]);
    assert(moving[1].parameters =~= seq![48u8, (limit % 256) as u8, (limit / 256) as u8]);
    assert(moving[2].parameters =~= seq![
        41u8,
        acceleration,
        (value % 256) as u8,
        (value / 256) as u8,
        0,
        0,
        0,
        0,
    ]);
}

/// From the browser to the bus and back: a search asks every address of the range that the browser
/// named, and the browser is answered with that range and exactly the addresses of it that
/// answered.
pub proof fn searches_find_the_servos_of_the_asked_range(
    start_id: u8,
    end_id: u8,
    run: HostRunView,
    method: Seq<char>,
    object: Map<Seq<char>, JsonModel>,
    timeout_ms: u64,
    reply: ReplyKind,
    params: JsonRpcParams,
    bus: spec_fn(nat) -> Result<Seq<u8>, ServoFailure>,
    reported: Vec<u8>,
)
    requires
        0 < start_id <= end_id < 254,
        host_start(ClientMessage::ScanServos { start_id, end_id }, true) == Some(
            (run, HostActionView::Call { method, params: object, timeout_ms, reply }),
        ),
        are_read_from(params, object),
        forall|i: nat| #[trigger] bus(i) != Err::<Seq<u8>, ServoFailure>(ServoFailure::Transport),
    ensures
        ({
            let asked = requested_command(method, params);
            let (packets, result) = trace(run_start(asked->Ok_0), bus, 0, 506);
            &&& asked is Ok
            &&& packets.len() == end_id - start_id + 1
            &&& forall|i: int|
                0 <= i < packets.len() ==> crate::controller::carries(
                    #[trigger] packets[i],
                    seq![(start_id + i) as u8, 2, 1],
                )
            &&& result matches Some(Ok(ResultView::Servos(ids))) && {
                &&& forall|id: u8|
                    #[trigger] ids.contains(id) <==> start_id <= id <= end_id && bus(
                        (id - start_id) as nat,
                    ) is Ok
                &&& reported@ == ids ==> ends_with(
                    host_step(run, HostEvent::Called(Ok(CallReply::Scan(Ok(reported))))),
                    ServerView::ServoScan { start_id, end_id, ids },
                )
            }
        }),
{
    let request = ClientMessage::ScanServos { start_id, end_id };
    commands_arrive_as_they_were_asked_for(request, run, method, object, timeout_ms, reply, params);
    searches_ask_each_address_of_their_range(start_id, end_id, bus);
    let (packets, result) = trace(
        run_start(ControllerCommand::ScanServos { start_id, end_id }),
        bus,
        0,
        506,
    );
    let ids = result->Some_0->Ok_0->Servos_0;
    assert forall|i: int| 0 <= i < ids.len() implies start_id <= #[trigger] ids[i] <= end_id by {
        assert(ids.contains(ids[i]));
    }
    reports_that_fit_are_answered(
        start_id,
        end_id,
        Position { id: 0, position: 0 },
        reported,
        ServoIdChangeResult { previous_id: 0, new_id: 0 },
    );
}

/// From the browser to the bus and back: the servo that the browser named gets the address that
/// the browser named, in its register 5, and the browser is told of these two addresses.
pub proof fn servos_get_the_address_that_was_asked_for(
    current_id: u8,
    new_id: u8,
    run: HostRunView,
    method: Seq<char>,
    object: Map<Seq<char>, JsonModel>,
    timeout_ms: u64,
    reply: ReplyKind,
    params: JsonRpcParams,
    bus: spec_fn(nat) -> Result<Seq<u8>, ServoFailure>,
)
    requires
        0 < current_id < 254,
        0 < new_id < 254,
        current_id != new_id,
        host_start(ClientMessage::SetServoId { current_id, new_id }, true) == Some(
            (run, HostActionView::Call { method, params: object, timeout_ms, reply }),
        ),
        are_read_from(params, object),
        bus(0) is Ok,
        bus(1) == Err::<Seq<u8>, ServoFailure>(ServoFailure::Timeout),
        bus(2) == Ok::<Seq<u8>, ServoFailure>(Seq::empty()),
        bus(3) is Ok,
    ensures
        ({
            let asked = requested_command(method, params);
            let (packets, result) = trace(run_start(asked->Ok_0), bus, 0, 5);
            &&& asked is Ok
            &&& packets.len() == 4
            &&& crate::controller::carries(packets[2], seq![current_id, 4, 3, 5, new_id])
            &&& result matches Some(Ok(ResultView::IdChanged { previous_id, new_id: given })) && {
                &&& previous_id == current_id
                &&& given == new_id
                &&& ends_with(
                    host_step(
                        run,
                        HostEvent::Called(
                            Ok(
                                CallReply::IdChange(
                                    Ok(ServoIdChangeResult { previous_id, new_id: given }),
                                ),
                            ),
                        ),
                    ),
                    ServerView::ServoIdChanged { previous_id: current_id, new_id },
                )
            }
        }),
{
    let request = ClientMessage::SetServoId { current_id, new_id };
    commands_arrive_as_they_were_asked_for(request, run, method, object, timeout_ms, reply, params);
    crate::executor::addresses_are_changed_in_register_5(current_id, new_id, bus);
}

/// Over a connection in controller mode each request in range waits for a reply of its kind, and
/// is answered from it: a command that the MCU accepted with what was done, a position with the
/// servo that was asked for.
pub proof fn accepted_requests_are_answered(
    id: u8,
    value: u16,
    limit: u16,
    acceleration: u8,
    direction: Direction,
    accepted: serde_json::Value,
    position: Position,
)
    requires
        0 < id < 254,
        value < 4096,
        limit < 1001,
        is_affirmed(accepted, "accepted"@),
        position.id == id,
    ensures
        ({
            let event = HostEvent::Called(Ok(CallReply::Value(accepted)));
            let (start, asked) = host_start(
                ClientMessage::StartMotor { id, speed: value, acceleration, direction },
                true,
            )->Some_0;
            let (stop, asked_stop) = host_start(ClientMessage::StopMotor { id }, true)->Some_0;
            let (moving, asked_move) = host_start(
                ClientMessage::MovePosition {
                    id,
                    position: value,
                    acceleration,
                    torque_limit: limit,
                },
                true,
            )->Some_0;
            let (reading, asked_read) = host_start(ClientMessage::ReadPosition { id }, true)->Some_0;
            &&& asked->reply == ReplyKind::Value && ends_with(
                host_step(start, event),
                ServerView::Complete { action: "motor_started"@ },
            )
            &&& asked_stop->reply == ReplyKind::Value && ends_with(
                host_step(stop, event),
                ServerView::Complete { action: "motor_stopped"@ },
            )
            &&& asked_move->reply == ReplyKind::Value && ends_with(
                host_step(moving, event),
                ServerView::Complete { action: "position_commanded"@ },
            )
            &&& asked_read->reply == ReplyKind::Position && ends_with(
                host_step(
                    reading,
                    HostEvent::Called(Ok(CallReply::Position(Ok(position)))),
                ),
                ServerView::Position { id, position: position.position },
            )
        }),
{
}

/// A search waits for a list of addresses, a change of address for the two addresses.
pub proof fn searches_and_changes_wait_for_their_kind(id: u8, other_id: u8)
    ensures
        0 < id <= other_id < 254 ==> (host_start(
            ClientMessage::ScanServos { start_id: id, end_id: other_id },
            true,
        )->Some_0.1 matches HostActionView::Call { reply, .. } && reply == ReplyKind::Scan),
        0 < id < 254 && 0 < other_id < 254 && id != other_id ==> (host_start(
            ClientMessage::SetServoId { current_id: id, new_id: other_id },
            true,
        )->Some_0.1 matches HostActionView::Call { reply, .. } && reply == ReplyKind::IdChange),
{
}

/// A command that the MCU answered without accepting it fails with a message of its own.
pub proof fn commands_that_are_not_accepted_fail(action: Seq<char>, result: serde_json::Value)
    requires
        !is_affirmed(result, "accepted"@),
    ensures
        host_step(
            HostRunView::Accepting { action },
            HostEvent::Called(Ok(CallReply::Value(result))),
        )->Some_0.1 == HostActionView::Finish(
            Err("MCU rejected the controller command without an accepted result"@),
        ),
{
}

/// Whether a request ends at once with the given error.
pub open spec fn is_refused(request: ClientMessage, controller: bool, message: Seq<char>) -> bool {
    host_start(request, controller) matches Some((_, HostActionView::Finish(Err(found)))) && found
        == message
}

/// An argument out of range is named, in this order: the address, then the speed, the position or
/// the torque limit. A search and a change of address need a connection in controller mode.
pub proof fn arguments_out_of_range_are_named(
    id: u8,
    other_id: u8,
    value: u16,
    limit: u16,
    acceleration: u8,
    direction: Direction,
    ids: Vec<u8>,
    controller: bool,
)
    ensures
        ({
            let start = ClientMessage::StartMotor { id, speed: value, acceleration, direction };
            let stop = ClientMessage::StopMotor { id };
            let moving = ClientMessage::MovePosition {
                id,
                position: value,
                acceleration,
                torque_limit: limit,
            };
            let read = ClientMessage::ReadPosition { id };
            let several = ClientMessage::ReadPositions { ids };
            let search = ClientMessage::ScanServos { start_id: id, end_id: other_id };
            let change = ClientMessage::SetServoId { current_id: id, new_id: other_id };
            let single = 0 < id < 254;
            let wrong_id = "Servo ID must be between 1 and 253"@;
            &&& !single ==> is_refused(start, controller, wrong_id) && is_refused(
                stop,
                controller,
                wrong_id,
            ) && is_refused(moving, controller, wrong_id) && is_refused(read, controller, wrong_id)
            &&& single && value > 4095 ==> is_refused(
                start,
                controller,
                "Motor speed must be between 0 and 4095"@,
            ) && is_refused(moving, controller, "Position must be between 0 and 4095"@)
            &&& single && value < 4096 && limit > 1000 ==> is_refused(
                moving,
                controller,
                "Torque limit must be between 0 and 1000"@,
            )
            &&& ids@.len() > 6 <==> is_refused(
                several,
                controller,
                "At most six position servos can be read at once"@,
            )
            &&& !(0 < id <= other_id < 254) ==> is_refused(
                search,
                controller,
                "Servo search IDs must be between 1 and 253, with a start no greater than the end"@,
            )
            &&& 0 < id <= other_id < 254 ==> is_refused(
                search,
                false,
                "Servo search is available only in JSON-RPC controller mode, not through the raw debug tunnel"@,
            )
            &&& !single || !(0 < other_id < 254) ==> is_refused(change, controller, wrong_id)
            &&& single && id == other_id ==> is_refused(
                change,
                controller,
                "The current and new servo IDs must differ"@,
            )
            &&& single && 0 < other_id < 254 && id != other_id ==> is_refused(
                change,
                false,
                "Changing a servo ID is available only in JSON-RPC controller mode, not through the raw debug tunnel"@,
            )
        }),
{
    if ids@.len() <= 6 {
        positions_are_never_refused(ids@, 0, controller, Seq::empty(), Seq::empty());
    }
}

proof fn positions_are_never_refused(
    ids: Seq<u8>,
    at: nat,
    controller: bool,
    positions: Seq<Position>,
    errors: Seq<Seq<char>>,
)
    ensures
        !(collecting_from(ids, at, controller, positions, errors).1 matches HostActionView::Finish(
            Err(_),
        )),
    decreases ids.len() - at,
{
    if at < ids.len() && !unicast(ids[at as int]) {
        positions_are_never_refused(
            ids,
            at + 1,
            controller,
            positions,
            errors.push(read_error(ids[at as int], ID_INVALID@)),
        );
    }
}

/// A request that fails on the way ends with the message of the failure as it is.
pub proof fn failures_are_passed_on(run: HostRunView, message: String)
    requires
        !(run is Finished),
        run matches HostRunView::Collecting { ids, at, .. } ==> connection_broken(message@) && at
            < ids.len(),
    ensures
        ({
            let end = HostActionView::Finish(Err(message@));
            &&& !(run is Writing) && !(run is Reading) ==> host_step(
                run,
                HostEvent::Called(Err(message)),
            ) == Some((HostRunView::Finished, end))
            &&& run is Writing || run is Reading || run is Collecting ==> host_step(
                run,
                HostEvent::Exchanged(Err(message)),
            ) == Some((HostRunView::Finished, end))
        }),
{
}

/// A report that does not fit says what is wrong with it.
pub proof fn reports_that_do_not_fit_are_described(
    id: u8,
    other_id: u8,
    position: Position,
    cause: String,
    message: Seq<char>,
    ids: Vec<u8>,
    at: int,
)
    ensures
        reported_position(id, Err(cause)) == Err::<i16, Seq<char>>(
            "MCU returned an invalid position result"@ + ": "@ + cause@,
        ),
        position.id != id ==> reported_position(id, Ok(position)) == Err::<i16, Seq<char>>(
            "MCU returned a position for servo "@ + decimal(position.id as nat) + ", but servo "@
                + decimal(id as nat) + " was requested"@,
        ),
        reported_scan(id, other_id, Err(cause)) == Err::<ServerView, Seq<char>>(
            "MCU returned an invalid servo-scan result"@ + ": "@ + cause@,
        ),
        reported_change(id, other_id, Err(cause)) == Err::<ServerView, Seq<char>>(
            "MCU returned an invalid servo-ID change result"@ + ": "@ + cause@,
        ),
        read_error(id, message) == "Servo "@ + decimal(id as nat) + ": "@ + message,
        0 <= at < ids@.len() && !(id <= ids@[at] <= other_id && 0 < ids@[at] < 254) && (forall|
            i: int,
        |
            0 <= i < at ==> id <= #[trigger] ids@[i] <= other_id && 0 < ids@[i] < 254)
            ==> reported_scan(id, other_id, Ok(ids)) == Err::<ServerView, Seq<char>>(
            "MCU returned an invalid scanned servo ID "@ + decimal(ids@[at] as nat),
        ),
{
    if 0 <= at < ids@.len() && !(id <= ids@[at] <= other_id && 0 < ids@[at] < 254) && (forall|
        i: int,
    |
        0 <= i < at ==> id <= #[trigger] ids@[i] <= other_id && 0 < ids@[i] < 254) {
        first_strays_are_found(ids@, id, other_id, at);
    }
}

proof fn first_strays_are_found(ids: Seq<u8>, start_id: u8, end_id: u8, at: int)
    requires
        0 <= at < ids.len(),
        !(start_id <= ids[at] <= end_id && 0 < ids[at] < 254),
        forall|i: int| 0 <= i < at ==> start_id <= #[trigger] ids[i] <= end_id && 0 < ids[i] < 254,
    ensures
        stray_id(ids, start_id, end_id) == Some(ids[at]),
    decreases ids.len(),
{
    if at > 0 {
        let rest = ids.drop_first();
        assert(ids[0] == ids[0]);
        assert forall|i: int| 0 <= i < at - 1 implies start_id <= #[trigger] rest[i] <= end_id && 0
            < rest[i] < 254 by {
            assert(rest[i] == ids[i + 1]);
        }
        first_strays_are_found(rest, start_id, end_id, at - 1);
    }
}

/// A request to connect is carried out with its host and port, whether there is a connection or
/// not.
pub proof fn requests_to_connect_are_carried_out(host: String, port: u16, present: Option<bool>)
    ensures
        request_start(ClientMessage::Connect { host, port }, present) == (
        RequestStartView::Connect { host: host@, port }),
{
}

/// The browser gets the result of a request as it is, or the message of its failure.
pub proof fn results_are_answered_as_they_are(message: ServerView, error: Seq<char>)
    ensures
        request_answer(Ok(message)) == (message, true),
        request_answer(Err(error)).0 == (ServerView::Error {
            message: error,
            bridge_connected: !connection_broken(error),
        }),
        request_answer(Err(error)).1 == !connection_broken(error),
{
}

/// The log shows each request with its arguments, each after its name.
pub proof fn requests_are_summed_up_with_their_arguments(
    host: String,
    id: u8,
    other_id: u8,
    value: u16,
    limit: u16,
    acceleration: u8,
    ids: Vec<u8>,
)
    ensures
        summary_text(ClientMessage::Connect { host, port: value }) == "connect MCU "@ + host@ + ":"@
            + decimal(value as nat),
        summary_text(
            ClientMessage::StartMotor {
                id,
                speed: value,
                acceleration,
                direction: Direction::Clockwise,
            },
        ) == "start motor servo="@ + decimal(id as nat) + " direction="@ + "Clockwise"@ + " speed="@
            + decimal(value as nat) + " acceleration="@ + decimal(acceleration as nat),
        summary_text(
            ClientMessage::StartMotor {
                id,
                speed: value,
                acceleration,
                direction: Direction::Counterclockwise,
            },
        ) == "start motor servo="@ + decimal(id as nat) + " direction="@ + "Counterclockwise"@
            + " speed="@ + decimal(value as nat) + " acceleration="@ + decimal(
            acceleration as nat,
        ),
        summary_text(ClientMessage::StopMotor { id }) == "stop motor servo="@ + decimal(id as nat),
        summary_text(
            ClientMessage::MovePosition { id, position: value, acceleration, torque_limit: limit },
        ) == "move servo="@ + decimal(id as nat) + " position="@ + decimal(value as nat)
            + " acceleration="@ + decimal(acceleration as nat) + " torque_limit="@ + decimal(
            limit as nat,
        ),
        summary_text(ClientMessage::ReadPosition { id }) == "read position servo="@ + decimal(
            id as nat,
        ),
        summary_text(ClientMessage::ReadPositions { ids }) == "read positions servos="@
            + list_notation(ids@),
        summary_text(ClientMessage::ScanServos { start_id: id, end_id: other_id })
            == "scan servobus start_id="@ + decimal(id as nat) + " end_id="@ + decimal(
            other_id as nat,
        ),
        summary_text(ClientMessage::SetServoId { current_id: id, new_id: other_id })
            == "change servo ID current_id="@ + decimal(id as nat) + " new_id="@ + decimal(
            other_id as nat,
        ),
{
}

/// Whether texts are seen as they are, one by one.
pub open spec fn are_seen(strings: Seq<String>, seen: Seq<Seq<char>>) -> bool {
    seen.len() == strings.len() && forall|i: int|
        0 <= i < strings.len() ==> #[trigger] seen[i] == strings[i]@
}

/// What holds of the view of an answer holds of the answer: it is seen field by field.
pub proof fn answers_are_seen_field_by_field(message: ServerMessage)
    ensures
        match message {
            ServerMessage::Connected { address } => message@ == (ServerView::Connected {
                address: address@,
            }),
            ServerMessage::Complete { action } => message@ == (ServerView::Complete {
                action: action@,
            }),
            ServerMessage::Position { id, position } => message@ == (ServerView::Position {
                id,
                position,
            }),
            ServerMessage::Positions { positions, errors } => message@ matches
                ServerView::Positions { positions: read, errors: told } && read == positions@
                && are_seen(errors@, told),
            ServerMessage::ServoScan { start_id, end_id, ids } => message@ == (
            ServerView::ServoScan { start_id, end_id, ids: ids@ }),
            ServerMessage::ServoIdChanged { previous_id, new_id } => message@ == (
            ServerView::ServoIdChanged { previous_id, new_id }),
            ServerMessage::Error { message: text, bridge_connected } => message@ == (
            ServerView::Error { message: text@, bridge_connected }),
        },
{
}

/// What holds of the view of an action holds of the action: it is seen field by field.
pub proof fn actions_are_seen_field_by_field(action: HostAction, start: RequestStart)
    ensures
        match action {
            HostAction::Call { method, params, timeout_ms, reply } => action@ == (
            HostActionView::Call { method: method@, params: members(params), timeout_ms, reply }),
            HostAction::Exchange(transaction) => action@ matches HostActionView::Exchange(seen)
                && seen == transaction@,
            HostAction::Finish(Ok(message)) => action@ matches HostActionView::Finish(Ok(seen))
                && seen == message@,
            HostAction::Finish(Err(message)) => action@ matches HostActionView::Finish(Err(seen))
                && seen == message@,
        },
        match start {
            RequestStart::Connect { host, port } => start@ == (RequestStartView::Connect {
                host: host@,
                port,
            }),
            RequestStart::Refuse(answer) => start@ matches RequestStartView::Refuse(seen) && seen
                == answer@,
            RequestStart::Carry(run, action) => start@ matches RequestStartView::Carry(
                seen_run,
                seen,
            ) && seen_run == run@ && seen == action@ && host_view((run, action)) == (
                run@,
                action@,
            ),
        },
{
}

} // verus!
