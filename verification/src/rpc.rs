//! The JSON-RPC 2.0 interface of the controller: what a request asks for and how it is answered.
//!
//! Requests arrive parsed, and replies leave as members that are yet to be written as JSON.

use vstd::prelude::*;

use crate::bounded::{
    batch_positions, found_ids, found_slice, position_slice, PositionResult,
};
use crate::protocol::RAW_TUNNEL_TCP_PORT;
use crate::raw_tunnel::{RawTunnelCommand, RawTunnelControl};
use crate::servo_bus::ServoFailure;
use crate::text::same_text;

verus! {

/// The greatest length of a request and of a reply.
pub const JSON_RPC_BUFFER_SIZE: usize = 1024;

#[derive(Clone, Copy, Debug, PartialEq, Eq, Structural)]
pub enum MotorDirection {
    Clockwise,
    Counterclockwise,
}

/// The named parameters of a request.
#[derive(Debug)]
pub struct JsonRpcParams {
    pub id: Option<u8>,
    pub speed: Option<u16>,
    pub acceleration: Option<u8>,
    pub direction: Option<MotorDirection>,
    pub position: Option<u16>,
    pub torque_limit: Option<u16>,
    pub ids: Option<serde_json_core::heapless::Vec<u8, 6>>,
    pub start_id: Option<u8>,
    pub end_id: Option<u8>,
    pub current_id: Option<u8>,
    pub new_id: Option<u8>,
}

impl Default for JsonRpcParams {
    /// No parameters.
    fn default() -> (params: Self)
        ensures
            params.id is None && params.speed is None && params.acceleration is None
                && params.direction is None && params.position is None
                && params.torque_limit is None && params.ids is None && params.start_id is None
                && params.end_id is None && params.current_id is None && params.new_id is None,
    {
        JsonRpcParams {
            id: None,
            speed: None,
            acceleration: None,
            direction: None,
            position: None,
            torque_limit: None,
            ids: None,
            start_id: None,
            end_id: None,
            current_id: None,
            new_id: None,
        }
    }
}

#[derive(Debug)]
pub struct JsonRpcRequest<'a> {
    pub jsonrpc: &'a str,
    pub method: &'a str,
    pub params: JsonRpcParams,
    pub id: Option<u32>,
}

/// A command for the servos.
#[derive(Debug)]
pub enum ControllerCommand {
    StartMotor { id: u8, counter_clockwise: bool, speed: u16, acceleration: u8 },
    StopMotor { id: u8 },
    SetPosition { id: u8, position: u16, acceleration: u8, torque_limit: u16 },
    GetPosition { id: u8 },
    GetPositions { ids: serde_json_core::heapless::Vec<u8, 6> },
    ScanServos { start_id: u8, end_id: u8 },
    SetId { current_id: u8, new_id: u8 },
}

/// What a request results in.
#[derive(Debug)]
pub enum ControllerResult {
    Ready,
    Accepted,
    Position(PositionResult),
    Positions(serde_json_core::heapless::Vec<PositionResult, 6>),
    Servos(serde_json_core::heapless::Vec<u8, 253>),
    IdChanged { previous_id: u8, new_id: u8 },
    RawTunnel { active: bool },
}

#[verifier::ext_equal]
pub enum ResultView {
    Ready,
    Accepted,
    Position(PositionResult),
    Positions(Seq<PositionResult>),
    Servos(Seq<u8>),
    IdChanged { previous_id: u8, new_id: u8 },
    RawTunnel { active: bool },
}

impl View for ControllerResult {
    type V = ResultView;

    open spec fn view(&self) -> ResultView {
        match self {
            ControllerResult::Ready => ResultView::Ready,
            ControllerResult::Accepted => ResultView::Accepted,
            ControllerResult::Position(position) => ResultView::Position(*position),
            ControllerResult::Positions(positions) => ResultView::Positions(
                batch_positions(*positions),
            ),
            ControllerResult::Servos(ids) => ResultView::Servos(found_ids(*ids)),
            ControllerResult::IdChanged { previous_id, new_id } => ResultView::IdChanged {
                previous_id: *previous_id,
                new_id: *new_id,
            },
            ControllerResult::RawTunnel { active } => ResultView::RawTunnel { active: *active },
        }
    }
}

/// The value of a member of a result.
#[derive(Debug)]
pub enum MemberValue<'a> {
    Flag(bool),
    Number(i64),
    Ids(&'a [u8]),
    Positions(&'a [PositionResult]),
}

/// A member of a result, as it appears in the reply.
#[derive(Debug)]
pub struct Member<'a> {
    pub name: &'static str,
    pub value: MemberValue<'a>,
}

#[verifier::ext_equal]
pub enum ValueView {
    Flag(bool),
    Number(int),
    Ids(Seq<u8>),
    Positions(Seq<PositionResult>),
}

impl<'a> View for Member<'a> {
    type V = (Seq<char>, ValueView);

    open spec fn view(&self) -> (Seq<char>, ValueView) {
        (
            self.name@,
            match self.value {
                MemberValue::Flag(flag) => ValueView::Flag(flag),
                MemberValue::Number(number) => ValueView::Number(number as int),
                MemberValue::Ids(ids) => ValueView::Ids(ids@),
                MemberValue::Positions(positions) => ValueView::Positions(positions@),
            },
        )
    }
}

/// The members of a result in the order of the reply.
pub open spec fn result_members(result: ResultView) -> Seq<(Seq<char>, ValueView)> {
    match result {
        ResultView::Ready => seq![("ready"@, ValueView::Flag(true))],
        ResultView::Accepted => seq![("accepted"@, ValueView::Flag(true))],
        ResultView::Position(position) => seq![
            ("id"@, ValueView::Number(position.id as int)),
            ("position"@, ValueView::Number(position.position as int)),
        ],
        ResultView::Positions(positions) => seq![("positions"@, ValueView::Positions(positions))],
        ResultView::Servos(ids) => seq![("ids"@, ValueView::Ids(ids))],
        ResultView::IdChanged { previous_id, new_id } => seq![
            ("previousId"@, ValueView::Number(previous_id as int)),
            ("newId"@, ValueView::Number(new_id as int)),
        ],
        ResultView::RawTunnel { active } => if active {
            seq![
                ("port"@, ValueView::Number(RAW_TUNNEL_TCP_PORT as int)),
                ("active"@, ValueView::Flag(true)),
            ]
        } else {
            seq![("active"@, ValueView::Flag(false))]
        },
    }
}

/// Members by their views.
pub open spec fn members_view<'a>(members: Seq<Member<'a>>) -> Seq<(Seq<char>, ValueView)> {
    Seq::new(members.len(), |i: int| members[i]@)
}

impl ControllerResult {
    /// The members of the result in the order of the reply.
    pub fn members<'a>(&'a self) -> (members: Vec<Member<'a>>)
        ensures
            members_view(members@) == result_members(self@),
    {
        let mut members: Vec<Member<'a>> = Vec::new();
        match self {
            ControllerResult::Ready => {
                members.push(Member { name: "ready", value: MemberValue::Flag(true) });
            },
            ControllerResult::Accepted => {
                members.push(Member { name: "accepted", value: MemberValue::Flag(true) });
            },
            ControllerResult::Position(position) => {
                members.push(Member { name: "id", value: MemberValue::Number(position.id as i64) });
                members.push(
                    Member {
                        name: "position",
                        value: MemberValue::Number(position.position as i64),
                    },
                );
            },
            ControllerResult::Positions(positions) => {
                members.push(
                    Member {
                        name: "positions",
                        value: MemberValue::Positions(position_slice(positions)),
                    },
                );
            },
            ControllerResult::Servos(ids) => {
                members.push(Member { name: "ids", value: MemberValue::Ids(found_slice(ids)) });
            },
            ControllerResult::IdChanged { previous_id, new_id } => {
                members.push(
                    Member { name: "previousId", value: MemberValue::Number(*previous_id as i64) },
                );
                members.push(Member { name: "newId", value: MemberValue::Number(*new_id as i64) });
            },
            ControllerResult::RawTunnel { active } => {
                if *active {
                    members.push(
                        Member {
                            name: "port",
                            value: MemberValue::Number(RAW_TUNNEL_TCP_PORT as i64),
                        },
                    );
                }
                members.push(Member { name: "active", value: MemberValue::Flag(*active) });
            },
        }
        proof {
            assert(members_view(members@) =~= result_members(self@));
        }
        members
    }
}

/// Why a request fails.
#[derive(Clone, Copy, Debug, PartialEq, Eq, Structural)]
pub enum RpcFailure {
    ParseError,
    InvalidRequest,
    MethodNotFound,
    InvalidParams,
    RawTunnelActive,
    ServoTimeout,
    ServoReply,
    ServoReportedError,
    ServoTransport,
    ServoIdInUse,
}

impl RpcFailure {
    /// The error code of a failure.
    pub open spec fn spec_code(self) -> int {
        match self {
            RpcFailure::ParseError => -32700,
            RpcFailure::InvalidRequest => -32600,
            RpcFailure::MethodNotFound => -32601,
            RpcFailure::InvalidParams => -32602,
            RpcFailure::RawTunnelActive => -32010,
            RpcFailure::ServoTimeout => -32001,
            RpcFailure::ServoReply => -32002,
            RpcFailure::ServoReportedError => -32003,
            RpcFailure::ServoTransport => -32004,
            RpcFailure::ServoIdInUse => -32005,
        }
    }

    /// The message of a failure.
    pub open spec fn spec_message(self) -> Seq<char> {
        match self {
            RpcFailure::ParseError => "Parse error"@,
            RpcFailure::InvalidRequest => "Invalid Request"@,
            RpcFailure::MethodNotFound => "Method not found"@,
            RpcFailure::InvalidParams => "Invalid params"@,
            RpcFailure::RawTunnelActive => "Raw tunnel is active"@,
            RpcFailure::ServoTimeout => "STS servo timeout"@,
            RpcFailure::ServoReply => "Invalid STS servo reply"@,
            RpcFailure::ServoReportedError => "Servo reported STS error"@,
            RpcFailure::ServoTransport => "STS UART transport failure"@,
            RpcFailure::ServoIdInUse => "STS servo ID is already in use"@,
        }
    }

    pub fn code(self) -> (code: i32)
        ensures
            code == self.spec_code(),
    {
        match self {
            RpcFailure::ParseError => -32700,
            RpcFailure::InvalidRequest => -32600,
            RpcFailure::MethodNotFound => -32601,
            RpcFailure::InvalidParams => -32602,
            RpcFailure::RawTunnelActive => -32010,
            RpcFailure::ServoTimeout => -32001,
            RpcFailure::ServoReply => -32002,
            RpcFailure::ServoReportedError => -32003,
            RpcFailure::ServoTransport => -32004,
            RpcFailure::ServoIdInUse => -32005,
        }
    }

    pub fn message(self) -> (message: &'static str)
        ensures
            message@ == self.spec_message(),
    {
        match self {
            RpcFailure::ParseError => "Parse error",
            RpcFailure::InvalidRequest => "Invalid Request",
            RpcFailure::MethodNotFound => "Method not found",
            RpcFailure::InvalidParams => "Invalid params",
            RpcFailure::RawTunnelActive => "Raw tunnel is active",
            RpcFailure::ServoTimeout => "STS servo timeout",
            RpcFailure::ServoReply => "Invalid STS servo reply",
            RpcFailure::ServoReportedError => "Servo reported STS error",
            RpcFailure::ServoTransport => "STS UART transport failure",
            RpcFailure::ServoIdInUse => "STS servo ID is already in use",
        }
    }
}

/// Different failures have different codes, so a client can tell them apart.
pub proof fn failure_codes_are_distinct(left: RpcFailure, right: RpcFailure)
    requires
        left.spec_code() == right.spec_code(),
    ensures
        left == right,
{
}

/// What a servo failure is reported as.
pub open spec fn reported_failure(failure: ServoFailure) -> RpcFailure {
    match failure {
        ServoFailure::InvalidServoId | ServoFailure::InvalidArgument => RpcFailure::InvalidParams,
        ServoFailure::Timeout => RpcFailure::ServoTimeout,
        ServoFailure::InvalidReply => RpcFailure::ServoReply,
        ServoFailure::ReportedError => RpcFailure::ServoReportedError,
        ServoFailure::Transport => RpcFailure::ServoTransport,
        ServoFailure::IdInUse => RpcFailure::ServoIdInUse,
    }
}

impl ServoFailure {
    /// What a servo failure is reported as.
    pub fn rpc_failure(self) -> (failure: RpcFailure)
        ensures
            failure == reported_failure(self),
    {
        match self {
            ServoFailure::InvalidServoId | ServoFailure::InvalidArgument =>
            RpcFailure::InvalidParams,
            ServoFailure::Timeout => RpcFailure::ServoTimeout,
            ServoFailure::InvalidReply => RpcFailure::ServoReply,
            ServoFailure::ReportedError => RpcFailure::ServoReportedError,
            ServoFailure::Transport => RpcFailure::ServoTransport,
            ServoFailure::IdInUse => RpcFailure::ServoIdInUse,
        }
    }
}

/// The command that a method with its parameters stands for. A method that is not listed is not
/// found; one whose parameters are not all there has invalid ones.
pub open spec fn requested_command(method: Seq<char>, params: JsonRpcParams) -> Result<
    ControllerCommand,
    RpcFailure,
> {
    if method == "motor.start"@ {
        match (params.id, params.direction, params.speed, params.acceleration) {
            (Some(id), Some(direction), Some(speed), Some(acceleration)) => Ok(
                ControllerCommand::StartMotor {
                    id,
                    counter_clockwise: direction is Counterclockwise,
                    speed,
                    acceleration,
                },
            ),
            _ => Err(RpcFailure::InvalidParams),
        }
    } else if method == "motor.stop"@ {
        match params.id {
            Some(id) => Ok(ControllerCommand::StopMotor { id }),
            None => Err(RpcFailure::InvalidParams),
        }
    } else if method == "servo.setPosition"@ {
        match (params.id, params.position, params.acceleration, params.torque_limit) {
            (Some(id), Some(position), Some(acceleration), Some(torque_limit)) => Ok(
                ControllerCommand::SetPosition { id, position, acceleration, torque_limit },
            ),
            _ => Err(RpcFailure::InvalidParams),
        }
    } else if method == "servo.getPosition"@ {
        match params.id {
            Some(id) => Ok(ControllerCommand::GetPosition { id }),
            None => Err(RpcFailure::InvalidParams),
        }
    } else if method == "servo.getPositions"@ {
        match params.ids {
            Some(ids) => Ok(ControllerCommand::GetPositions { ids }),
            None => Err(RpcFailure::InvalidParams),
        }
    } else if method == "servo.scan"@ {
        match (params.start_id, params.end_id) {
            (Some(start_id), Some(end_id)) => Ok(ControllerCommand::ScanServos { start_id, end_id }),
            _ => Err(RpcFailure::InvalidParams),
        }
    } else if method == "servo.setId"@ {
        match (params.current_id, params.new_id) {
            (Some(current_id), Some(new_id)) => Ok(ControllerCommand::SetId { current_id, new_id }),
            _ => Err(RpcFailure::InvalidParams),
        }
    } else {
        Err(RpcFailure::MethodNotFound)
    }
}

/// The command that a method with its parameters stands for.
pub fn command_from_request(method: &str, params: JsonRpcParams) -> (command: Result<
    ControllerCommand,
    RpcFailure,
>)
    ensures
        command == requested_command(method@, params),
{
    if same_text(method, "motor.start") {
        match (params.id, params.direction, params.speed, params.acceleration) {
            (Some(id), Some(direction), Some(speed), Some(acceleration)) => Ok(
                ControllerCommand::StartMotor {
                    id,
                    counter_clockwise: match direction {
                        MotorDirection::Clockwise => false,
                        MotorDirection::Counterclockwise => true,
                    },
                    speed,
                    acceleration,
                },
            ),
            _ => Err(RpcFailure::InvalidParams),
        }
    } else if same_text(method, "motor.stop") {
        match params.id {
            Some(id) => Ok(ControllerCommand::StopMotor { id }),
            None => Err(RpcFailure::InvalidParams),
        }
    } else if same_text(method, "servo.setPosition") {
        match (params.id, params.position, params.acceleration, params.torque_limit) {
            (Some(id), Some(position), Some(acceleration), Some(torque_limit)) => Ok(
                ControllerCommand::SetPosition { id, position, acceleration, torque_limit },
            ),
            _ => Err(RpcFailure::InvalidParams),
        }
    } else if same_text(method, "servo.getPosition") {
        match params.id {
            Some(id) => Ok(ControllerCommand::GetPosition { id }),
            None => Err(RpcFailure::InvalidParams),
        }
    } else if same_text(method, "servo.getPositions") {
        match params.ids {
            Some(ids) => Ok(ControllerCommand::GetPositions { ids }),
            None => Err(RpcFailure::InvalidParams),
        }
    } else if same_text(method, "servo.scan") {
        match (params.start_id, params.end_id) {
            (Some(start_id), Some(end_id)) => Ok(ControllerCommand::ScanServos { start_id, end_id }),
            _ => Err(RpcFailure::InvalidParams),
        }
    } else if same_text(method, "servo.setId") {
        match (params.current_id, params.new_id) {
            (Some(current_id), Some(new_id)) => Ok(ControllerCommand::SetId { current_id, new_id }),
            _ => Err(RpcFailure::InvalidParams),
        }
    } else {
        Err(RpcFailure::MethodNotFound)
    }
}

/// A reply to a request.
#[allow(inconsistent_fields)]
#[derive(Debug)]
pub enum JsonRpcReply {
    Success { id: u32, result: ControllerResult },
    Failure { id: Option<u32>, failure: RpcFailure },
}

#[allow(inconsistent_fields)]
#[verifier::ext_equal]
pub enum ReplyView {
    Success { id: u32, result: ResultView },
    Failure { id: Option<u32>, failure: RpcFailure },
}

impl View for JsonRpcReply {
    type V = ReplyView;

    open spec fn view(&self) -> ReplyView {
        match self {
            JsonRpcReply::Success { id, result } => ReplyView::Success { id: *id, result: result@ },
            JsonRpcReply::Failure { id, failure } => ReplyView::Failure {
                id: *id,
                failure: *failure,
            },
        }
    }
}

/// An optional reply by its view.
pub open spec fn reply_view(reply: Option<JsonRpcReply>) -> Option<ReplyView> {
    match reply {
        Some(reply) => Some(reply@),
        None => None,
    }
}

/// The reply to a request that was carried out. A request without an ID gets none.
pub open spec fn answer(id: Option<u32>, result: Result<ResultView, RpcFailure>) -> Option<
    ReplyView,
> {
    match (id, result) {
        (Some(id), Ok(result)) => Some(ReplyView::Success { id, result }),
        (Some(id), Err(failure)) => Some(ReplyView::Failure { id: Some(id), failure }),
        (None, _) => None,
    }
}

fn answered(id: Option<u32>, result: Result<ControllerResult, RpcFailure>) -> (reply: Option<
    JsonRpcReply,
>)
    ensures
        reply_view(reply) == answer(
            id,
            match result {
                Ok(result) => Ok(result@),
                Err(failure) => Err(failure),
            },
        ),
{
    match id {
        None => None,
        Some(id) => match result {
            Ok(result) => Some(JsonRpcReply::Success { id, result }),
            Err(failure) => Some(JsonRpcReply::Failure { id: Some(id), failure }),
        },
    }
}

/// The reply to a request whose command the servos have carried out or failed at.
pub fn finish_request(id: Option<u32>, result: Result<ControllerResult, ServoFailure>) -> (reply:
    Option<JsonRpcReply>)
    ensures
        reply_view(reply) == answer(
            id,
            match result {
                Ok(result) => Ok(result@),
                Err(failure) => Err(reported_failure(failure)),
            },
        ),
{
    match result {
        Ok(result) => answered(id, Ok(result)),
        Err(failure) => answered(id, Err(failure.rpc_failure())),
    }
}

/// What is done about a request.
#[derive(Debug)]
pub enum RpcStep {
    /// Send the reply, if there is one.
    Done(Option<JsonRpcReply>),
    /// Carry out the command, then answer with the ID.
    Execute { command: ControllerCommand, id: Option<u32> },
}

pub enum RpcStepView {
    Done(Option<ReplyView>),
    Execute { command: ControllerCommand, id: Option<u32> },
}

impl View for RpcStep {
    type V = RpcStepView;

    open spec fn view(&self) -> RpcStepView {
        match self {
            RpcStep::Done(reply) => RpcStepView::Done(reply_view(*reply)),
            RpcStep::Execute { command, id } => RpcStepView::Execute { command: *command, id: *id },
        }
    }
}

/// Whether a request asks for a given method of the supported version.
pub open spec fn asks_for<'a>(request: JsonRpcRequest<'a>, method: Seq<char>) -> bool {
    request.jsonrpc@ == "2.0"@ && request.method@ == method
}

/// Whether the raw tunnel is open after a request.
pub open spec fn tunnel_after<'a>(request: Option<JsonRpcRequest<'a>>, tunnel: bool) -> bool {
    match request {
        Some(request) => if asks_for(request, "debug.enableRawTunnel"@) {
            true
        } else if asks_for(request, "debug.disableRawTunnel"@) {
            false
        } else {
            tunnel
        },
        None => tunnel,
    }
}

/// What is done about a request, where `None` stands for text that is no request and `tunnel`
/// tells whether the raw tunnel is open.
pub open spec fn rpc_step<'a>(request: Option<JsonRpcRequest<'a>>, tunnel: bool) -> RpcStepView {
    match request {
        None => RpcStepView::Done(
            Some(ReplyView::Failure { id: None, failure: RpcFailure::ParseError }),
        ),
        Some(request) => if request.jsonrpc@ != "2.0"@ {
            RpcStepView::Done(
                Some(ReplyView::Failure { id: request.id, failure: RpcFailure::InvalidRequest }),
            )
        } else if request.method@ == "system.ping"@ {
            RpcStepView::Done(answer(request.id, Ok(ResultView::Ready)))
        } else if request.method@ == "debug.enableRawTunnel"@ {
            RpcStepView::Done(answer(request.id, Ok(ResultView::RawTunnel { active: true })))
        } else if request.method@ == "debug.disableRawTunnel"@ {
            RpcStepView::Done(answer(request.id, Ok(ResultView::RawTunnel { active: false })))
        } else if tunnel {
            RpcStepView::Done(answer(request.id, Err(RpcFailure::RawTunnelActive)))
        } else {
            match requested_command(request.method@, request.params) {
                Ok(command) => RpcStepView::Execute { command, id: request.id },
                Err(failure) => RpcStepView::Done(answer(request.id, Err(failure))),
            }
        },
    }
}

/// Decides about a request, where `None` stands for text that is no request. The raw tunnel's
/// task is sent the command, if there is one.
pub fn handle_json_rpc<'a>(request: Option<JsonRpcRequest<'a>>, tunnel: &mut RawTunnelControl) -> (
    decision: (RpcStep, Option<RawTunnelCommand>))
    ensures
        decision.0@ == rpc_step(request, old(tunnel)@),
        final(tunnel)@ == tunnel_after(request, old(tunnel)@),
        decision.1 == if final(tunnel)@ == old(tunnel)@ {
            None::<RawTunnelCommand>
        } else if final(tunnel)@ {
            Some(RawTunnelCommand::Enable)
        } else {
            Some(RawTunnelCommand::Disable)
        },
{
    proof {
        reveal_strlit("system.ping");
        reveal_strlit("debug.enableRawTunnel");
        reveal_strlit("debug.disableRawTunnel");
        assert("system.ping"@.len() < "debug.enableRawTunnel"@.len()
            < "debug.disableRawTunnel"@.len());
    }
    let request = match request {
        Some(request) => request,
        None => {
            return (
                RpcStep::Done(
                    Some(JsonRpcReply::Failure { id: None, failure: RpcFailure::ParseError }),
                ),
                None,
            );
        },
    };
    if !same_text(request.jsonrpc, "2.0") {
        return (
            RpcStep::Done(
                Some(
                    JsonRpcReply::Failure { id: request.id, failure: RpcFailure::InvalidRequest },
                ),
            ),
            None,
        );
    }
    if same_text(request.method, "system.ping") {
        return (RpcStep::Done(answered(request.id, Ok(ControllerResult::Ready))), None);
    }
    if same_text(request.method, "debug.enableRawTunnel") {
        let signal = tunnel.enable();
        return (
            RpcStep::Done(answered(request.id, Ok(ControllerResult::RawTunnel { active: true }))),
            signal,
        );
    }
    if same_text(request.method, "debug.disableRawTunnel") {
        let signal = tunnel.disable();
        return (
            RpcStep::Done(answered(request.id, Ok(ControllerResult::RawTunnel { active: false }))),
            signal,
        );
    }
    if tunnel.is_enabled() {
        return (RpcStep::Done(answered(request.id, Err(RpcFailure::RawTunnelActive))), None);
    }
    match command_from_request(request.method, request.params) {
        Ok(command) => (RpcStep::Execute { command, id: request.id }, None),
        Err(failure) => (RpcStep::Done(answered(request.id, Err(failure))), None),
    }
}

/// While the raw tunnel is open, no command reaches the servos through the controller: every
/// method but the ping and the debug methods fails with the code -32010.
pub proof fn an_open_tunnel_refuses_servo_methods<'a>(request: JsonRpcRequest<'a>, id: u32)
    requires
        request.jsonrpc@ == "2.0"@,
        request.id == Some(id),
        request.method@ != "system.ping"@,
        request.method@ != "debug.enableRawTunnel"@,
        request.method@ != "debug.disableRawTunnel"@,
    ensures
        rpc_step(Some(request), true) == RpcStepView::Done(
            Some(ReplyView::Failure { id: Some(id), failure: RpcFailure::RawTunnelActive }),
        ),
        RpcFailure::RawTunnelActive.spec_code() == -32010,
{
}

/// The ping and the debug methods are answered the same whether the raw tunnel is open or not.
pub proof fn ping_and_debug_methods_remain_available<'a>(request: JsonRpcRequest<'a>)
    requires
        asks_for(request, "system.ping"@) || asks_for(request, "debug.enableRawTunnel"@)
            || asks_for(request, "debug.disableRawTunnel"@),
    ensures
        rpc_step(Some(request), true) == rpc_step(Some(request), false),
        rpc_step(Some(request), true) matches RpcStepView::Done(reply) && (reply matches Some(reply)
            ==> reply is Success),
{
}

/// A reply carries the ID of its request, and a request of the supported version that has none
/// gets no reply.
pub proof fn replies_carry_the_id_of_the_request<'a>(request: JsonRpcRequest<'a>, tunnel: bool)
    ensures
        match rpc_step(Some(request), tunnel) {
            RpcStepView::Done(Some(ReplyView::Success { id, .. })) => request.id == Some(id),
            RpcStepView::Done(Some(ReplyView::Failure { id, .. })) => request.id == id && (id is None
                ==> request.jsonrpc@ != "2.0"@),
            RpcStepView::Done(None) => request.id is None,
            RpcStepView::Execute { id, .. } => request.id == id,
        },
{
}

/// Whether parameters name the given servo.
pub open spec fn names(params: JsonRpcParams, id: u8) -> bool {
    params.id == Some(id)
}

/// Each method stands for its own command, with the parameters of the same names; where one of
/// them is missing, the parameters are invalid.
pub proof fn methods_stand_for_their_commands(params: JsonRpcParams)
    ensures
        requested_command("motor.start"@, params) matches Ok(command) ==> (command matches
            ControllerCommand::StartMotor { id, counter_clockwise, speed, acceleration } && names(
            params,
            id,
        ) && params.speed == Some(speed) && params.acceleration == Some(acceleration)
            && params.direction == Some(
            if counter_clockwise {
                MotorDirection::Counterclockwise
            } else {
                MotorDirection::Clockwise
            },
        )),
        requested_command("motor.start"@, params) is Ok <==> params.id is Some && params.direction
            is Some && params.speed is Some && params.acceleration is Some,
        requested_command("motor.stop"@, params) matches Ok(command) ==> (command matches
            ControllerCommand::StopMotor { id } && names(params, id)),
        requested_command("motor.stop"@, params) is Ok <==> params.id is Some,
        requested_command("servo.setPosition"@, params) matches Ok(command) ==> (command matches
            ControllerCommand::SetPosition { id, position, acceleration, torque_limit } && names(
            params,
            id,
        ) && params.position == Some(position) && params.acceleration == Some(acceleration)
            && params.torque_limit == Some(torque_limit)),
        requested_command("servo.setPosition"@, params) is Ok <==> params.id is Some
            && params.position is Some && params.acceleration is Some && params.torque_limit
            is Some,
        requested_command("servo.getPosition"@, params) matches Ok(command) ==> (command matches
            ControllerCommand::GetPosition { id } && names(params, id)),
        requested_command("servo.getPosition"@, params) is Ok <==> params.id is Some,
        requested_command("servo.getPositions"@, params) matches Ok(command) ==> (command matches
            ControllerCommand::GetPositions { ids } && params.ids == Some(ids)),
        requested_command("servo.getPositions"@, params) is Ok <==> params.ids is Some,
        requested_command("servo.scan"@, params) matches Ok(command) ==> (command matches
            ControllerCommand::ScanServos { start_id, end_id } && params.start_id == Some(start_id)
            && params.end_id == Some(end_id)),
        requested_command("servo.scan"@, params) is Ok <==> params.start_id is Some
            && params.end_id is Some,
        requested_command("servo.setId"@, params) matches Ok(command) ==> (command matches
            ControllerCommand::SetId { current_id, new_id } && params.current_id == Some(current_id)
            && params.new_id == Some(new_id)),
        requested_command("servo.setId"@, params) is Ok <==> params.current_id is Some
            && params.new_id is Some,
{
    methods_are_told_apart();
}

proof fn methods_are_told_apart()
    ensures
        "servo.setPosition"@ != "servo.getPosition"@,
        "servo.scan"@.len() == 10,
        "motor.stop"@.len() == 10 && "motor.stop"@[0] == 'm',
        "servo.setId"@.len() == 11,
        "motor.start"@.len() == 11 && "motor.start"@[0] == 'm',
        "servo.scan"@[0] == 's' && "servo.setId"@[0] == 's',
        "servo.getPosition"@.len() == 17,
        "servo.setPosition"@.len() == 17,
        "servo.getPositions"@.len() == 18,
        "system.ping"@.len() == 11,
        "system.ping"@[1] == 'y' && "servo.setId"@[1] == 'e',
        "debug.enableRawTunnel"@.len() == 21,
        "debug.disableRawTunnel"@.len() == 22,
{
    reveal_strlit("motor.start");
    reveal_strlit("motor.stop");
    reveal_strlit("servo.setPosition");
    reveal_strlit("servo.getPosition");
    reveal_strlit("servo.getPositions");
    reveal_strlit("servo.scan");
    reveal_strlit("servo.setId");
    reveal_strlit("system.ping");
    reveal_strlit("debug.enableRawTunnel");
    reveal_strlit("debug.disableRawTunnel");
    assert("servo.setPosition"@[6] != "servo.getPosition"@[6]);
}

/// A method with none of these names is not found; one with such a name fails only for its
/// parameters.
pub proof fn other_methods_are_not_found(method: Seq<char>, params: JsonRpcParams)
    ensures
        ({
            let known = method == "motor.start"@ || method == "motor.stop"@ || method
                == "servo.setPosition"@ || method == "servo.getPosition"@ || method
                == "servo.getPositions"@ || method == "servo.scan"@ || method == "servo.setId"@;
            &&& !known ==> requested_command(method, params) == Err::<ControllerCommand, RpcFailure>(
                RpcFailure::MethodNotFound,
            )
            &&& known ==> (requested_command(method, params) matches Err(failure) ==> failure
                == RpcFailure::InvalidParams)
        }),
{
}

/// The members of a reply say what the result is: each is there under its name, with the value of
/// the result, and there are no others.
pub proof fn results_are_told_by_their_members(
    position: PositionResult,
    positions: Seq<PositionResult>,
    ids: Seq<u8>,
    previous_id: u8,
    new_id: u8,
)
    ensures
        ({
            let found = result_members(ResultView::Ready);
            found.len() == 1 && found[0] == ("ready"@, ValueView::Flag(true))
        }),
        ({
            let found = result_members(ResultView::Accepted);
            found.len() == 1 && found[0] == ("accepted"@, ValueView::Flag(true))
        }),
        ({
            let found = result_members(ResultView::Position(position));
            &&& found.len() == 2
            &&& found[0] == ("id"@, ValueView::Number(position.id as int))
            &&& found[1] == ("position"@, ValueView::Number(position.position as int))
        }),
        ({
            let found = result_members(ResultView::Positions(positions));
            found.len() == 1 && found[0] == ("positions"@, ValueView::Positions(positions))
        }),
        ({
            let found = result_members(ResultView::Servos(ids));
            found.len() == 1 && found[0] == ("ids"@, ValueView::Ids(ids))
        }),
        ({
            let found = result_members(ResultView::IdChanged { previous_id, new_id });
            &&& found.len() == 2
            &&& found[0] == ("previousId"@, ValueView::Number(previous_id as int))
            &&& found[1] == ("newId"@, ValueView::Number(new_id as int))
        }),
        ({
            let found = result_members(ResultView::RawTunnel { active: true });
            &&& found.len() == 2
            &&& found[0] == ("port"@, ValueView::Number(3334))
            &&& found[1] == ("active"@, ValueView::Flag(true))
        }),
        ({
            let found = result_members(ResultView::RawTunnel { active: false });
            found.len() == 1 && found[0] == ("active"@, ValueView::Flag(false))
        }),
{
}

/// What goes wrong at a servo has a code of its own from -32001 down to -32005, and arguments out
/// of range have the code of invalid parameters.
pub proof fn servo_failures_have_codes_of_their_own()
    ensures
        reported_failure(ServoFailure::Timeout).spec_code() == -32001,
        reported_failure(ServoFailure::InvalidReply).spec_code() == -32002,
        reported_failure(ServoFailure::ReportedError).spec_code() == -32003,
        reported_failure(ServoFailure::Transport).spec_code() == -32004,
        reported_failure(ServoFailure::IdInUse).spec_code() == -32005,
        reported_failure(ServoFailure::InvalidServoId).spec_code() == -32602,
        reported_failure(ServoFailure::InvalidArgument).spec_code() == -32602,
{
}

/// Whether a step is a reply with the given ID and failure code.
pub open spec fn fails_with(step: RpcStepView, id: Option<u32>, code: int) -> bool {
    step matches RpcStepView::Done(Some(ReplyView::Failure { id: found, failure })) && found == id
        && failure.spec_code() == code
}

/// Whether a step is a reply with the given ID and result, or none where there is no ID.
pub open spec fn succeeds_with(step: RpcStepView, id: Option<u32>, result: ResultView) -> bool {
    match id {
        Some(id) => step == RpcStepView::Done(Some(ReplyView::Success { id, result })),
        None => step == RpcStepView::Done(None::<ReplyView>),
    }
}

/// What a request of each method comes to: the ping is answered, the debug methods open and close
/// the raw tunnel and are answered, and any other method that stands for a command has it carried
/// out while the tunnel is closed. Text that is no request, another version, an unknown method and
/// invalid parameters are refused with their codes.
pub proof fn requests_come_to_what_their_method_says<'a>(request: JsonRpcRequest<'a>, tunnel: bool)
    ensures
        fails_with(rpc_step(None::<JsonRpcRequest<'a>>, tunnel), None, -32700),
        tunnel_after(None::<JsonRpcRequest<'a>>, tunnel) == tunnel,
        ({
            let step = rpc_step(Some(request), tunnel);
            let after = tunnel_after(Some(request), tunnel);
            let asked = request.method@;
            &&& request.jsonrpc@ != "2.0"@ ==> fails_with(step, request.id, -32600) && after
                == tunnel
            &&& request.jsonrpc@ == "2.0"@ && asked == "system.ping"@ ==> succeeds_with(
                step,
                request.id,
                ResultView::Ready,
            ) && after == tunnel
            &&& request.jsonrpc@ == "2.0"@ && asked == "debug.enableRawTunnel"@ ==> succeeds_with(
                step,
                request.id,
                ResultView::RawTunnel { active: true },
            ) && after
            &&& request.jsonrpc@ == "2.0"@ && asked == "debug.disableRawTunnel"@ ==> succeeds_with(
                step,
                request.id,
                ResultView::RawTunnel { active: false },
            ) && !after
            &&& request.jsonrpc@ == "2.0"@ && asked != "system.ping"@ && asked
                != "debug.enableRawTunnel"@ && asked != "debug.disableRawTunnel"@ ==> {
                &&& after == tunnel
                &&& !tunnel ==> match requested_command(asked, request.params) {
                    Ok(command) => step == (RpcStepView::Execute { command, id: request.id }),
                    Err(failure) => match request.id {
                        Some(id) => step == RpcStepView::Done(
                            Some(ReplyView::Failure { id: Some(id), failure }),
                        ),
                        None => step == RpcStepView::Done(None::<ReplyView>),
                    },
                }
                &&& tunnel && request.id is None ==> step == RpcStepView::Done(None::<ReplyView>)
            }
        }),
        RpcFailure::MethodNotFound.spec_code() == -32601,
        RpcFailure::InvalidParams.spec_code() == -32602,
{
    methods_are_told_apart();
}

/// The reply to a command that was carried out has the ID of its request and the result, or the
/// failure of the servo; a request without an ID has none.
pub proof fn results_are_replied_to_their_request(
    id: u32,
    result: ResultView,
    failure: RpcFailure,
)
    ensures
        answer(Some(id), Ok(result)) == Some(ReplyView::Success { id, result }),
        answer(Some(id), Err(failure)) == Some(ReplyView::Failure { id: Some(id), failure }),
        answer(None, Ok(result)) is None,
        answer(None, Err(failure)) is None,
{
}

/// What holds of the view of a result, a member, a reply or a step holds of itself: it is seen
/// field by field.
pub proof fn replies_are_seen_field_by_field<'a>(
    result: ControllerResult,
    member: Member<'a>,
    reply: JsonRpcReply,
    step: RpcStep,
)
    ensures
        match result {
            ControllerResult::Ready => result@ is Ready,
            ControllerResult::Accepted => result@ is Accepted,
            ControllerResult::Position(position) => result@ == ResultView::Position(position),
            ControllerResult::Positions(positions) => result@ == ResultView::Positions(
                batch_positions(positions),
            ),
            ControllerResult::Servos(ids) => result@ == ResultView::Servos(found_ids(ids)),
            ControllerResult::IdChanged { previous_id, new_id } => result@ == (
            ResultView::IdChanged { previous_id, new_id }),
            ControllerResult::RawTunnel { active } => result@ == (ResultView::RawTunnel { active }),
        },
        member@.0 == member.name@,
        match member.value {
            MemberValue::Flag(flag) => member@.1 == ValueView::Flag(flag),
            MemberValue::Number(number) => member@.1 == ValueView::Number(number as int),
            MemberValue::Ids(ids) => member@.1 == ValueView::Ids(ids@),
            MemberValue::Positions(positions) => member@.1 == ValueView::Positions(positions@),
        },
        match reply {
            JsonRpcReply::Success { id, result } => reply@ == (ReplyView::Success {
                id,
                result: result@,
            }),
            JsonRpcReply::Failure { id, failure } => reply@ == (ReplyView::Failure { id, failure }),
        },
        match step {
            RpcStep::Done(None) => step@ == RpcStepView::Done(None),
            RpcStep::Done(Some(reply)) => step@ == RpcStepView::Done(Some(reply@)),
            RpcStep::Execute { command, id } => step@ == (RpcStepView::Execute { command, id }),
        },
{
}

/// The members of a result are seen in their order.
pub proof fn members_are_seen_in_order<'a>(members: Seq<Member<'a>>, at: int)
    requires
        0 <= at < members.len(),
    ensures
        members_view(members).len() == members.len(),
        members_view(members)[at] == members[at]@,
{
}

} // verus!
