//! The host's connection to the MCU.
//!
//! In controller mode the host sends JSON-RPC requests and waits for the reply with the request's
//! ID; replies to earlier requests are discarded. In raw mode it sends STS packets through the
//! MCU's debug tunnel and reads the replies of the servos itself.

use vstd::prelude::*;

use crate::controller::instruction_packet;
use crate::json::{
    bool_member, bool_members, encode_object, insert_number, insert_object, insert_text, members,
    new_object, number_member, number_members, object_text, JsonModel,
};
use crate::protocol::{CONTROLLER_WEBSOCKET_PATH, RAW_TUNNEL_TCP_PORT};
use crate::servo_bus::{
    packet_bytes, read_sts_status, StatusFault, StatusReader, StatusStep, StatusStepView,
    Transaction,
};
use crate::text::{
    decimal, has_prefix, hex_byte, joined, push_decimal, push_hex_byte, push_signed_decimal,
    same_text, signed_decimal, starts_with,
};

verus! {

/// How long the host waits for the MCU to take a command or to answer one.
pub const SERVO_TIMEOUT_MS: u64 = 750;

/// How long the host waits for a search to end.
pub const SERVO_SCAN_TIMEOUT_MS: u64 = 20000;

/// How long the host tries to connect to an MCU that is handing over its controller.
pub const CONTROLLER_CONNECT_RETRY_WINDOW_MS: u64 = 3000;

pub const CONTROLLER_CONNECT_RETRY_INTERVAL_MS: u64 = 100;

/// How long the host tries to connect to the raw tunnel.
pub const RAW_CONNECT_WINDOW_NANOS: u64 = 750_000_000;

/// How long one attempt to connect to the raw tunnel may take.
pub const RAW_CONNECT_ATTEMPT_NANOS: u64 = 100_000_000;

pub const RAW_CONNECT_RETRY_INTERVAL_MS: u64 = 25;

/// How many messages are read before a request is given up.
pub const MAX_STALE_CONTROLLER_RESPONSES: u8 = 32;

pub const NOT_RAW_MODE: &'static str = "the MCU connection is in JSON-RPC controller mode";

pub const NOT_CONTROLLER_MODE: &'static str = "the MCU connection is in debug raw-tunnel mode";

pub const SEND_TIMED_OUT: &'static str = "Timed out sending a JSON-RPC command to the MCU";

pub const SEND_FAILED: &'static str = "Could not send a JSON-RPC command to the MCU";

pub const RECEIVE_TIMED_OUT: &'static str = "Timed out waiting for an MCU JSON-RPC response";

pub const SOCKET_CLOSED: &'static str = "MCU closed the JSON-RPC WebSocket";

pub const RECEIVE_FAILED: &'static str = "Could not read an MCU JSON-RPC response";

pub const INVALID_JSON: &'static str = "MCU sent invalid JSON-RPC";

pub const INVALID_VERSION: &'static str = "MCU sent a JSON-RPC response with an unsupported version";

pub const PONG_FAILED: &'static str = "Could not answer MCU WebSocket ping";

pub const UNSUPPORTED_MESSAGE: &'static str = "MCU sent an unsupported WebSocket message";

pub const TOO_MANY_STALE: &'static str = "MCU sent too many stale JSON-RPC responses";

pub const INVALID_COMBINATION: &'static str = "MCU returned an invalid JSON-RPC result/error combination";

pub const ERROR_REPLY: &'static str = "MCU JSON-RPC error ";

pub const NOT_READY: &'static str = "MCU returned an unexpected result to system.ping";

pub const NOT_ACCEPTED: &'static str = "MCU rejected the controller command without an accepted result";

pub const NO_TUNNEL_PORT: &'static str = "MCU did not return a raw tunnel TCP port";

pub const UNEXPECTED_TUNNEL_PORT: &'static str = "MCU returned unexpected raw tunnel TCP port ";

pub const PACKET_TOO_LONG: &'static str = "STS command is too long";

pub const PACKET_SEND_TIMED_OUT: &'static str = "Timed out sending command to the MCU";

pub const PACKET_SEND_FAILED: &'static str = "Could not send command to the MCU";

pub const REPLY_TIMED_OUT: &'static str = "Timed out waiting for an STS servo reply";

pub const REPLY_FAILED: &'static str = "Could not read STS servo reply";

pub const REPLY_CUT_SHORT: &'static str = "early eof";

pub const NO_REPLY_HEADER: &'static str = "Could not find an STS response header";

pub const REPLY_CHECKSUM: &'static str = "STS reply checksum did not match";

/// A message with its cause after a colon.
pub open spec fn because(message: Seq<char>, cause: Seq<char>) -> Seq<char> {
    message + ": "@ + cause
}

/// A message with its cause after a colon.
pub fn with_cause(message: &str, cause: &str) -> (text: String)
    ensures
        text@ == because(message@, cause@),
{
    let mut text = joined(message, ": ");
    text.append(cause);
    text
}

/// How a connection is used.
#[derive(Clone, Copy, Debug, PartialEq, Eq, Structural)]
pub enum BridgeMode {
    Controller,
    DebugRaw,
}

/// A connection to the MCU.
#[derive(Debug)]
pub struct BridgeConnection {
    pub peer: String,
    pub mode: BridgeMode,
    pub next_request_id: u32,
}

/// The ID after `id`; after the greatest one the numbers start over.
pub open spec fn following_id(id: u32) -> u32 {
    if id == u32::MAX {
        0
    } else {
        (id + 1) as u32
    }
}

/// The members of a request.
pub open spec fn request_members(
    id: u32,
    method: Seq<char>,
    params: Map<Seq<char>, JsonModel>,
) -> Map<Seq<char>, JsonModel> {
    Map::<Seq<char>, JsonModel>::empty().insert("jsonrpc"@, JsonModel::Text("2.0"@)).insert(
        "id"@,
        JsonModel::Number(id as nat),
    ).insert("method"@, JsonModel::Text(method)).insert("params"@, JsonModel::Object(params))
}

impl BridgeConnection {
    /// A new connection in controller mode.
    pub fn new(peer: String) -> (connection: Self)
        ensures
            connection.peer@ == peer@,
            connection.mode == BridgeMode::Controller,
            connection.next_request_id == 1,
    {
        BridgeConnection { peer, mode: BridgeMode::Controller, next_request_id: 1 }
    }

    pub fn is_controller(&self) -> (controller: bool)
        ensures
            controller == (self.mode == BridgeMode::Controller),
    {
        self.mode == BridgeMode::Controller
    }

    /// Uses the raw tunnel from now on.
    pub fn attach_raw_tunnel(&mut self)
        ensures
            final(self).peer@ == old(self).peer@,
            final(self).mode == BridgeMode::DebugRaw,
            final(self).next_request_id == old(self).next_request_id,
    {
        self.mode = BridgeMode::DebugRaw;
    }

    /// Makes a request with the connection's next ID. The result is the request's text and the
    /// exchange that waits for its reply; a connection in raw mode has none, though the ID is
    /// used up.
    pub fn controller_request_with_timeout(
        &mut self,
        method: &str,
        params: serde_json::Map<String, serde_json::Value>,
        response_timeout_ms: u64,
    ) -> (request: Result<(ControllerExchange, String), String>)
        ensures
            final(self).peer@ == old(self).peer@,
            final(self).mode == old(self).mode,
            final(self).next_request_id == following_id(old(self).next_request_id),
            match request {
                Ok((exchange, text)) => {
                    &&& old(self).mode == BridgeMode::Controller
                    &&& exchange == (ControllerExchange {
                        request_id: old(self).next_request_id,
                        remaining: MAX_STALE_CONTROLLER_RESPONSES,
                        response_timeout_ms,
                    })
                    &&& text@ == object_text(
                        request_members(old(self).next_request_id, method@, members(params)),
                    )
                },
                Err(message) => old(self).mode == BridgeMode::DebugRaw && message@
                    == NOT_CONTROLLER_MODE@,
            },
    {
        let request_id: u32 = self.next_request_id;
        self.next_request_id = request_id.wrapping_add(1);
        let mut object = new_object();
        insert_text(&mut object, "jsonrpc", "2.0");
        insert_number(&mut object, "id", request_id as u64);
        insert_text(&mut object, "method", method);
        insert_object(&mut object, "params", params);
        let text = encode_object(&object);
        match self.mode {
            BridgeMode::DebugRaw => Err(NOT_CONTROLLER_MODE.to_owned()),
            BridgeMode::Controller => match text {
                Some(text) => Ok(
                    (
                        ControllerExchange {
                            request_id,
                            remaining: MAX_STALE_CONTROLLER_RESPONSES,
                            response_timeout_ms,
                        },
                        text,
                    ),
                ),
                None => Err("Could not encode JSON-RPC request".to_owned()),
            },
        }
    }

    /// Makes a request whose reply is due as soon as that to a servo command.
    pub fn controller_request(
        &mut self,
        method: &str,
        params: serde_json::Map<String, serde_json::Value>,
    ) -> (request: Result<(ControllerExchange, String), String>)
        ensures
            final(self).peer@ == old(self).peer@,
            final(self).mode == old(self).mode,
            final(self).next_request_id == following_id(old(self).next_request_id),
            match request {
                Ok((exchange, text)) => {
                    &&& old(self).mode == BridgeMode::Controller
                    &&& exchange == (ControllerExchange {
                        request_id: old(self).next_request_id,
                        remaining: MAX_STALE_CONTROLLER_RESPONSES,
                        response_timeout_ms: SERVO_TIMEOUT_MS,
                    })
                    &&& text@ == object_text(
                        request_members(old(self).next_request_id, method@, members(params)),
                    )
                },
                Err(message) => old(self).mode == BridgeMode::DebugRaw && message@
                    == NOT_CONTROLLER_MODE@,
            },
    {
        self.controller_request_with_timeout(method, params, SERVO_TIMEOUT_MS)
    }
}

/// An error that the MCU replies with.
#[derive(Debug)]
pub struct ControllerJsonRpcError {
    pub code: i32,
    pub message: String,
}

/// A reply of the MCU.
#[derive(Debug)]
pub struct ControllerJsonRpcResponse {
    pub jsonrpc: String,
    pub id: Option<u32>,
    pub result: Option<serde_json::Value>,
    pub error: Option<ControllerJsonRpcError>,
}

/// A request whose reply is awaited.
#[derive(Clone, Copy, Debug, PartialEq, Eq, Structural)]
pub struct ControllerExchange {
    pub request_id: u32,
    /// How many messages may still be read.
    pub remaining: u8,
    pub response_timeout_ms: u64,
}

/// What has happened to a request.
#[derive(Debug)]
pub enum ExchangeEvent {
    Sent,
    SendTimedOut,
    SendFailed(String),
    ReceiveTimedOut,
    StreamEnded,
    ReceiveFailed(String),
    /// A text message that is no reply, for the given reason.
    InvalidText(String),
    Response(ControllerJsonRpcResponse),
    Ping,
    PongSent,
    PongFailed(String),
    Pong,
    Close,
    /// A message of another kind.
    Unsupported,
}

/// What the host does about a request.
#[derive(Debug)]
pub enum ExchangeAction {
    /// Read the next message, for at most the exchange's timeout.
    Receive,
    /// Answer the ping that was read.
    SendPong,
    Finish(Result<serde_json::Value, String>),
}

#[verifier::ext_equal]
pub enum ExchangeActionView {
    Receive,
    SendPong,
    Finish(Result<serde_json::Value, Seq<char>>),
}

impl View for ExchangeAction {
    type V = ExchangeActionView;

    open spec fn view(&self) -> ExchangeActionView {
        match self {
            ExchangeAction::Receive => ExchangeActionView::Receive,
            ExchangeAction::SendPong => ExchangeActionView::SendPong,
            ExchangeAction::Finish(Ok(value)) => ExchangeActionView::Finish(Ok(*value)),
            ExchangeAction::Finish(Err(message)) => ExchangeActionView::Finish(Err(message@)),
        }
    }
}

/// A request that fails.
pub open spec fn exchange_fails(exchange: ControllerExchange, message: Seq<char>) -> (
    ControllerExchange,
    ExchangeActionView,
) {
    (exchange, ExchangeActionView::Finish(Err(message)))
}

/// A request after a message that does not settle it.
pub open spec fn message_skipped(exchange: ControllerExchange) -> (
    ControllerExchange,
    ExchangeActionView,
) {
    if exchange.remaining <= 1 {
        exchange_fails(exchange, TOO_MANY_STALE@)
    } else {
        (
            ControllerExchange { remaining: (exchange.remaining - 1) as u8, ..exchange },
            ExchangeActionView::Receive,
        )
    }
}

/// What the MCU's error is reported as.
pub open spec fn error_reply(error: ControllerJsonRpcError) -> Seq<char> {
    ERROR_REPLY@ + signed_decimal(error.code as int) + ": "@ + error.message@
}

/// What a reply with the request's ID comes to.
pub open spec fn settled(response: ControllerJsonRpcResponse) -> Result<
    serde_json::Value,
    Seq<char>,
> {
    match (response.result, response.error) {
        (Some(result), None) => Ok(result),
        (None, Some(error)) => Err(error_reply(error)),
        _ => Err(INVALID_COMBINATION@),
    }
}

/// What the host does about a request after an event.
pub open spec fn exchange_step(exchange: ControllerExchange, event: ExchangeEvent) -> (
    ControllerExchange,
    ExchangeActionView,
) {
    match event {
        ExchangeEvent::Sent => (exchange, ExchangeActionView::Receive),
        ExchangeEvent::SendTimedOut => exchange_fails(exchange, SEND_TIMED_OUT@),
        ExchangeEvent::SendFailed(cause) => exchange_fails(exchange, because(SEND_FAILED@, cause@)),
        ExchangeEvent::ReceiveTimedOut => exchange_fails(exchange, RECEIVE_TIMED_OUT@),
        ExchangeEvent::StreamEnded | ExchangeEvent::Close => exchange_fails(
            exchange,
            SOCKET_CLOSED@,
        ),
        ExchangeEvent::ReceiveFailed(cause) => exchange_fails(
            exchange,
            because(RECEIVE_FAILED@, cause@),
        ),
        ExchangeEvent::InvalidText(cause) => exchange_fails(
            exchange,
            because(INVALID_JSON@, cause@),
        ),
        ExchangeEvent::Response(response) => if response.jsonrpc@ != "2.0"@ {
            exchange_fails(exchange, INVALID_VERSION@)
        } else if response.id != Some(exchange.request_id) {
            message_skipped(exchange)
        } else {
            (exchange, ExchangeActionView::Finish(settled(response)))
        },
        ExchangeEvent::Ping => (exchange, ExchangeActionView::SendPong),
        ExchangeEvent::PongFailed(cause) => exchange_fails(exchange, because(PONG_FAILED@, cause@)),
        ExchangeEvent::PongSent | ExchangeEvent::Pong => message_skipped(exchange),
        ExchangeEvent::Unsupported => exchange_fails(exchange, UNSUPPORTED_MESSAGE@),
    }
}

impl ControllerExchange {
    fn fail(message: String) -> (action: ExchangeAction)
        ensures
            action@ == ExchangeActionView::Finish(Err(message@)),
    {
        ExchangeAction::Finish(Err(message))
    }

    fn skip(&mut self) -> (action: ExchangeAction)
        ensures
            (*final(self), action@) == message_skipped(*old(self)),
    {
        if self.remaining <= 1 {
            Self::fail(TOO_MANY_STALE.to_owned())
        } else {
            self.remaining = self.remaining - 1;
            ExchangeAction::Receive
        }
    }

    /// Decides what the host does about the request after an event.
    pub fn step(&mut self, event: ExchangeEvent) -> (action: ExchangeAction)
        ensures
            (*final(self), action@) == exchange_step(*old(self), event),
    {
        match event {
            ExchangeEvent::Sent => ExchangeAction::Receive,
            ExchangeEvent::SendTimedOut => Self::fail(SEND_TIMED_OUT.to_owned()),
            ExchangeEvent::SendFailed(cause) => Self::fail(with_cause(SEND_FAILED, cause.as_str())),
            ExchangeEvent::ReceiveTimedOut => Self::fail(RECEIVE_TIMED_OUT.to_owned()),
            ExchangeEvent::StreamEnded | ExchangeEvent::Close => Self::fail(
                SOCKET_CLOSED.to_owned(),
            ),
            ExchangeEvent::ReceiveFailed(cause) => Self::fail(
                with_cause(RECEIVE_FAILED, cause.as_str()),
            ),
            ExchangeEvent::InvalidText(cause) => Self::fail(
                with_cause(INVALID_JSON, cause.as_str()),
            ),
            ExchangeEvent::Response(response) => {
                if !same_text(response.jsonrpc.as_str(), "2.0") {
                    return Self::fail(INVALID_VERSION.to_owned());
                }
                match response.id {
                    Some(id) => if id != self.request_id {
                        return self.skip();
                    },
                    None => return self.skip(),
                }
                match (response.result, response.error) {
                    (Some(result), None) => ExchangeAction::Finish(Ok(result)),
                    (None, Some(error)) => {
                        let mut message = ERROR_REPLY.to_owned();
                        push_signed_decimal(&mut message, error.code as i64);
                        message.append(": ");
                        message.append(error.message.as_str());
                        Self::fail(message)
                    },
                    _ => Self::fail(INVALID_COMBINATION.to_owned()),
                }
            },
            ExchangeEvent::Ping => ExchangeAction::SendPong,
            ExchangeEvent::PongFailed(cause) => Self::fail(with_cause(PONG_FAILED, cause.as_str())),
            ExchangeEvent::PongSent | ExchangeEvent::Pong => self.skip(),
            ExchangeEvent::Unsupported => Self::fail(UNSUPPORTED_MESSAGE.to_owned()),
        }
    }
}

/// A reply with another ID is never taken for the reply to a request: the request waits on, or is
/// given up.
pub proof fn stale_replies_are_discarded(
    exchange: ControllerExchange,
    response: ControllerJsonRpcResponse,
)
    requires
        response.id != Some(exchange.request_id),
    ensures
        ({
            let (after, action) = exchange_step(exchange, ExchangeEvent::Response(response));
            &&& after.request_id == exchange.request_id
            &&& action == ExchangeActionView::Receive || action matches ExchangeActionView::Finish(
                Err(_),
            )
        }),
{
}

/// A value is the result of a request only where the MCU replied with it to that very request.
pub proof fn results_come_from_the_reply(
    exchange: ControllerExchange,
    event: ExchangeEvent,
    value: serde_json::Value,
)
    requires
        exchange_step(exchange, event).1 == ExchangeActionView::Finish(Ok(value)),
    ensures
        event matches ExchangeEvent::Response(response) && response.id == Some(exchange.request_id)
            && response.jsonrpc@ == "2.0"@ && response.result == Some(value) && response.error
            is None,
{
}

/// Once it was sent, a request reads a bounded number of messages: each one that does not settle
/// it leaves fewer to read.
pub proof fn requests_end(exchange: ControllerExchange, event: ExchangeEvent)
    requires
        !(event is Sent),
    ensures
        exchange_step(exchange, event).1 == ExchangeActionView::Receive ==> exchange_step(
            exchange,
            event,
        ).0.remaining < exchange.remaining,
{
}

/// Whether a message says that the connection to the MCU is broken.
pub open spec fn connection_broken(message: Seq<char>) -> bool {
    ||| starts_with(message, PACKET_SEND_TIMED_OUT@)
    ||| starts_with(message, PACKET_SEND_FAILED@)
    ||| starts_with(message, REPLY_FAILED@)
    ||| starts_with(message, SEND_TIMED_OUT@)
    ||| starts_with(message, SEND_FAILED@)
    ||| starts_with(message, RECEIVE_TIMED_OUT@)
    ||| starts_with(message, SOCKET_CLOSED@)
    ||| starts_with(message, RECEIVE_FAILED@)
    ||| starts_with(message, INVALID_JSON@)
    ||| starts_with(message, INVALID_VERSION@)
    ||| starts_with(message, PONG_FAILED@)
    ||| starts_with(message, UNSUPPORTED_MESSAGE@)
    ||| starts_with(message, TOO_MANY_STALE@)
}

/// Tells whether the connection to the MCU can be used after a request failed with the given
/// message. Replies carry the ID of their request, so a late one does no harm: only broken
/// transport ends the connection.
pub fn connection_is_usable_after(error: &str) -> (usable: bool)
    ensures
        usable == !connection_broken(error@),
{
    !(has_prefix(error, PACKET_SEND_TIMED_OUT) || has_prefix(error, PACKET_SEND_FAILED)
        || has_prefix(error, REPLY_FAILED) || has_prefix(error, SEND_TIMED_OUT) || has_prefix(
        error,
        SEND_FAILED,
    ) || has_prefix(error, RECEIVE_TIMED_OUT) || has_prefix(error, SOCKET_CLOSED) || has_prefix(
        error,
        RECEIVE_FAILED,
    ) || has_prefix(error, INVALID_JSON) || has_prefix(error, INVALID_VERSION) || has_prefix(
        error,
        PONG_FAILED,
    ) || has_prefix(error, UNSUPPORTED_MESSAGE) || has_prefix(error, TOO_MANY_STALE))
}

/// What the `ready` member of a result says of the MCU.
pub fn ready_result(ready: Option<bool>) -> (result: Result<(), String>)
    ensures
        match result {
            Ok(_) => ready == Some(true),
            Err(message) => ready != Some(true) && message@ == NOT_READY@,
        },
{
    match ready {
        Some(true) => Ok(()),
        _ => Err(NOT_READY.to_owned()),
    }
}

/// What the `accepted` member of a result says of a command.
pub fn accepted_result(accepted: Option<bool>) -> (result: Result<(), String>)
    ensures
        match result {
            Ok(_) => accepted == Some(true),
            Err(message) => accepted != Some(true) && message@ == NOT_ACCEPTED@,
        },
{
    match accepted {
        Some(true) => Ok(()),
        _ => Err(NOT_ACCEPTED.to_owned()),
    }
}

/// The member of the given name, if it is there.
pub open spec fn member_of<T>(members: Map<Seq<char>, T>, name: Seq<char>) -> Option<T> {
    if members.contains_key(name) {
        Some(members[name])
    } else {
        None
    }
}

/// Whether a result has a member of the given name that is true.
pub open spec fn is_affirmed(result: serde_json::Value, name: Seq<char>) -> bool {
    member_of(bool_members(result), name) == Some(true)
}

/// Checks the result of `system.ping`.
pub fn expect_controller_ready(result: &serde_json::Value) -> (verdict: Result<(), String>)
    ensures
        match verdict {
            Ok(_) => is_affirmed(*result, "ready"@),
            Err(message) => !is_affirmed(*result, "ready"@) && message@ == NOT_READY@,
        },
{
    ready_result(bool_member(result, "ready"))
}

/// Checks the result of a command.
pub fn expect_controller_accepted(result: &serde_json::Value) -> (verdict: Result<(), String>)
    ensures
        match verdict {
            Ok(_) => is_affirmed(*result, "accepted"@),
            Err(message) => !is_affirmed(*result, "accepted"@) && message@ == NOT_ACCEPTED@,
        },
{
    accepted_result(bool_member(result, "accepted"))
}

/// What the `port` member of a result says of the raw tunnel; `None` where all is well.
pub open spec fn tunnel_port_fault(port: Option<u64>) -> Option<Seq<char>> {
    match port {
        Some(port) => if port > 0xffff {
            Some(NO_TUNNEL_PORT@)
        } else if port != RAW_TUNNEL_TCP_PORT {
            Some(UNEXPECTED_TUNNEL_PORT@ + decimal(port as nat))
        } else {
            None
        },
        None => Some(NO_TUNNEL_PORT@),
    }
}

/// Checks the `port` member of a result.
pub fn tunnel_port(port: Option<u64>) -> (verdict: Result<u16, String>)
    ensures
        match verdict {
            Ok(found) => tunnel_port_fault(port) is None && found == RAW_TUNNEL_TCP_PORT,
            Err(message) => tunnel_port_fault(port) == Some(message@),
        },
{
    let port = match port {
        Some(port) => port,
        None => return Err(NO_TUNNEL_PORT.to_owned()),
    };
    if port > 0xffff {
        return Err(NO_TUNNEL_PORT.to_owned());
    }
    if port != RAW_TUNNEL_TCP_PORT as u64 {
        let mut message = UNEXPECTED_TUNNEL_PORT.to_owned();
        push_decimal(&mut message, port);
        return Err(message);
    }
    Ok(port as u16)
}

/// Where the raw tunnel of an MCU is, or why the result of `debug.enableRawTunnel` does not tell.
pub fn open_raw_tunnel(host: &str, result: &serde_json::Value) -> (peer: Result<String, String>)
    ensures
        match peer {
            Ok(peer) => tunnel_port_fault(member_of(number_members(*result), "port"@)) is None
                && peer@ == peer_name(host@, RAW_TUNNEL_TCP_PORT),
            Err(message) => tunnel_port_fault(member_of(number_members(*result), "port"@)) == Some(
                message@,
            ),
        },
{
    match tunnel_port(number_member(result, "port")) {
        Ok(port) => Ok(peer_of(host, port)),
        Err(message) => Err(message),
    }
}

/// The name of a host with a port.
pub open spec fn peer_name(host: Seq<char>, port: u16) -> Seq<char> {
    host + ":"@ + decimal(port as nat)
}

/// The name of a host with a port.
pub fn peer_of(host: &str, port: u16) -> (peer: String)
    ensures
        peer@ == peer_name(host@, port),
{
    let mut peer = joined(host, ":");
    push_decimal(&mut peer, port as u64);
    peer
}

/// The address of an MCU's WebSocket.
pub fn controller_endpoint(peer: &str) -> (endpoint: String)
    ensures
        endpoint@ == "ws://"@ + peer@ + CONTROLLER_WEBSOCKET_PATH@,
{
    let mut endpoint = joined("ws://", peer);
    endpoint.append(CONTROLLER_WEBSOCKET_PATH);
    endpoint
}

/// Why a connection to an MCU could not be made.
#[derive(Debug)]
pub enum ConnectFault {
    ConnectTimedOut,
    ConnectFailed(String),
    ConfigureFailed(String),
    UpgradeTimedOut,
    UpgradeFailed(String),
}

/// The message for a failed connection.
pub open spec fn connect_message(peer: Seq<char>, fault: ConnectFault) -> Seq<char> {
    match fault {
        ConnectFault::ConnectTimedOut => "Timed out connecting to "@ + peer,
        ConnectFault::ConnectFailed(cause) => because("Could not connect to "@ + peer, cause@),
        ConnectFault::ConfigureFailed(cause) => because(
            "Connected to "@ + peer + ", but could not configure TCP"@,
            cause@,
        ),
        ConnectFault::UpgradeTimedOut => "Timed out opening the JSON-RPC WebSocket to "@ + peer,
        ConnectFault::UpgradeFailed(cause) => because(
            "Could not open the JSON-RPC WebSocket to "@ + peer,
            cause@,
        ),
    }
}

/// The message for a failed connection.
pub fn connect_controller_once(peer: &str, fault: &ConnectFault) -> (message: String)
    ensures
        message@ == connect_message(peer@, *fault),
{
    match fault {
        ConnectFault::ConnectTimedOut => joined("Timed out connecting to ", peer),
        ConnectFault::ConnectFailed(cause) => with_cause(
            joined("Could not connect to ", peer).as_str(),
            cause.as_str(),
        ),
        ConnectFault::ConfigureFailed(cause) => {
            let mut message = joined("Connected to ", peer);
            message.append(", but could not configure TCP");
            with_cause(message.as_str(), cause.as_str())
        },
        ConnectFault::UpgradeTimedOut => joined(
            "Timed out opening the JSON-RPC WebSocket to ",
            peer,
        ),
        ConnectFault::UpgradeFailed(cause) => with_cause(
            joined("Could not open the JSON-RPC WebSocket to ", peer).as_str(),
            cause.as_str(),
        ),
    }
}

/// Whether a message says that a connection could not be made.
pub open spec fn is_retryable(message: Seq<char>) -> bool {
    ||| starts_with(message, "Timed out connecting"@)
    ||| starts_with(message, "Could not connect"@)
    ||| starts_with(message, "Timed out opening the JSON-RPC WebSocket"@)
    ||| starts_with(message, "Could not open the JSON-RPC WebSocket"@)
}

/// Tells whether a message says that a connection could not be made, as happens while the MCU
/// hands over its controller.
pub fn controller_connection_is_retryable(error: &str) -> (retryable: bool)
    ensures
        retryable == is_retryable(error@),
{
    has_prefix(error, "Timed out connecting") || has_prefix(error, "Could not connect")
        || has_prefix(error, "Timed out opening the JSON-RPC WebSocket") || has_prefix(
        error,
        "Could not open the JSON-RPC WebSocket",
    )
}

/// How long the host waits after a failed attempt to connect to the MCU, where the first one was
/// made `elapsed_ms` ago; `None` where it gives up.
pub open spec fn retry_wait(message: Seq<char>, elapsed_ms: u64) -> Option<u64> {
    if is_retryable(message) && elapsed_ms < CONTROLLER_CONNECT_RETRY_WINDOW_MS {
        Some(CONTROLLER_CONNECT_RETRY_INTERVAL_MS)
    } else {
        None
    }
}

/// How long the host waits, in milliseconds, before it tries again to connect to the MCU; `None`
/// where it gives up.
pub fn connect_controller(error: &str, elapsed_ms: u64) -> (wait: Option<u64>)
    ensures
        wait == retry_wait(error@, elapsed_ms),
{
    if controller_connection_is_retryable(error) && elapsed_ms
        < CONTROLLER_CONNECT_RETRY_WINDOW_MS {
        Some(CONTROLLER_CONNECT_RETRY_INTERVAL_MS)
    } else {
        None
    }
}

/// How long the next attempt to connect to the raw tunnel may take, or the message that the host
/// gives up with.
pub open spec fn raw_attempt(peer: Seq<char>, elapsed_nanos: u64) -> Result<u64, Seq<char>> {
    if elapsed_nanos > RAW_CONNECT_WINDOW_NANOS {
        Err("Timed out connecting to raw tunnel "@ + peer)
    } else if RAW_CONNECT_WINDOW_NANOS - elapsed_nanos < RAW_CONNECT_ATTEMPT_NANOS {
        Ok((RAW_CONNECT_WINDOW_NANOS - elapsed_nanos) as u64)
    } else {
        Ok(RAW_CONNECT_ATTEMPT_NANOS)
    }
}

/// How long the next attempt to connect to the raw tunnel may take, in nanoseconds, where the
/// first one was made `elapsed_nanos` ago; otherwise the message that the host gives up with. The
/// MCU may take a moment to listen after it has announced the tunnel.
pub fn connect_raw_tunnel(peer: &str, elapsed_nanos: u64) -> (attempt: Result<u64, String>)
    ensures
        match attempt {
            Ok(timeout) => raw_attempt(peer@, elapsed_nanos) == Ok::<u64, Seq<char>>(timeout),
            Err(message) => raw_attempt(peer@, elapsed_nanos) == Err::<u64, Seq<char>>(message@),
        },
{
    if elapsed_nanos > RAW_CONNECT_WINDOW_NANOS {
        return Err(joined("Timed out connecting to raw tunnel ", peer));
    }
    let remaining: u64 = RAW_CONNECT_WINDOW_NANOS - elapsed_nanos;
    if remaining < RAW_CONNECT_ATTEMPT_NANOS {
        Ok(remaining)
    } else {
        Ok(RAW_CONNECT_ATTEMPT_NANOS)
    }
}

/// The message for a raw tunnel that could not be configured.
pub fn raw_tunnel_unusable(peer: &str, cause: &str) -> (message: String)
    ensures
        message@ == because(
            "Connected to raw tunnel "@ + peer@ + ", but could not configure TCP"@,
            cause@,
        ),
{
    let mut message = joined("Connected to raw tunnel ", peer);
    message.append(", but could not configure TCP");
    with_cause(message.as_str(), cause)
}

proof fn prefix_of_joined(prefix: Seq<char>, rest: Seq<char>)
    ensures
        starts_with(prefix + rest, prefix),
{
    assert((prefix + rest).take(prefix.len() as int) =~= prefix);
}

proof fn different_start(text: Seq<char>, prefix: Seq<char>, at: int)
    requires
        0 <= at < prefix.len(),
        at < text.len() ==> text[at] != prefix[at],
    ensures
        !starts_with(text, prefix),
{
    if starts_with(text, prefix) {
        assert(text.take(prefix.len() as int)[at] == text[at]);
    }
}

/// A connection that could not be made is tried again; one that was made and then could not be
/// configured is not.
pub proof fn failed_connections_are_retried(peer: Seq<char>, fault: ConnectFault)
    ensures
        is_retryable(connect_message(peer, fault)) <==> !(fault is ConfigureFailed),
{
    let message = connect_message(peer, fault);
    reveal_strlit("Timed out connecting");
    reveal_strlit("Could not connect");
    reveal_strlit("Timed out opening the JSON-RPC WebSocket");
    reveal_strlit("Could not open the JSON-RPC WebSocket");
    reveal_strlit("Timed out connecting to ");
    reveal_strlit("Could not connect to ");
    reveal_strlit("Connected to ");
    reveal_strlit("Timed out opening the JSON-RPC WebSocket to ");
    reveal_strlit("Could not open the JSON-RPC WebSocket to ");
    match fault {
        ConnectFault::ConnectTimedOut => {
            assert(message.take("Timed out connecting"@.len() as int) =~= "Timed out connecting"@);
        },
        ConnectFault::ConnectFailed(_) => {
            assert(message.take("Could not connect"@.len() as int) =~= "Could not connect"@);
        },
        ConnectFault::ConfigureFailed(_) => {
            different_start(message, "Timed out connecting"@, 0);
            different_start(message, "Could not connect"@, 2);
            different_start(message, "Timed out opening the JSON-RPC WebSocket"@, 0);
            different_start(message, "Could not open the JSON-RPC WebSocket"@, 2);
        },
        ConnectFault::UpgradeTimedOut => {
            let prefix = "Timed out opening the JSON-RPC WebSocket"@;
            assert(message.take(prefix.len() as int) =~= prefix);
        },
        ConnectFault::UpgradeFailed(_) => {
            let prefix = "Could not open the JSON-RPC WebSocket"@;
            assert(message.take(prefix.len() as int) =~= prefix);
        },
    }
}

/// A message that no failed transport is reported with: an answer of the MCU, a bad answer of a
/// servo, or none.
spec fn is_harmless(message: Seq<char>) -> bool {
    ||| message.len() > 4 && message[0] == 'M' && (message[4] == 'J' || message[4] == 'r')
    ||| message.len() > 0 && message[0] == 'S'
    ||| message == NO_REPLY_HEADER@
    ||| message == REPLY_TIMED_OUT@
}

proof fn harmless_messages_break_nothing(message: Seq<char>)
    requires
        is_harmless(message),
    ensures
        !connection_broken(message),
{
    reveal_strlit("Could not find an STS response header");
    reveal_strlit("Timed out waiting for an STS servo reply");
    reveal_strlit("Timed out sending command to the MCU");
    reveal_strlit("Could not send command to the MCU");
    reveal_strlit("Could not read STS servo reply");
    reveal_strlit("Timed out sending a JSON-RPC command to the MCU");
    reveal_strlit("Could not send a JSON-RPC command to the MCU");
    reveal_strlit("Timed out waiting for an MCU JSON-RPC response");
    reveal_strlit("MCU closed the JSON-RPC WebSocket");
    reveal_strlit("Could not read an MCU JSON-RPC response");
    reveal_strlit("MCU sent invalid JSON-RPC");
    reveal_strlit("MCU sent a JSON-RPC response with an unsupported version");
    reveal_strlit("Could not answer MCU WebSocket ping");
    reveal_strlit("MCU sent an unsupported WebSocket message");
    reveal_strlit("MCU sent too many stale JSON-RPC responses");
    let of_mcu = message[0] == 'M';
    let of_servo = message[0] == 'S';
    let at: int = if of_mcu || of_servo {
        0
    } else {
        10
    };
    let mcu_at: int = if of_mcu {
        4
    } else {
        0
    };
    let waiting_at: int = if message == REPLY_TIMED_OUT@ {
        25
    } else {
        0
    };
    different_start(message, PACKET_SEND_TIMED_OUT@, at);
    different_start(message, PACKET_SEND_FAILED@, at);
    different_start(message, REPLY_FAILED@, at);
    different_start(message, SEND_TIMED_OUT@, at);
    different_start(message, SEND_FAILED@, at);
    different_start(message, RECEIVE_TIMED_OUT@, waiting_at);
    different_start(message, SOCKET_CLOSED@, mcu_at);
    different_start(message, RECEIVE_FAILED@, at);
    different_start(message, INVALID_JSON@, mcu_at);
    different_start(message, INVALID_VERSION@, mcu_at);
    different_start(message, PONG_FAILED@, at);
    different_start(message, UNSUPPORTED_MESSAGE@, mcu_at);
    different_start(message, TOO_MANY_STALE@, mcu_at);
}

/// A request that the MCU answered leaves the connection usable, whatever the answer; every other
/// failure of a request ends it.
pub proof fn only_broken_transport_ends_the_connection(
    exchange: ControllerExchange,
    event: ExchangeEvent,
    message: Seq<char>,
)
    requires
        exchange_step(exchange, event).1 == ExchangeActionView::Finish(Err(message)),
    ensures
        !connection_broken(message) <==> (event matches ExchangeEvent::Response(response)
            && response.jsonrpc@ == "2.0"@ && response.id == Some(exchange.request_id)),
{
    match event {
        ExchangeEvent::SendFailed(cause) => {
            prefix_of_joined(SEND_FAILED@, ": "@ + cause@);
            assert(message =~= SEND_FAILED@ + (": "@ + cause@));
        },
        ExchangeEvent::ReceiveFailed(cause) => {
            prefix_of_joined(RECEIVE_FAILED@, ": "@ + cause@);
            assert(message =~= RECEIVE_FAILED@ + (": "@ + cause@));
        },
        ExchangeEvent::InvalidText(cause) => {
            prefix_of_joined(INVALID_JSON@, ": "@ + cause@);
            assert(message =~= INVALID_JSON@ + (": "@ + cause@));
        },
        ExchangeEvent::PongFailed(cause) => {
            prefix_of_joined(PONG_FAILED@, ": "@ + cause@);
            assert(message =~= PONG_FAILED@ + (": "@ + cause@));
        },
        ExchangeEvent::Response(response) => {
            if response.jsonrpc@ == "2.0"@ && response.id == Some(exchange.request_id) {
                reveal_strlit("MCU JSON-RPC error ");
                reveal_strlit("MCU returned an invalid JSON-RPC result/error combination");
                harmless_messages_break_nothing(message);
            } else {
                prefix_of_joined(message, Seq::empty());
                assert(message + Seq::<char>::empty() =~= message);
            }
        },
        _ => {
            prefix_of_joined(message, Seq::empty());
            assert(message + Seq::<char>::empty() =~= message);
        },
    }
}

/// The packet for an instruction, or the message that it is too long.
pub fn write_packet(id: u8, instruction: u8, parameters: &[u8]) -> (packet: Result<Vec<u8>, String>)
    ensures
        match packet {
            Ok(packet) => parameters@.len() <= 253 && packet@ == instruction_packet(
                id,
                instruction,
                parameters@,
            ),
            Err(message) => parameters@.len() > 253 && message@ == PACKET_TOO_LONG@,
        },
{
    if parameters.len() > 253 {
        return Err(PACKET_TOO_LONG.to_owned());
    }
    Ok(packet_bytes(id, instruction, parameters))
}

/// The message for a faulty reply of the servo `expected_id`.
pub open spec fn fault_message(fault: StatusFault, expected_id: u8) -> Seq<char> {
    match fault {
        StatusFault::NoHeader => NO_REPLY_HEADER@,
        StatusFault::WrongServo { id } => "STS reply came from servo "@ + decimal(id as nat)
            + ", but servo "@ + decimal(expected_id as nat) + " was addressed"@,
        StatusFault::InvalidLength { length } => "STS reply has an invalid length ("@ + decimal(
            length as nat,
        ) + ")"@,
        StatusFault::InvalidChecksum => REPLY_CHECKSUM@,
        StatusFault::Reported { id, error } => "Servo "@ + decimal(id as nat)
            + " reported STS error 0x"@ + hex_byte(error),
        StatusFault::CutShort => because(REPLY_FAILED@, REPLY_CUT_SHORT@),
    }
}

/// The message for a faulty reply of the servo `expected_id`.
pub fn status_fault_message(fault: StatusFault, expected_id: u8) -> (message: String)
    ensures
        message@ == fault_message(fault, expected_id),
{
    match fault {
        StatusFault::NoHeader => NO_REPLY_HEADER.to_owned(),
        StatusFault::WrongServo { id } => {
            let mut message = "STS reply came from servo ".to_owned();
            push_decimal(&mut message, id as u64);
            message.append(", but servo ");
            push_decimal(&mut message, expected_id as u64);
            message.append(" was addressed");
            message
        },
        StatusFault::InvalidLength { length } => {
            let mut message = "STS reply has an invalid length (".to_owned();
            push_decimal(&mut message, length as u64);
            message.append(")");
            message
        },
        StatusFault::InvalidChecksum => REPLY_CHECKSUM.to_owned(),
        StatusFault::Reported { id, error } => {
            let mut message = "Servo ".to_owned();
            push_decimal(&mut message, id as u64);
            message.append(" reported STS error 0x");
            push_hex_byte(&mut message, error);
            message
        },
        StatusFault::CutShort => with_cause(REPLY_FAILED, REPLY_CUT_SHORT),
    }
}

/// The message for a reply with another number of parameters than expected.
pub open spec fn count_message(id: u8, found: nat, expected: nat) -> Seq<char> {
    "Servo "@ + decimal(id as nat) + " returned "@ + decimal(found) + " data bytes; expected "@
        + decimal(expected)
}

/// An instruction that is sent through the raw tunnel, and how far its reply was read.
#[derive(Clone, Copy, Debug, PartialEq, Eq, Structural)]
pub struct RawExchange {
    pub id: u8,
    pub reply_len: usize,
    pub reader: StatusReader,
}

/// What has happened to an instruction.
#[derive(Debug)]
pub enum RawEvent {
    Sent,
    SendTimedOut,
    SendFailed(String),
    /// The bytes that were read. Where they are not as many as were asked for, the stream has ended.
    Read(Vec<u8>),
    ReadTimedOut,
    ReadFailed(String),
}

/// What the host does about an instruction.
#[derive(Debug)]
pub enum RawAction {
    /// Read so many bytes.
    Read { count: usize },
    /// Report the parameters of the reply, or why there is none.
    Finish(Result<Vec<u8>, String>),
}

#[verifier::ext_equal]
pub enum RawActionView {
    Read { count: nat },
    Finish(Result<Seq<u8>, Seq<char>>),
}

impl View for RawAction {
    type V = RawActionView;

    open spec fn view(&self) -> RawActionView {
        match self {
            RawAction::Read { count } => RawActionView::Read { count: *count as nat },
            RawAction::Finish(Ok(parameters)) => RawActionView::Finish(Ok(parameters@)),
            RawAction::Finish(Err(message)) => RawActionView::Finish(Err(message@)),
        }
    }
}

/// What a step of reading a reply comes to.
pub open spec fn raw_reply(exchange: RawExchange, step: StatusStepView) -> (
    RawExchange,
    RawActionView,
) {
    match step {
        StatusStepView::Continue(reader) => (
            RawExchange { reader, ..exchange },
            RawActionView::Read { count: reader.spec_wanted() },
        ),
        StatusStepView::Complete(parameters) => (
            exchange,
            RawActionView::Finish(
                if parameters.len() == exchange.reply_len {
                    Ok(parameters)
                } else {
                    Err(
                        count_message(exchange.id, parameters.len(), exchange.reply_len as nat),
                    )
                },
            ),
        ),
        StatusStepView::Fault(fault) => (
            exchange,
            RawActionView::Finish(Err(fault_message(fault, exchange.id))),
        ),
    }
}

/// What the host does about an instruction after an event.
pub open spec fn raw_step(exchange: RawExchange, event: RawEvent) -> (RawExchange, RawActionView) {
    match event {
        RawEvent::Sent => (
            exchange,
            RawActionView::Read { count: exchange.reader.spec_wanted() },
        ),
        RawEvent::SendTimedOut => (
            exchange,
            RawActionView::Finish(Err(PACKET_SEND_TIMED_OUT@)),
        ),
        RawEvent::SendFailed(cause) => (
            exchange,
            RawActionView::Finish(Err(because(PACKET_SEND_FAILED@, cause@))),
        ),
        RawEvent::Read(bytes) => raw_reply(exchange, exchange.reader.step(exchange.id, bytes@)),
        RawEvent::ReadTimedOut => (exchange, RawActionView::Finish(Err(REPLY_TIMED_OUT@))),
        RawEvent::ReadFailed(cause) => (
            exchange,
            RawActionView::Finish(Err(because(REPLY_FAILED@, cause@))),
        ),
    }
}

impl RawExchange {
    /// The exchange for an instruction, with the packet that starts it.
    pub fn start(transaction: &Transaction, mode: BridgeMode) -> (started: Result<
        (RawExchange, Vec<u8>),
        String,
    >)
        ensures
            match started {
                Ok((exchange, packet)) => {
                    &&& mode == BridgeMode::DebugRaw && transaction@.parameters.len() <= 253
                    &&& exchange == (RawExchange {
                        id: transaction.id,
                        reply_len: transaction.reply_len,
                        reader: StatusReader::start(),
                    })
                    &&& packet@ == instruction_packet(
                        transaction.id,
                        transaction.instruction,
                        transaction.parameters@,
                    )
                },
                Err(message) => if transaction@.parameters.len() > 253 {
                    message@ == PACKET_TOO_LONG@
                } else {
                    mode == BridgeMode::Controller && message@ == NOT_RAW_MODE@
                },
            },
    {
        let packet = match write_packet(
            transaction.id,
            transaction.instruction,
            transaction.parameters.as_slice(),
        ) {
            Ok(packet) => packet,
            Err(message) => return Err(message),
        };
        match mode {
            BridgeMode::Controller => Err(NOT_RAW_MODE.to_owned()),
            BridgeMode::DebugRaw => Ok(
                (
                    RawExchange {
                        id: transaction.id,
                        reply_len: transaction.reply_len,
                        reader: StatusReader::new(),
                    },
                    packet,
                ),
            ),
        }
    }

    /// Decides what the host does about the instruction after an event.
    pub fn read_status(&mut self, event: RawEvent) -> (action: RawAction)
        ensures
            (*final(self), action@) == raw_step(*old(self), event),
    {
        match event {
            RawEvent::Sent => RawAction::Read { count: self.reader.wanted() },
            RawEvent::SendTimedOut => RawAction::Finish(Err(PACKET_SEND_TIMED_OUT.to_owned())),
            RawEvent::SendFailed(cause) => RawAction::Finish(
                Err(with_cause(PACKET_SEND_FAILED, cause.as_str())),
            ),
            RawEvent::ReadTimedOut => RawAction::Finish(Err(REPLY_TIMED_OUT.to_owned())),
            RawEvent::ReadFailed(cause) => RawAction::Finish(
                Err(with_cause(REPLY_FAILED, cause.as_str())),
            ),
            RawEvent::Read(bytes) => match read_sts_status(self.reader, self.id, bytes.as_slice()) {
                StatusStep::Continue(reader) => {
                    self.reader = reader;
                    RawAction::Read { count: reader.wanted() }
                },
                StatusStep::Complete(parameters) => {
                    if parameters.len() == self.reply_len {
                        RawAction::Finish(Ok(parameters))
                    } else {
                        let mut message = "Servo ".to_owned();
                        push_decimal(&mut message, self.id as u64);
                        message.append(" returned ");
                        push_decimal(&mut message, parameters.len() as u64);
                        message.append(" data bytes; expected ");
                        push_decimal(&mut message, self.reply_len as u64);
                        RawAction::Finish(Err(message))
                    }
                },
                StatusStep::Fault(fault) => RawAction::Finish(
                    Err(status_fault_message(fault, self.id)),
                ),
            },
        }
    }
}

/// A servo that does not answer, or answers badly, leaves the raw tunnel usable: only a failure to
/// send or to receive ends the connection.
pub proof fn servo_faults_keep_the_connection(
    exchange: RawExchange,
    event: RawEvent,
    message: Seq<char>,
)
    requires
        raw_step(exchange, event).1 == RawActionView::Finish(Err(message)),
    ensures
        connection_broken(message) <==> event is SendTimedOut || event is SendFailed || event
            is ReadFailed || (event matches RawEvent::Read(bytes) && bytes@.len()
            != exchange.reader.spec_wanted()),
{
    match event {
        RawEvent::SendFailed(cause) => {
            prefix_of_joined(PACKET_SEND_FAILED@, ": "@ + cause@);
            assert(message =~= PACKET_SEND_FAILED@ + (": "@ + cause@));
        },
        RawEvent::ReadFailed(cause) => {
            prefix_of_joined(REPLY_FAILED@, ": "@ + cause@);
            assert(message =~= REPLY_FAILED@ + (": "@ + cause@));
        },
        RawEvent::SendTimedOut => {
            prefix_of_joined(message, Seq::empty());
            assert(message + Seq::<char>::empty() =~= message);
        },
        RawEvent::Read(bytes) if bytes@.len() != exchange.reader.spec_wanted() => {
            prefix_of_joined(REPLY_FAILED@, ": "@ + REPLY_CUT_SHORT@);
            assert(message =~= REPLY_FAILED@ + (": "@ + REPLY_CUT_SHORT@));
        },
        _ => {
            reveal_strlit("STS reply came from servo ");
            reveal_strlit("STS reply has an invalid length (");
            reveal_strlit("STS reply checksum did not match");
            reveal_strlit("Servo ");
            harmless_messages_break_nothing(message);
        },
    }
}

/// Requests are numbered in turn, modulo the numbers that 32 bits hold.
pub proof fn requests_are_numbered_in_turn(id: u32)
    ensures
        following_id(id) == (id + 1) % 4294967296,
{
}

/// A request has exactly four members: the version, its number, the method and the parameters as
/// they were given.
pub proof fn requests_have_four_members(
    id: u32,
    method: Seq<char>,
    params: Map<Seq<char>, JsonModel>,
)
    ensures
        ({
            let request = request_members(id, method, params);
            &&& request.dom() == set!["jsonrpc"@, "id"@, "method"@, "params"@]
            &&& request["jsonrpc"@] == JsonModel::Text("2.0"@)
            &&& request["id"@] == JsonModel::Number(id as nat)
            &&& request["method"@] == JsonModel::Text(method)
            &&& request["params"@] == JsonModel::Object(params)
        }),
{
    reveal_strlit("jsonrpc");
    reveal_strlit("id");
    reveal_strlit("method");
    reveal_strlit("params");
    assert("method"@[0] == 'm' && "params"@[0] == 'p');
    assert("jsonrpc"@.len() == 7 && "id"@.len() == 2 && "method"@.len() == 6 && "params"@.len()
        == 6);
    assert(request_members(id, method, params).dom() =~= set![
        "jsonrpc"@,
        "id"@,
        "method"@,
        "params"@,
    ]);
}

/// A reply to a request settles it: with the result as it is, or with the code and the text of the
/// error, where exactly one of the two is there.
pub proof fn replies_settle_their_request(
    exchange: ControllerExchange,
    response: ControllerJsonRpcResponse,
)
    requires
        response.jsonrpc@ == "2.0"@,
        response.id == Some(exchange.request_id),
    ensures
        ({
            let (after, action) = exchange_step(exchange, ExchangeEvent::Response(response));
            &&& after == exchange
            &&& action matches ExchangeActionView::Finish(result) && {
                &&& response.result is Some && response.error is None ==> result == Ok::<
                    serde_json::Value,
                    Seq<char>,
                >(response.result->Some_0)
                &&& response.result is None && response.error is Some ==> result == Err::<
                    serde_json::Value,
                    Seq<char>,
                >(
                    "MCU JSON-RPC error "@ + signed_decimal(
                        response.error->Some_0.code as int,
                    ) + ": "@ + response.error->Some_0.message@,
                )
                &&& response.result is Some == response.error is Some ==> result == Err::<
                    serde_json::Value,
                    Seq<char>,
                >("MCU returned an invalid JSON-RPC result/error combination"@)
            }
        }),
{
}

/// A message that does not settle a request is passed over while more than one may be read: it
/// leaves one fewer to read and changes nothing else. The last one ends the request.
pub proof fn other_messages_are_counted(exchange: ControllerExchange, event: ExchangeEvent)
    requires
        event is PongSent || event is Pong || (event matches ExchangeEvent::Response(response)
            && response.jsonrpc@ == "2.0"@ && response.id != Some(exchange.request_id)),
    ensures
        ({
            let (after, action) = exchange_step(exchange, event);
            &&& after.request_id == exchange.request_id
            &&& after.response_timeout_ms == exchange.response_timeout_ms
            &&& exchange.remaining > 1 ==> action == ExchangeActionView::Receive && after.remaining
                == exchange.remaining - 1
            &&& exchange.remaining < 2 ==> action == ExchangeActionView::Finish(
                Err("MCU sent too many stale JSON-RPC responses"@),
            )
        }),
{
}

/// Sending and pings leave a request as it is: the reply is awaited, and the ping answered.
pub proof fn requests_wait_for_their_reply(exchange: ControllerExchange)
    ensures
        exchange_step(exchange, ExchangeEvent::Sent) == (exchange, ExchangeActionView::Receive),
        exchange_step(exchange, ExchangeEvent::Ping) == (exchange, ExchangeActionView::SendPong),
{
}

/// Whether a request ends with the given message.
pub open spec fn is_given_up(
    exchange: ControllerExchange,
    event: ExchangeEvent,
    message: Seq<char>,
) -> bool {
    exchange_step(exchange, event).1 == ExchangeActionView::Finish(Err(message))
}

/// A request that fails on the way says what failed, and with which cause.
pub proof fn failed_requests_name_their_cause(
    exchange: ControllerExchange,
    cause: String,
    response: ControllerJsonRpcResponse,
)
    ensures
        is_given_up(
            exchange,
            ExchangeEvent::SendTimedOut,
            "Timed out sending a JSON-RPC command to the MCU"@,
        ),
        is_given_up(
            exchange,
            ExchangeEvent::SendFailed(cause),
            "Could not send a JSON-RPC command to the MCU"@ + ": "@ + cause@,
        ),
        is_given_up(
            exchange,
            ExchangeEvent::ReceiveTimedOut,
            "Timed out waiting for an MCU JSON-RPC response"@,
        ),
        is_given_up(
            exchange,
            ExchangeEvent::StreamEnded,
            "MCU closed the JSON-RPC WebSocket"@,
        ),
        is_given_up(exchange, ExchangeEvent::Close, "MCU closed the JSON-RPC WebSocket"@),
        is_given_up(
            exchange,
            ExchangeEvent::ReceiveFailed(cause),
            "Could not read an MCU JSON-RPC response"@ + ": "@ + cause@,
        ),
        is_given_up(
            exchange,
            ExchangeEvent::InvalidText(cause),
            "MCU sent invalid JSON-RPC"@ + ": "@ + cause@,
        ),
        is_given_up(
            exchange,
            ExchangeEvent::PongFailed(cause),
            "Could not answer MCU WebSocket ping"@ + ": "@ + cause@,
        ),
        is_given_up(
            exchange,
            ExchangeEvent::Unsupported,
            "MCU sent an unsupported WebSocket message"@,
        ),
        response.jsonrpc@ != "2.0"@ ==> is_given_up(
            exchange,
            ExchangeEvent::Response(response),
            "MCU sent a JSON-RPC response with an unsupported version"@,
        ),
{
}

/// Whether a text goes on from the given start.
pub open spec fn continues(text: Seq<char>, start: Seq<char>) -> bool {
    exists|rest: Seq<char>| text == #[trigger] (start + rest)
}

proof fn prefixes_are_continued(text: Seq<char>, start: Seq<char>)
    ensures
        starts_with(text, start) <==> continues(text, start),
{
    crate::text::prefixes_are_completed(text, start, Seq::empty());
    if continues(text, start) {
        let rest = choose|rest: Seq<char>| text == #[trigger] (start + rest);
        crate::text::prefixes_are_completed(text, start, rest);
    }
}

/// The connection is broken exactly where a message goes on from one of these.
pub proof fn broken_connections_are_told_by_their_message(message: Seq<char>)
    ensures
        connection_broken(message) <==> {
            ||| continues(message, "Timed out sending command to the MCU"@)
            ||| continues(message, "Could not send command to the MCU"@)
            ||| continues(message, "Could not read STS servo reply"@)
            ||| continues(message, "Timed out sending a JSON-RPC command to the MCU"@)
            ||| continues(message, "Could not send a JSON-RPC command to the MCU"@)
            ||| continues(message, "Timed out waiting for an MCU JSON-RPC response"@)
            ||| continues(message, "MCU closed the JSON-RPC WebSocket"@)
            ||| continues(message, "Could not read an MCU JSON-RPC response"@)
            ||| continues(message, "MCU sent invalid JSON-RPC"@)
            ||| continues(message, "MCU sent a JSON-RPC response with an unsupported version"@)
            ||| continues(message, "Could not answer MCU WebSocket ping"@)
            ||| continues(message, "MCU sent an unsupported WebSocket message"@)
            ||| continues(message, "MCU sent too many stale JSON-RPC responses"@)
        },
{
    prefixes_are_continued(message, PACKET_SEND_TIMED_OUT@);
    prefixes_are_continued(message, PACKET_SEND_FAILED@);
    prefixes_are_continued(message, REPLY_FAILED@);
    prefixes_are_continued(message, SEND_TIMED_OUT@);
    prefixes_are_continued(message, SEND_FAILED@);
    prefixes_are_continued(message, RECEIVE_TIMED_OUT@);
    prefixes_are_continued(message, SOCKET_CLOSED@);
    prefixes_are_continued(message, RECEIVE_FAILED@);
    prefixes_are_continued(message, INVALID_JSON@);
    prefixes_are_continued(message, INVALID_VERSION@);
    prefixes_are_continued(message, PONG_FAILED@);
    prefixes_are_continued(message, UNSUPPORTED_MESSAGE@);
    prefixes_are_continued(message, TOO_MANY_STALE@);
}

/// A connection is tried again exactly where a message goes on from one of these.
pub proof fn retries_are_told_by_their_message(message: Seq<char>)
    ensures
        is_retryable(message) <==> {
            ||| continues(message, "Timed out connecting"@)
            ||| continues(message, "Could not connect"@)
            ||| continues(message, "Timed out opening the JSON-RPC WebSocket"@)
            ||| continues(message, "Could not open the JSON-RPC WebSocket"@)
        },
{
    prefixes_are_continued(message, "Timed out connecting"@);
    prefixes_are_continued(message, "Could not connect"@);
    prefixes_are_continued(message, "Timed out opening the JSON-RPC WebSocket"@);
    prefixes_are_continued(message, "Could not open the JSON-RPC WebSocket"@);
}

/// A result affirms something exactly where it has a true member of that name.
pub proof fn results_affirm_by_a_true_member(result: serde_json::Value, name: Seq<char>)
    ensures
        is_affirmed(result, name) <==> bool_members(result).contains_key(name) && bool_members(
            result,
        )[name],
{
}

/// Only 3334 is taken for the port of the raw tunnel. Another number that can be a port is named
/// in the message.
pub proof fn the_raw_tunnel_has_one_port(port: u64)
    ensures
        tunnel_port_fault(None) == Some("MCU did not return a raw tunnel TCP port"@),
        tunnel_port_fault(Some(port)) is None <==> port == 3334,
        port > 65535 ==> tunnel_port_fault(Some(port)) == Some(
            "MCU did not return a raw tunnel TCP port"@,
        ),
        port < 65536 && port != 3334 ==> tunnel_port_fault(Some(port)) == Some(
            "MCU returned unexpected raw tunnel TCP port "@ + decimal(port as nat),
        ),
{
}

/// A peer is named by the host, a colon and the digits of the port.
pub proof fn peers_are_hosts_with_ports(host: Seq<char>, port: u16)
    ensures
        ({
            let peer = peer_name(host, port);
            let digits = peer.skip(host.len() as int + 1);
            &&& peer.take(host.len() as int) == host
            &&& peer[host.len() as int] == ':'
            &&& crate::text::all_digits(digits)
            &&& crate::text::numeral_value(digits) == port
        }),
{
    reveal_strlit(":");
    crate::text::decimals_stand_for_their_number(port as nat);
    let peer = peer_name(host, port);
    assert(peer.take(host.len() as int) =~= host);
    assert(peer.skip(host.len() as int + 1) =~= decimal(port as nat));
}

/// A connection that could not be made is reported with the peer and the cause.
pub proof fn failed_connections_name_their_peer(peer: Seq<char>, cause: String)
    ensures
        connect_message(peer, ConnectFault::ConnectTimedOut) == "Timed out connecting to "@ + peer,
        connect_message(peer, ConnectFault::ConnectFailed(cause)) == "Could not connect to "@ + peer
            + ": "@ + cause@,
        connect_message(peer, ConnectFault::ConfigureFailed(cause)) == "Connected to "@ + peer
            + ", but could not configure TCP"@ + ": "@ + cause@,
        connect_message(peer, ConnectFault::UpgradeTimedOut)
            == "Timed out opening the JSON-RPC WebSocket to "@ + peer,
        connect_message(peer, ConnectFault::UpgradeFailed(cause))
            == "Could not open the JSON-RPC WebSocket to "@ + peer + ": "@ + cause@,
{
}

/// A faulty reply is reported with the servo and the byte that is wrong with it.
pub proof fn faulty_replies_are_described(
    id: u8,
    expected_id: u8,
    byte: u8,
    found: nat,
    expected: nat,
)
    ensures
        fault_message(StatusFault::NoHeader, expected_id)
            == "Could not find an STS response header"@,
        fault_message(StatusFault::WrongServo { id }, expected_id)
            == "STS reply came from servo "@ + decimal(id as nat) + ", but servo "@ + decimal(
            expected_id as nat,
        ) + " was addressed"@,
        fault_message(StatusFault::InvalidLength { length: byte }, expected_id)
            == "STS reply has an invalid length ("@ + decimal(byte as nat) + ")"@,
        fault_message(StatusFault::InvalidChecksum, expected_id)
            == "STS reply checksum did not match"@,
        fault_message(StatusFault::Reported { id, error: byte }, expected_id) == "Servo "@
            + decimal(id as nat) + " reported STS error 0x"@ + hex_byte(byte),
        fault_message(StatusFault::CutShort, expected_id) == "Could not read STS servo reply"@
            + ": "@ + "early eof"@,
        count_message(id, found, expected) == "Servo "@ + decimal(id as nat) + " returned "@
            + decimal(found) + " data bytes; expected "@ + decimal(expected),
{
}

/// An instruction that fails on the way says what failed, and with which cause.
pub proof fn failed_instructions_name_their_cause(exchange: RawExchange, cause: String)
    ensures
        raw_step(exchange, RawEvent::SendTimedOut).1 == RawActionView::Finish(
            Err("Timed out sending command to the MCU"@),
        ),
        raw_step(exchange, RawEvent::SendFailed(cause)).1 == RawActionView::Finish(
            Err("Could not send command to the MCU"@ + ": "@ + cause@),
        ),
        raw_step(exchange, RawEvent::ReadTimedOut).1 == RawActionView::Finish(
            Err("Timed out waiting for an STS servo reply"@),
        ),
        raw_step(exchange, RawEvent::ReadFailed(cause)).1 == RawActionView::Finish(
            Err("Could not read STS servo reply"@ + ": "@ + cause@),
        ),
{
}

/// The reply of a servo is read part by part for the servo that was addressed, and its parameters
/// are reported as they are where there are as many as expected, whatever their number.
pub proof fn replies_are_reported_as_they_are(exchange: RawExchange, bytes: Vec<u8>)
    ensures
        raw_step(exchange, RawEvent::Sent) == (
            exchange,
            RawActionView::Read { count: exchange.reader.spec_wanted() },
        ),
        ({
            let (after, action) = raw_step(exchange, RawEvent::Read(bytes));
            &&& after.id == exchange.id && after.reply_len == exchange.reply_len
            &&& match exchange.reader.step(exchange.id, bytes@) {
                StatusStepView::Continue(reader) => after.reader == reader && action == (
                RawActionView::Read { count: reader.spec_wanted() }),
                StatusStepView::Complete(parameters) => {
                    &&& parameters.len() == exchange.reply_len ==> action == RawActionView::Finish(
                        Ok(parameters),
                    )
                    &&& parameters.len() != exchange.reply_len ==> action == RawActionView::Finish(
                        Err(
                            count_message(exchange.id, parameters.len(), exchange.reply_len as nat),
                        ),
                    )
                },
                StatusStepView::Fault(fault) => action == RawActionView::Finish(
                    Err(fault_message(fault, exchange.id)),
                ),
            }
        }),
{
}

/// The host gives the MCU this long: 750 milliseconds for a command, 20 seconds for a search, and
/// 3 seconds to hand over its controller, with an attempt every tenth of a second. Of the messages
/// that come before a reply at most 32 are read.
pub proof fn the_host_is_patient_for_so_long()
    ensures
        SERVO_TIMEOUT_MS == 750,
        SERVO_SCAN_TIMEOUT_MS == 20 * 1000,
        CONTROLLER_CONNECT_RETRY_WINDOW_MS == 3 * 1000,
        CONTROLLER_CONNECT_RETRY_INTERVAL_MS == 100,
        RAW_CONNECT_WINDOW_NANOS == 750 * 1000000,
        RAW_CONNECT_ATTEMPT_NANOS == 100 * 1000000,
        MAX_STALE_CONTROLLER_RESPONSES == 32,
{
}

/// What holds of the view of an action holds of the action.
pub proof fn exchanges_are_seen_as_they_are(action: ExchangeAction, raw: RawAction)
    ensures
        match action {
            ExchangeAction::Receive => action@ is Receive,
            ExchangeAction::SendPong => action@ is SendPong,
            ExchangeAction::Finish(Ok(value)) => action@ matches ExchangeActionView::Finish(
                Ok(seen),
            ) && seen == value,
            ExchangeAction::Finish(Err(message)) => action@ matches ExchangeActionView::Finish(
                Err(seen),
            ) && seen == message@,
        },
        match raw {
            RawAction::Read { count } => raw@ == (RawActionView::Read { count: count as nat }),
            RawAction::Finish(Ok(parameters)) => raw@ matches RawActionView::Finish(Ok(seen))
                && seen == parameters@,
            RawAction::Finish(Err(message)) => raw@ matches RawActionView::Finish(Err(seen)) && seen
                == message@,
        },
{
}

/// A failed connection is tried again for three seconds, a tenth of a second later each time, and
/// only where the message says that it could not be made.
pub proof fn connections_are_retried_for_three_seconds(message: Seq<char>, elapsed_ms: u64)
    ensures
        retry_wait(message, elapsed_ms) is Some <==> is_retryable(message) && elapsed_ms < 3000,
        retry_wait(message, elapsed_ms) matches Some(wait) ==> wait == 100,
{
}

/// Attempts to connect to the raw tunnel end 750 milliseconds after the first one began: each may
/// take a tenth of a second, or what is left of that time. After it the host gives up.
pub proof fn raw_attempts_end_in_time(peer: Seq<char>, elapsed_nanos: u64)
    ensures
        match raw_attempt(peer, elapsed_nanos) {
            Ok(timeout) => elapsed_nanos + timeout <= 750000000 && timeout <= 100000000 && (timeout
                == 100000000 || elapsed_nanos + timeout == 750000000),
            Err(message) => elapsed_nanos > 750000000 && message
                == "Timed out connecting to raw tunnel "@ + peer,
        },
{
}

} // verus!
