//! How the host connects to an MCU, and how it serves a browser.

use vstd::prelude::*;

use crate::bridge::{
    because, expect_controller_ready, is_affirmed, member_of, open_raw_tunnel, peer_name, peer_of,
    tunnel_port_fault, with_cause, BridgeMode, NOT_READY,
};
use crate::host::{
    ClientMessage, ServerMessage, ServerView, BINARY_UNSUPPORTED, REQUEST_INVALID,
};
use crate::host_log::TransportMode;
use crate::json::number_members;
use crate::protocol::RAW_TUNNEL_TCP_PORT;
use crate::text::{
    all_space, decimal, is_bare, same_text, trim, trimmed, trimming_keeps_what_is_between_space,
};

verus! {

pub const HOST_REQUIRED: &'static str = "The MCU host name or IP address is required";

pub const PORT_REQUIRED: &'static str = "The MCU TCP port must be between 1 and 65535";

/// A connection that is being made.
#[derive(Debug)]
pub enum ConnectRun {
    /// Waiting for the present connection to prove healthy.
    Checking { host: String, peer: String, transport: TransportMode },
    /// Waiting for the new connection.
    Opening { host: String, peer: String, transport: TransportMode },
    /// Waiting for the MCU to answer over the new connection.
    Greeting { peer: String },
    /// Waiting for the MCU to open its raw tunnel.
    Tunnelling { host: String, peer: String },
    /// Waiting for the connection to the raw tunnel.
    Attaching { peer: String },
    Finished,
}

#[verifier::ext_equal]
pub enum ConnectRunView {
    Checking { host: Seq<char>, peer: Seq<char>, transport: TransportMode },
    Opening { host: Seq<char>, peer: Seq<char>, transport: TransportMode },
    Greeting { peer: Seq<char> },
    Tunnelling { host: Seq<char>, peer: Seq<char> },
    Attaching { peer: Seq<char> },
    Finished,
}

impl View for ConnectRun {
    type V = ConnectRunView;

    open spec fn view(&self) -> ConnectRunView {
        match self {
            ConnectRun::Checking { host, peer, transport } => ConnectRunView::Checking {
                host: host@,
                peer: peer@,
                transport: *transport,
            },
            ConnectRun::Opening { host, peer, transport } => ConnectRunView::Opening {
                host: host@,
                peer: peer@,
                transport: *transport,
            },
            ConnectRun::Greeting { peer } => ConnectRunView::Greeting { peer: peer@ },
            ConnectRun::Tunnelling { host, peer } => ConnectRunView::Tunnelling {
                host: host@,
                peer: peer@,
            },
            ConnectRun::Attaching { peer } => ConnectRunView::Attaching { peer: peer@ },
            ConnectRun::Finished => ConnectRunView::Finished,
        }
    }
}

/// What becomes of the host's connection.
#[derive(Clone, Copy, Debug, PartialEq, Eq, Structural)]
pub enum BridgeChange {
    /// It stays as it is.
    Keep,
    /// There is none any more.
    Clear,
    /// The new connection takes its place.
    Install(BridgeMode),
}

/// What the host does to make a connection.
#[derive(Debug)]
pub enum ConnectAction {
    /// Call `system.ping` over the present connection.
    PingPresent,
    /// Drop the present connection, if there is one, and connect to the peer.
    Open { peer: String },
    /// Call `system.ping` over the new connection.
    PingNew,
    /// Call `debug.enableRawTunnel` over the new connection.
    EnableTunnel,
    /// Connect to the raw tunnel.
    OpenRaw { peer: String },
    /// Answer the browser.
    Finish { answer: ServerMessage, bridge: BridgeChange },
}

#[verifier::ext_equal]
pub enum ConnectActionView {
    PingPresent,
    Open { peer: Seq<char> },
    PingNew,
    EnableTunnel,
    OpenRaw { peer: Seq<char> },
    Finish { answer: ServerView, bridge: BridgeChange },
}

impl View for ConnectAction {
    type V = ConnectActionView;

    open spec fn view(&self) -> ConnectActionView {
        match self {
            ConnectAction::PingPresent => ConnectActionView::PingPresent,
            ConnectAction::Open { peer } => ConnectActionView::Open { peer: peer@ },
            ConnectAction::PingNew => ConnectActionView::PingNew,
            ConnectAction::EnableTunnel => ConnectActionView::EnableTunnel,
            ConnectAction::OpenRaw { peer } => ConnectActionView::OpenRaw { peer: peer@ },
            ConnectAction::Finish { answer, bridge } => ConnectActionView::Finish {
                answer: answer@,
                bridge: *bridge,
            },
        }
    }
}

/// What has happened while a connection is made.
#[derive(Debug)]
pub enum ConnectEvent {
    /// The result of a call, or why there is none.
    Called(Result<serde_json::Value, String>),
    /// The connection is there, or why it is not.
    Opened(Result<(), String>),
    /// The connection to the raw tunnel is there, or why it is not.
    RawOpened(Result<(), String>),
}

/// A step with its views.
pub open spec fn connect_view(step: (ConnectRun, ConnectAction)) -> (
    ConnectRunView,
    ConnectActionView,
) {
    (step.0@, step.1@)
}

/// The browser is told that the host is connected.
pub open spec fn connected(peer: Seq<char>, bridge: BridgeChange) -> (
    ConnectRunView,
    ConnectActionView,
) {
    (
        ConnectRunView::Finished,
        ConnectActionView::Finish { answer: ServerView::Connected { address: peer }, bridge },
    )
}

/// The browser is told why the host is not connected.
pub open spec fn refused(message: Seq<char>, bridge: BridgeChange) -> (
    ConnectRunView,
    ConnectActionView,
) {
    (
        ConnectRunView::Finished,
        ConnectActionView::Finish {
            answer: ServerView::Error { message, bridge_connected: false },
            bridge,
        },
    )
}

/// A new connection takes the place of the present one.
pub open spec fn replacing(host: Seq<char>, peer: Seq<char>, transport: TransportMode) -> (
    ConnectRunView,
    ConnectActionView,
) {
    (ConnectRunView::Opening { host, peer, transport }, ConnectActionView::Open { peer })
}

/// How a connection to the given host and port is made, where `present` is the peer of the
/// present connection and whether it is in controller mode.
pub open spec fn connect_start(
    host: Seq<char>,
    port: u16,
    transport: TransportMode,
    present: Option<(Seq<char>, bool)>,
) -> (ConnectRunView, ConnectActionView) {
    let host = trimmed(host);
    let peer = peer_name(host, port);
    if host.len() == 0 {
        refused(HOST_REQUIRED@, BridgeChange::Keep)
    } else if port == 0 {
        refused(PORT_REQUIRED@, BridgeChange::Keep)
    } else {
        match present {
            Some((present_peer, controller)) => if present_peer != peer {
                replacing(host, peer, transport)
            } else if controller {
                (
                    ConnectRunView::Checking { host, peer, transport },
                    ConnectActionView::PingPresent,
                )
            } else {
                connected(peer, BridgeChange::Keep)
            },
            None => replacing(host, peer, transport),
        }
    }
}

/// Why the answer to a ping does not show a healthy connection.
pub open spec fn ping_fault(called: Result<serde_json::Value, String>) -> Option<Seq<char>> {
    match called {
        Ok(result) => if is_affirmed(result, "ready"@) {
            None
        } else {
            Some(NOT_READY@)
        },
        Err(message) => Some(message@),
    }
}

/// Why a raw tunnel is not open.
pub open spec fn tunnel_fault(called: Result<serde_json::Value, String>) -> Option<Seq<char>> {
    match called {
        Ok(result) => tunnel_port_fault(member_of(number_members(result), "port"@)),
        Err(message) => Some(message@),
    }
}

/// What the host does next to make a connection; `None` where the event cannot come.
pub open spec fn connect_step(run: ConnectRunView, event: ConnectEvent) -> Option<
    (ConnectRunView, ConnectActionView),
> {
    match (run, event) {
        (ConnectRunView::Checking { host, peer, transport }, ConnectEvent::Called(called)) => Some(
            match ping_fault(called) {
                None => connected(peer, BridgeChange::Keep),
                Some(_) => replacing(host, peer, transport),
            },
        ),
        (ConnectRunView::Opening { host, peer, transport }, ConnectEvent::Opened(opened)) => Some(
            match opened {
                Ok(_) => match transport {
                    TransportMode::Controller => (
                        ConnectRunView::Greeting { peer },
                        ConnectActionView::PingNew,
                    ),
                    TransportMode::DebugRawTunnel => (
                        ConnectRunView::Tunnelling { host, peer },
                        ConnectActionView::EnableTunnel,
                    ),
                },
                Err(message) => refused(message@, BridgeChange::Clear),
            },
        ),
        (ConnectRunView::Greeting { peer }, ConnectEvent::Called(called)) => Some(
            match ping_fault(called) {
                None => connected(peer, BridgeChange::Install(BridgeMode::Controller)),
                Some(message) => refused(message, BridgeChange::Clear),
            },
        ),
        (ConnectRunView::Tunnelling { host, peer }, ConnectEvent::Called(called)) => Some(
            match tunnel_fault(called) {
                None => (
                    ConnectRunView::Attaching { peer },
                    ConnectActionView::OpenRaw { peer: peer_name(host, RAW_TUNNEL_TCP_PORT) },
                ),
                Some(message) => refused(message, BridgeChange::Clear),
            },
        ),
        (ConnectRunView::Attaching { peer }, ConnectEvent::RawOpened(opened)) => Some(
            match opened {
                Ok(_) => connected(peer, BridgeChange::Install(BridgeMode::DebugRaw)),
                Err(message) => refused(message@, BridgeChange::Clear),
            },
        ),
        _ => None,
    }
}

fn answer_connected(peer: String, bridge: BridgeChange) -> (step: (ConnectRun, ConnectAction))
    ensures
        connect_view(step) == connected(peer@, bridge),
{
    (
        ConnectRun::Finished,
        ConnectAction::Finish { answer: ServerMessage::Connected { address: peer }, bridge },
    )
}

fn answer_refused(message: String, bridge: BridgeChange) -> (step: (ConnectRun, ConnectAction))
    ensures
        connect_view(step) == refused(message@, bridge),
{
    (
        ConnectRun::Finished,
        ConnectAction::Finish {
            answer: ServerMessage::Error { message, bridge_connected: false },
            bridge,
        },
    )
}

fn replace(host: String, peer: String, transport: TransportMode) -> (step: (
    ConnectRun,
    ConnectAction,
))
    ensures
        connect_view(step) == replacing(host@, peer@, transport),
{
    let target = peer.as_str().to_owned();
    (ConnectRun::Opening { host, peer, transport }, ConnectAction::Open { peer: target })
}

/// Starts to connect to a host and port, where `present` is the peer of the present connection
/// and whether it is in controller mode. A live connection to the same peer is used again, once
/// the MCU has answered over it; in raw mode there is nothing to ask.
pub fn connect(
    host: &str,
    port: u16,
    transport: TransportMode,
    present: Option<(&str, bool)>,
) -> (step: (ConnectRun, ConnectAction))
    ensures
        connect_view(step) == connect_start(
            host@,
            port,
            transport,
            match present {
                Some((peer, controller)) => Some((peer@, controller)),
                None => None,
            },
        ),
{
    let host = trim(host);
    if host.unicode_len() == 0 {
        return answer_refused(HOST_REQUIRED.to_owned(), BridgeChange::Keep);
    }
    if port == 0 {
        return answer_refused(PORT_REQUIRED.to_owned(), BridgeChange::Keep);
    }
    let peer = peer_of(host, port);
    if let Some((present_peer, controller)) = present {
        if same_text(present_peer, peer.as_str()) {
            if controller {
                return (
                    ConnectRun::Checking { host: host.to_owned(), peer, transport },
                    ConnectAction::PingPresent,
                );
            }
            return answer_connected(peer, BridgeChange::Keep);
        }
    }
    replace(host.to_owned(), peer, transport)
}

fn check_ping(called: Result<serde_json::Value, String>) -> (verdict: Result<(), String>)
    ensures
        match verdict {
            Ok(_) => ping_fault(called) is None,
            Err(message) => ping_fault(called) == Some(message@),
        },
{
    match called {
        Ok(result) => expect_controller_ready(&result),
        Err(message) => Err(message),
    }
}

impl ConnectRun {
    /// Goes on with the connection after an event; `None` where the event is not the one that is
    /// waited for.
    pub fn step(self, event: ConnectEvent) -> (step: Option<(ConnectRun, ConnectAction)>)
        ensures
            match step {
                Some(step) => connect_step(self@, event) == Some(connect_view(step)),
                None => connect_step(self@, event) is None,
            },
    {
        match (self, event) {
            (ConnectRun::Checking { host, peer, transport }, ConnectEvent::Called(called)) => {
                match check_ping(called) {
                    Ok(()) => Some(answer_connected(peer, BridgeChange::Keep)),
                    Err(_) => Some(replace(host, peer, transport)),
                }
            },
            (ConnectRun::Opening { host, peer, transport }, ConnectEvent::Opened(opened)) => {
                if let Err(message) = opened {
                    return Some(answer_refused(message, BridgeChange::Clear));
                }
                match transport {
                    TransportMode::Controller => Some(
                        (ConnectRun::Greeting { peer }, ConnectAction::PingNew),
                    ),
                    TransportMode::DebugRawTunnel => Some(
                        (ConnectRun::Tunnelling { host, peer }, ConnectAction::EnableTunnel),
                    ),
                }
            },
            (ConnectRun::Greeting { peer }, ConnectEvent::Called(called)) => {
                match check_ping(called) {
                    Ok(()) => Some(
                        answer_connected(peer, BridgeChange::Install(BridgeMode::Controller)),
                    ),
                    Err(message) => Some(answer_refused(message, BridgeChange::Clear)),
                }
            },
            (ConnectRun::Tunnelling { host, peer }, ConnectEvent::Called(called)) => {
                let result = match called {
                    Ok(result) => result,
                    Err(message) => {
                        return Some(answer_refused(message, BridgeChange::Clear));
                    },
                };
                match open_raw_tunnel(host.as_str(), &result) {
                    Ok(raw_peer) => Some(
                        (
                            ConnectRun::Attaching { peer },
                            ConnectAction::OpenRaw { peer: raw_peer },
                        ),
                    ),
                    Err(message) => Some(answer_refused(message, BridgeChange::Clear)),
                }
            },
            (ConnectRun::Attaching { peer }, ConnectEvent::RawOpened(opened)) => {
                match opened {
                    Ok(()) => Some(
                        answer_connected(peer, BridgeChange::Install(BridgeMode::DebugRaw)),
                    ),
                    Err(message) => Some(answer_refused(message, BridgeChange::Clear)),
                }
            },
            _ => None,
        }
    }
}

/// A healthy connection to the same MCU is used again: none is opened or closed.
pub proof fn healthy_connections_are_reused(
    host: Seq<char>,
    port: u16,
    transport: TransportMode,
    result: serde_json::Value,
)
    requires
        trimmed(host).len() > 0,
        port != 0,
        is_affirmed(result, "ready"@),
    ensures
        ({
            let peer = peer_name(trimmed(host), port);
            let start = connect_start(host, port, transport, Some((peer, true)));
            &&& start.1 == ConnectActionView::PingPresent
            &&& connect_step(start.0, ConnectEvent::Called(Ok(result))) == Some(
                connected(peer, BridgeChange::Keep),
            )
        }),
{
}

/// A connection that does not prove healthy is replaced by a new one to the same MCU.
pub proof fn stale_connections_are_replaced(
    host: Seq<char>,
    port: u16,
    transport: TransportMode,
    called: Result<serde_json::Value, String>,
)
    requires
        trimmed(host).len() > 0,
        port != 0,
        ping_fault(called) is Some,
    ensures
        ({
            let peer = peer_name(trimmed(host), port);
            let start = connect_start(host, port, transport, Some((peer, true)));
            connect_step(start.0, ConnectEvent::Called(called)) == Some(
                replacing(trimmed(host), peer, transport),
            )
        }),
{
}

/// The browser is told that the host is connected exactly where the host has a connection
/// afterwards, once the present one was dropped.
pub proof fn answers_tell_whether_there_is_a_connection(run: ConnectRunView, event: ConnectEvent)
    ensures
        connect_step(run, event) matches Some(
            (_, ConnectActionView::Finish { answer, bridge }),
        ) ==> (answer is Connected <==> bridge != BridgeChange::Clear) && (answer matches
            ServerView::Error { bridge_connected, .. } ==> !bridge_connected),
{
}

/// What a browser sends.
#[derive(Debug)]
pub enum BrowserEvent {
    /// A request, or why the text is none.
    Text(Result<ClientMessage, String>),
    Binary,
    PingOrPong,
    Close,
    Failed,
}

/// What the host does about it.
#[derive(Debug)]
pub enum BrowserAction {
    Handle(ClientMessage),
    Answer(ServerMessage),
    Ignore,
    End,
}

/// Decides about what a browser sends. Text that is no request, and binary messages, are answered
/// with an error.
pub fn client_session(event: BrowserEvent) -> (action: BrowserAction)
    ensures
        match event {
            BrowserEvent::Text(Ok(request)) => action == BrowserAction::Handle(request),
            BrowserEvent::Text(Err(cause)) => action matches BrowserAction::Answer(answer)
                && answer@ == (ServerView::Error {
                message: because(REQUEST_INVALID@, cause@),
                bridge_connected: false,
            }),
            BrowserEvent::Binary => action matches BrowserAction::Answer(answer) && answer@ == (
            ServerView::Error { message: BINARY_UNSUPPORTED@, bridge_connected: false }),
            BrowserEvent::PingOrPong => action is Ignore,
            BrowserEvent::Close | BrowserEvent::Failed => action is End,
        },
{
    match event {
        BrowserEvent::Text(Ok(request)) => BrowserAction::Handle(request),
        BrowserEvent::Text(Err(cause)) => BrowserAction::Answer(
            ServerMessage::Error {
                message: with_cause(REQUEST_INVALID, cause.as_str()),
                bridge_connected: false,
            },
        ),
        BrowserEvent::Binary => BrowserAction::Answer(
            ServerMessage::Error {
                message: BINARY_UNSUPPORTED.to_owned(),
                bridge_connected: false,
            },
        ),
        BrowserEvent::PingOrPong => BrowserAction::Ignore,
        BrowserEvent::Close | BrowserEvent::Failed => BrowserAction::End,
    }
}

/// Whether the browser is answered with an error, and the connection becomes what it says.
pub open spec fn ends_refused(
    step: (ConnectRunView, ConnectActionView),
    message: Seq<char>,
    bridge: BridgeChange,
) -> bool {
    step.1 == (ConnectActionView::Finish {
        answer: ServerView::Error { message, bridge_connected: false },
        bridge,
    })
}

/// Whether the browser is answered with the peer of the connection, and the connection becomes
/// what it says.
pub open spec fn ends_connected(
    step: (ConnectRunView, ConnectActionView),
    peer: Seq<char>,
    bridge: BridgeChange,
) -> bool {
    step.1 == (ConnectActionView::Finish {
        answer: ServerView::Connected { address: peer },
        bridge,
    })
}

/// The host connects to the endpoint that the browser names, without the white space around the
/// host's name: a new connection is opened unless the present one has this very peer. An endpoint
/// without a host or a port is refused, and the present connection stays.
pub proof fn connections_go_to_the_named_endpoint(
    left: Seq<char>,
    host: Seq<char>,
    right: Seq<char>,
    port: u16,
    transport: TransportMode,
    present: Option<(Seq<char>, bool)>,
)
    requires
        all_space(left),
        all_space(right),
        is_bare(host),
    ensures
        ({
            let step = connect_start(left + host + right, port, transport, present);
            let peer = host + ":"@ + decimal(port as nat);
            &&& host.len() == 0 ==> ends_refused(
                step,
                "The MCU host name or IP address is required"@,
                BridgeChange::Keep,
            )
            &&& host.len() > 0 && port == 0 ==> ends_refused(
                step,
                "The MCU TCP port must be between 1 and 65535"@,
                BridgeChange::Keep,
            )
            &&& host.len() > 0 && port > 0 ==> match present {
                Some((other, controller)) if other == peer => if controller {
                    step.1 is PingPresent
                } else {
                    ends_connected(step, peer, BridgeChange::Keep)
                },
                _ => step.1 == (ConnectActionView::Open { peer }),
            }
        }),
{
    trimming_keeps_what_is_between_space(left, host, right);
}

/// A connection in controller mode is there once it is opened and the MCU has said that it is
/// ready; whatever fails before is what the browser is told, and no connection is left.
pub proof fn new_connections_are_greeted(
    host: Seq<char>,
    port: u16,
    present: Option<(Seq<char>, bool)>,
    result: serde_json::Value,
    message: String,
)
    requires
        host.len() > 0,
        is_bare(host),
        port > 0,
        present matches Some((other, _)) ==> other != host + ":"@ + decimal(port as nat),
    ensures
        ({
            let peer = host + ":"@ + decimal(port as nat);
            let (opening, _) = connect_start(host, port, TransportMode::Controller, present);
            let opened = connect_step(opening, ConnectEvent::Opened(Ok(())));
            let greeting = opened->Some_0.0;
            let answered = connect_step(greeting, ConnectEvent::Called(Ok(result)));
            let failed = connect_step(greeting, ConnectEvent::Called(Err(message)));
            let unopened = connect_step(opening, ConnectEvent::Opened(Err(message)));
            &&& opened is Some && opened->Some_0.1 is PingNew
            &&& answered is Some && failed is Some && unopened is Some
            &&& is_affirmed(result, "ready"@) ==> ends_connected(
                answered->Some_0,
                peer,
                BridgeChange::Install(BridgeMode::Controller),
            )
            &&& !is_affirmed(result, "ready"@) ==> ends_refused(
                answered->Some_0,
                "MCU returned an unexpected result to system.ping"@,
                BridgeChange::Clear,
            )
            &&& ends_refused(failed->Some_0, message@, BridgeChange::Clear)
            &&& ends_refused(unopened->Some_0, message@, BridgeChange::Clear)
        }),
{
    let none = Seq::<char>::empty();
    connections_go_to_the_named_endpoint(
        none,
        host,
        none,
        port,
        TransportMode::Controller,
        present,
    );
    assert(none + host + none =~= host);
}

/// A raw tunnel is there once the MCU has named its port, 3334, and the host has connected to that
/// port of the same host; whatever fails before is what the browser is told, and no connection is
/// left. The browser is told the peer that it asked for.
pub proof fn raw_tunnels_are_attached(
    host: Seq<char>,
    port: u16,
    present: Option<(Seq<char>, bool)>,
    result: serde_json::Value,
    message: String,
)
    requires
        host.len() > 0,
        is_bare(host),
        port > 0,
        present matches Some((other, _)) ==> other != host + ":"@ + decimal(port as nat),
    ensures
        ({
            let peer = host + ":"@ + decimal(port as nat);
            let (opening, _) = connect_start(host, port, TransportMode::DebugRawTunnel, present);
            let opened = connect_step(opening, ConnectEvent::Opened(Ok(())));
            let tunnelling = opened->Some_0.0;
            let named = connect_step(tunnelling, ConnectEvent::Called(Ok(result)));
            let attached = connect_step(named->Some_0.0, ConnectEvent::RawOpened(Ok(())));
            let unattached = connect_step(named->Some_0.0, ConnectEvent::RawOpened(Err(message)));
            let failed = connect_step(tunnelling, ConnectEvent::Called(Err(message)));
            let numbers = number_members(result);
            let right_port = numbers.contains_key("port"@) && numbers["port"@] == 3334;
            &&& opened is Some && opened->Some_0.1 is EnableTunnel
            &&& named is Some && failed is Some
            &&& ends_refused(failed->Some_0, message@, BridgeChange::Clear)
            &&& right_port ==> {
                &&& named->Some_0.1 == (ConnectActionView::OpenRaw {
                    peer: host + ":"@ + decimal(3334),
                })
                &&& attached is Some && ends_connected(
                    attached->Some_0,
                    peer,
                    BridgeChange::Install(BridgeMode::DebugRaw),
                )
                &&& unattached is Some && ends_refused(
                    unattached->Some_0,
                    message@,
                    BridgeChange::Clear,
                )
            }
            &&& !right_port ==> (named->Some_0.1 matches ConnectActionView::Finish {
                answer: ServerView::Error { bridge_connected, .. },
                bridge,
            } && !bridge_connected && bridge == BridgeChange::Clear)
        }),
{
    let none = Seq::<char>::empty();
    connections_go_to_the_named_endpoint(
        none,
        host,
        none,
        port,
        TransportMode::DebugRawTunnel,
        present,
    );
    assert(none + host + none =~= host);
}

/// A present connection that does not prove healthy makes way for a new one to the same peer,
/// whatever the reason.
pub proof fn silent_connections_make_way(
    host: Seq<char>,
    port: u16,
    transport: TransportMode,
    result: serde_json::Value,
    message: String,
)
    requires
        host.len() > 0,
        is_bare(host),
        port > 0,
    ensures
        ({
            let peer = host + ":"@ + decimal(port as nat);
            let (checking, action) = connect_start(host, port, transport, Some((peer, true)));
            let failed = connect_step(checking, ConnectEvent::Called(Err(message)));
            let answered = connect_step(checking, ConnectEvent::Called(Ok(result)));
            let fresh = connect_start(host, port, transport, None);
            &&& action is PingPresent
            &&& failed == Some(fresh)
            &&& answered is Some
            &&& is_affirmed(result, "ready"@) ==> ends_connected(
                answered->Some_0,
                peer,
                BridgeChange::Keep,
            )
            &&& !is_affirmed(result, "ready"@) ==> answered == Some(fresh)
        }),
{
    let none = Seq::<char>::empty();
    trimming_keeps_what_is_between_space(none, host, none);
    assert(none + host + none =~= host);
}

/// What holds of the view of an action holds of the action: it is seen field by field.
pub proof fn steps_are_seen_field_by_field(run: ConnectRun, action: ConnectAction)
    ensures
        connect_view((run, action)) == (run@, action@),
        match action {
            ConnectAction::PingPresent => action@ is PingPresent,
            ConnectAction::Open { peer } => action@ == (ConnectActionView::Open { peer: peer@ }),
            ConnectAction::PingNew => action@ is PingNew,
            ConnectAction::EnableTunnel => action@ is EnableTunnel,
            ConnectAction::OpenRaw { peer } => action@ == (ConnectActionView::OpenRaw {
                peer: peer@,
            }),
            ConnectAction::Finish { answer, bridge } => action@ == (ConnectActionView::Finish {
                answer: answer@,
                bridge,
            }),
        },
{
}

} // verus!
