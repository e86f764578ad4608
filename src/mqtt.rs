//! The broker connection as a state machine.
//!
//! `MqttClient` holds the configuration and the one authoritative
//! connection state. The caller performs the transport work: it opens a
//! connection when `connect` hands it a `SessionPlan`, feeds every transport
//! event of that session to `on_event` and carries out the actions returned.
use vstd::prelude::*;
use crate::config::{
    fault_message, parse_address, trimmed, url_of, Config, Protocol, ServerInfo, ServerView,
};
use crate::message::{display_title, MessageEvent, NoticeMessage};

verus! {

/// Keep-alive interval of every connection, in seconds.
pub const KEEP_ALIVE_SECS: u64 = 30;

/// Pause after a transport error before the next poll, in milliseconds.
pub const RETRY_DELAY_MS: u64 = 5000;

/// State of the broker connection.
#[derive(Debug, Clone, Copy, PartialEq, Eq, Structural)]
pub enum ConnectionState {
    Disconnected,
    Connecting,
    Connected,
}

pub open spec fn state_name(s: ConnectionState) -> Seq<char> {
    match s {
        ConnectionState::Disconnected => "Disconnected"@,
        ConnectionState::Connecting => "Connecting"@,
        ConnectionState::Connected => "Connected"@,
    }
}

pub open spec fn state_label(s: ConnectionState) -> Seq<char> {
    match s {
        ConnectionState::Disconnected => "disconnected"@,
        ConnectionState::Connecting => "connecting"@,
        ConnectionState::Connected => "connected"@,
    }
}

impl ConnectionState {
    /// The state's name as reported on request.
    pub fn name(&self) -> (r: &'static str)
        ensures
            r@ == state_name(*self),
    {
        match self {
            ConnectionState::Disconnected => "Disconnected",
            ConnectionState::Connecting => "Connecting",
            ConnectionState::Connected => "Connected",
        }
    }

    /// Payload of the `connection-state` event that announces the state.
    pub fn event_label(&self) -> (r: &'static str)
        ensures
            r@ == state_label(*self),
    {
        match self {
            ConnectionState::Disconnected => "disconnected",
            ConnectionState::Connecting => "connecting",
            ConnectionState::Connected => "connected",
        }
    }
}

/// What the transport layer needs to open a connection.
pub struct TransportSettings {
    pub protocol: Protocol,
    /// Broker host; for the WebSocket variants the whole URL.
    pub broker: String,
    pub port: u16,
    pub client_id: String,
    pub keep_alive_secs: u64,
    /// A clean session: the broker keeps nothing, so every connection
    /// subscribes afresh.
    pub clean_session: bool,
    /// User name and password.
    pub credentials: Option<(String, String)>,
}

/// The broker name handed to the transport for an endpoint.
pub open spec fn broker_of(v: ServerView) -> Seq<char> {
    if v.protocol == Protocol::Ws || v.protocol == Protocol::Wss {
        url_of(v)
    } else {
        v.host
    }
}

/// `t` is the transport setup for endpoint `v` under configuration `cfg`.
pub open spec fn settings_agree(t: TransportSettings, cfg: Config, v: ServerView) -> bool {
    &&& t.protocol == v.protocol
    &&& t.broker@ == broker_of(v)
    &&& t.port == v.port
    &&& t.client_id@ == cfg.client_id@
    &&& t.keep_alive_secs == KEEP_ALIVE_SECS
    &&& t.clean_session
    &&& cfg.token@.len() == 0 ==> t.credentials is None
    &&& cfg.token@.len() > 0 ==> (t.credentials matches Some((user, pass)) && user@ == cfg.token@
        && pass@.len() == 0)
}

/// Transport setup for endpoint `info` under configuration `cfg`: the
/// token, when there is one, is the user name, with an empty password.
pub fn transport_settings(cfg: &Config, info: ServerInfo) -> (r: TransportSettings)
    ensures
        settings_agree(r, *cfg, info@),
{
    let broker = match info.protocol {
        Protocol::Ws | Protocol::Wss => info.ws_url(),
        _ => info.host.clone(),
    };
    let credentials = if cfg.token.as_str().is_empty() {
        None
    } else {
        Some((cfg.token.clone(), String::new()))
    };
    TransportSettings {
        protocol: info.protocol,
        broker,
        port: info.port,
        client_id: cfg.client_id.clone(),
        keep_alive_secs: KEEP_ALIVE_SECS,
        clean_session: true,
        credentials,
    }
}

/// Everything that a new receive loop needs.
pub struct SessionPlan {
    /// Tag of the session: events of the loop are handed back with it.
    pub session: u64,
    pub settings: TransportSettings,
    /// Topic filter to subscribe to, at least once delivery.
    pub topic: String,
}

/// What `connect` asks of the caller.
pub enum ConnectStep {
    /// A session is already running; nothing is to be done.
    AlreadyActive,
    /// Announce `connecting`, open the transport and start its loop.
    Start(SessionPlan),
}

/// An event of the transport, as the receive loop observes it.
pub enum LoopEvent {
    /// The broker acknowledged the connection.
    ConnAck,
    /// A message arrived; `message` is its decoded payload, `None` where
    /// the payload could not be decoded.
    Publish { topic: String, message: Option<NoticeMessage> },
    /// Any other frame.
    Other,
    /// The transport failed; it retries on the next poll.
    TransportError,
}

/// What the receive loop must do next, in order.
pub enum LoopAction {
    /// Emit a `connection-state` event for this state.
    EmitState(ConnectionState),
    /// Subscribe to the topic filter, at least once delivery.
    Subscribe(String),
    /// Emit a `message` event.
    EmitMessage(MessageEvent),
    /// Show a desktop notification.
    Notify { title: String, body: String },
    /// Wait this many milliseconds before polling again.
    Backoff(u64),
    /// The session is over: stop the loop.
    Stop,
}

/// Model of the connection manager.
pub struct ClientView {
    pub config: Config,
    pub state: ConnectionState,
    /// Tag of the running session, if one runs.
    pub session: Option<u64>,
    /// Topic filter of the running session.
    pub topic: Seq<char>,
    /// Tag that the next session gets.
    pub next_session: u64,
}

/// A session runs exactly when the state is not `Disconnected`.
pub open spec fn wf(v: ClientView) -> bool {
    v.session is None <==> v.state == ConnectionState::Disconnected
}

pub open spec fn next_tag(n: u64) -> u64 {
    if n == u64::MAX { 0 } else { (n + 1) as u64 }
}

/// The manager after `connect`.
pub open spec fn after_connect(v: ClientView) -> ClientView {
    if v.session is Some {
        v
    } else if parse_address(trimmed(v.config.server@)) is Err {
        v
    } else {
        ClientView {
            state: ConnectionState::Connecting,
            session: Some(v.next_session),
            topic: v.config.topic@,
            next_session: next_tag(v.next_session),
            ..v
        }
    }
}

/// `r` is what `connect` returns on manager `v`.
pub open spec fn connect_agrees(r: Result<ConnectStep, String>, v: ClientView) -> bool {
    if v.session is Some {
        r matches Ok(ConnectStep::AlreadyActive)
    } else {
        match parse_address(trimmed(v.config.server@)) {
            Err(f) => r is Err && r->Err_0@ == fault_message(f),
            Ok(sv) => r matches Ok(ConnectStep::Start(p)) && p.session == v.next_session
                && p.topic@ == v.config.topic@ && settings_agree(p.settings, v.config, sv),
        }
    }
}

/// The manager after the loop of `session` observed `e`.
pub open spec fn after_event(v: ClientView, session: u64, e: LoopEvent) -> ClientView {
    if v.session != Some(session) {
        v
    } else {
        match e {
            LoopEvent::ConnAck => ClientView { state: ConnectionState::Connected, ..v },
            LoopEvent::TransportError => if v.state == ConnectionState::Connected {
                ClientView { state: ConnectionState::Connecting, ..v }
            } else {
                v
            },
            _ => v,
        }
    }
}

/// What the loop of a running session does on a transport error: announce
/// the loss once, when it was connected, then wait.
pub open spec fn error_actions(v: ClientView) -> Seq<LoopAction> {
    if v.state == ConnectionState::Connected {
        seq![
            LoopAction::EmitState(ConnectionState::Disconnected),
            LoopAction::Backoff(RETRY_DELAY_MS),
        ]
    } else {
        seq![LoopAction::Backoff(RETRY_DELAY_MS)]
    }
}

/// `r` is what the loop of `session` must do on `e`, in manager `v`.
pub open spec fn step_agrees(r: Seq<LoopAction>, v: ClientView, session: u64, e: LoopEvent) -> bool {
    if v.session != Some(session) {
        r == seq![LoopAction::Stop]
    } else {
        match e {
            LoopEvent::ConnAck => if v.state == ConnectionState::Connected {
                r.len() == 1 && (r[0] matches LoopAction::Subscribe(t) && t@ == v.topic)
            } else {
                r.len() == 2 && r[0] == LoopAction::EmitState(ConnectionState::Connected)
                    && (r[1] matches LoopAction::Subscribe(t) && t@ == v.topic)
            },
            LoopEvent::Publish { topic, message } => match message {
                None => r.len() == 0,
                Some(m) => r.len() == 2
                    && (r[0] matches LoopAction::EmitMessage(ev) && ev.topic@ == topic@
                        && ev.message == m)
                    && (r[1] matches LoopAction::Notify { title, body }
                        && title@ == display_title(m.title@) && body@ == m.content@),
            },
            LoopEvent::Other => r.len() == 0,
            LoopEvent::TransportError => r == error_actions(v),
        }
    }
}

/// Owns the configuration and the state of the one broker connection.
pub struct MqttClient {
    config: Config,
    state: ConnectionState,
    session: Option<u64>,
    topic: String,
    next_session: u64,
}

impl View for MqttClient {
    type V = ClientView;

    closed spec fn view(&self) -> ClientView {
        ClientView {
            config: self.config,
            state: self.state,
            session: self.session,
            topic: self.topic@,
            next_session: self.next_session,
        }
    }
}

impl MqttClient {
    /// A disconnected manager holding `config`.
    pub fn new(config: Config) -> (r: MqttClient)
        ensures
            wf(r@),
            r@.config == config,
            r@.state == ConnectionState::Disconnected,
            r@.session is None,
    {
        MqttClient {
            config,
            state: ConnectionState::Disconnected,
            session: None,
            topic: String::new(),
            next_session: 0,
        }
    }

    /// The current connection state.
    pub fn state(&self) -> (r: &ConnectionState)
        ensures
            *r == self@.state,
    {
        &self.state
    }

    /// The configuration that the next connection will use.
    pub fn config(&self) -> (r: &Config)
        ensures
            *r == self@.config,
    {
        &self.config
    }

    /// Replaces the configuration; a running session keeps its own until
    /// the next `connect`.
    pub fn update_config(&mut self, config: Config)
        requires
            wf(old(self)@),
        ensures
            wf(final(self)@),
            final(self)@ == (ClientView { config, ..old(self)@ }),
    {
        self.config = config;
    }

    /// Starts a session unless one runs. Resolves the configured address;
    /// where that fails nothing changes and the error is returned.
    pub fn connect(&mut self) -> (r: Result<ConnectStep, String>)
        requires
            wf(old(self)@),
        ensures
            wf(final(self)@),
            final(self)@ == after_connect(old(self)@),
            connect_agrees(r, old(self)@),
    {
        if self.session.is_some() {
            return Ok(ConnectStep::AlreadyActive);
        }
        let info = match self.config.parse_server() {
            Ok(info) => info,
            Err(e) => {
                return Err(e);
            },
        };
        let settings = transport_settings(&self.config, info);
        let tag = self.next_session;
        self.session = Some(tag);
        self.state = ConnectionState::Connecting;
        self.topic = self.config.topic.clone();
        self.next_session = if tag == u64::MAX { 0 } else { tag + 1 };
        Ok(ConnectStep::Start(SessionPlan { session: tag, settings, topic: self.config.topic.clone() }))
    }

    /// Ends the running session, if any, and returns its tag so that the
    /// caller closes its transport and stops its loop.
    pub fn disconnect(&mut self) -> (r: Option<u64>)
        requires
            wf(old(self)@),
        ensures
            wf(final(self)@),
            r == old(self)@.session,
            final(self)@ == (ClientView {
                state: ConnectionState::Disconnected,
                session: None,
                ..old(self)@
            }),
    {
        let ended = self.session;
        self.session = None;
        self.state = ConnectionState::Disconnected;
        ended
    }

    /// One step of the receive loop of `session`: updates the state for
    /// event `e` and returns what the loop must do.
    pub fn on_event(&mut self, session: u64, e: LoopEvent) -> (r: Vec<LoopAction>)
        requires
            wf(old(self)@),
        ensures
            wf(final(self)@),
            final(self)@ == after_event(old(self)@, session, e),
            step_agrees(r@, old(self)@, session, e),
    {
        let current = match self.session {
            Some(s) => s == session,
            None => false,
        };
        if !current {
            let r = vec![LoopAction::Stop];
            assert(r@ =~= seq![LoopAction::Stop]);
            return r;
        }
        match e {
            LoopEvent::ConnAck => {
                let subscribe = LoopAction::Subscribe(self.topic.clone());
                if self.state == ConnectionState::Connected {
                    let r = vec![subscribe];
                    assert(r@[0] == subscribe);
                    r
                } else {
                    self.state = ConnectionState::Connected;
                    let r = vec![LoopAction::EmitState(ConnectionState::Connected), subscribe];
                    assert(r@[1] == subscribe);
                    r
                }
            },
            LoopEvent::Publish { topic, message } => match message {
                None => Vec::new(),
                Some(m) => {
                    let title = m.display_title();
                    let body = m.content.clone();
                    vec![
                        LoopAction::EmitMessage(MessageEvent { topic, message: m }),
                        LoopAction::Notify { title, body },
                    ]
                },
            },
            LoopEvent::Other => Vec::new(),
            LoopEvent::TransportError => {
                if self.state == ConnectionState::Connected {
                    self.state = ConnectionState::Connecting;
                    let r = vec![
                        LoopAction::EmitState(ConnectionState::Disconnected),
                        LoopAction::Backoff(RETRY_DELAY_MS),
                    ];
                    assert(r@ =~= error_actions(old(self)@));
                    r
                } else {
                    let r = vec![LoopAction::Backoff(RETRY_DELAY_MS)];
                    assert(r@ =~= error_actions(old(self)@));
                    r
                }
            },
        }
    }
}

/// Connecting a second time, with no `disconnect` in between, changes
/// nothing and starts no second session: once a first `connect` has
/// succeeded, a session runs, so the second call answers `AlreadyActive`
/// and leaves the manager as it found it.
pub proof fn lemma_connect_idempotent(v: ClientView)
    requires
        wf(v),
        v.session is Some || parse_address(trimmed(v.config.server@)) is Ok,
    ensures
        after_connect(v).session is Some,
        after_connect(after_connect(v)) == after_connect(v),
        forall|r: Result<ConnectStep, String>| #[trigger]
            connect_agrees(r, after_connect(v)) ==> (r matches Ok(ConnectStep::AlreadyActive)),
{
}

/// Number of `disconnected` announcements among `acts`.
pub open spec fn count_disconnected(acts: Seq<LoopAction>) -> nat
    decreases acts.len(),
{
    if acts.len() == 0 {
        0
    } else {
        count_disconnected(acts.drop_last()) + if acts.last() == LoopAction::EmitState(
            ConnectionState::Disconnected,
        ) {
            1nat
        } else {
            0nat
        }
    }
}

/// The `disconnected` announcements over `n` transport errors in a row on
/// the running session.
pub open spec fn disconnects_over_errors(v: ClientView, n: nat) -> nat
    decreases n,
{
    if n == 0 {
        0
    } else {
        count_disconnected(error_actions(v)) + disconnects_over_errors(
            after_event(v, v.session->Some_0, LoopEvent::TransportError),
            (n - 1) as nat,
        )
    }
}

proof fn lemma_count_error_actions(v: ClientView)
    ensures
        count_disconnected(error_actions(v)) == if v.state == ConnectionState::Connected {
            1nat
        } else {
            0nat
        },
{
    let acts = error_actions(v);
    if v.state == ConnectionState::Connected {
        let first = acts.drop_last();
        assert(first =~= seq![LoopAction::EmitState(ConnectionState::Disconnected)]);
        assert(first.drop_last() =~= Seq::<LoopAction>::empty());
        assert(count_disconnected(first.drop_last()) == 0);
        assert(count_disconnected(first) == 1);
        assert(acts.last() == LoopAction::Backoff(RETRY_DELAY_MS));
    } else {
        assert(acts.drop_last() =~= Seq::<LoopAction>::empty());
        assert(count_disconnected(acts.drop_last()) == 0);
    }
}

proof fn lemma_no_disconnect_while_down(v: ClientView, n: nat)
    requires
        v.session is Some,
        v.state != ConnectionState::Connected,
    ensures
        disconnects_over_errors(v, n) == 0,
    decreases n,
{
    if n > 0 {
        lemma_count_error_actions(v);
        lemma_no_disconnect_while_down(
            after_event(v, v.session->Some_0, LoopEvent::TransportError),
            (n - 1) as nat,
        );
    }
}

/// A run of transport errors on a connected session announces
/// `disconnected` exactly once, with the first error, however many
/// retries follow.
pub proof fn lemma_one_disconnect_per_loss(v: ClientView, n: nat)
    requires
        wf(v),
        v.session is Some,
        v.state == ConnectionState::Connected,
        n >= 1,
    ensures
        disconnects_over_errors(v, n) == 1,
{
    lemma_count_error_actions(v);
    let next = after_event(v, v.session->Some_0, LoopEvent::TransportError);
    assert(next.state == ConnectionState::Connecting);
    lemma_no_disconnect_while_down(next, (n - 1) as nat);
}

} // verus!
