//! The connection state machine: an explicit table from state and event to
//! the next state, with the authentication and heartbeat timers and the
//! connection's cipher context, and the framing of inbound and outbound
//! messages.

use vstd::prelude::*;

use crate::encryption::ProtocolEncryption;
use crate::messages::{decode, encode, encoding, parse, Message, MessageView};
use crate::protocol::{ConnectionState, ProtocolConfig};
use crate::security::{is_sealed_frame, open_frame, MAX_PLAINTEXT_LEN};

verus! {

/// Reason recorded when authentication does not finish in time.
pub const AUTH_TIMEOUT_REASON: &'static str = "authentication timed out";

/// Reason recorded when the peer's heartbeats stop.
pub const HEARTBEAT_TIMEOUT_REASON: &'static str = "heartbeat timeout";

/// Reason recorded when an inbound frame cannot be opened or read.
pub const BAD_FRAME_REASON: &'static str = "unreadable frame";

/// Something that happens to a connection.
#[derive(Debug, Clone)]
pub enum ConnectionEvent {
    /// The local side asks to connect.
    ConnectRequested,
    /// The authentication request went out.
    AuthRequestSent,
    /// The peer accepted; `key` is the session key agreed for the
    /// connection.
    AuthSucceeded { key: [u8; 32] },
    AuthFailed { reason: String },
    /// Either side asks to disconnect.
    DisconnectRequested,
    /// The transport failed beyond repair.
    TransportFailed { reason: String },
    /// A timer check at the time passed alongside.
    Tick,
}

/// What the transport driver must do after a step.
#[derive(Debug, Clone, Copy, PartialEq, Eq, Structural)]
pub enum ConnectionAction {
    Nothing,
    /// Close the transport: the connection's timers and key are released.
    TearDown,
}

/// The state of a connection without its error reason.
#[derive(Debug, Clone, Copy, PartialEq, Eq, Structural)]
pub enum Phase {
    Disconnected,
    Connecting,
    Authenticating,
    Connected,
    Failed,
}

pub open spec fn phase(s: ConnectionState) -> Phase {
    match s {
        ConnectionState::Disconnected => Phase::Disconnected,
        ConnectionState::Connecting => Phase::Connecting,
        ConnectionState::Authenticating => Phase::Authenticating,
        ConnectionState::Connected => Phase::Connected,
        ConnectionState::Error(_) => Phase::Failed,
    }
}

/// The transition table. `timed_out` says whether the timer of the current
/// phase (authentication or heartbeat) has run out.
pub open spec fn next_phase(p: Phase, e: ConnectionEvent, timed_out: bool) -> Phase {
    match e {
        ConnectionEvent::ConnectRequested => if p == Phase::Disconnected {
            Phase::Connecting
        } else {
            p
        },
        ConnectionEvent::AuthRequestSent => if p == Phase::Connecting {
            Phase::Authenticating
        } else {
            p
        },
        ConnectionEvent::AuthSucceeded { .. } => if p == Phase::Authenticating {
            Phase::Connected
        } else {
            p
        },
        ConnectionEvent::AuthFailed { .. } => if p == Phase::Authenticating {
            Phase::Failed
        } else {
            p
        },
        ConnectionEvent::DisconnectRequested => if p == Phase::Connected || p == Phase::Failed {
            Phase::Disconnected
        } else {
            p
        },
        ConnectionEvent::TransportFailed { .. } => Phase::Failed,
        ConnectionEvent::Tick => if p == Phase::Failed {
            Phase::Disconnected
        } else if (p == Phase::Authenticating || p == Phase::Connected) && timed_out {
            Phase::Failed
        } else {
            p
        },
    }
}

/// Errors of the connection.
#[derive(Debug, Clone)]
pub enum ConnectionError {
    NotConnected,
    AuthenticationFailed,
    NetworkError(String),
    Timeout,
    /// A connection attempt while one is under way or established.
    AlreadyConnected,
    /// A frame could not be sealed for sending.
    EncryptionFailed,
    /// An inbound frame did not open under the connection's key.
    DecryptionFailed,
    /// An inbound frame was not the encoding of a message.
    MalformedFrame,
}

/// One logical connection: its state, timers and cipher context. Only the
/// methods below change the state.
pub struct ConnectionManager {
    state: ConnectionState,
    config: ProtocolConfig,
    encryption: ProtocolEncryption,
    auth_deadline: Option<u64>,
    last_heartbeat: Option<u64>,
}

impl ConnectionManager {
    pub closed spec fn current(&self) -> ConnectionState {
        self.state
    }

    pub closed spec fn config(&self) -> ProtocolConfig {
        self.config
    }

    /// The key that protects frames, if one is installed.
    pub closed spec fn key(&self) -> Option<Seq<u8>> {
        self.encryption.key()
    }

    /// Whether frames are encrypted once connected.
    pub closed spec fn encrypted(&self) -> bool {
        self.encryption.enabled()
    }

    /// The armed authentication deadline, if any.
    pub closed spec fn auth_deadline(&self) -> Option<u64> {
        self.auth_deadline
    }

    /// Time of the last heartbeat, while the heartbeat timer is armed.
    pub closed spec fn last_heartbeat(&self) -> Option<u64> {
        self.last_heartbeat
    }

    /// No connection is under way or established: `Disconnected` or
    /// `Error`.
    pub open spec fn idle(&self) -> bool {
        self.current() is Disconnected || self.current() is Error
    }

    /// Whether the connection holds a timer or a key.
    pub open spec fn holds_resources(&self) -> bool {
        self.auth_deadline() is Some || self.last_heartbeat() is Some || self.key() is Some
    }

    /// Longest silence tolerated from the peer, in seconds.
    pub open spec fn heartbeat_limit(&self) -> int {
        let c = self.config();
        let l = c.heartbeat_interval * c.heartbeat_miss_threshold;
        if l <= u64::MAX {
            l
        } else {
            u64::MAX as int
        }
    }

    /// Whether the timer of the current phase has run out at `now`.
    pub open spec fn timed_out(&self, now: u64) -> bool {
        match phase(self.current()) {
            Phase::Authenticating => self.auth_deadline() matches Some(d) && now >= d,
            Phase::Connected => self.last_heartbeat() matches Some(h) && now > h
                + self.heartbeat_limit(),
            _ => false,
        }
    }

    /// Resources match the phase: nothing is held outside a live
    /// connection, the authentication timer runs only while authenticating,
    /// the heartbeat timer only while connected, and a connected connection
    /// with encryption on has its key.
    pub closed spec fn wf(&self) -> bool {
        &&& self.encryption.enabled() == self.config.use_encryption
        &&& match phase(self.state) {
            Phase::Disconnected | Phase::Failed | Phase::Connecting => {
                &&& self.auth_deadline is None
                &&& self.last_heartbeat is None
                &&& self.encryption.key() is None
            },
            Phase::Authenticating => {
                &&& self.auth_deadline is Some
                &&& self.last_heartbeat is None
                &&& self.encryption.key() is None
            },
            Phase::Connected => {
                &&& self.auth_deadline is None
                &&& self.last_heartbeat is Some
                &&& (self.encryption.enabled() ==> self.encryption.key() is Some)
                &&& (!self.encryption.enabled() ==> self.encryption.key() is None)
            },
        }
    }

    /// A disconnected connection with the given configuration.
    pub fn with_config(config: ProtocolConfig) -> (r: Self)
        ensures
            r.wf(),
            r.current() is Disconnected,
            r.config() == config,
            !r.holds_resources(),
            r.encrypted() == config.use_encryption,
    {
        let mut encryption = ProtocolEncryption::new();
        encryption.enable(config.use_encryption);
        ConnectionManager {
            state: ConnectionState::Disconnected,
            config,
            encryption,
            auth_deadline: None,
            last_heartbeat: None,
        }
    }

    /// A disconnected connection with the default configuration.
    pub fn new() -> (r: Self)
        ensures
            r.wf(),
            r.current() is Disconnected,
            !r.holds_resources(),
            r.encrypted(),
    {
        Self::with_config(ProtocolConfig::default())
    }

    pub fn state(&self) -> (r: ConnectionState)
        ensures
            r == self.current(),
    {
        self.state.clone()
    }

    pub fn is_encrypted(&self) -> (r: bool)
        ensures
            r == self.encrypted(),
    {
        self.encryption.is_enabled()
    }

    /// Drops the timers and the key; says whether anything was held.
    fn release(&mut self) -> (r: bool)
        ensures
            r == old(self).holds_resources(),
            !final(self).holds_resources(),
            final(self).state == old(self).state,
            final(self).config == old(self).config,
            final(self).encryption.enabled() == old(self).encryption.enabled(),
    {
        let held = self.auth_deadline.is_some() || self.last_heartbeat.is_some()
            || self.encryption.has_key();
        self.auth_deadline = None;
        self.last_heartbeat = None;
        self.encryption.clear_key();
        held
    }

    /// Moves to `Error(reason)` and releases the connection's resources.
    fn fail(&mut self, reason: String) -> (r: ConnectionAction)
        requires
            old(self).encryption.enabled() == old(self).config.use_encryption,
        ensures
            final(self).wf(),
            final(self).state == ConnectionState::Error(reason),
            final(self).config == old(self).config,
            !final(self).holds_resources(),
            r is TearDown <==> old(self).holds_resources(),
    {
        let held = self.release();
        self.state = ConnectionState::Error(reason);
        if held {
            ConnectionAction::TearDown
        } else {
            ConnectionAction::Nothing
        }
    }

    fn heartbeat_expired(&self, now: u64) -> (r: bool)
        requires
            self.wf(),
            self.current() is Connected,
        ensures
            r == self.timed_out(now),
    {
        let interval = self.config.heartbeat_interval;
        let misses = self.config.heartbeat_miss_threshold;
        let limit: u64 = if misses != 0 && interval > u64::MAX / misses {
            proof {
                assert(interval * misses > u64::MAX) by (nonlinear_arith)
                    requires
                        misses != 0,
                        interval > u64::MAX / misses,
                ;
            }
            u64::MAX
        } else {
            proof {
                assert(interval * misses <= u64::MAX) by (nonlinear_arith)
                    requires
                        misses == 0 || interval <= u64::MAX / misses,
                ;
            }
            interval * misses
        };
        match self.last_heartbeat {
            Some(h) => now > h && now - h > limit,
            None => false,
        }
    }

    /// Applies `event` at time `now`, following the transition table. A
    /// step that leaves a live connection releases its timers and key and
    /// asks the driver to tear down: this happens once per connection, as a
    /// connection that holds nothing never asks for it.
    pub fn handle_event(&mut self, event: ConnectionEvent, now: u64) -> (r: ConnectionAction)
        requires
            old(self).wf(),
        ensures
            final(self).wf(),
            final(self).config() == old(self).config(),
            phase(final(self).current()) == next_phase(
                phase(old(self).current()),
                event,
                old(self).timed_out(now),
            ),
            r is TearDown <==> (old(self).holds_resources() && !final(self).holds_resources()),
            !old(self).holds_resources() ==> r is Nothing,
            event matches ConnectionEvent::TransportFailed { reason } ==> final(self).current()
                == ConnectionState::Error(reason),
            event matches ConnectionEvent::AuthFailed { reason } ==> (old(self).current() is Authenticating
                ==> final(self).current() == ConnectionState::Error(reason)),
            (event is AuthRequestSent && old(self).current() is Connecting) ==> final(self).auth_deadline()
                == Some(crate::auth::expiry(now, old(self).config().connection_timeout)),
            event matches ConnectionEvent::AuthSucceeded { key } ==> (old(self).current() is Authenticating
                ==> final(self).last_heartbeat() == Some(now) && (old(self).encrypted() ==> final(self).key()
                == Some(key@))),
            (event is Tick && old(self).current() is Authenticating && old(self).timed_out(now))
                ==> (final(self).current() matches ConnectionState::Error(reason) && reason@
                == AUTH_TIMEOUT_REASON@),
    {
        match event {
            ConnectionEvent::ConnectRequested => {
                if matches!(self.state, ConnectionState::Disconnected) {
                    self.state = ConnectionState::Connecting;
                }
                ConnectionAction::Nothing
            },
            ConnectionEvent::AuthRequestSent => {
                if matches!(self.state, ConnectionState::Connecting) {
                    self.auth_deadline = Some(now.saturating_add(self.config.connection_timeout));
                    self.state = ConnectionState::Authenticating;
                }
                ConnectionAction::Nothing
            },
            ConnectionEvent::AuthSucceeded { key } => {
                if matches!(self.state, ConnectionState::Authenticating) {
                    self.auth_deadline = None;
                    self.last_heartbeat = Some(now);
                    if self.encryption.is_enabled() {
                        let _ = self.encryption.init_encryption(&key);
                    }
                    self.state = ConnectionState::Connected;
                }
                ConnectionAction::Nothing
            },
            ConnectionEvent::AuthFailed { reason } => {
                if matches!(self.state, ConnectionState::Authenticating) {
                    self.fail(reason)
                } else {
                    ConnectionAction::Nothing
                }
            },
            ConnectionEvent::DisconnectRequested => {
                match self.state {
                    ConnectionState::Connected => {
                        let held = self.release();
                        self.state = ConnectionState::Disconnected;
                        if held {
                            ConnectionAction::TearDown
                        } else {
                            ConnectionAction::Nothing
                        }
                    },
                    ConnectionState::Error(_) => {
                        self.state = ConnectionState::Disconnected;
                        ConnectionAction::Nothing
                    },
                    _ => ConnectionAction::Nothing,
                }
            },
            ConnectionEvent::TransportFailed { reason } => self.fail(reason),
            ConnectionEvent::Tick => {
                match self.state {
                    ConnectionState::Error(_) => {
                        self.state = ConnectionState::Disconnected;
                        ConnectionAction::Nothing
                    },
                    ConnectionState::Authenticating => {
                        let expired = match self.auth_deadline {
                            Some(d) => now >= d,
                            None => false,
                        };
                        if expired {
                            self.fail(AUTH_TIMEOUT_REASON.to_string())
                        } else {
                            ConnectionAction::Nothing
                        }
                    },
                    ConnectionState::Connected => {
                        if self.heartbeat_expired(now) {
                            self.fail(HEARTBEAT_TIMEOUT_REASON.to_string())
                        } else {
                            ConnectionAction::Nothing
                        }
                    },
                    _ => ConnectionAction::Nothing,
                }
            },
        }
    }

    /// Starts a connection to `partner_id` from `Disconnected`, or from
    /// `Error`, which holds nothing and would next become `Disconnected`:
    /// the state becomes `Connecting` and the authentication request to
    /// send is returned. An empty password fails at once and the
    /// connection ends `Disconnected`. A connection under way or
    /// established is left alone.
    pub fn connect(&mut self, partner_id: String, password: String) -> (r: Result<
        Message,
        ConnectionError,
    >)
        requires
            old(self).wf(),
        ensures
            final(self).wf(),
            final(self).config() == old(self).config(),
            !old(self).idle() ==> (r matches Err(ConnectionError::AlreadyConnected)
                && final(self).current() == old(self).current()),
            old(self).idle() && password@.len() == 0 ==> (r matches Err(
                ConnectionError::AuthenticationFailed,
            ) && final(self).current() is Disconnected),
            old(self).idle() && password@.len() > 0 ==> (r matches Ok(m)
                && m@ == MessageView::AuthRequest(partner_id@, password@)
                && final(self).current() is Connecting),
            old(self).idle() ==> !final(self).holds_resources(),
    {
        if !(matches!(self.state, ConnectionState::Disconnected) || matches!(
            self.state,
            ConnectionState::Error(_),
        )) {
            return Err(ConnectionError::AlreadyConnected);
        }
        if password.as_str().is_empty() {
            self.state = ConnectionState::Disconnected;
            return Err(ConnectionError::AuthenticationFailed);
        }
        self.state = ConnectionState::Connecting;
        Ok(Message::AuthRequest { id: partner_id, password })
    }

    /// Closes the connection from the local side, whatever its state.
    pub fn disconnect(&mut self) -> (r: Result<(), ConnectionError>)
        requires
            old(self).wf(),
        ensures
            final(self).wf(),
            r is Ok,
            final(self).current() is Disconnected,
            final(self).config() == old(self).config(),
            !final(self).holds_resources(),
    {
        let _ = self.release();
        self.state = ConnectionState::Disconnected;
        Ok(())
    }

    /// The frame that carries `message`. Once connected every frame is
    /// sealed under the connection's key when encryption is on; before that
    /// only the authentication handshake may be sent, in the clear.
    pub fn send_message(&self, message: &Message) -> (r: Result<Vec<u8>, ConnectionError>)
        requires
            self.wf(),
        ensures
            self.current() is Connected && self.encrypted() ==> (r matches Ok(c) ==> is_sealed_frame(
                self.key()->0,
                encoding(message@),
                c@,
            )),
            self.current() is Connected && self.encrypted() ==> (r is Err ==> r matches Err(
                ConnectionError::EncryptionFailed,
            )),
            self.current() is Connected && self.encrypted() ==> (r is Ok <==> encoding(message@).len()
                <= MAX_PLAINTEXT_LEN),
            self.current() is Connected && !self.encrypted() ==> (r matches Ok(c) && c@ == encoding(
                message@,
            )),
            (self.current() is Connecting || self.current() is Authenticating)
                && message.spec_is_auth_frame() ==> (r matches Ok(c) && c@ == encoding(message@)),
            !(self.current() is Connected) && !((self.current() is Connecting
                || self.current() is Authenticating) && message.spec_is_auth_frame()) ==> r matches Err(
                ConnectionError::NotConnected,
            ),
    {
        match self.state {
            ConnectionState::Connected => {
                let bytes = encode(message);
                if self.encryption.is_enabled() {
                    match self.encryption.encrypt_data(bytes.as_slice()) {
                        Ok(c) => Ok(c),
                        Err(_) => Err(ConnectionError::EncryptionFailed),
                    }
                } else {
                    Ok(bytes)
                }
            },
            ConnectionState::Connecting | ConnectionState::Authenticating => {
                if message.is_auth_frame() {
                    Ok(encode(message))
                } else {
                    Err(ConnectionError::NotConnected)
                }
            },
            _ => Err(ConnectionError::NotConnected),
        }
    }

    /// The frame that carries bytes of an application collaborator; only a
    /// connected connection carries them.
    pub fn send_application_payload(&self, data: Vec<u8>) -> (r: Result<Vec<u8>, ConnectionError>)
        requires
            self.wf(),
        ensures
            !(self.current() is Connected) ==> r matches Err(ConnectionError::NotConnected),
            self.current() is Connected && self.encrypted() ==> (r matches Ok(c) ==> is_sealed_frame(
                self.key()->0,
                encoding(MessageView::ApplicationPayload(data@)),
                c@,
            )),
            self.current() is Connected && !self.encrypted() ==> (r matches Ok(c) && c@ == encoding(
                MessageView::ApplicationPayload(data@),
            )),
            self.current() is Connected && self.encrypted() ==> (r is Ok <==> encoding(
                MessageView::ApplicationPayload(data@),
            ).len() <= MAX_PLAINTEXT_LEN),
            self.current() is Connected && self.encrypted() ==> (r is Err ==> r matches Err(
                ConnectionError::EncryptionFailed,
            )),
    {
        let message = Message::ApplicationPayload { data };
        self.send_message(&message)
    }

    /// Reads an inbound frame at time `now`.
    ///
    /// Connected: the frame is opened under the key when encryption is on,
    /// then decoded; a frame that does not open or decode is fatal and
    /// tears the connection down. A heartbeat rearms the heartbeat timer; a
    /// disconnect closes the connection. While connecting or
    /// authenticating, frames are read in the clear and only the handshake
    /// is delivered: anything else is dropped (`Ok(None)`). With no live
    /// connection, nothing is read.
    pub fn receive_message(&mut self, frame: &[u8], now: u64) -> (r: Result<
        Option<Message>,
        ConnectionError,
    >)
        requires
            old(self).wf(),
        ensures
            final(self).wf(),
            final(self).config() == old(self).config(),
            (old(self).current() is Disconnected || old(self).current() is Error) ==> (r matches Err(
                ConnectionError::NotConnected,
            ) && final(self).current() == old(self).current()),
            old(self).current() is Connected && old(self).encrypted() ==> {
                &&& open_frame(old(self).key()->0, frame@) is None ==> (r matches Err(
                    ConnectionError::DecryptionFailed,
                ) && final(self).current() is Error && !final(self).holds_resources())
                &&& r matches Ok(Some(m)) ==> open_frame(old(self).key()->0, frame@) matches Some(p)
                    && encoding(m@) == p
            },
            old(self).current() is Connected && old(self).encrypted() ==> (open_frame(
                old(self).key()->0,
                frame@,
            ) matches Some(p) ==> (parse(p) is Some <==> r is Ok)),
            old(self).current() is Connected && !old(self).encrypted() ==> (r matches Ok(Some(m))
                ==> encoding(m@) == frame@),
            old(self).current() is Connected && !old(self).encrypted() ==> (parse(frame@) is Some
                <==> r is Ok),
            old(self).current() is Connected ==> (r matches Ok(o) ==> o is Some),
            old(self).current() is Connected ==> (r is Err ==> final(self).current() is Error
                && !final(self).holds_resources()),
            old(self).current() is Connected ==> (r matches Ok(Some(m)) && m is Heartbeat ==> final(self).current() is Connected && final(self).last_heartbeat() == Some(now)),
            old(self).current() is Connected ==> (r matches Ok(Some(m)) && m is Disconnect ==> final(self).current() is Disconnected && !final(self).holds_resources()),
            (old(self).current() is Connecting || old(self).current() is Authenticating) ==> {
                &&& parse(frame@) is None ==> (r matches Err(ConnectionError::MalformedFrame)
                    && final(self).current() is Error)
                &&& parse(frame@) matches Some(v) ==> (r is Ok && final(self).current() == old(self).current())
                &&& r matches Ok(Some(m)) ==> m.spec_is_auth_frame() && encoding(m@) == frame@
                &&& r matches Ok(None) ==> (parse(frame@) matches Some(v) && !(v is AuthRequest
                    || v is AuthResponse))
            },
    {
        match self.state {
            ConnectionState::Connected => {},
            ConnectionState::Connecting | ConnectionState::Authenticating => {
                return match decode(frame) {
                    Ok(m) => {
                        if m.is_auth_frame() {
                            Ok(Some(m))
                        } else {
                            Ok(None)
                        }
                    },
                    Err(_) => {
                        let _ = self.fail(BAD_FRAME_REASON.to_string());
                        Err(ConnectionError::MalformedFrame)
                    },
                };
            },
            _ => return Err(ConnectionError::NotConnected),
        }
        let plain = match self.encryption.decrypt_data(frame) {
            Ok(p) => p,
            Err(_) => {
                let _ = self.fail(BAD_FRAME_REASON.to_string());
                return Err(ConnectionError::DecryptionFailed);
            },
        };
        let message = match decode(plain.as_slice()) {
            Ok(m) => m,
            Err(_) => {
                let _ = self.fail(BAD_FRAME_REASON.to_string());
                return Err(ConnectionError::MalformedFrame);
            },
        };
        match message {
            Message::Heartbeat { .. } => {
                self.last_heartbeat = Some(now);
            },
            Message::Disconnect { .. } => {
                let _ = self.release();
                self.state = ConnectionState::Disconnected;
            },
            _ => {},
        }
        Ok(Some(message))
    }
}

} // verus!
