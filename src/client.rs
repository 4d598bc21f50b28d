//! The controlling side's view of a remote session and its errors.

use vstd::prelude::*;

use crate::connection::{ConnectionError, ConnectionManager};
use crate::messages::{encoding, Message, MessageView};
use crate::protocol::ConnectionState;
use crate::security::{is_sealed_frame, MAX_PLAINTEXT_LEN};

verus! {

/// Errors of a remote session.
#[derive(Debug, Clone)]
pub enum SessionError {
    SessionNotActive,
    NetworkError(String),
    AuthError,
}

/// Errors reported to the client's users.
#[derive(Debug, Clone)]
pub enum ClientError {
    ConnectionFailed(String),
    AuthenticationFailed,
    NotConnected,
    NetworkError(String),
    ProtocolError(String),
    FileTransferError(String),
}

/// How a connection error is reported to the client's users: the same
/// kind where one exists, a network error for a timeout, a protocol error
/// for a frame that could not be sealed, opened or read.
pub fn client_error_of(err: ConnectionError) -> (r: ClientError)
    ensures
        err matches ConnectionError::NetworkError(m) ==> (r matches ClientError::NetworkError(n)
            && n == m),
        err is NotConnected ==> r is NotConnected,
        err is AuthenticationFailed ==> r is AuthenticationFailed,
        err is Timeout ==> r is NetworkError,
        err is AlreadyConnected ==> r is ConnectionFailed,
        (err is EncryptionFailed || err is DecryptionFailed || err is MalformedFrame)
            ==> r is ProtocolError,
{
    match err {
        ConnectionError::NetworkError(msg) => ClientError::NetworkError(msg),
        ConnectionError::NotConnected => ClientError::NotConnected,
        ConnectionError::AuthenticationFailed => ClientError::AuthenticationFailed,
        ConnectionError::Timeout => ClientError::NetworkError("Connection timeout".to_string()),
        ConnectionError::AlreadyConnected => ClientError::ConnectionFailed(
            "already connected".to_string(),
        ),
        ConnectionError::EncryptionFailed => ClientError::ProtocolError(
            "frame could not be encrypted".to_string(),
        ),
        ConnectionError::DecryptionFailed => ClientError::ProtocolError(
            "frame could not be decrypted".to_string(),
        ),
        ConnectionError::MalformedFrame => ClientError::ProtocolError(
            "malformed frame".to_string(),
        ),
    }
}

impl From<ConnectionError> for ClientError {
    fn from(err: ConnectionError) -> (r: ClientError) {
        client_error_of(err)
    }
}

impl vstd::std_specs::convert::FromSpecImpl<ConnectionError> for ClientError {
    /// The conversion is stated by `client_error_of`, whose messages are not
    /// spec values.
    open spec fn obeys_from_spec() -> bool {
        false
    }

    open spec fn from_spec(v: ConnectionError) -> ClientError {
        ClientError::NotConnected
    }
}

/// A session with one remote partner.
pub struct RemoteSession {
    partner_id: String,
    is_active: bool,
    session_token: Option<String>,
}

impl RemoteSession {
    pub closed spec fn spec_partner_id(&self) -> Seq<char> {
        self.partner_id@
    }

    pub closed spec fn active(&self) -> bool {
        self.is_active
    }

    pub closed spec fn token(&self) -> Option<Seq<char>> {
        match self.session_token {
            Some(t) => Some(t@),
            None => None,
        }
    }

    /// An inactive session with `partner_id`.
    pub fn new(partner_id: String) -> (r: Self)
        ensures
            r.spec_partner_id() == partner_id@,
            !r.active(),
            r.token() is None,
    {
        RemoteSession { partner_id, is_active: false, session_token: None }
    }

    pub fn partner_id(&self) -> (r: &str)
        ensures
            r@ == self.spec_partner_id(),
    {
        self.partner_id.as_str()
    }

    pub fn is_active(&self) -> (r: bool)
        ensures
            r == self.active(),
    {
        self.is_active
    }

    /// Activates the session under `session_token`.
    pub fn start(&mut self, session_token: String) -> (r: Result<(), SessionError>)
        ensures
            r is Ok,
            final(self).active(),
            final(self).token() == Some(session_token@),
            final(self).spec_partner_id() == old(self).spec_partner_id(),
    {
        self.session_token = Some(session_token);
        self.is_active = true;
        Ok(())
    }

    /// Deactivates the session and forgets its token.
    pub fn stop(&mut self) -> (r: Result<(), SessionError>)
        ensures
            r is Ok,
            !final(self).active(),
            final(self).token() is None,
            final(self).spec_partner_id() == old(self).spec_partner_id(),
    {
        self.is_active = false;
        self.session_token = None;
        Ok(())
    }

    /// Accepts `message` for sending only while the session is active.
    pub fn send_message(&self, message: &Message) -> (r: Result<(), SessionError>)
        ensures
            r is Ok <==> self.active(),
            r is Err ==> r matches Err(SessionError::SessionNotActive),
    {
        if !self.is_active {
            return Err(SessionError::SessionNotActive);
        }
        Ok(())
    }
}

/// The controlling side: one connection and the session opened over it.
pub struct FreeViewerClient {
    connection_manager: ConnectionManager,
    current_session: Option<RemoteSession>,
}

impl FreeViewerClient {
    pub closed spec fn connection(&self) -> ConnectionManager {
        self.connection_manager
    }

    /// The partner of the current session, if there is one.
    pub closed spec fn session_partner(&self) -> Option<Seq<char>> {
        match self.current_session {
            Some(s) => Some(s.spec_partner_id()),
            None => None,
        }
    }

    pub closed spec fn wf(&self) -> bool {
        self.connection_manager.wf()
    }

    pub fn new() -> (r: Self)
        ensures
            r.wf(),
            r.connection().current() is Disconnected,
            r.session_partner() is None,
    {
        FreeViewerClient { connection_manager: ConnectionManager::new(), current_session: None }
    }

    /// Starts connecting to `partner_id` and opens a session with it; the
    /// returned request is what the transport sends first.
    pub fn connect(&mut self, partner_id: String, password: String) -> (r: Result<Message, ClientError>)
        requires
            old(self).wf(),
        ensures
            final(self).wf(),
            r is Ok <==> old(self).connection().idle() && password@.len() > 0,
            r matches Ok(m) ==> m@ == MessageView::AuthRequest(partner_id@, password@)
                && final(self).session_partner() == Some(partner_id@)
                && final(self).connection().current() is Connecting,
            r is Err ==> final(self).session_partner() == old(self).session_partner(),
    {
        let request = match self.connection_manager.connect(partner_id.clone(), password) {
            Ok(m) => m,
            Err(e) => return Err(ClientError::from(e)),
        };
        self.current_session = Some(RemoteSession::new(partner_id));
        Ok(request)
    }

    /// Closes the connection and forgets the session.
    pub fn disconnect(&mut self) -> (r: Result<(), ClientError>)
        requires
            old(self).wf(),
        ensures
            final(self).wf(),
            r is Ok,
            final(self).connection().current() is Disconnected,
            !final(self).connection().holds_resources(),
            final(self).session_partner() is None,
    {
        let _ = self.connection_manager.disconnect();
        self.current_session = None;
        Ok(())
    }

    pub fn connection_state(&self) -> (r: ConnectionState)
        ensures
            r == self.connection().current(),
    {
        self.connection_manager.state()
    }

    /// The frame that carries an application payload (input events, a
    /// listing request) to the partner; refused unless connected.
    pub fn send_payload(&self, data: Vec<u8>) -> (r: Result<Vec<u8>, ClientError>)
        requires
            self.wf(),
        ensures
            !(self.connection().current() is Connected) ==> r matches Err(ClientError::NotConnected),
            self.connection().current() is Connected && self.connection().encrypted() ==> (r matches Ok(
                c,
            ) ==> is_sealed_frame(
                self.connection().key()->0,
                encoding(MessageView::ApplicationPayload(data@)),
                c@,
            )),
            self.connection().current() is Connected && !self.connection().encrypted() ==> (r matches Ok(
                c,
            ) && c@ == encoding(MessageView::ApplicationPayload(data@))),
            self.connection().current() is Connected && self.connection().encrypted() ==> (r is Ok
                <==> encoding(MessageView::ApplicationPayload(data@)).len() <= MAX_PLAINTEXT_LEN),
    {
        match self.connection_manager.send_application_payload(data) {
            Ok(frame) => Ok(frame),
            Err(e) => Err(client_error_of(e)),
        }
    }
}

} // verus!
