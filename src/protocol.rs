//! Shared protocol types: the connection state, the configuration surface,
//! and the plain data that application payloads describe.

use vstd::prelude::*;

verus! {

/// Relies on std's `SystemTime::now`: milliseconds since the Unix epoch,
/// or 0 for a clock set before it.
#[verifier::external_body]
pub(crate) fn unix_time_millis() -> (r: u64) {
    match std::time::SystemTime::now().duration_since(std::time::UNIX_EPOCH) {
        Ok(d) => d.as_millis() as u64,
        Err(_) => 0,
    }
}

/// Version of the wire protocol.
pub const PROTOCOL_VERSION: u32 = 1;

/// A mouse button.
#[derive(Debug, Clone, Copy, PartialEq, Eq, Structural)]
pub enum MouseButton {
    Left,
    Right,
    Middle,
    Other(u8),
}

/// Modifier keys held during a key event.
#[derive(Debug, Clone, Copy, PartialEq, Eq, Structural)]
pub struct KeyModifiers {
    pub ctrl: bool,
    pub alt: bool,
    pub shift: bool,
    pub meta: bool,
}

/// Metadata of one file of a remote listing; `modified` is in seconds since
/// the Unix epoch.
#[derive(Debug, Clone)]
pub struct FileInfo {
    pub name: String,
    pub path: String,
    pub size: u64,
    pub is_directory: bool,
    pub modified: u64,
}

/// State of one logical connection.
#[derive(Debug)]
pub enum ConnectionState {
    Disconnected,
    Connecting,
    Authenticating,
    Connected,
    Error(String),
}

impl ConnectionState {
    /// Equality of states, error reasons compared by their text.
    pub open spec fn same(&self, o: &ConnectionState) -> bool {
        match *self {
            ConnectionState::Disconnected => (*o) is Disconnected,
            ConnectionState::Connecting => (*o) is Connecting,
            ConnectionState::Authenticating => (*o) is Authenticating,
            ConnectionState::Connected => (*o) is Connected,
            ConnectionState::Error(a) => match *o {
                ConnectionState::Error(b) => a@ == b@,
                _ => false,
            },
        }
    }
}

impl Clone for ConnectionState {
    fn clone(&self) -> (r: Self)
        ensures
            r == *self,
    {
        match self {
            ConnectionState::Disconnected => ConnectionState::Disconnected,
            ConnectionState::Connecting => ConnectionState::Connecting,
            ConnectionState::Authenticating => ConnectionState::Authenticating,
            ConnectionState::Connected => ConnectionState::Connected,
            ConnectionState::Error(reason) => ConnectionState::Error(reason.clone()),
        }
    }
}

impl PartialEq for ConnectionState {
    fn eq(&self, o: &ConnectionState) -> (r: bool)
        ensures
            r == self.same(o),
    {
        match self {
            ConnectionState::Disconnected => match o {
                ConnectionState::Disconnected => true,
                _ => false,
            },
            ConnectionState::Connecting => match o {
                ConnectionState::Connecting => true,
                _ => false,
            },
            ConnectionState::Authenticating => match o {
                ConnectionState::Authenticating => true,
                _ => false,
            },
            ConnectionState::Connected => match o {
                ConnectionState::Connected => true,
                _ => false,
            },
            ConnectionState::Error(a) => match o {
                ConnectionState::Error(b) => String::eq(a, b),
                _ => false,
            },
        }
    }
}

impl vstd::std_specs::cmp::PartialEqSpecImpl for ConnectionState {
    open spec fn obeys_eq_spec() -> bool {
        true
    }

    open spec fn eq_spec(&self, o: &ConnectionState) -> bool {
        self.same(o)
    }
}

/// Recognised options of the session layer. Durations are in seconds.
#[derive(Debug, Clone)]
pub struct ProtocolConfig {
    pub use_encryption: bool,
    pub compression_level: u8,
    pub heartbeat_interval: u64,
    pub connection_timeout: u64,
    pub heartbeat_miss_threshold: u64,
    pub max_frame_rate: u32,
    pub max_file_chunk_size: usize,
}

impl Default for ProtocolConfig {
    /// Encryption on, heartbeats every 5 s with 3 misses tolerated, 30 s to
    /// authenticate.
    fn default() -> (r: Self)
        ensures
            r.use_encryption,
            r.compression_level == 6,
            r.heartbeat_interval == 5,
            r.connection_timeout == 30,
            r.heartbeat_miss_threshold == 3,
            r.max_frame_rate == 30,
            r.max_file_chunk_size == 65536,
    {
        ProtocolConfig {
            use_encryption: true,
            compression_level: 6,
            heartbeat_interval: 5,
            connection_timeout: 30,
            heartbeat_miss_threshold: 3,
            max_frame_rate: 30,
            max_file_chunk_size: 64 * 1024,
        }
    }
}

} // verus!
