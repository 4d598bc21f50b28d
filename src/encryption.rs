//! Protocol-level encryption: the connection's cipher context behind a
//! switch that configuration can turn off.

use vstd::prelude::*;

use crate::security::{
    is_sealed_frame, open_frame, SecurityError, SecurityManager, DECRYPT_FAILURE, MAX_PLAINTEXT_LEN,
};

verus! {

/// Errors of protocol-level encryption.
#[derive(Debug, Clone)]
pub enum EncryptionError {
    InitFailed(String),
    EncryptFailed(String),
    DecryptFailed(String),
    /// Encryption is on but no key was installed.
    NotInitialized,
}

/// A cipher context and whether encryption is on. With encryption off,
/// data passes through unchanged; that state is explicit and queryable.
pub struct ProtocolEncryption {
    security_manager: SecurityManager,
    is_enabled: bool,
}

impl ProtocolEncryption {
    /// The installed key, if any.
    pub closed spec fn key(&self) -> Option<Seq<u8>> {
        self.security_manager.key()
    }

    pub closed spec fn enabled(&self) -> bool {
        self.is_enabled
    }

    /// Encryption on, no key yet.
    pub fn new() -> (r: Self)
        ensures
            r.enabled(),
            r.key() is None,
    {
        ProtocolEncryption { security_manager: SecurityManager::new(), is_enabled: true }
    }

    pub fn enable(&mut self, enable: bool)
        ensures
            final(self).enabled() == enable,
            final(self).key() == old(self).key(),
    {
        self.is_enabled = enable;
    }

    pub fn is_enabled(&self) -> (r: bool)
        ensures
            r == self.enabled(),
    {
        self.is_enabled
    }

    pub fn init_encryption(&mut self, key: &[u8; 32]) -> (r: Result<(), EncryptionError>)
        ensures
            r is Ok,
            final(self).key() == Some(key@),
            final(self).enabled() == old(self).enabled(),
    {
        match self.security_manager.init_encryption(key) {
            Ok(()) => Ok(()),
            Err(_) => Err(EncryptionError::InitFailed("key rejected".to_string())),
        }
    }

    /// Discards the key.
    pub fn clear_key(&mut self)
        ensures
            final(self).key() is None,
            final(self).enabled() == old(self).enabled(),
    {
        self.security_manager.clear_key();
    }

    pub fn has_key(&self) -> (r: bool)
        ensures
            r == self.key() is Some,
    {
        self.security_manager.is_initialized()
    }

    /// With encryption off, `data` itself; otherwise a sealed frame of it
    /// under a fresh nonce.
    pub fn encrypt_data(&self, data: &[u8]) -> (r: Result<Vec<u8>, EncryptionError>)
        ensures
            !self.enabled() ==> (r matches Ok(c) && c@ == data@),
            self.enabled() && self.key() is None ==> r matches Err(EncryptionError::NotInitialized),
            self.enabled() && self.key() is Some ==> {
                &&& r is Ok <==> data@.len() <= MAX_PLAINTEXT_LEN
                &&& r matches Ok(c) ==> is_sealed_frame(self.key()->0, data@, c@)
                &&& r matches Err(e) ==> e is EncryptFailed
            },
    {
        if !self.is_enabled {
            return Ok(vstd::slice::slice_to_vec(data));
        }
        match self.security_manager.encrypt(data) {
            Ok(c) => Ok(c),
            Err(SecurityError::NotInitialized) => Err(EncryptionError::NotInitialized),
            Err(_) => Err(EncryptionError::EncryptFailed("encryption failed".to_string())),
        }
    }

    /// With encryption off, `data` itself; otherwise the plaintext of the
    /// sealed frame `data`. Every frame that does not open gives the same
    /// `DecryptFailed`.
    pub fn decrypt_data(&self, data: &[u8]) -> (r: Result<Vec<u8>, EncryptionError>)
        ensures
            !self.enabled() ==> (r matches Ok(p) && p@ == data@),
            self.enabled() && self.key() is None ==> r matches Err(EncryptionError::NotInitialized),
            self.enabled() && self.key() is Some ==> {
                &&& r is Ok <==> open_frame(self.key()->0, data@) is Some
                &&& r matches Ok(p) ==> open_frame(self.key()->0, data@) == Some(p@)
                &&& r matches Err(e) ==> (e matches EncryptionError::DecryptFailed(m) && m@
                    == DECRYPT_FAILURE@)
            },
    {
        if !self.is_enabled {
            return Ok(vstd::slice::slice_to_vec(data));
        }
        match self.security_manager.decrypt(data) {
            Ok(p) => Ok(p),
            Err(SecurityError::NotInitialized) => Err(EncryptionError::NotInitialized),
            Err(_) => Err(EncryptionError::DecryptFailed(DECRYPT_FAILURE.to_string())),
        }
    }
}

} // verus!
