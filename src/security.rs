//! Symmetric authenticated encryption of frames (AES-256-GCM) and the small
//! helpers around keys, salts and hex session tokens.

use aes_gcm::aead::{Aead, AeadCore, KeyInit, OsRng};
use aes_gcm::{Aes256Gcm, Key, Nonce};
use rand::RngCore;
use sha2::Digest;
use vstd::prelude::*;
use vstd::string::StringSliceAdditionalSpecFns;

verus! {

/// Length in bytes of the nonce that starts every sealed frame.
pub const NONCE_LEN: usize = 12;

/// Length in bytes of the authentication tag that ends every sealed frame.
pub const TAG_LEN: usize = 16;

/// Text of every `DecryptionFailed` error: the same whatever the cause.
pub const DECRYPT_FAILURE: &'static str = "authentication failed";

/// Largest plaintext, in bytes, that AES-GCM accepts.
pub const MAX_PLAINTEXT_LEN: u64 = 0x10_0000_0000;

/// What AES-256-GCM decryption with no associated data yields for a key, a
/// nonce and a ciphertext (with its tag): the plaintext, or nothing when the
/// tag does not match.
pub uninterp spec fn gcm_open(key: Seq<u8>, nonce: Seq<u8>, ciphertext: Seq<u8>) -> Option<Seq<u8>>;

/// The SHA-256 digest of a byte string.
pub uninterp spec fn sha256_of(data: Seq<u8>) -> Seq<u8>;

/// Relies on aes_gcm's `Aead::encrypt` for `Aes256Gcm` (no associated data):
/// it fails only on a plaintext longer than 2^36 bytes, appends a 16-byte tag,
/// and what it returns decrypts back to the plaintext under the same key and
/// nonce.
#[verifier::external_body]
fn gcm_seal(key: &[u8; 32], nonce: &[u8; 12], plaintext: &[u8]) -> (r: Option<Vec<u8>>)
    ensures
        r is Some <==> plaintext@.len() <= MAX_PLAINTEXT_LEN,
        r matches Some(c) ==> c@.len() == plaintext@.len() + TAG_LEN && gcm_open(
            key@,
            nonce@,
            c@,
        ) == Some(plaintext@),
{
    let cipher = Aes256Gcm::new(Key::<Aes256Gcm>::from_slice(key));
    cipher.encrypt(Nonce::from_slice(nonce), plaintext).ok()
}

/// Relies on aes_gcm's `Aead::decrypt` for `Aes256Gcm` (no associated data):
/// the plaintext when the tag matches, an error otherwise.
#[verifier::external_body]
fn gcm_unseal(key: &[u8; 32], nonce: &[u8], ciphertext: &[u8]) -> (r: Option<Vec<u8>>)
    requires
        nonce@.len() == NONCE_LEN,
    ensures
        match r {
            Some(p) => gcm_open(key@, nonce@, ciphertext@) == Some(p@),
            None => gcm_open(key@, nonce@, ciphertext@) is None,
        },
{
    let cipher = Aes256Gcm::new(Key::<Aes256Gcm>::from_slice(key));
    cipher.decrypt(Nonce::from_slice(nonce), ciphertext).ok()
}

/// Relies on aes_gcm's `AeadCore::generate_nonce` with the operating
/// system's random source: a fresh 96-bit nonce.
#[verifier::external_body]
fn fresh_nonce() -> (r: [u8; 12]) {
    let nonce = Aes256Gcm::generate_nonce(&mut OsRng);
    nonce.into()
}

/// Relies on rand's `RngCore::fill_bytes` on the operating system's random
/// source: 32 random bytes.
#[verifier::external_body]
fn os_random_32() -> (r: [u8; 32]) {
    let mut bytes = [0u8; 32];
    OsRng.fill_bytes(&mut bytes);
    bytes
}

/// Relies on sha2's `Sha256::digest`: the 32-byte SHA-256 digest.
#[verifier::external_body]
fn sha256_digest(data: &[u8]) -> (r: Vec<u8>)
    ensures
        r@ == sha256_of(data@),
        r@.len() == 32,
{
    sha2::Sha256::digest(data).to_vec()
}

/// Lowercase hexadecimal digit of a value below 16.
pub open spec fn hex_digit(v: u8) -> char {
    if v < 10 {
        (('0' as u8) + v) as char
    } else {
        (('a' as u8) + (v - 10)) as char
    }
}

/// Lowercase hexadecimal text of a byte string, two digits per byte, high
/// nibble first.
pub open spec fn hex_of(b: Seq<u8>) -> Seq<char> {
    Seq::new(
        2 * b.len(),
        |i: int|
            if i % 2 == 0 {
                hex_digit(b[i / 2] / 16)
            } else {
                hex_digit(b[i / 2] % 16)
            },
    )
}

/// A hexadecimal digit, in either case.
pub open spec fn is_hex_char(c: char) -> bool {
    ('0' <= c && c <= '9') || ('a' <= c && c <= 'f') || ('A' <= c && c <= 'F')
}

/// Text that decodes as hexadecimal: an even number of hex digits.
pub open spec fn is_hex_text(s: Seq<char>) -> bool {
    s.len() % 2 == 0 && forall|i: int| 0 <= i < s.len() ==> is_hex_char(#[trigger] s[i])
}

/// Well-formed text of a session token: 64 hexadecimal digits.
pub open spec fn is_token_text(s: Seq<char>) -> bool {
    s.len() == 64 && is_hex_text(s)
}

/// Relies on hex's `encode`: two lowercase digits per byte, high nibble first.
#[verifier::external_body]
fn hex_encode(b: &[u8]) -> (r: String)
    ensures
        r@ == hex_of(b@),
{
    hex::encode(b)
}

/// Relies on hex's `decode`: it succeeds exactly on an even number of hex
/// digits of either case.
#[verifier::external_body]
fn hex_decodes(s: &str) -> (r: bool)
    ensures
        r == is_hex_text(s@),
{
    hex::decode(s).is_ok()
}

/// A nonce-prefixed frame opened under `key`: the plaintext when the frame
/// holds a nonce and a ciphertext whose tag matches.
pub open spec fn open_frame(key: Seq<u8>, frame: Seq<u8>) -> Option<Seq<u8>> {
    if frame.len() < NONCE_LEN {
        None
    } else {
        gcm_open(key, frame.take(NONCE_LEN as int), frame.skip(NONCE_LEN as int))
    }
}

/// `frame` is `nonce || ciphertext || tag` for `plaintext` under `key`.
pub open spec fn is_sealed_frame(key: Seq<u8>, plaintext: Seq<u8>, frame: Seq<u8>) -> bool {
    &&& frame.len() == NONCE_LEN + plaintext.len() + TAG_LEN
    &&& gcm_open(key, frame.take(NONCE_LEN as int), frame.skip(NONCE_LEN as int)) == Some(
        plaintext,
    )
}

/// Decrypting a frame that encryption produced under the same key gives the
/// plaintext back.
pub proof fn lemma_open_sealed_frame(key: Seq<u8>, plaintext: Seq<u8>, frame: Seq<u8>)
    requires
        is_sealed_frame(key, plaintext, frame),
    ensures
        open_frame(key, frame) == Some(plaintext),
{
}

/// Errors of the cipher context.
#[derive(Debug, Clone)]
pub enum SecurityError {
    NotInitialized,
    EncryptionFailed(String),
    DecryptionFailed(String),
    InvalidData,
    AuthenticationFailed,
    CertificateError(String),
    KeyGenerationFailed,
}

/// Cipher context of one connection: an optional AES-256 key.
pub struct SecurityManager {
    key: Option<[u8; 32]>,
}

impl SecurityManager {
    /// The key in use, if encryption was initialised.
    pub closed spec fn key(&self) -> Option<Seq<u8>> {
        match self.key {
            Some(k) => Some(k@),
            None => None,
        }
    }

    pub fn new() -> (r: Self)
        ensures
            r.key() is None,
    {
        SecurityManager { key: None }
    }

    /// Installs `key` as the connection's key.
    pub fn init_encryption(&mut self, key: &[u8; 32]) -> (r: Result<(), SecurityError>)
        ensures
            r is Ok,
            final(self).key() == Some(key@),
    {
        self.key = Some(*key);
        Ok(())
    }

    /// Drops the key: afterwards both operations fail with `NotInitialized`.
    pub fn clear_key(&mut self)
        ensures
            final(self).key() is None,
    {
        self.key = None;
    }

    pub fn is_initialized(&self) -> (r: bool)
        ensures
            r == self.key() is Some,
    {
        self.key.is_some()
    }

    /// A fresh random 256-bit key.
    pub fn generate_key(&self) -> (r: [u8; 32]) {
        os_random_32()
    }

    /// Seals `data` under a fresh random nonce; the output is
    /// `nonce || ciphertext || tag`.
    pub fn encrypt(&self, data: &[u8]) -> (r: Result<Vec<u8>, SecurityError>)
        ensures
            self.key() is None ==> r matches Err(SecurityError::NotInitialized),
            self.key() matches Some(k) ==> {
                &&& r is Ok <==> data@.len() <= MAX_PLAINTEXT_LEN
                &&& r matches Ok(c) ==> is_sealed_frame(k, data@, c@)
                &&& r matches Err(e) ==> e is EncryptionFailed
            },
    {
        let key = match &self.key {
            Some(k) => k,
            None => return Err(SecurityError::NotInitialized),
        };
        let nonce = fresh_nonce();
        match gcm_seal(key, &nonce, data) {
            Some(sealed) => {
                let mut out: Vec<u8> = Vec::new();
                out.extend_from_slice(nonce.as_slice());
                out.extend_from_slice(sealed.as_slice());
                assert(out@.take(NONCE_LEN as int) =~= nonce@);
                assert(out@.skip(NONCE_LEN as int) =~= sealed@);
                Ok(out)
            },
            None => Err(SecurityError::EncryptionFailed("plaintext too long".to_string())),
        }
    }

    /// Opens a `nonce || ciphertext || tag` frame. Every tag mismatch gives
    /// the same `DecryptionFailed` error, whatever its cause.
    pub fn decrypt(&self, data: &[u8]) -> (r: Result<Vec<u8>, SecurityError>)
        ensures
            self.key() is None ==> r matches Err(SecurityError::NotInitialized),
            self.key() matches Some(k) ==> {
                &&& data@.len() < NONCE_LEN ==> r is Err && r->Err_0 is InvalidData
                &&& data@.len() >= NONCE_LEN && open_frame(k, data@) is None ==> (r matches Err(
                    SecurityError::DecryptionFailed(m),
                ) && m@ == DECRYPT_FAILURE@)
                &&& data@.len() >= NONCE_LEN && open_frame(k, data@) is Some ==> r is Ok
                    && open_frame(k, data@) == Some(r->Ok_0@)
            },
    {
        let key = match &self.key {
            Some(k) => k,
            None => return Err(SecurityError::NotInitialized),
        };
        if data.len() < NONCE_LEN {
            return Err(SecurityError::InvalidData);
        }
        let (nonce, ciphertext) = data.split_at(NONCE_LEN);
        assert(nonce@ =~= data@.take(NONCE_LEN as int));
        assert(ciphertext@ =~= data@.skip(NONCE_LEN as int));
        match gcm_unseal(key, nonce, ciphertext) {
            Some(p) => Ok(p),
            None => Err(SecurityError::DecryptionFailed(DECRYPT_FAILURE.to_string())),
        }
    }

    /// A random session token: 32 random bytes as 64 lowercase hex digits.
    pub fn generate_session_token(&self) -> (r: String)
        ensures
            is_token_text(r@),
            exists|b: Seq<u8>| b.len() == 32 && r@ == hex_of(b),
    {
        random_token()
    }

    /// Whether `token` has the shape of a session token: 64 hex digits.
    pub fn validate_session_token(&self, token: &str) -> (r: bool)
        ensures
            r == is_token_text(token@),
    {
        let decodes = hex_decodes(token);
        if !decodes {
            return false;
        }
        proof {
            lemma_hex_text_is_ascii(token);
            assert(token.spec_bytes().len() == token@.len());
        }
        let n = token.as_bytes().len();
        n == 64
    }

    /// SHA-256 of the password's UTF-8 bytes followed by the salt.
    pub fn hash_password(&self, password: &str, salt: &[u8]) -> (r: Vec<u8>)
        ensures
            r@ == sha256_of(password.spec_bytes() + salt@),
            r@.len() == 32,
    {
        let mut input: Vec<u8> = Vec::new();
        input.extend_from_slice(password.as_bytes());
        input.extend_from_slice(salt);
        assert(input@ =~= password.spec_bytes() + salt@);
        sha256_digest(input.as_slice())
    }

    /// A fresh random 32-byte salt.
    pub fn generate_salt(&self) -> (r: [u8; 32]) {
        os_random_32()
    }

    /// Whether `hash` is the digest of `password` with `salt`. The digests are
    /// compared in full, without an early exit.
    pub fn verify_password(&self, password: &str, hash: &[u8], salt: &[u8]) -> (r: bool)
        ensures
            r == (hash@ == sha256_of(password.spec_bytes() + salt@)),
    {
        let computed = self.hash_password(password, salt);
        constant_time_eq(computed.as_slice(), hash)
    }
}

/// A fresh random token: 32 random bytes as 64 lowercase hex digits.
pub fn random_token() -> (r: String)
    ensures
        is_token_text(r@),
        exists|b: Seq<u8>| b.len() == 32 && r@ == hex_of(b),
{
    let bytes = os_random_32();
    let token = hex_encode(bytes.as_slice());
    proof {
        lemma_hex_of_is_hex_text(bytes@);
        assert(bytes@.len() == 32 && token@ == hex_of(bytes@));
    }
    token
}

/// Byte strings compared in full, whatever the position of a first
/// difference.
pub fn constant_time_eq(a: &[u8], b: &[u8]) -> (r: bool)
    ensures
        r == (a@ == b@),
{
    if a.len() != b.len() {
        return false;
    }
    let mut diff: u8 = 0;
    let mut i: usize = 0;
    assert(a@.take(0) =~= b@.take(0));
    while i < a.len()
        invariant
            a@.len() == b@.len(),
            0 <= i <= a@.len(),
            (diff == 0) == (a@.take(i as int) == b@.take(i as int)),
        decreases a@.len() - i,
    {
        let ai = a[i];
        let bi = b[i];
        let x = ai ^ bi;
        proof {
            assert((x == 0) == (ai == bi)) by (bit_vector)
                requires
                    x == ai ^ bi,
            ;
            assert(((diff | x) == 0) == (diff == 0 && x == 0)) by (bit_vector);
            assert(a@.take(i + 1) == a@.take(i as int).push(a@[i as int]));
            assert(b@.take(i + 1) == b@.take(i as int).push(b@[i as int]));
            if a@.take(i as int) == b@.take(i as int) && a@[i as int] == b@[i as int] {
                assert(a@.take(i + 1) =~= b@.take(i + 1));
            }
            if a@.take(i + 1) == b@.take(i + 1) {
                assert(a@.take(i as int) =~= a@.take(i + 1).take(i as int));
                assert(b@.take(i as int) =~= b@.take(i + 1).take(i as int));
                assert(a@.take(i + 1)[i as int] == a@[i as int]);
                assert(b@.take(i + 1)[i as int] == b@[i as int]);
            }
        }
        diff = diff | x;
        i = i + 1;
    }
    assert(a@.take(a@.len() as int) =~= a@);
    assert(b@.take(b@.len() as int) =~= b@);
    diff == 0
}

proof fn lemma_hex_digit_is_hex(v: u8)
    requires
        v < 16,
    ensures
        is_hex_char(hex_digit(v)),
{
}

/// The hex text of any byte string has even length and hex digits only; 32
/// bytes give a well-formed token.
proof fn lemma_hex_of_is_hex_text(b: Seq<u8>)
    ensures
        is_hex_text(hex_of(b)),
        b.len() == 32 ==> is_token_text(hex_of(b)),
{
    let h = hex_of(b);
    assert forall|i: int| 0 <= i < h.len() implies is_hex_char(#[trigger] h[i]) by {
        let byte = b[i / 2];
        lemma_hex_digit_is_hex(byte / 16);
        lemma_hex_digit_is_hex(byte % 16);
    }
}

/// Hex text is ASCII, so its UTF-8 length is its length in characters.
proof fn lemma_hex_text_is_ascii(s: &str)
    requires
        is_hex_text(s@),
    ensures
        s.spec_bytes().len() == s@.len(),
{
    assert(vstd::string::is_ascii(s));
    vstd::string::is_ascii_spec_bytes(s);
}

} // verus!
