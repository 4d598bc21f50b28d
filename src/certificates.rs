//! Where the transport's long-lived identity (certificate and private key)
//! is kept.

use vstd::prelude::*;

verus! {

/// Errors of the identity files.
#[derive(Debug, Clone)]
pub enum CertError {
    GenerationFailed(String),
    LoadingFailed(String),
    ValidationFailed(String),
    IoError(String),
}

/// File name of the certificate inside the identity directory.
pub const CERT_FILE: &'static str = "cert.pem";

/// File name of the private key inside the identity directory.
pub const KEY_FILE: &'static str = "key.pem";

/// Relies on std's `Path::join`, rendered as text: `file` inside `dir`,
/// with the platform's separator.
#[verifier::external_body]
fn join_path(dir: &str, file: &str) -> (r: String) {
    std::path::Path::new(dir).join(file).to_string_lossy().into_owned()
}

/// Relies on std's `Path::exists`: whether something is on disk at `path`
/// now.
#[verifier::external_body]
fn path_exists(path: &str) -> (r: bool) {
    std::path::Path::new(path).exists()
}

/// Locations of the certificate and key files of one identity directory.
pub struct CertificateManager {
    cert_path: String,
    key_path: String,
}

impl CertificateManager {
    pub closed spec fn spec_cert_path(&self) -> Seq<char> {
        self.cert_path@
    }

    pub closed spec fn spec_key_path(&self) -> Seq<char> {
        self.key_path@
    }

    /// The identity kept in `cert_dir`.
    pub fn new(cert_dir: &str) -> (r: Self) {
        CertificateManager { cert_path: join_path(cert_dir, CERT_FILE), key_path: join_path(cert_dir, KEY_FILE) }
    }

    pub fn cert_path(&self) -> (r: &str)
        ensures
            r@ == self.spec_cert_path(),
    {
        self.cert_path.as_str()
    }

    pub fn key_path(&self) -> (r: &str)
        ensures
            r@ == self.spec_key_path(),
    {
        self.key_path.as_str()
    }

    /// Whether both files are present; an identity is generated only when
    /// this is false, so setting it up twice keeps the first one.
    pub fn certificate_exists(&self) -> (r: bool) {
        path_exists(self.cert_path.as_str()) && path_exists(self.key_path.as_str())
    }
}

} // verus!
