use vstd::prelude::*;

verus! {

/// The fatal conditions a run can end with. Every error aborts the run:
/// none is downgraded to a warning.
#[derive(Debug)]
pub enum RustfoilError {
    /// The configured credentials file does not exist.
    CredentialsMissing,
    /// A file descriptor's size field is not decimal text that fits in 64 bits.
    /// Carries the remote identifier of the offending file.
    InvalidSize { file_id: String },
    /// The configured minimum reader version is not decimal number text.
    InvalidVersion,
    /// The configured public-key text could not be parsed as an RSA public key.
    KeyParse,
    /// The symmetric key could not be wrapped under the RSA public key
    /// (the modulus is too small for the transport scheme).
    KeyWrap,
    /// The compression backend reported a failure.
    CompressionFailed,
    /// The decompression backend rejected the input bytes.
    DecompressionFailed,
}

impl RustfoilError {
    /// A short human-readable description, used by callers when reporting
    /// the failure before exiting.
    pub fn message(&self) -> (r: String)
        ensures
            self is CredentialsMissing ==> r@ == "credentials file is missing"@,
            self is InvalidSize ==> r@ == "file has a malformed size field"@,
            self is InvalidVersion ==> r@ == "minimum version is not decimal number text"@,
            self is KeyParse ==> r@ == "public key could not be parsed"@,
            self is KeyWrap ==> r@ == "symmetric key could not be wrapped"@,
            self is CompressionFailed ==> r@ == "compression failed"@,
            self is DecompressionFailed ==> r@ == "decompression failed"@,
    {
        match self {
            RustfoilError::CredentialsMissing => String::from_str("credentials file is missing"),
            RustfoilError::InvalidSize { file_id: _ } => String::from_str(
                "file has a malformed size field",
            ),
            RustfoilError::InvalidVersion => String::from_str(
                "minimum version is not decimal number text",
            ),
            RustfoilError::KeyParse => String::from_str("public key could not be parsed"),
            RustfoilError::KeyWrap => String::from_str("symmetric key could not be wrapped"),
            RustfoilError::CompressionFailed => String::from_str("compression failed"),
            RustfoilError::DecompressionFailed => String::from_str("decompression failed"),
        }
    }
}

} // verus!
