use vstd::prelude::*;

verus! {

/// Everything that can go wrong in the tunnel plane.
#[derive(Debug, PartialEq, Eq)]
pub enum Error {
    /// The virtual interface could not be brought up or addressed.
    Setup { msg: String },
    /// A key file is not a PKCS#8 Ed25519 private key.
    InvalidPrivateKeyFormat,
    /// A signature does not match the data and the public key.
    InvalidSignature,
    /// An AEAD tag did not authenticate.
    Unseal,
    /// A frame, a payload or a seed could not be decoded.
    BrokenMessage,
    /// A socket or device operation failed.
    Io { msg: String },
    /// The sealing counter of a session reached its end.
    NonceExhausted,
}

pub type Result<T> = core::result::Result<T, Error>;

} // verus!
