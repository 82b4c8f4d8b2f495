//! Encryption of the durable service state.

use vstd::prelude::*;

use crate::text::{concat2, owned};

verus! {

#[derive(Debug)]
pub enum CryptoError {
    UnsupportedPlatform,
    Dpapi(String),
    InvalidPayload,
}

/// The mathematical form of a [`CryptoError`].
pub ghost enum CryptoFault {
    UnsupportedPlatform,
    Dpapi(Seq<char>),
    InvalidPayload,
}

impl View for CryptoError {
    type V = CryptoFault;

    open spec fn view(&self) -> CryptoFault {
        match self {
            CryptoError::UnsupportedPlatform => CryptoFault::UnsupportedPlatform,
            CryptoError::Dpapi(d) => CryptoFault::Dpapi(d@),
            CryptoError::InvalidPayload => CryptoFault::InvalidPayload,
        }
    }
}

pub open spec fn crypto_fault_text(f: CryptoFault) -> Seq<char> {
    match f {
        CryptoFault::UnsupportedPlatform => "durable secret storage is only available through Windows DPAPI"@,
        CryptoFault::Dpapi(d) => "DPAPI operation failed: "@ + d,
        CryptoFault::InvalidPayload => "encrypted payload is invalid"@,
    }
}

impl CryptoError {
    /// The human-readable message of this error.
    pub fn message(&self) -> (r: String)
        ensures
            r@ == crypto_fault_text(self@),
    {
        match self {
            CryptoError::UnsupportedPlatform => owned(
                "durable secret storage is only available through Windows DPAPI",
            ),
            CryptoError::Dpapi(d) => concat2("DPAPI operation failed: ", d.as_str()),
            CryptoError::InvalidPayload => owned("encrypted payload is invalid"),
        }
    }
}

/// Encrypts the complete persisted state, including all EasyTier secrets.
/// The service host supplies the platform's protector.
pub trait StateProtector {
    fn algorithm(&self) -> &'static str;

    fn protect(&self, plaintext: &[u8]) -> Result<Vec<u8>, CryptoError>;

    fn unprotect(&self, ciphertext: &[u8]) -> Result<Vec<u8>, CryptoError>;
}

} // verus!
