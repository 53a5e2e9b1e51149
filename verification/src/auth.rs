//! The SNMPv3 user-based security protocols.

use vstd::prelude::*;

verus! {

/// Privacy (encryption) protocols.
#[derive(Clone, Copy, Debug, PartialEq, Eq, Structural)]
pub enum EncryptionProtocol {
    AES256,
    AES192,
    /// AES-128
    AES,
    DES,
}

/// Authentication protocols.
#[derive(Clone, Copy, Debug, PartialEq, Eq, Structural)]
pub enum AuthProtocol {
    SHA512,
    SHA384,
    SHA256,
    SHA224,
    /// SHA-1
    SHA,
    MD5,
}

} // verus!
