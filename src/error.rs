use vstd::prelude::*;

verus! {

/// The kinds of failure that the custody service reports to its callers.
#[derive(Debug, Clone, Copy, PartialEq, Eq, Structural)]
pub enum KeystoreError {
    /// The transport to the service is unreachable or timed out.
    ConnectionError,
    /// A request or a response could not be decoded.
    ProtocolError,
    /// The passphrase does not open the sealed store.
    WrongPassphraseError,
    /// A private-key operation was attempted while the session is locked.
    LockedError,
    /// A seed with the requested tag already exists.
    DuplicateTagError,
    /// No seed matches the requested public key.
    UnknownKeyError,
    /// A signature or a public key has the wrong length.
    MalformedSignatureError,
    /// The sealed store failed its integrity check.
    CorruptStoreError,
    /// A cryptographic primitive reported a failure.
    InternalError,
}

/// The message that goes with each error kind; none holds secret material.
pub open spec fn error_message(e: KeystoreError) -> Seq<char> {
    match e {
        KeystoreError::ConnectionError => "the keystore could not be reached"@,
        KeystoreError::ProtocolError => "the request could not be decoded"@,
        KeystoreError::WrongPassphraseError => "the passphrase does not open the store"@,
        KeystoreError::LockedError => "the session is locked"@,
        KeystoreError::DuplicateTagError => "a seed with this tag exists"@,
        KeystoreError::UnknownKeyError => "no seed has this public key"@,
        KeystoreError::MalformedSignatureError => "the key or signature has the wrong length"@,
        KeystoreError::CorruptStoreError => "the sealed store failed its integrity check"@,
        KeystoreError::InternalError => "a cryptographic primitive failed"@,
    }
}

impl KeystoreError {
    /// The message that goes with this error kind.
    pub fn message(&self) -> (r: String)
        ensures
            r@ == error_message(*self),
    {
        broadcast use vstd::string::group_string_axioms;

        match self {
            KeystoreError::ConnectionError => "the keystore could not be reached".to_string(),
            KeystoreError::ProtocolError => "the request could not be decoded".to_string(),
            KeystoreError::WrongPassphraseError => "the passphrase does not open the store".to_string(),
            KeystoreError::LockedError => "the session is locked".to_string(),
            KeystoreError::DuplicateTagError => "a seed with this tag exists".to_string(),
            KeystoreError::UnknownKeyError => "no seed has this public key".to_string(),
            KeystoreError::MalformedSignatureError => "the key or signature has the wrong length".to_string(),
            KeystoreError::CorruptStoreError => "the sealed store failed its integrity check".to_string(),
            KeystoreError::InternalError => "a cryptographic primitive failed".to_string(),
        }
    }
}

} // verus!
