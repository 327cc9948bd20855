//! Sealed storage of the master seed under a passphrase.
//!
//! A sealed blob is laid out as
//! `version (1) | salt (16) | nonce (24) | check (32) | box | digest (32)`:
//! the key is the Argon2id hash of the passphrase under the salt, `check` is the
//! BLAKE2b digest of that key, `box` is the secretbox of the master seed, and
//! `digest` is the BLAKE2b digest of everything before it.
use crate::bytes::{append_bytes, bytes_equal, slice_bytes};
use crate::crypto::{
    argon2id, argon2id_hash, blake2b, blake2b_digest, random_bytes, secretbox_cipher, secretbox_open,
    secretbox_plain, secretbox_seal, KEY_BYTES, MAC_BYTES, MAX_PASSPHRASE_BYTES, NONCE_BYTES,
    SALT_BYTES,
};
use crate::error::KeystoreError;
use vstd::prelude::*;

verus! {

/// The layout version that this library writes and reads.
pub const STORE_VERSION: u8 = 1;

/// Argon2id operations limit (libsodium's "interactive" setting).
pub const OPS_LIMIT: u32 = 2;

/// Argon2id memory limit in bytes (libsodium's "interactive" setting).
pub const MEM_LIMIT: u32 = 67108864;

/// Offset of the salt in a blob.
pub const SALT_AT: usize = 1;

/// Offset of the nonce in a blob.
pub const NONCE_AT: usize = 17;

/// Offset of the passphrase check in a blob.
pub const CHECK_AT: usize = 41;

/// Offset of the secretbox in a blob.
pub const BOX_AT: usize = 73;

/// Length of the trailing digest.
pub const DIGEST_BYTES: usize = 32;

/// The shortest blob that can hold a box: header, tag and digest.
pub const MIN_BLOB_BYTES: usize = 121;

/// The key that a passphrase stretches to under a salt.
pub open spec fn passphrase_key(passphrase: Seq<u8>, salt: Seq<u8>) -> Seq<u8> {
    argon2id_hash(passphrase, salt, OPS_LIMIT, MEM_LIMIT)
}

/// The blob's bytes before the digest.
pub open spec fn blob_body(blob: Seq<u8>) -> Seq<u8> {
    blob.subrange(0, blob.len() - DIGEST_BYTES)
}

pub open spec fn blob_salt(blob: Seq<u8>) -> Seq<u8> {
    blob.subrange(SALT_AT as int, NONCE_AT as int)
}

pub open spec fn blob_nonce(blob: Seq<u8>) -> Seq<u8> {
    blob.subrange(NONCE_AT as int, CHECK_AT as int)
}

pub open spec fn blob_check(blob: Seq<u8>) -> Seq<u8> {
    blob.subrange(CHECK_AT as int, BOX_AT as int)
}

pub open spec fn blob_box(blob: Seq<u8>) -> Seq<u8> {
    blob.subrange(BOX_AT as int, blob.len() - DIGEST_BYTES)
}

pub open spec fn blob_digest(blob: Seq<u8>) -> Seq<u8> {
    blob.subrange(blob.len() - DIGEST_BYTES, blob.len() as int)
}

/// Long enough for every field, and of the version this library reads.
pub open spec fn well_shaped(blob: Seq<u8>) -> bool {
    blob.len() >= MIN_BLOB_BYTES && blob[0] == STORE_VERSION
}

/// The trailing digest matches the rest of the blob.
pub open spec fn intact(blob: Seq<u8>) -> bool {
    well_shaped(blob) && blake2b_digest(blob_body(blob)) == blob_digest(blob)
}

/// The passphrase stretches to the key whose digest the blob records.
pub open spec fn passphrase_matches(blob: Seq<u8>, passphrase: Seq<u8>) -> bool {
    blake2b_digest(passphrase_key(passphrase, blob_salt(blob))) == blob_check(blob)
}

/// What opening a blob with a passphrase gives when every primitive succeeds.
pub open spec fn unseal_outcome(blob: Seq<u8>, passphrase: Seq<u8>) -> Result<Seq<u8>, KeystoreError> {
    if !intact(blob) {
        Err(KeystoreError::CorruptStoreError)
    } else if !passphrase_matches(blob, passphrase) {
        Err(KeystoreError::WrongPassphraseError)
    } else if passphrase.len() > MAX_PASSPHRASE_BYTES {
        Err(KeystoreError::WrongPassphraseError)
    } else {
        Ok(secretbox_plain(passphrase_key(passphrase, blob_salt(blob)), blob_nonce(blob), blob_box(blob)))
    }
}

/// The blob's box is a secretbox made under the passphrase's key and the blob's nonce.
pub open spec fn box_is_genuine(blob: Seq<u8>, passphrase: Seq<u8>) -> bool {
    exists|m: Seq<u8>|
        blob_box(blob) == secretbox_cipher(passphrase_key(passphrase, blob_salt(blob)), blob_nonce(blob), m)
}

/// The bytes before the digest of the blob that seals `seed`.
pub open spec fn sealed_body(seed: Seq<u8>, passphrase: Seq<u8>, salt: Seq<u8>, nonce: Seq<u8>) -> Seq<u8> {
    let key = passphrase_key(passphrase, salt);
    seq![STORE_VERSION] + salt + nonce + blake2b_digest(key) + secretbox_cipher(key, nonce, seed)
}

/// The blob that seals `seed` under a passphrase, a salt and a nonce.
pub open spec fn sealed_blob(seed: Seq<u8>, passphrase: Seq<u8>, salt: Seq<u8>, nonce: Seq<u8>) -> Seq<u8> {
    let body = sealed_body(seed, passphrase, salt, nonce);
    body + blake2b_digest(body)
}

/// `blob` is what sealing `seed` under these inputs produced: the bytes, the
/// lengths of the computed parts, and that the box opens to the seed again.
pub open spec fn sealing_of(
    blob: Seq<u8>,
    seed: Seq<u8>,
    passphrase: Seq<u8>,
    salt: Seq<u8>,
    nonce: Seq<u8>,
) -> bool {
    let key = passphrase_key(passphrase, salt);
    let body = sealed_body(seed, passphrase, salt, nonce);
    &&& blob == sealed_blob(seed, passphrase, salt, nonce)
    &&& salt.len() == SALT_BYTES
    &&& nonce.len() == NONCE_BYTES
    &&& passphrase.len() <= MAX_PASSPHRASE_BYTES
    &&& blake2b_digest(key).len() == KEY_BYTES
    &&& secretbox_cipher(key, nonce, seed).len() == seed.len() + MAC_BYTES
    &&& blake2b_digest(body).len() == DIGEST_BYTES
    &&& secretbox_plain(key, nonce, secretbox_cipher(key, nonce, seed)) == seed
}

/// Seals `seed` under `passphrase` with the given salt and nonce.
pub fn seal_with(seed: &Vec<u8>, passphrase: &Vec<u8>, salt: &Vec<u8>, nonce: &Vec<u8>) -> (r: Result<Vec<u8>, KeystoreError>)
    requires
        salt@.len() == SALT_BYTES,
        nonce@.len() == NONCE_BYTES,
        seed@.len() <= usize::MAX - MIN_BLOB_BYTES,
        passphrase@.len() <= MAX_PASSPHRASE_BYTES,
    ensures
        r is Ok,
        r matches Ok(blob) ==> sealing_of(blob@, seed@, passphrase@, salt@, nonce@),
{
    let key = match argon2id(passphrase, salt, OPS_LIMIT, MEM_LIMIT) {
        Ok(k) => k,
        Err(_) => {
            return Err(KeystoreError::InternalError);
        },
    };
    let check = match blake2b(&key) {
        Ok(c) => c,
        Err(_) => {
            return Err(KeystoreError::InternalError);
        },
    };
    let sealed_box = match secretbox_seal(&key, nonce, seed) {
        Ok(c) => c,
        Err(_) => {
            return Err(KeystoreError::InternalError);
        },
    };
    let mut body: Vec<u8> = Vec::new();
    body.push(STORE_VERSION);
    append_bytes(&mut body, salt);
    append_bytes(&mut body, nonce);
    append_bytes(&mut body, &check);
    append_bytes(&mut body, &sealed_box);
    assert(body@ == sealed_body(seed@, passphrase@, salt@, nonce@));
    let digest = match blake2b(&body) {
        Ok(d) => d,
        Err(_) => {
            return Err(KeystoreError::InternalError);
        },
    };
    let mut blob = body;
    append_bytes(&mut blob, &digest);
    Ok(blob)
}

/// Seals `seed` under `passphrase` with a fresh random salt and nonce.
pub fn seal(seed: &Vec<u8>, passphrase: &Vec<u8>) -> (r: Result<Vec<u8>, KeystoreError>)
    requires
        seed@.len() <= usize::MAX - MIN_BLOB_BYTES,
        passphrase@.len() <= MAX_PASSPHRASE_BYTES,
    ensures
        r is Ok,
        r matches Ok(blob) ==> exists|salt: Seq<u8>, nonce: Seq<u8>|
            sealing_of(blob@, seed@, passphrase@, salt, nonce),
{
    let salt = match random_bytes(SALT_BYTES) {
        Ok(s) => s,
        Err(_) => {
            return Err(KeystoreError::InternalError);
        },
    };
    let nonce = match random_bytes(NONCE_BYTES) {
        Ok(n) => n,
        Err(_) => {
            return Err(KeystoreError::InternalError);
        },
    };
    seal_with(seed, passphrase, &salt, &nonce)
}

/// Opens a sealed blob with a passphrase. A blob that is too short, of another
/// version, or whose digest does not match fails with `CorruptStoreError`; a
/// passphrase whose key does not match the recorded check fails with
/// `WrongPassphraseError`; a box that does not authenticate fails with
/// `CorruptStoreError`; a failing primitive gives `InternalError`.
pub fn unseal(blob: &Vec<u8>, passphrase: &Vec<u8>) -> (r: Result<Vec<u8>, KeystoreError>)
    ensures
        !intact(blob@) ==> r == Err::<Vec<u8>, KeystoreError>(KeystoreError::CorruptStoreError),
        unseal_outcome(blob@, passphrase@) matches Err(e) ==> r == Err::<Vec<u8>, KeystoreError>(e),
        unseal_outcome(blob@, passphrase@) is Ok ==> r is Ok || r == Err::<Vec<u8>, KeystoreError>(
            KeystoreError::CorruptStoreError,
        ),
        unseal_outcome(blob@, passphrase@) is Ok && box_is_genuine(blob@, passphrase@) ==> r is Ok,
        r matches Ok(seed) ==> unseal_outcome(blob@, passphrase@) == Ok::<Seq<u8>, KeystoreError>(seed@),
{
    let n = blob.len();
    if n < MIN_BLOB_BYTES || blob[0] != STORE_VERSION {
        return Err(KeystoreError::CorruptStoreError);
    }
    let body = slice_bytes(blob, 0, n - DIGEST_BYTES);
    let stored_digest = slice_bytes(blob, n - DIGEST_BYTES, n);
    let digest = match blake2b(&body) {
        Ok(d) => d,
        Err(_) => {
            return Err(KeystoreError::InternalError);
        },
    };
    if !bytes_equal(&digest, &stored_digest) {
        return Err(KeystoreError::CorruptStoreError);
    }
    if passphrase.len() > MAX_PASSPHRASE_BYTES {
        return Err(KeystoreError::WrongPassphraseError);
    }
    let salt = slice_bytes(blob, SALT_AT, NONCE_AT);
    let nonce = slice_bytes(blob, NONCE_AT, CHECK_AT);
    let check = slice_bytes(blob, CHECK_AT, BOX_AT);
    let sealed_box = slice_bytes(blob, BOX_AT, n - DIGEST_BYTES);
    let key = match argon2id(passphrase, &salt, OPS_LIMIT, MEM_LIMIT) {
        Ok(k) => k,
        Err(_) => {
            return Err(KeystoreError::InternalError);
        },
    };
    let key_check = match blake2b(&key) {
        Ok(c) => c,
        Err(_) => {
            return Err(KeystoreError::InternalError);
        },
    };
    if !bytes_equal(&key_check, &check) {
        return Err(KeystoreError::WrongPassphraseError);
    }
    match secretbox_open(&key, &nonce, &sealed_box) {
        Ok(seed) => Ok(seed),
        Err(_) => Err(KeystoreError::CorruptStoreError),
    }
}

/// Sealing and then opening with the same passphrase gives the sealed seed back.
pub proof fn lemma_seal_unseal_round_trip(
    blob: Seq<u8>,
    seed: Seq<u8>,
    passphrase: Seq<u8>,
    salt: Seq<u8>,
    nonce: Seq<u8>,
)
    requires
        sealing_of(blob, seed, passphrase, salt, nonce),
    ensures
        unseal_outcome(blob, passphrase) == Ok::<Seq<u8>, KeystoreError>(seed),
        box_is_genuine(blob, passphrase),
{
    let key = passphrase_key(passphrase, salt);
    let body = sealed_body(seed, passphrase, salt, nonce);
    let cipher = secretbox_cipher(key, nonce, seed);
    assert(body.len() == BOX_AT + cipher.len());
    assert(blob_body(blob) =~= body);
    assert(blob_digest(blob) =~= blake2b_digest(body));
    assert(blob_salt(blob) =~= salt);
    assert(blob_nonce(blob) =~= nonce);
    assert(blob_check(blob) =~= blake2b_digest(key));
    assert(blob_box(blob) =~= cipher);
}

} // verus!
