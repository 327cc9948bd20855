//! The cryptographic primitives of libsodium, reached through the `sodoken`
//! bindings that `lair_keystore_api` is built on. Each one is a trusted item:
//! its contract states what libsodium documents of the call, over names for
//! results that take pages to define (a hash, a signature, a ciphertext).

use vstd::prelude::*;

verus! {

/// Length of an Ed25519 private seed, a public key, a KDF key and a secretbox key.
pub const KEY_BYTES: usize = 32;

/// Length of an Ed25519 detached signature.
pub const SIGNATURE_BYTES: usize = 64;

/// Length of an Ed25519 secret key in libsodium's layout.
pub const SECRET_KEY_BYTES: usize = 64;

/// Length of the context string of the key-derivation function.
pub const KDF_CONTEXT_BYTES: usize = 8;

/// The longest passphrase that Argon2id takes (libsodium's `PASSWD_MAX`).
pub const MAX_PASSPHRASE_BYTES: usize = 4294967295;

/// Length of an Argon2id salt.
pub const SALT_BYTES: usize = 16;

/// Length of a secretbox nonce.
pub const NONCE_BYTES: usize = 24;

/// Length of the authentication tag that a secretbox adds.
pub const MAC_BYTES: usize = 16;

/// The error type of the `sodoken` bindings.
#[verifier::external_type_specification]
#[verifier::external_body]
pub struct ExIoError(std::io::Error);

/// The Ed25519 public key that libsodium derives from a 32-byte seed.
pub uninterp spec fn ed25519_public_key(seed: Seq<u8>) -> Seq<u8>;

/// The Ed25519 secret key that libsodium derives from a 32-byte seed.
pub uninterp spec fn ed25519_secret_key(seed: Seq<u8>) -> Seq<u8>;

/// The (deterministic) Ed25519 signature of a message under a secret key.
pub uninterp spec fn ed25519_signature(secret: Seq<u8>, message: Seq<u8>) -> Seq<u8>;

/// Whether a detached signature verifies for a message under a public key.
pub uninterp spec fn ed25519_accepts(public: Seq<u8>, signature: Seq<u8>, message: Seq<u8>) -> bool;

/// The 32-byte subkey that `crypto_kdf_derive_from_key` gives for an index and context.
pub uninterp spec fn kdf_subkey(parent: Seq<u8>, index: u64, context: Seq<u8>) -> Seq<u8>;

/// The Argon2id hash of a passphrase, with a salt and cost limits.
pub uninterp spec fn argon2id_hash(
    passphrase: Seq<u8>,
    salt: Seq<u8>,
    ops_limit: u32,
    mem_limit: u32,
) -> Seq<u8>;

/// The unkeyed 32-byte BLAKE2b digest of a message.
pub uninterp spec fn blake2b_digest(message: Seq<u8>) -> Seq<u8>;

/// The XSalsa20-Poly1305 secretbox of a message under a nonce and a key.
pub uninterp spec fn secretbox_cipher(key: Seq<u8>, nonce: Seq<u8>, message: Seq<u8>) -> Seq<u8>;

/// The plaintext that opening a secretbox under a nonce and a key gives back.
pub uninterp spec fn secretbox_plain(key: Seq<u8>, nonce: Seq<u8>, cipher: Seq<u8>) -> Seq<u8>;

/// Relies on `sodoken::sign::seed_keypair` (libsodium `crypto_sign_seed_keypair`):
/// the key pair is a function of the seed alone.
#[verifier::external_body]
pub(crate) fn seed_keypair(seed: &Vec<u8>) -> (r: Result<(Vec<u8>, Vec<u8>), std::io::Error>)
    requires
        seed@.len() == KEY_BYTES,
    ensures
        r is Ok,
        r matches Ok((pk, sk)) ==> pk@ == ed25519_public_key(seed@) && sk@ == ed25519_secret_key(
            seed@,
        ) && pk@.len() == KEY_BYTES && sk@.len() == SECRET_KEY_BYTES,
{
    let seed: [u8; 32] = seed.as_slice().try_into().unwrap();
    let mut pk = [0u8; 32];
    let mut sk = [0u8; 64];
    sodoken::sign::seed_keypair(&mut pk, &mut sk, &seed)?;
    Ok((pk.to_vec(), sk.to_vec()))
}

/// Relies on `sodoken::sign::sign_detached` (libsodium `crypto_sign_detached`):
/// Ed25519 signing is deterministic, and a signature made with the secret key of
/// a seed verifies under the public key of that seed.
#[verifier::external_body]
pub(crate) fn sign_detached(secret: &Vec<u8>, message: &Vec<u8>) -> (r: Result<Vec<u8>, std::io::Error>)
    requires
        secret@.len() == SECRET_KEY_BYTES,
    ensures
        r is Ok,
        r matches Ok(sig) ==> sig@ == ed25519_signature(secret@, message@) && sig@.len()
            == SIGNATURE_BYTES && forall|seed: Seq<u8>|
            #![trigger ed25519_secret_key(seed)]
            secret@ == ed25519_secret_key(seed) ==> ed25519_accepts(
                ed25519_public_key(seed),
                sig@,
                message@,
            ),
{
    let secret: [u8; 64] = secret.as_slice().try_into().unwrap();
    let mut sig = [0u8; 64];
    sodoken::sign::sign_detached(&mut sig, message.as_slice(), &secret)?;
    Ok(sig.to_vec())
}

/// Relies on `sodoken::sign::verify_detached` (libsodium
/// `crypto_sign_verify_detached`): a pure check of a signature.
#[verifier::external_body]
pub(crate) fn ed25519_verify(public: &Vec<u8>, signature: &Vec<u8>, message: &Vec<u8>) -> (r: bool)
    requires
        public@.len() == KEY_BYTES,
        signature@.len() == SIGNATURE_BYTES,
    ensures
        r == ed25519_accepts(public@, signature@, message@),
{
    let public: [u8; 32] = public.as_slice().try_into().unwrap();
    let signature: [u8; 64] = signature.as_slice().try_into().unwrap();
    sodoken::sign::verify_detached(&signature, message.as_slice(), &public)
}

/// Relies on `sodoken::kdf::derive_from_key` (libsodium `crypto_kdf_derive_from_key`):
/// a 32-byte subkey that depends on the parent key, the index and the context alone.
#[verifier::external_body]
pub(crate) fn derive_from_key(parent: &Vec<u8>, index: u64, context: &Vec<u8>) -> (r: Result<Vec<u8>, std::io::Error>)
    requires
        parent@.len() == KEY_BYTES,
        context@.len() == KDF_CONTEXT_BYTES,
    ensures
        r is Ok,
        r matches Ok(sub) ==> sub@ == kdf_subkey(parent@, index, context@) && sub@.len() == KEY_BYTES,
{
    let parent: [u8; 32] = parent.as_slice().try_into().unwrap();
    let context: [u8; 8] = context.as_slice().try_into().unwrap();
    let mut sub = vec![0u8; 32];
    sodoken::kdf::derive_from_key(&mut sub, index, &context, &parent)?;
    Ok(sub)
}

/// Relies on `sodoken::argon2::blocking_argon2id` (libsodium `crypto_pwhash`):
/// a 32-byte hash that depends on the passphrase, the salt and the limits alone.
/// Within libsodium's bounds on the passphrase, the salt and the limits, it
/// fails only as libsodium's own checks do, which these bounds rule out.
#[verifier::external_body]
pub(crate) fn argon2id(passphrase: &Vec<u8>, salt: &Vec<u8>, ops_limit: u32, mem_limit: u32) -> (r: Result<Vec<u8>, std::io::Error>)
    requires
        salt@.len() == SALT_BYTES,
        passphrase@.len() <= MAX_PASSPHRASE_BYTES,
        ops_limit >= 1,
        mem_limit >= 8192,
    ensures
        r is Ok,
        r matches Ok(h) ==> h@ == argon2id_hash(passphrase@, salt@, ops_limit, mem_limit) && h@.len()
            == KEY_BYTES,
{
    let salt: [u8; 16] = salt.as_slice().try_into().unwrap();
    let mut hash = vec![0u8; 32];
    sodoken::argon2::blocking_argon2id(&mut hash, passphrase.as_slice(), &salt, ops_limit, mem_limit)?;
    Ok(hash)
}

/// Relies on `sodoken::blake2b::blake2b_hash` (libsodium `crypto_generichash`), unkeyed:
/// a 32-byte digest of the message alone.
#[verifier::external_body]
pub(crate) fn blake2b(message: &Vec<u8>) -> (r: Result<Vec<u8>, std::io::Error>)
    ensures
        r is Ok,
        r matches Ok(h) ==> h@ == blake2b_digest(message@) && h@.len() == KEY_BYTES,
{
    let mut hash = vec![0u8; 32];
    sodoken::blake2b::blake2b_hash(&mut hash, message.as_slice(), None)?;
    Ok(hash)
}

/// Relies on `sodoken::secretbox::xsalsa_easy` (libsodium `crypto_secretbox_easy`):
/// the box is the message's length plus the tag, and opening it under the same
/// key and nonce gives the message back.
#[verifier::external_body]
pub(crate) fn secretbox_seal(key: &Vec<u8>, nonce: &Vec<u8>, message: &Vec<u8>) -> (r: Result<Vec<u8>, std::io::Error>)
    requires
        key@.len() == KEY_BYTES,
        nonce@.len() == NONCE_BYTES,
    ensures
        r is Ok,
        r matches Ok(c) ==> c@ == secretbox_cipher(key@, nonce@, message@) && c@.len()
            == message@.len() + MAC_BYTES && secretbox_plain(key@, nonce@, c@) == message@,
{
    let key: [u8; 32] = key.as_slice().try_into().unwrap();
    let nonce: [u8; 24] = nonce.as_slice().try_into().unwrap();
    let mut cipher = vec![0u8; message.len() + 16];
    sodoken::secretbox::xsalsa_easy(&mut cipher, &nonce, message.as_slice(), &key)?;
    Ok(cipher)
}

/// Relies on `sodoken::secretbox::xsalsa_open_easy` (libsodium
/// `crypto_secretbox_open_easy`): it fails unless the tag authenticates the box,
/// a box that `crypto_secretbox_easy` made under the same key and nonce opens,
/// and what it returns depends on the key, the nonce and the box alone.
#[verifier::external_body]
pub(crate) fn secretbox_open(key: &Vec<u8>, nonce: &Vec<u8>, cipher: &Vec<u8>) -> (r: Result<Vec<u8>, std::io::Error>)
    requires
        key@.len() == KEY_BYTES,
        nonce@.len() == NONCE_BYTES,
        cipher@.len() >= MAC_BYTES,
    ensures
        r matches Ok(m) ==> m@ == secretbox_plain(key@, nonce@, cipher@),
        (exists|m: Seq<u8>| cipher@ == secretbox_cipher(key@, nonce@, m)) ==> r is Ok,
{
    let key: [u8; 32] = key.as_slice().try_into().unwrap();
    let nonce: [u8; 24] = nonce.as_slice().try_into().unwrap();
    let mut message = vec![0u8; cipher.len() - 16];
    sodoken::secretbox::xsalsa_open_easy(&mut message, cipher.as_slice(), &nonce, &key)?;
    Ok(message)
}

/// Relies on `sodoken::random::randombytes_buf` (libsodium `randombytes_buf`):
/// it fills the buffer it is given; of the bytes nothing is known.
#[verifier::external_body]
pub(crate) fn random_bytes(len: usize) -> (r: Result<Vec<u8>, std::io::Error>)
    ensures
        r is Ok,
        r matches Ok(b) ==> b@.len() == len,
{
    let mut buf = vec![0u8; len];
    sodoken::random::randombytes_buf(&mut buf)?;
    Ok(buf)
}

} // verus!
