//! A local custody service for Ed25519 keys: seeds derived from one sealed
//! master seed, signing behind a passphrase-gated session, and verification.
//!
//! - `crypto`: the libsodium primitives, as trusted wrappers.
//! - `derive`: seed material along a derivation path.
//! - `sealed`: the master seed sealed under a passphrase.
//! - `session`: the lock state and its idle timeout.
//! - `keystore`: the seed table, `new_seed`, `sign_by_pub_key`, `verify_detached`.
//! - `table`: the byte encoding of the seed table sealed beside the master seed.
//! - `server`: one client request dispatched to the store.
//! - `wire`: requests and responses as bytes, and handling one request.
pub mod bytes;
pub mod crypto;
pub mod derive;
pub mod error;
pub mod keystore;
pub mod sealed;
pub mod server;
pub mod session;
pub mod table;
pub mod wire;
