//! One request of a client, dispatched to the store, and its response.
use crate::crypto::{ed25519_public_key, MAX_PASSPHRASE_BYTES};
use crate::derive::derived_seed;
use crate::error::KeystoreError;
use crate::keystore::{
    has_match, has_tag, payload, table_restorable, vec_opt_view, verify_detached, verify_outcome,
    KeyStore, SeedEntry, SeedEntryView,
};
use crate::sealed::{box_is_genuine, unseal_outcome};
use crate::session::SessionState;
use vstd::prelude::*;

verus! {

/// A request that a client sends over its connection.
pub enum Request {
    Unlock { passphrase: Vec<u8> },
    NewSeed { tag: String, derivation_path: Option<Vec<u64>>, exportable: bool },
    SignByPubKey { public_key: Vec<u8>, derivation_hint: Option<Vec<u64>>, message: Vec<u8> },
    VerifyDetached { public_key: Vec<u8>, signature: Vec<u8>, message: Vec<u8> },
    ListSeeds,
    Lock,
}

/// The response to one request: a success payload or an error kind.
pub enum Response {
    Unlocked,
    SeedCreated(SeedEntry),
    Signature(Vec<u8>),
    Verified(bool),
    Seeds(Vec<SeedEntry>),
    Locked,
    Error(KeystoreError),
}

/// Whether the response is the error `e`.
pub open spec fn is_error(r: Response, e: KeystoreError) -> bool {
    r == Response::Error(e)
}

/// Runs one request against the store at time `now` and builds its response.
pub fn dispatch(store: &mut KeyStore, request: Request, now: u64) -> (r: Response)
    requires
        old(store).wf(),
    ensures
        final(store).wf(),
        !is_error(r, KeystoreError::ProtocolError),
        match request {
            Request::Unlock { passphrase } => {
                &&& (r is Unlocked ==> final(store).session_view().active_at(now))
                &&& (r is Error ==> final(store).session_view().state == SessionState::Locked)
                &&& (old(store).sealed_view().len() > 0 ==> final(store).sealed_view()
                    == old(store).sealed_view())
                &&& (old(store).sealed_view().len() > 0 && is_error(r, KeystoreError::WrongPassphraseError) ==> old(store).session_view().attempts_exhausted() || unseal_outcome(
                    old(store).sealed_view(),
                    passphrase@,
                ) == Err::<Seq<u8>, KeystoreError>(KeystoreError::WrongPassphraseError))
                &&& (r is Unlocked || r is Error)
                &&& (old(store).sealed_view().len() == 0 && passphrase@.len() <= MAX_PASSPHRASE_BYTES
                    ==> r is Unlocked)
                &&& (old(store).sealed_view().len() > 0
                    && !old(store).session_view().attempts_exhausted() ==> (unseal_outcome(
                    old(store).sealed_view(),
                    passphrase@,
                ) matches Err(e) ==> r == Response::Error(e)))
                &&& (forall|m: Seq<u8>, n: u64, es: Seq<SeedEntryView>|
                    #[trigger] table_restorable(m, n, es) && old(store).sealed_view().len() > 0
                        && !old(store).session_view().attempts_exhausted() && unseal_outcome(
                        old(store).sealed_view(),
                        passphrase@,
                    ) == Ok::<Seq<u8>, KeystoreError>(payload(m, n, es)) && box_is_genuine(
                        old(store).sealed_view(),
                        passphrase@,
                    ) ==> r is Unlocked && final(store).entries_view() == es)
            },
            Request::NewSeed { tag, derivation_path, exportable } => {
                &&& (!old(store).session_view().active_at(now) ==> is_error(r, KeystoreError::LockedError))
                &&& (old(store).session_view().active_at(now) && has_tag(
                    old(store).entries_view(),
                    tag@,
                ) ==> is_error(r, KeystoreError::DuplicateTagError))
                &&& (r matches Response::SeedCreated(e) ==> final(store).entries_view()
                    == old(store).entries_view().push(e@) && e@.tag == tag@ && e@.derivation_path
                    == old(store).chosen_path(vec_opt_view(&derivation_path)) && e@.created_at
                    == now && e@.exportable == exportable && e@.public_key == ed25519_public_key(
                    derived_seed(old(store).master_view(), e@.derivation_path),
                ))
                &&& (r is Error ==> final(store).entries_view() == old(store).entries_view())
                &&& (r is SeedCreated || r is Error)
                &&& (old(store).session_view().active_at(now) && !has_tag(
                    old(store).entries_view(),
                    tag@,
                ) && (derivation_path is Some || old(store).next_index_view() < u64::MAX) && old(
                    store,
                ).seed_fits(tag@, old(store).chosen_path(vec_opt_view(&derivation_path)))
                    ==> r is SeedCreated)
            },
            Request::SignByPubKey { public_key, derivation_hint, message } => {
                &&& (!old(store).session_view().active_at(now) ==> is_error(r, KeystoreError::LockedError))
                &&& (old(store).session_view().active_at(now) && !has_match(
                    old(store).entries_view(),
                    public_key@,
                    vec_opt_view(&derivation_hint),
                ) ==> is_error(r, KeystoreError::UnknownKeyError))
                &&& (r matches Response::Signature(sig) ==> verify_outcome(
                    public_key@,
                    sig@,
                    message@,
                ) == Ok::<bool, KeystoreError>(true))
                &&& final(store).entries_view() == old(store).entries_view()
                &&& (r is Signature || r is Error)
                &&& (old(store).session_view().active_at(now) && has_match(
                    old(store).entries_view(),
                    public_key@,
                    vec_opt_view(&derivation_hint),
                ) ==> r is Signature)
            },
            Request::VerifyDetached { public_key, signature, message } => {
                &&& (match verify_outcome(public_key@, signature@, message@) {
                    Ok(b) => r == Response::Verified(b),
                    Err(e) => r == Response::Error(e),
                })
                &&& final(store).entries_view() == old(store).entries_view()
                &&& final(store).session_view() == old(store).session_view()
            },
            Request::ListSeeds => {
                &&& (r matches Response::Seeds(v) && v@.map_values(|e: SeedEntry| e@)
                    == old(store).entries_view())
                &&& final(store).entries_view() == old(store).entries_view()
                &&& final(store).session_view() == old(store).session_view()
            },
            Request::Lock => {
                &&& r is Locked
                &&& final(store).session_view().state == SessionState::Locked
                &&& final(store).entries_view() == old(store).entries_view()
            },
        },
{
    match request {
        Request::Unlock { passphrase } => match store.unlock(&passphrase, now) {
            Ok(()) => Response::Unlocked,
            Err(e) => Response::Error(e),
        },
        Request::NewSeed { tag, derivation_path, exportable } => match store.new_seed(
            tag,
            derivation_path,
            exportable,
            now,
        ) {
            Ok(e) => Response::SeedCreated(e),
            Err(e) => Response::Error(e),
        },
        Request::SignByPubKey { public_key, derivation_hint, message } => match store.sign_by_pub_key(
            &public_key,
            derivation_hint,
            &message,
            now,
        ) {
            Ok(sig) => Response::Signature(sig),
            Err(e) => Response::Error(e),
        },
        Request::VerifyDetached { public_key, signature, message } => match verify_detached(
            &public_key,
            &signature,
            &message,
        ) {
            Ok(b) => Response::Verified(b),
            Err(e) => Response::Error(e),
        },
        Request::ListSeeds => Response::Seeds(store.list_seeds()),
        Request::Lock => {
            store.lock();
            Response::Locked
        },
    }
}

} // verus!
