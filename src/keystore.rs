//! The key store: the master seed while unlocked, the table of seed entries,
//! derivation, signing and verification.
use crate::bytes::{append_bytes, bytes_equal, slice_bytes};
use crate::crypto::{
    ed25519_accepts, ed25519_public_key, ed25519_secret_key, ed25519_signature, ed25519_verify,
    random_bytes, seed_keypair, sign_detached, KEY_BYTES, MAX_PASSPHRASE_BYTES, SIGNATURE_BYTES,
};
use crate::derive::{derive_seed, derived_seed};
use crate::error::KeystoreError;
use crate::sealed::{
    box_is_genuine, lemma_seal_unseal_round_trip, seal, sealing_of, unseal, unseal_outcome,
    MIN_BLOB_BYTES,
};
use crate::table::{
    decode_table, encode_table, entry_views, lemma_table_push_len, table_bytes, table_ok,
};
use vstd::utf8::encode_utf8;
use crate::session::{SessionManager, SessionState};
use vstd::prelude::*;

verus! {

/// The public metadata of one seed.
pub struct SeedEntry {
    pub tag: String,
    pub derivation_path: Vec<u64>,
    pub public_key: Vec<u8>,
    pub created_at: u64,
    pub exportable: bool,
}

/// A seed entry as plain values.
pub struct SeedEntryView {
    pub tag: Seq<char>,
    pub derivation_path: Seq<u64>,
    pub public_key: Seq<u8>,
    pub created_at: u64,
    pub exportable: bool,
}

impl View for SeedEntry {
    type V = SeedEntryView;

    open spec fn view(&self) -> SeedEntryView {
        SeedEntryView {
            tag: self.tag@,
            derivation_path: self.derivation_path@,
            public_key: self.public_key@,
            created_at: self.created_at,
            exportable: self.exportable,
        }
    }
}

fn copy_path(p: &Vec<u64>) -> (r: Vec<u64>)
    ensures
        r@ == p@,
{
    let mut r: Vec<u64> = Vec::new();
    let mut i: usize = 0;
    while i < p.len()
        invariant
            0 <= i <= p@.len(),
            r@ == p@.take(i as int),
        decreases p@.len() - i,
    {
        r.push(p[i]);
        assert(r@ =~= p@.take(i as int + 1));
        i = i + 1;
    }
    assert(p@.take(i as int) =~= p@);
    r
}

fn copy_bytes(b: &Vec<u8>) -> (r: Vec<u8>)
    ensures
        r@ == b@,
{
    let r = b.clone();
    assert(r@ =~= b@);
    r
}

impl SeedEntry {
    /// A copy of the entry.
    pub fn copy(&self) -> (r: SeedEntry)
        ensures
            r@ == self@,
    {
        SeedEntry {
            tag: self.tag.clone(),
            derivation_path: copy_path(&self.derivation_path),
            public_key: copy_bytes(&self.public_key),
            created_at: self.created_at,
            exportable: self.exportable,
        }
    }
}

/// Whether an entry answers a request for `public_key`, narrowed to one
/// derivation path when a hint is given.
pub open spec fn entry_matches(e: SeedEntryView, public_key: Seq<u8>, hint: Option<Seq<u64>>) -> bool {
    e.public_key == public_key && match hint {
        None => true,
        Some(p) => e.derivation_path == p,
    }
}

/// Whether some entry answers the request.
pub open spec fn has_match(entries: Seq<SeedEntryView>, public_key: Seq<u8>, hint: Option<Seq<u64>>) -> bool {
    exists|i: int| 0 <= i < entries.len() && entry_matches(entries[i], public_key, hint)
}

/// Whether some entry has the tag.
pub open spec fn has_tag(entries: Seq<SeedEntryView>, tag: Seq<char>) -> bool {
    exists|i: int| 0 <= i < entries.len() && entries[i].tag == tag
}

/// What `verify_detached` returns: an error for a key or a signature of the
/// wrong length, else whether the signature verifies.
pub open spec fn verify_outcome(public_key: Seq<u8>, signature: Seq<u8>, message: Seq<u8>) -> Result<bool, KeystoreError> {
    if public_key.len() != KEY_BYTES || signature.len() != SIGNATURE_BYTES {
        Err(KeystoreError::MalformedSignatureError)
    } else {
        Ok(ed25519_accepts(public_key, signature, message))
    }
}

/// Checks a detached signature against a public key. Needs no session.
pub fn verify_detached(public_key: &Vec<u8>, signature: &Vec<u8>, message: &Vec<u8>) -> (r: Result<bool, KeystoreError>)
    ensures
        r == verify_outcome(public_key@, signature@, message@),
{
    if public_key.len() != KEY_BYTES || signature.len() != SIGNATURE_BYTES {
        return Err(KeystoreError::MalformedSignatureError);
    }
    Ok(ed25519_verify(public_key, signature, message))
}

/// A signature of well-formed length is never an error: checking it returns
/// whether Ed25519 accepts it, so a rejected (for instance a bit-flipped)
/// signature gives `Ok(false)`.
pub proof fn lemma_well_formed_signature_is_checked(public_key: Seq<u8>, signature: Seq<u8>, message: Seq<u8>)
    requires
        public_key.len() == KEY_BYTES,
        signature.len() == SIGNATURE_BYTES,
    ensures
        verify_outcome(public_key, signature, message) == Ok::<bool, KeystoreError>(
            ed25519_accepts(public_key, signature, message),
        ),
        !ed25519_accepts(public_key, signature, message) ==> verify_outcome(public_key, signature, message)
            == Ok::<bool, KeystoreError>(false),
{
}

/// The view of an optional path.
pub open spec fn vec_opt_view(p: &Option<Vec<u64>>) -> Option<Seq<u64>> {
    match p {
        Some(v) => Some(v@),
        None => None,
    }
}

/// Whether two paths are equal.
fn path_equal(a: &Vec<u64>, b: &Vec<u64>) -> (r: bool)
    ensures
        r == (a@ == b@),
{
    if a.len() != b.len() {
        return false;
    }
    let mut i: usize = 0;
    while i < a.len()
        invariant
            a@.len() == b@.len(),
            0 <= i <= a@.len(),
            forall|k: int| 0 <= k < i ==> a@[k] == b@[k],
        decreases a@.len() - i,
    {
        if a[i] != b[i] {
            return false;
        }
        i = i + 1;
    }
    assert(a@ =~= b@);
    true
}

/// Overwrites every byte with zero.
fn wipe_bytes(b: &mut Vec<u8>)
    ensures
        final(b)@.len() == old(b)@.len(),
        forall|k: int| 0 <= k < final(b)@.len() ==> final(b)@[k] == 0,
{
    let mut i: usize = 0;
    while i < b.len()
        invariant
            0 <= i <= b@.len(),
            b@.len() == old(b)@.len(),
            forall|k: int| 0 <= k < i ==> b@[k] == 0,
        decreases b@.len() - i,
    {
        b.set(i, 0u8);
        i = i + 1;
    }
}

/// The entry's public key is the one derived from `master` along its path.
pub open spec fn key_derivable(master: Seq<u8>, e: SeedEntryView) -> bool {
    e.public_key == ed25519_public_key(derived_seed(master, e.derivation_path))
}

/// Whether every entry's public key is the one derived from `master` along
/// its path; `InternalError` when a primitive fails.
fn keys_derivable(master: &Vec<u8>, es: &Vec<SeedEntry>) -> (r: Result<bool, KeystoreError>)
    requires
        master@.len() == KEY_BYTES,
    ensures
        r == Ok::<bool, KeystoreError>(forall|i: int|
            0 <= i < es@.len() ==> key_derivable(master@, #[trigger] es@[i]@)),
{
    let mut i: usize = 0;
    while i < es.len()
        invariant
            0 <= i <= es@.len(),
            master@.len() == KEY_BYTES,
            forall|k: int| 0 <= k < i ==> key_derivable(master@, #[trigger] es@[k]@),
        decreases es@.len() - i,
    {
        let seed = match derive_seed(master, &es[i].derivation_path) {
            Ok(s) => s,
            Err(e) => {
                return Err(e);
            },
        };
        let public_key = match seed_keypair(&seed) {
            Ok((pk, _sk)) => pk,
            Err(_) => {
                return Err(KeystoreError::InternalError);
            },
        };
        if !bytes_equal(&public_key, &es[i].public_key) {
            assert(!key_derivable(master@, es@[i as int]@));
            return Ok(false);
        }
        i = i + 1;
    }
    Ok(true)
}

/// Whether content of this length can be sealed into a blob that fits in memory.
pub open spec fn fits_in_blob(content: Seq<u8>) -> bool {
    content.len() <= usize::MAX - MIN_BLOB_BYTES
}

/// What the sealed blob holds: the master seed, then the table.
pub open spec fn payload(master: Seq<u8>, next_index: u64, entries: Seq<SeedEntryView>) -> Seq<u8> {
    master + table_bytes(next_index, entries)
}

/// A master seed and a table that `unlock` restores: a 32-byte seed, a table
/// that fits its length fields, unique tags, and keys derived from the seed.
pub open spec fn table_restorable(master: Seq<u8>, next_index: u64, entries: Seq<SeedEntryView>) -> bool {
    &&& master.len() == KEY_BYTES
    &&& table_ok(table_bytes(next_index, entries), next_index, entries)
    &&& forall|i: int, j: int| 0 <= i < j < entries.len() ==> entries[i].tag != entries[j].tag
    &&& forall|i: int| 0 <= i < entries.len() ==> key_derivable(master, #[trigger] entries[i])
}

/// Whether no two entries share a tag.
fn tags_unique(es: &Vec<SeedEntry>) -> (r: bool)
    ensures
        r == (forall|i: int, j: int| 0 <= i < j < es@.len() ==> es@[i]@.tag != es@[j]@.tag),
{
    let mut j: usize = 0;
    while j < es.len()
        invariant
            0 <= j <= es@.len(),
            forall|a: int, b: int| 0 <= a < b < j ==> es@[a]@.tag != es@[b]@.tag,
        decreases es@.len() - j,
    {
        let mut i: usize = 0;
        while i < j
            invariant
                0 <= i <= j < es@.len(),
                forall|a: int, b: int| 0 <= a < b < j ==> es@[a]@.tag != es@[b]@.tag,
                forall|a: int| 0 <= a < i ==> es@[a]@.tag != es@[j as int]@.tag,
            decreases j - i,
        {
            if es[i].tag == es[j].tag {
                return false;
            }
            i = i + 1;
        }
        j = j + 1;
    }
    true
}

/// The custody store: a session, the master seed (held only while unlocked),
/// the seed table, the next index handed out for seeds created without a path,
/// the sealed blob that persists the master seed and the table (empty before
/// first use), and, while unlocked, the passphrase it is sealed under.
pub struct KeyStore {
    session: SessionManager,
    master: Vec<u8>,
    entries: Vec<SeedEntry>,
    next_index: u64,
    sealed: Vec<u8>,
    passphrase: Vec<u8>,
}

impl KeyStore {
    pub closed spec fn session_view(&self) -> SessionManager {
        self.session
    }

    pub closed spec fn master_view(&self) -> Seq<u8> {
        self.master@
    }

    pub closed spec fn entries_view(&self) -> Seq<SeedEntryView> {
        entry_views(self.entries@)
    }

    pub closed spec fn passphrase_view(&self) -> Seq<u8> {
        self.passphrase@
    }

    pub closed spec fn next_index_view(&self) -> u64 {
        self.next_index
    }

    pub closed spec fn sealed_view(&self) -> Seq<u8> {
        self.sealed@
    }

    /// The master seed is held exactly while the session is unlocked, tags are
    /// unique, every public key has the length of an Ed25519 key, and, while
    /// unlocked, every public key is the one derived from the master seed along
    /// the entry's path.
    pub open spec fn wf(&self) -> bool {
        &&& (self.session_view().state is Unlocked ==> self.master_view().len() == KEY_BYTES)
        &&& (self.session_view().state is Locked ==> self.master_view().len() == 0)
        &&& forall|i: int, j: int|
            0 <= i < j < self.entries_view().len() ==> self.entries_view()[i].tag
                != self.entries_view()[j].tag
        &&& forall|i: int|
            0 <= i < self.entries_view().len() ==> (#[trigger] self.entries_view()[i]).public_key.len()
                == KEY_BYTES
        &&& self.passphrase_view().len() <= MAX_PASSPHRASE_BYTES
        &&& self.session_view().state is Unlocked ==> forall|i: int|
            0 <= i < self.entries_view().len() ==> key_derivable(
                self.master_view(),
                #[trigger] self.entries_view()[i],
            )
    }

    /// Whether the store, with one more entry of this tag and path, still fits
    /// in a sealed blob.
    pub open spec fn seed_fits(&self, tag: Seq<char>, path: Seq<u64>) -> bool {
        self.master_view().len() + table_bytes(self.next_index_view(), self.entries_view()).len()
            + 8 + encode_utf8(tag).len() + 8 + 8 * path.len() + KEY_BYTES + 8 + 1 <= usize::MAX
            - MIN_BLOB_BYTES
    }

    /// The path that `new_seed` uses: the one given, or the next free index.
    pub open spec fn chosen_path(&self, derivation_path: Option<Seq<u64>>) -> Seq<u64> {
        match derivation_path {
            Some(p) => p,
            None => seq![self.next_index_view()],
        }
    }

    /// A locked store with no sealed blob yet; the first `unlock` creates the master seed.
    pub fn new(idle_timeout: u64) -> (r: KeyStore)
        ensures
            r.wf(),
            r.session_view().state == SessionState::Locked,
            r.session_view().idle_timeout == idle_timeout,
            r.entries_view().len() == 0,
            r.sealed_view().len() == 0,
    {
        let r = KeyStore {
            session: SessionManager::new(idle_timeout),
            master: Vec::new(),
            entries: Vec::new(),
            next_index: 0,
            sealed: Vec::new(),
            passphrase: Vec::new(),
        };
        assert(r.entries_view() =~= Seq::<SeedEntryView>::empty());
        r
    }

    /// A locked store over a sealed blob that was persisted earlier, whose
    /// session refuses unlocking after `max_failed_attempts` failures in a row
    /// (`0`: never).
    pub fn with_limit(sealed: Vec<u8>, idle_timeout: u64, max_failed_attempts: u32) -> (r: KeyStore)
        ensures
            r.wf(),
            r.session_view().state == SessionState::Locked,
            r.session_view().idle_timeout == idle_timeout,
            r.session_view().max_failed_attempts == max_failed_attempts,
            r.session_view().failed_attempts == 0,
            r.entries_view().len() == 0,
            r.sealed_view() == sealed@,
    {
        let r = KeyStore {
            session: SessionManager::with_limit(idle_timeout, max_failed_attempts),
            master: Vec::new(),
            entries: Vec::new(),
            next_index: 0,
            sealed,
            passphrase: Vec::new(),
        };
        assert(r.entries_view() =~= Seq::<SeedEntryView>::empty());
        r
    }

    /// Clears the count of failed unlock attempts, so that unlocking is tried again.
    pub fn reset_failed_attempts(&mut self)
        requires
            old(self).wf(),
        ensures
            final(self).wf(),
            final(self).session_view().failed_attempts == 0,
            final(self).session_view().state == old(self).session_view().state,
            final(self).entries_view() == old(self).entries_view(),
            final(self).sealed_view() == old(self).sealed_view(),
    {
        self.session.reset_failures();
        assert(self.entries_view() == old(self).entries_view());
    }

    /// A locked store over a sealed blob that was persisted earlier, with no
    /// limit on failed unlock attempts.
    pub fn from_sealed(sealed: Vec<u8>, idle_timeout: u64) -> (r: KeyStore)
        ensures
            r.wf(),
            r.session_view().state == SessionState::Locked,
            r.session_view().idle_timeout == idle_timeout,
            r.session_view().max_failed_attempts == 0,
            r.entries_view().len() == 0,
            r.sealed_view() == sealed@,
    {
        KeyStore::with_limit(sealed, idle_timeout, 0)
    }

    /// The sealed blob, for persisting.
    pub fn sealed_store(&self) -> (r: Vec<u8>)
        ensures
            r@ == self.sealed_view(),
    {
        copy_bytes(&self.sealed)
    }

    /// The session's current state.
    pub fn session_state(&self) -> (r: SessionState)
        ensures
            r == self.session_view().state,
    {
        self.session.state
    }

    /// The number of seeds.
    pub fn seed_count(&self) -> (r: usize)
        ensures
            r == self.entries_view().len(),
    {
        self.entries.len()
    }

    /// Overwrites the master seed and the session's passphrase with zeros and drops them.
    fn wipe_master(&mut self)
        ensures
            final(self).master_view().len() == 0,
            final(self).passphrase_view().len() == 0,
            final(self).session_view() == old(self).session_view(),
            final(self).entries_view() == old(self).entries_view(),
            final(self).next_index_view() == old(self).next_index_view(),
            final(self).sealed_view() == old(self).sealed_view(),
    {
        wipe_bytes(&mut self.master);
        self.master.clear();
        wipe_bytes(&mut self.passphrase);
        self.passphrase.clear();
    }

    /// Locks the session and wipes the master seed.
    pub fn lock(&mut self)
        requires
            old(self).wf(),
        ensures
            final(self).wf(),
            final(self).session_view().state == SessionState::Locked,
            final(self).entries_view() == old(self).entries_view(),
            final(self).sealed_view() == old(self).sealed_view(),
    {
        self.wipe_master();
        self.session.lock();
    }

    /// Records activity at `now`; a session idle past its timeout locks and
    /// the master seed is wiped. Returns whether the session is active.
    fn ensure_active(&mut self, now: u64) -> (r: bool)
        requires
            old(self).wf(),
        ensures
            final(self).wf(),
            r == old(self).session_view().active_at(now),
            final(self).session_view().state == old(self).session_view().state_after_touch(now),
            final(self).session_view().idle_timeout == old(self).session_view().idle_timeout,
            r ==> final(self).session_view().active_at(now),
            r ==> final(self).master_view() == old(self).master_view(),
            final(self).entries_view() == old(self).entries_view(),
            final(self).next_index_view() == old(self).next_index_view(),
            final(self).sealed_view() == old(self).sealed_view(),
    {
        let active = self.session.touch(now);
        assert(self.entries_view() == old(self).entries_view());
        if !active {
            self.wipe_master();
        }
        active
    }

    /// Seals the master seed and the table under the session's passphrase and
    /// keeps the blob as the persisted store; on failure the blob stays as it was.
    fn persist(&mut self) -> (r: Result<(), KeystoreError>)
        requires
            old(self).wf(),
            old(self).session_view().state is Unlocked,
        ensures
            final(self).wf(),
            final(self).session_view() == old(self).session_view(),
            final(self).master_view() == old(self).master_view(),
            final(self).entries_view() == old(self).entries_view(),
            final(self).next_index_view() == old(self).next_index_view(),
            final(self).passphrase_view() == old(self).passphrase_view(),
            r is Ok ==> exists|salt: Seq<u8>, nonce: Seq<u8>|
                sealing_of(
                    final(self).sealed_view(),
                    payload(old(self).master_view(), old(self).next_index_view(), old(self).entries_view()),
                    old(self).passphrase_view(),
                    salt,
                    nonce,
                ),
            r is Err ==> final(self).sealed_view() == old(self).sealed_view(),
            r matches Err(e) ==> e == KeystoreError::InternalError,
            fits_in_blob(payload(old(self).master_view(), old(self).next_index_view(), old(self).entries_view()))
                ==> r is Ok,
    {
        let table = encode_table(self.next_index, &self.entries);
        if table.len() > usize::MAX - MIN_BLOB_BYTES - KEY_BYTES {
            return Err(KeystoreError::InternalError);
        }
        let mut content = copy_bytes(&self.master);
        append_bytes(&mut content, &table);
        assert(content@ == payload(self.master_view(), self.next_index_view(), self.entries_view()));
        let sealed = seal(&content, &self.passphrase);
        wipe_bytes(&mut content);
        match sealed {
            Ok(blob) => {
                let ghost blob_bytes = blob@;
                self.sealed = blob;
                assert(self.sealed_view() == blob_bytes);
                assert(self.entries_view() == old(self).entries_view());
                Ok(())
            },
            Err(e) => Err(e),
        }
    }

    /// Opens the session with a passphrase at time `now`. Without a sealed blob
    /// (first use) a fresh master seed is drawn and sealed, with the table,
    /// under the passphrase; otherwise the blob is opened and the master seed
    /// and the table are read back from it. A wrong passphrase leaves the
    /// session locked and the blob as it was. The passphrase is kept, for
    /// sealing again, until the session locks.
    pub fn unlock(&mut self, passphrase: &Vec<u8>, now: u64) -> (r: Result<(), KeystoreError>)
        requires
            old(self).wf(),
        ensures
            final(self).wf(),
            old(self).sealed_view().len() > 0 && r is Err ==> final(self).entries_view() == old(
                self,
            ).entries_view(),
            old(self).sealed_view().len() == 0 && r is Ok ==> final(self).entries_view().len() == 0,
            r is Ok ==> final(self).session_view().active_at(now),
            r is Ok ==> final(self).passphrase_view() == passphrase@,
            r is Ok && old(self).sealed_view().len() > 0 ==> unseal_outcome(
                old(self).sealed_view(),
                passphrase@,
            ) == Ok::<Seq<u8>, KeystoreError>(
                payload(final(self).master_view(), final(self).next_index_view(), final(self).entries_view()),
            ),
            r is Err ==> final(self).session_view().state == SessionState::Locked,
            old(self).sealed_view().len() > 0 ==> final(self).sealed_view() == old(self).sealed_view(),
            old(self).sealed_view().len() > 0 && r == Err::<(), KeystoreError>(
                KeystoreError::WrongPassphraseError,
            ) ==> old(self).session_view().attempts_exhausted() || unseal_outcome(
                old(self).sealed_view(),
                passphrase@,
            ) == Err::<Seq<u8>, KeystoreError>(KeystoreError::WrongPassphraseError),
            old(self).session_view().attempts_exhausted() && old(self).sealed_view().len() > 0 ==> r
                == Err::<(), KeystoreError>(KeystoreError::WrongPassphraseError),
            old(self).sealed_view().len() == 0 && r is Ok ==> exists|salt: Seq<u8>, nonce: Seq<u8>|
                sealing_of(
                    final(self).sealed_view(),
                    payload(final(self).master_view(), final(self).next_index_view(), final(self).entries_view()),
                    passphrase@,
                    salt,
                    nonce,
                ),
            r matches Err(e) ==> e == KeystoreError::WrongPassphraseError || e
                == KeystoreError::CorruptStoreError || e == KeystoreError::InternalError,
            old(self).sealed_view().len() == 0 && passphrase@.len() <= MAX_PASSPHRASE_BYTES ==> r is Ok,
            old(self).sealed_view().len() > 0 && !old(self).session_view().attempts_exhausted()
                ==> (unseal_outcome(old(self).sealed_view(), passphrase@) matches Err(e) ==> r
                == Err::<(), KeystoreError>(e)),
            forall|m: Seq<u8>, n: u64, es: Seq<SeedEntryView>|
                #[trigger] table_restorable(m, n, es) && old(self).sealed_view().len() > 0 && !old(
                    self,
                ).session_view().attempts_exhausted() && unseal_outcome(
                    old(self).sealed_view(),
                    passphrase@,
                ) == Ok::<Seq<u8>, KeystoreError>(payload(m, n, es)) && box_is_genuine(
                    old(self).sealed_view(),
                    passphrase@,
                ) ==> r is Ok && final(self).master_view() == m && final(self).next_index_view() == n
                    && final(self).entries_view() == es,
    {
        self.wipe_master();
        self.session.lock();
        if self.sealed.len() == 0 {
            if passphrase.len() > MAX_PASSPHRASE_BYTES {
                return Err(KeystoreError::WrongPassphraseError);
            }
            let seed = match random_bytes(KEY_BYTES) {
                Ok(s) => s,
                Err(_) => {
                    return Err(KeystoreError::InternalError);
                },
            };
            self.master = seed;
            self.entries = Vec::new();
            self.next_index = 0;
            self.passphrase = copy_bytes(passphrase);
            self.session.record_unlock(now);
            assert(self.entries_view() =~= Seq::<SeedEntryView>::empty());
            return match self.persist() {
                Ok(()) => Ok(()),
                Err(e) => {
                    self.wipe_master();
                    self.session.lock();
                    Err(e)
                },
            };
        }
        if self.session.is_exhausted() {
            return Err(KeystoreError::WrongPassphraseError);
        }
        match unseal(&self.sealed, passphrase) {
            Ok(content) => {
                assert(passphrase@.len() <= MAX_PASSPHRASE_BYTES);
                let mut content = content;
                assert forall|m: Seq<u8>, nn: u64, es: Seq<SeedEntryView>|
                    #[trigger] table_restorable(m, nn, es) && unseal_outcome(
                        old(self).sealed_view(),
                        passphrase@,
                    ) == Ok::<Seq<u8>, KeystoreError>(payload(m, nn, es)) implies content@ == payload(
                    m,
                    nn,
                    es,
                ) by {}
                if content.len() < KEY_BYTES {
                    return Err(KeystoreError::CorruptStoreError);
                }
                let master = slice_bytes(&content, 0, KEY_BYTES);
                let table = slice_bytes(&content, KEY_BYTES, content.len());
                assert(content@ =~= master@ + table@);
                assert forall|m: Seq<u8>, nn: u64, es: Seq<SeedEntryView>|
                    #[trigger] table_restorable(m, nn, es) && unseal_outcome(
                        old(self).sealed_view(),
                        passphrase@,
                    ) == Ok::<Seq<u8>, KeystoreError>(payload(m, nn, es)) implies master@ == m
                    && table_ok(table@, nn, es) by {
                    assert(master@ =~= content@.subrange(0, KEY_BYTES as int));
                    assert(m =~= payload(m, nn, es).subrange(0, KEY_BYTES as int));
                    assert(table@ =~= content@.subrange(KEY_BYTES as int, content@.len() as int));
                    assert(table_bytes(nn, es) =~= payload(m, nn, es).subrange(
                        KEY_BYTES as int,
                        payload(m, nn, es).len() as int,
                    ));
                }
                wipe_bytes(&mut content);
                let (next_index, entries) = match decode_table(&table) {
                    Some(t) => t,
                    None => {
                        return Err(KeystoreError::CorruptStoreError);
                    },
                };
                assert forall|m: Seq<u8>, nn: u64, es: Seq<SeedEntryView>|
                    #[trigger] table_restorable(m, nn, es) && unseal_outcome(
                        old(self).sealed_view(),
                        passphrase@,
                    ) == Ok::<Seq<u8>, KeystoreError>(payload(m, nn, es)) implies {
                    &&& master@ == m
                    &&& next_index == nn
                    &&& entry_views(entries@) == es
                    &&& forall|i: int, j: int|
                        0 <= i < j < entries@.len() ==> entries@[i]@.tag != entries@[j]@.tag
                    &&& forall|i: int|
                        0 <= i < entries@.len() ==> key_derivable(master@, #[trigger] entries@[i]@)
                } by {
                    assert(table_ok(table@, nn, es));
                    assert forall|i: int, j: int| 0 <= i < j < entries@.len() implies entries@[i]@.tag
                        != entries@[j]@.tag by {
                        assert(entries@[i]@ == es[i] && entries@[j]@ == es[j]);
                    }
                    assert forall|i: int| 0 <= i < entries@.len() implies key_derivable(
                        master@,
                        #[trigger] entries@[i]@,
                    ) by {
                        assert(entries@[i]@ == es[i]);
                    }
                }
                if !tags_unique(&entries) {
                    return Err(KeystoreError::CorruptStoreError);
                }
                let derivable = match keys_derivable(&master, &entries) {
                    Ok(b) => b,
                    Err(_) => false,
                };
                if !derivable {
                    return Err(KeystoreError::CorruptStoreError);
                }
                self.master = master;
                self.entries = entries;
                self.next_index = next_index;
                self.passphrase = copy_bytes(passphrase);
                self.session.record_unlock(now);
                Ok(())
            },
            Err(e) => {
                if e == KeystoreError::WrongPassphraseError {
                    self.session.record_failure();
                }
                Err(e)
            },
        }
    }

    /// The index of the entry with `tag`, if any.
    fn find_tag(&self, tag: &String) -> (r: Option<usize>)
        ensures
            r matches Some(i) ==> i < self.entries_view().len() && self.entries_view()[i as int].tag
                == tag@,
            r is None ==> !has_tag(self.entries_view(), tag@),
    {
        let mut i: usize = 0;
        while i < self.entries.len()
            invariant
                0 <= i <= self.entries@.len(),
                forall|k: int| 0 <= k < i ==> self.entries_view()[k].tag != tag@,
            decreases self.entries@.len() - i,
        {
            if self.entries[i].tag == *tag {
                return Some(i);
            }
            i = i + 1;
        }
        None
    }

    /// The index of the first entry that answers a request for `public_key`
    /// with an optional path hint.
    fn find_key(&self, public_key: &Vec<u8>, hint: &Option<Vec<u64>>) -> (r: Option<usize>)
        ensures
            r matches Some(i) ==> i < self.entries_view().len() && entry_matches(
                self.entries_view()[i as int],
                public_key@,
                vec_opt_view(hint),
            ),
            r is None ==> !has_match(self.entries_view(), public_key@, vec_opt_view(hint)),
    {
        let mut i: usize = 0;
        while i < self.entries.len()
            invariant
                0 <= i <= self.entries@.len(),
                forall|k: int|
                    0 <= k < i ==> !entry_matches(
                        #[trigger] self.entries_view()[k],
                        public_key@,
                        vec_opt_view(hint),
                    ),
            decreases self.entries@.len() - i,
        {
            let e = &self.entries[i];
            let path_ok = match hint {
                None => true,
                Some(p) => path_equal(&e.derivation_path, p),
            };
            if path_ok && bytes_equal(&e.public_key, public_key) {
                return Some(i);
            }
            i = i + 1;
        }
        None
    }

    /// Creates a seed with a unique tag at time `now`. Its seed material is
    /// derived from the master seed along `derivation_path`, or, when none is
    /// given, along a one-segment path holding the next free index. Fails with
    /// `LockedError` when the session is not active and with
    /// `DuplicateTagError` when the tag is taken; a failed call leaves the table
    /// as it was.
    pub fn new_seed(&mut self, tag: String, derivation_path: Option<Vec<u64>>, exportable: bool, now: u64) -> (r: Result<SeedEntry, KeystoreError>)
        requires
            old(self).wf(),
        ensures
            final(self).wf(),
            r is Err ==> final(self).sealed_view() == old(self).sealed_view(),
            r is Err ==> final(self).next_index_view() == old(self).next_index_view(),
            r is Ok ==> exists|salt: Seq<u8>, nonce: Seq<u8>|
                sealing_of(
                    final(self).sealed_view(),
                    payload(final(self).master_view(), final(self).next_index_view(), final(self).entries_view()),
                    final(self).passphrase_view(),
                    salt,
                    nonce,
                ),
            !old(self).session_view().active_at(now) ==> r == Err::<SeedEntry, KeystoreError>(
                KeystoreError::LockedError,
            ) && final(self).session_view().state == SessionState::Locked,
            old(self).session_view().active_at(now) && has_tag(old(self).entries_view(), tag@)
                ==> r == Err::<SeedEntry, KeystoreError>(KeystoreError::DuplicateTagError),
            old(self).session_view().active_at(now) && !has_tag(old(self).entries_view(), tag@)
                ==> r is Ok || r == Err::<SeedEntry, KeystoreError>(KeystoreError::InternalError),
            old(self).session_view().active_at(now) && !has_tag(old(self).entries_view(), tag@) && (
            derivation_path is Some || old(self).next_index_view() < u64::MAX) && old(self).seed_fits(
                tag@,
                old(self).chosen_path(vec_opt_view(&derivation_path)),
            ) ==> r is Ok,
            old(self).session_view().active_at(now) ==> final(self).session_view().active_at(now)
                && final(self).master_view() == old(self).master_view(),
            r is Err ==> final(self).entries_view() == old(self).entries_view(),
            r matches Ok(e) ==> {
                &&& e@.tag == tag@
                &&& e@.derivation_path == old(self).chosen_path(vec_opt_view(&derivation_path))
                &&& e@.public_key == ed25519_public_key(
                    derived_seed(old(self).master_view(), e@.derivation_path),
                )
                &&& e@.created_at == now
                &&& e@.exportable == exportable
                &&& final(self).entries_view() == old(self).entries_view().push(e@)
            },
    {
        if !self.ensure_active(now) {
            return Err(KeystoreError::LockedError);
        }
        if self.find_tag(&tag).is_some() {
            return Err(KeystoreError::DuplicateTagError);
        }
        let assigned = derivation_path.is_none();
        let path: Vec<u64> = match derivation_path {
            Some(p) => p,
            None => {
                if self.next_index == u64::MAX {
                    return Err(KeystoreError::InternalError);
                }
                let mut p: Vec<u64> = Vec::new();
                p.push(self.next_index);
                assert(p@ =~= seq![self.next_index]);
                p
            },
        };
        let seed = match derive_seed(&self.master, &path) {
            Ok(s) => s,
            Err(e) => {
                return Err(e);
            },
        };
        let public_key = match seed_keypair(&seed) {
            Ok((pk, _sk)) => pk,
            Err(_) => {
                return Err(KeystoreError::InternalError);
            },
        };
        let entry = SeedEntry { tag, derivation_path: path, public_key, created_at: now, exportable };
        let result = entry.copy();
        let ghost before = self.entries_view();
        let ghost old_next = self.next_index;
        self.entries.push(entry);
        assert(self.entries_view() =~= before.push(result@));
        if assigned {
            self.next_index = self.next_index + 1;
        }
        proof {
            lemma_table_push_len(old_next, self.next_index, before, result@);
        }
        match self.persist() {
            Ok(()) => Ok(result),
            Err(e) => {
                let ghost mid = self.entries@;
                assert(entry_views(mid) == before.push(result@));
                self.entries.pop();
                assert(self.entries@ == mid.drop_last());
                assert(entry_views(self.entries@) =~= entry_views(mid).drop_last());
                assert(self.entries_view() =~= before);
                if assigned {
                    self.next_index = self.next_index - 1;
                }
                Err(e)
            },
        }
    }

    /// Signs `message` with the key of the first entry whose public key is
    /// `public_key` (and whose path is the hint, when one is given). The private
    /// key is derived for this call only. Fails with `LockedError` when the
    /// session is not active and with `UnknownKeyError` when no entry matches.
    pub fn sign_by_pub_key(&mut self, public_key: &Vec<u8>, derivation_hint: Option<Vec<u64>>, message: &Vec<u8>, now: u64) -> (r: Result<Vec<u8>, KeystoreError>)
        requires
            old(self).wf(),
        ensures
            final(self).wf(),
            final(self).entries_view() == old(self).entries_view(),
            final(self).sealed_view() == old(self).sealed_view(),
            !old(self).session_view().active_at(now) ==> r == Err::<Vec<u8>, KeystoreError>(
                KeystoreError::LockedError,
            ) && final(self).session_view().state == SessionState::Locked,
            old(self).session_view().active_at(now) && !has_match(
                old(self).entries_view(),
                public_key@,
                vec_opt_view(&derivation_hint),
            ) ==> r == Err::<Vec<u8>, KeystoreError>(KeystoreError::UnknownKeyError),
            old(self).session_view().active_at(now) && has_match(
                old(self).entries_view(),
                public_key@,
                vec_opt_view(&derivation_hint),
            ) ==> r is Ok,
            old(self).session_view().active_at(now) ==> final(self).session_view().active_at(now)
                && final(self).master_view() == old(self).master_view(),
            r matches Ok(sig) ==> {
                &&& verify_outcome(public_key@, sig@, message@) == Ok::<bool, KeystoreError>(true)
                &&& exists|i: int|
                    0 <= i < old(self).entries_view().len() && entry_matches(
                        old(self).entries_view()[i],
                        public_key@,
                        vec_opt_view(&derivation_hint),
                    ) && sig@ == ed25519_signature(
                        ed25519_secret_key(
                            derived_seed(
                                old(self).master_view(),
                                old(self).entries_view()[i].derivation_path,
                            ),
                        ),
                        message@,
                    )
            },
    {
        if !self.ensure_active(now) {
            return Err(KeystoreError::LockedError);
        }
        let i = match self.find_key(public_key, &derivation_hint) {
            Some(i) => i,
            None => {
                return Err(KeystoreError::UnknownKeyError);
            },
        };
        let seed = match derive_seed(&self.master, &self.entries[i].derivation_path) {
            Ok(s) => s,
            Err(e) => {
                return Err(e);
            },
        };
        let (derived_public, secret) = match seed_keypair(&seed) {
            Ok(pair) => pair,
            Err(_) => {
                return Err(KeystoreError::InternalError);
            },
        };
        if !bytes_equal(&derived_public, public_key) {
            return Err(KeystoreError::InternalError);
        }
        let signed = sign_detached(&secret, message);
        let mut secret = secret;
        wipe_bytes(&mut secret);
        match signed {
            Ok(sig) => Ok(sig),
            Err(_) => Err(KeystoreError::InternalError),
        }
    }

    /// The public metadata of every seed, in order of creation. Needs no session.
    pub fn list_seeds(&self) -> (r: Vec<SeedEntry>)
        ensures
            r@.map_values(|e: SeedEntry| e@) == self.entries_view(),
    {
        let mut r: Vec<SeedEntry> = Vec::new();
        let mut i: usize = 0;
        while i < self.entries.len()
            invariant
                0 <= i <= self.entries@.len(),
                r@.map_values(|e: SeedEntry| e@) == self.entries_view().take(i as int),
            decreases self.entries@.len() - i,
        {
            let e = self.entries[i].copy();
            let ghost before = r@.map_values(|e: SeedEntry| e@);
            r.push(e);
            assert(r@.map_values(|e: SeedEntry| e@) =~= before.push(e@));
            assert(self.entries_view().take(i as int + 1) =~= self.entries_view().take(i as int).push(
                e@,
            ));
            i = i + 1;
        }
        assert(self.entries_view().take(i as int) =~= self.entries_view());
        r
    }

    /// Once `new_seed` has returned an entry, signing by its public key at the
    /// same time meets neither a locked session nor an unknown key.
    pub proof fn lemma_new_seed_key_is_signable(&self, e: SeedEntryView, now: u64)
        requires
            self.session_view().active_at(now),
            self.entries_view().len() > 0,
            self.entries_view().last() == e,
        ensures
            has_match(self.entries_view(), e.public_key, None),
    {
        assert(entry_matches(self.entries_view()[self.entries_view().len() - 1], e.public_key, None));
    }

    /// The blob that `unlock` or `new_seed` seals opens, under the same
    /// passphrase, to the master seed and the table that the store holds, and
    /// its box is genuine; so, by `unlock`'s contract, unlocking it with that
    /// passphrase succeeds and restores them whenever the table is restorable.
    pub proof fn lemma_sealed_store_reopens(&self, passphrase: Seq<u8>)
        requires
            exists|salt: Seq<u8>, nonce: Seq<u8>|
                sealing_of(
                    self.sealed_view(),
                    payload(self.master_view(), self.next_index_view(), self.entries_view()),
                    passphrase,
                    salt,
                    nonce,
                ),
        ensures
            unseal_outcome(self.sealed_view(), passphrase) == Ok::<Seq<u8>, KeystoreError>(
                payload(self.master_view(), self.next_index_view(), self.entries_view()),
            ),
            box_is_genuine(self.sealed_view(), passphrase),
    {
        let content = payload(self.master_view(), self.next_index_view(), self.entries_view());
        let (salt, nonce) = choose|salt: Seq<u8>, nonce: Seq<u8>|
            sealing_of(self.sealed_view(), content, passphrase, salt, nonce);
        lemma_seal_unseal_round_trip(self.sealed_view(), content, passphrase, salt, nonce);
    }
}

} // verus!
