use lair_custody::error::KeystoreError;
use lair_custody::keystore::{verify_detached, KeyStore};
use lair_custody::sealed::{seal, seal_with, unseal};
use lair_custody::server::{dispatch, Request, Response};
use lair_custody::session::{SessionManager, SessionState};
use lair_custody::table::{decode_table, encode_table};

fn unlocked_store(passphrase: &[u8]) -> KeyStore {
    let mut store = KeyStore::new(300);
    store.unlock(&passphrase.to_vec(), 0).unwrap();
    store
}

#[test]
fn scenario_agent_one_sign_and_verify() {
    let mut store = unlocked_store(b"correct-horse");
    let entry = store.new_seed("agent-1".to_string(), None, false, 1).unwrap();
    assert_eq!(entry.public_key.len(), 32);
    assert_eq!(entry.tag, "agent-1");
    assert!(!entry.exportable);
    let sig = store.sign_by_pub_key(&entry.public_key, None, &b"hello".to_vec(), 2).unwrap();
    assert_eq!(sig.len(), 64);
    assert_eq!(verify_detached(&entry.public_key, &sig, &b"hello".to_vec()), Ok(true));
    assert_eq!(verify_detached(&entry.public_key, &sig, &b"hellx".to_vec()), Ok(false));
}

#[test]
fn new_seed_sign_verify_for_several_paths() {
    let mut store = unlocked_store(b"pass");
    let paths: Vec<Option<Vec<u64>>> = vec![None, Some(vec![]), Some(vec![7]), Some(vec![1, 2, 3]), None];
    for (i, path) in paths.into_iter().enumerate() {
        let tag = format!("seed-{}", i);
        let entry = store.new_seed(tag, path, true, 10).unwrap();
        for msg in [b"".to_vec(), b"test-data".to_vec(), vec![0u8; 1000]] {
            let sig = store.sign_by_pub_key(&entry.public_key, None, &msg, 11).unwrap();
            assert_eq!(verify_detached(&entry.public_key, &sig, &msg), Ok(true));
        }
    }
    assert_eq!(store.seed_count(), 5);
}

#[test]
fn omitted_paths_take_successive_indices() {
    let mut store = unlocked_store(b"pass");
    let a = store.new_seed("a".to_string(), None, false, 1).unwrap();
    let b = store.new_seed("b".to_string(), None, false, 1).unwrap();
    assert_eq!(a.derivation_path, vec![0u64]);
    assert_eq!(b.derivation_path, vec![1u64]);
    assert_ne!(a.public_key, b.public_key);
}

#[test]
fn same_path_gives_same_key() {
    let mut store = unlocked_store(b"pass");
    let a = store.new_seed("a".to_string(), Some(vec![4, 2]), false, 1).unwrap();
    let b = store.new_seed("b".to_string(), Some(vec![4, 2]), false, 1).unwrap();
    let c = store.new_seed("c".to_string(), Some(vec![4, 3]), false, 1).unwrap();
    assert_eq!(a.public_key, b.public_key);
    assert_ne!(a.public_key, c.public_key);
}

#[test]
fn flipping_any_signature_bit_fails_verification() {
    let mut store = unlocked_store(b"pass");
    let entry = store.new_seed("flip".to_string(), None, false, 1).unwrap();
    let msg = b"message".to_vec();
    let sig = store.sign_by_pub_key(&entry.public_key, None, &msg, 1).unwrap();
    for byte in 0..64 {
        for bit in 0..8 {
            let mut bad = sig.clone();
            bad[byte] ^= 1 << bit;
            assert_eq!(verify_detached(&entry.public_key, &bad, &msg), Ok(false));
        }
    }
}

#[test]
fn duplicate_tag_is_rejected_and_table_kept() {
    let mut store = unlocked_store(b"pass");
    let first = store.new_seed("dup".to_string(), None, true, 1).unwrap();
    let r = store.new_seed("dup".to_string(), Some(vec![9]), false, 2);
    assert!(matches!(r, Err(KeystoreError::DuplicateTagError)));
    assert_eq!(store.seed_count(), 1);
    let seeds = store.list_seeds();
    assert_eq!(seeds.len(), 1);
    assert_eq!(seeds[0].public_key, first.public_key);
    assert_eq!(seeds[0].derivation_path, first.derivation_path);
    assert_eq!(seeds[0].created_at, 1);
    assert!(seeds[0].exportable);
}

#[test]
fn wrong_passphrase_keeps_locked_and_store_unchanged() {
    let mut store = unlocked_store(b"right");
    store.lock();
    let blob = store.sealed_store();
    let mut reopened = KeyStore::from_sealed(blob.clone(), 300);
    let r = reopened.unlock(&b"wrong".to_vec(), 5);
    assert_eq!(r, Err(KeystoreError::WrongPassphraseError));
    assert_eq!(reopened.session_state(), SessionState::Locked);
    assert_eq!(reopened.sealed_store(), blob);
    assert_eq!(reopened.unlock(&b"right".to_vec(), 6), Ok(()));
}

#[test]
fn reopened_store_restores_the_table() {
    let mut store = unlocked_store(b"right");
    let a = store.new_seed("k".to_string(), Some(vec![3, 1]), true, 7).unwrap();
    let b = store.new_seed("l".to_string(), None, false, 8).unwrap();
    let blob = store.sealed_store();
    let mut reopened = KeyStore::from_sealed(blob, 300);
    assert_eq!(reopened.seed_count(), 0);
    reopened.unlock(&b"right".to_vec(), 9).unwrap();
    let seeds = reopened.list_seeds();
    assert_eq!(seeds.len(), 2);
    assert_eq!(seeds[0].tag, "k");
    assert_eq!(seeds[0].derivation_path, vec![3u64, 1]);
    assert_eq!(seeds[0].public_key, a.public_key);
    assert_eq!(seeds[0].created_at, 7);
    assert!(seeds[0].exportable);
    assert_eq!(seeds[1].public_key, b.public_key);
    let again = reopened.new_seed("k".to_string(), None, false, 10);
    assert!(matches!(again, Err(KeystoreError::DuplicateTagError)));
    let c = reopened.new_seed("m".to_string(), None, false, 10).unwrap();
    assert_eq!(c.derivation_path, vec![1u64]);
    let sig = reopened.sign_by_pub_key(&a.public_key, None, &b"m".to_vec(), 11).unwrap();
    assert_eq!(verify_detached(&a.public_key, &sig, &b"m".to_vec()), Ok(true));
}

#[test]
fn new_seed_persists_before_returning() {
    let mut store = unlocked_store(b"pw");
    let before = store.sealed_store();
    store.new_seed("p".to_string(), None, false, 1).unwrap();
    let after = store.sealed_store();
    assert_ne!(before, after);
    let content = unseal(&after, &b"pw".to_vec()).unwrap();
    let (next_index, entries) = decode_table(&content[32..].to_vec()).unwrap();
    assert_eq!(next_index, 1);
    assert_eq!(entries.len(), 1);
    assert_eq!(entries[0].tag, "p");
}

#[test]
fn table_round_trip() {
    let mut store = unlocked_store(b"pw");
    store.new_seed("één".to_string(), Some(vec![u64::MAX, 0]), true, 250).unwrap();
    store.new_seed("".to_string(), Some(vec![]), false, 0).unwrap();
    let entries = store.list_seeds();
    let bytes = encode_table(5, &entries);
    assert_eq!(&bytes[0..8], &[5, 0, 0, 0, 0, 0, 0, 0]);
    assert_eq!(&bytes[8..16], &[2, 0, 0, 0, 0, 0, 0, 0]);
    let (next_index, decoded) = decode_table(&bytes).unwrap();
    assert_eq!(next_index, 5);
    assert_eq!(decoded.len(), 2);
    assert_eq!(decoded[0].tag, "één");
    assert_eq!(decoded[0].derivation_path, vec![u64::MAX, 0]);
    assert_eq!(decoded[0].created_at, 250);
    assert!(decoded[0].exportable);
    assert_eq!(decoded[1].tag, "");
    assert_eq!(decoded[1].public_key, entries[1].public_key);
}

#[test]
fn table_decode_rejects_malformed_bytes() {
    assert!(decode_table(&vec![0u8; 15]).is_none());
    let empty = encode_table(0, &Vec::new());
    assert_eq!(empty.len(), 16);
    assert!(decode_table(&empty).is_some());
    let mut trailing = empty.clone();
    trailing.push(0);
    assert!(decode_table(&trailing).is_none());
    let mut store = unlocked_store(b"pw");
    store.new_seed("t".to_string(), None, false, 0).unwrap();
    let bytes = encode_table(1, &store.list_seeds());
    let mut bad_flag = bytes.clone();
    let last = bad_flag.len() - 1;
    bad_flag[last] = 2;
    assert!(decode_table(&bad_flag).is_none());
    let mut bad_utf8 = bytes.clone();
    bad_utf8[24] = 0xff;
    assert!(decode_table(&bad_utf8).is_none());
    assert!(decode_table(&bytes[..bytes.len() - 1].to_vec()).is_none());
}

#[test]
fn seal_unseal_round_trip() {
    let seed: Vec<u8> = (0u8..32).collect();
    let blob = seal(&seed, &b"pw".to_vec()).unwrap();
    assert_eq!(blob.len(), 73 + 32 + 16 + 32);
    assert_eq!(blob[0], 1);
    assert_ne!(&blob[73..105], &seed[..]);
    assert_eq!(unseal(&blob, &b"pw".to_vec()), Ok(seed));
}

#[test]
fn seal_with_is_deterministic() {
    let seed = vec![5u8; 32];
    let salt = vec![1u8; 16];
    let nonce = vec![2u8; 24];
    let a = seal_with(&seed, &b"pw".to_vec(), &salt, &nonce).unwrap();
    let b = seal_with(&seed, &b"pw".to_vec(), &salt, &nonce).unwrap();
    let c = seal_with(&seed, &b"pv".to_vec(), &salt, &nonce).unwrap();
    assert_eq!(a, b);
    assert_ne!(a, c);
    assert_eq!(&a[1..17], &salt[..]);
    assert_eq!(&a[17..41], &nonce[..]);
}

#[test]
fn corrupted_blob_fails_with_corrupt_store() {
    let seed = vec![9u8; 32];
    let blob = seal(&seed, &b"pw".to_vec()).unwrap();
    for pos in [0usize, 1, 20, 50, 80, 100, blob.len() - 1] {
        let mut bad = blob.clone();
        bad[pos] ^= 0x01;
        assert_eq!(unseal(&bad, &b"pw".to_vec()), Err(KeystoreError::CorruptStoreError));
    }
    assert_eq!(unseal(&blob[..120].to_vec(), &b"pw".to_vec()), Err(KeystoreError::CorruptStoreError));
    assert_eq!(unseal(&Vec::new(), &b"pw".to_vec()), Err(KeystoreError::CorruptStoreError));
}

#[test]
fn unseal_with_wrong_passphrase() {
    let blob = seal(&vec![1u8; 32], &b"pw".to_vec()).unwrap();
    assert_eq!(unseal(&blob, &b"px".to_vec()), Err(KeystoreError::WrongPassphraseError));
}

#[test]
fn sign_while_locked_fails() {
    let mut store = unlocked_store(b"pass");
    let entry = store.new_seed("s".to_string(), None, false, 1).unwrap();
    store.lock();
    let r = store.sign_by_pub_key(&entry.public_key, None, &b"hello".to_vec(), 2);
    assert_eq!(r, Err(KeystoreError::LockedError));
    let mut fresh = KeyStore::new(300);
    let r = fresh.sign_by_pub_key(&entry.public_key, None, &b"hello".to_vec(), 2);
    assert_eq!(r, Err(KeystoreError::LockedError));
}

#[test]
fn new_seed_while_locked_fails() {
    let mut store = KeyStore::new(300);
    let r = store.new_seed("x".to_string(), None, false, 0);
    assert!(matches!(r, Err(KeystoreError::LockedError)));
    assert_eq!(store.seed_count(), 0);
}

#[test]
fn idle_timeout_relocks() {
    let mut store = KeyStore::new(10);
    store.unlock(&b"pass".to_vec(), 100).unwrap();
    let entry = store.new_seed("t".to_string(), None, false, 105).unwrap();
    assert!(store.sign_by_pub_key(&entry.public_key, None, &b"m".to_vec(), 115).is_ok());
    let r = store.sign_by_pub_key(&entry.public_key, None, &b"m".to_vec(), 126);
    assert_eq!(r, Err(KeystoreError::LockedError));
    assert_eq!(store.session_state(), SessionState::Locked);
}

#[test]
fn unknown_key_and_hint() {
    let mut store = unlocked_store(b"pass");
    let entry = store.new_seed("h".to_string(), Some(vec![2]), false, 1).unwrap();
    let r = store.sign_by_pub_key(&vec![0u8; 32], None, &b"m".to_vec(), 1);
    assert_eq!(r, Err(KeystoreError::UnknownKeyError));
    let r = store.sign_by_pub_key(&entry.public_key, Some(vec![3]), &b"m".to_vec(), 1);
    assert_eq!(r, Err(KeystoreError::UnknownKeyError));
    assert!(store.sign_by_pub_key(&entry.public_key, Some(vec![2]), &b"m".to_vec(), 1).is_ok());
}

#[test]
fn malformed_lengths_are_rejected() {
    let pk = vec![0u8; 32];
    assert_eq!(verify_detached(&pk, &vec![0u8; 63], &b"m".to_vec()), Err(KeystoreError::MalformedSignatureError));
    assert_eq!(verify_detached(&vec![0u8; 31], &vec![0u8; 64], &b"m".to_vec()), Err(KeystoreError::MalformedSignatureError));
}

#[test]
fn session_transitions() {
    let mut s = SessionManager::new(5);
    assert!(!s.touch(0));
    s.record_unlock(10);
    assert_eq!(s.state, SessionState::Unlocked { unlock_time: 10, last_activity: 10 });
    assert!(s.touch(15));
    assert_eq!(s.state, SessionState::Unlocked { unlock_time: 10, last_activity: 15 });
    assert!(!s.touch(21));
    assert_eq!(s.state, SessionState::Locked);
    s.record_failure();
    s.record_failure();
    assert_eq!(s.failed_attempts, 2);
    s.record_unlock(30);
    assert_eq!(s.failed_attempts, 0);
    s.lock();
    assert!(!s.is_unlocked());
}

#[test]
fn dispatch_round() {
    let mut store = KeyStore::new(300);
    let r = dispatch(&mut store, Request::SignByPubKey { public_key: vec![0; 32], derivation_hint: None, message: vec![] }, 0);
    assert!(matches!(r, Response::Error(KeystoreError::LockedError)));
    assert!(matches!(dispatch(&mut store, Request::Unlock { passphrase: b"p".to_vec() }, 0), Response::Unlocked));
    let entry = match dispatch(&mut store, Request::NewSeed { tag: "d".to_string(), derivation_path: None, exportable: false }, 1) {
        Response::SeedCreated(e) => e,
        _ => panic!("seed not created"),
    };
    let sig = match dispatch(&mut store, Request::SignByPubKey { public_key: entry.public_key.clone(), derivation_hint: None, message: b"x".to_vec() }, 2) {
        Response::Signature(s) => s,
        _ => panic!("not signed"),
    };
    let r = dispatch(&mut store, Request::VerifyDetached { public_key: entry.public_key.clone(), signature: sig, message: b"x".to_vec() }, 3);
    assert!(matches!(r, Response::Verified(true)));
    match dispatch(&mut store, Request::ListSeeds, 4) {
        Response::Seeds(v) => assert_eq!(v.len(), 1),
        _ => panic!("no list"),
    }
    assert!(matches!(dispatch(&mut store, Request::Lock, 5), Response::Locked));
    assert_eq!(store.session_state(), SessionState::Locked);
}

#[test]
fn repeated_failures_halt_unlocking_until_reset() {
    let mut store = unlocked_store(b"right");
    let blob = store.sealed_store();
    let mut limited = KeyStore::with_limit(blob.clone(), 300, 2);
    assert_eq!(limited.unlock(&b"wrong".to_vec(), 1), Err(KeystoreError::WrongPassphraseError));
    assert_eq!(limited.unlock(&b"wrong".to_vec(), 2), Err(KeystoreError::WrongPassphraseError));
    assert_eq!(limited.unlock(&b"right".to_vec(), 3), Err(KeystoreError::WrongPassphraseError));
    assert_eq!(limited.session_state(), SessionState::Locked);
    assert_eq!(limited.sealed_store(), blob);
    limited.reset_failed_attempts();
    assert_eq!(limited.unlock(&b"right".to_vec(), 4), Ok(()));
    let mut s = SessionManager::with_limit(5, 1);
    assert!(!s.is_exhausted());
    s.record_failure();
    assert!(s.is_exhausted());
    s.reset_failures();
    assert!(!s.is_exhausted());
    store.lock();
}

#[test]
fn table_with_foreign_key_is_corrupt() {
    let mut store = unlocked_store(b"pw");
    store.new_seed("x".to_string(), Some(vec![1]), false, 1).unwrap();
    let blob = store.sealed_store();
    let mut content = unseal(&blob, &b"pw".to_vec()).unwrap();
    let pk_at = 32 + 16 + 8 + 1 + 8 + 8;
    content[pk_at] ^= 0x01;
    let forged = seal(&content, &b"pw".to_vec()).unwrap();
    let mut reopened = KeyStore::from_sealed(forged, 300);
    assert_eq!(reopened.unlock(&b"pw".to_vec(), 2), Err(KeystoreError::CorruptStoreError));
    assert_eq!(reopened.session_state(), SessionState::Locked);
}

#[test]
fn sealing_twice_draws_fresh_salt_and_nonce() {
    let seed = vec![3u8; 32];
    let a = seal(&seed, &b"pw".to_vec()).unwrap();
    let b = seal(&seed, &b"pw".to_vec()).unwrap();
    assert_ne!(&a[1..41], &b[1..41]);
    assert_eq!(unseal(&a, &b"pw".to_vec()), Ok(seed.clone()));
    assert_eq!(unseal(&b, &b"pw".to_vec()), Ok(seed));
}
