use lair_custody::error::KeystoreError;
use lair_custody::keystore::KeyStore;
use lair_custody::server::{Request, Response};
use lair_custody::session::SessionState;
use lair_custody::wire::{decode_request, encode_response, handle_request};

fn field(x: &[u8]) -> Vec<u8> {
    let mut v = (x.len() as u64).to_le_bytes().to_vec();
    v.extend_from_slice(x);
    v
}

fn unlock_bytes(passphrase: &[u8]) -> Vec<u8> {
    let mut v = vec![0u8];
    v.extend(field(passphrase));
    v
}

fn new_seed_bytes(tag: &str, path: Option<&[u64]>, exportable: bool) -> Vec<u8> {
    let mut v = vec![1u8];
    v.extend(field(tag.as_bytes()));
    match path {
        None => v.push(0),
        Some(p) => {
            v.push(1);
            v.extend((p.len() as u64).to_le_bytes());
            for s in p {
                v.extend(s.to_le_bytes());
            }
        }
    }
    v.push(exportable as u8);
    v
}

#[test]
fn decode_each_operation() {
    match decode_request(&unlock_bytes(b"correct-horse")) {
        Ok(Request::Unlock { passphrase }) => assert_eq!(passphrase, b"correct-horse".to_vec()),
        _ => panic!("unlock not decoded"),
    }
    match decode_request(&new_seed_bytes("agent-1", Some(&[4, 9]), true)) {
        Ok(Request::NewSeed { tag, derivation_path, exportable }) => {
            assert_eq!(tag, "agent-1");
            assert_eq!(derivation_path, Some(vec![4, 9]));
            assert!(exportable);
        }
        _ => panic!("new_seed not decoded"),
    }
    let mut sign = vec![2u8];
    sign.extend(field(&[7u8; 32]));
    sign.push(0);
    sign.extend(field(b"hello"));
    match decode_request(&sign) {
        Ok(Request::SignByPubKey { public_key, derivation_hint, message }) => {
            assert_eq!(public_key, vec![7u8; 32]);
            assert_eq!(derivation_hint, None);
            assert_eq!(message, b"hello".to_vec());
        }
        _ => panic!("sign not decoded"),
    }
    let mut verify = vec![3u8];
    verify.extend(field(&[1u8; 32]));
    verify.extend(field(&[2u8; 64]));
    verify.extend(field(b""));
    assert!(matches!(decode_request(&verify), Ok(Request::VerifyDetached { .. })));
    assert!(matches!(decode_request(&vec![4u8]), Ok(Request::ListSeeds)));
    assert!(matches!(decode_request(&vec![5u8]), Ok(Request::Lock)));
}

#[test]
fn malformed_requests_are_protocol_errors() {
    let cases: Vec<Vec<u8>> = vec![
        vec![],
        vec![6],
        vec![4, 0],
        vec![0, 5, 0, 0, 0, 0, 0, 0, 0, b'a'],
        {
            let mut v = unlock_bytes(b"x");
            v.push(0);
            v
        },
        {
            let mut v = new_seed_bytes("t", None, false);
            let last = v.len() - 1;
            v[last] = 2;
            v
        },
        {
            let mut v = vec![1u8];
            v.extend(field(&[0xff, 0xfe]));
            v.push(0);
            v.push(0);
            v
        },
        {
            let mut v = new_seed_bytes("t", Some(&[1]), false);
            v.truncate(v.len() - 3);
            v
        },
    ];
    for c in cases {
        assert!(matches!(decode_request(&c), Err(KeystoreError::ProtocolError)), "{:?}", c);
    }
}

#[test]
fn handle_request_round() {
    let mut store = KeyStore::new(300);
    assert!(matches!(handle_request(&mut store, &unlock_bytes(b"pw"), 0), Response::Unlocked));
    let blob = store.sealed_store();
    let r = handle_request(&mut store, &vec![9, 9, 9], 1);
    assert!(matches!(r, Response::Error(KeystoreError::ProtocolError)));
    assert_eq!(store.sealed_store(), blob);
    assert_eq!(store.seed_count(), 0);
    assert!(matches!(store.session_state(), SessionState::Unlocked { .. }));
    let r = handle_request(&mut store, &new_seed_bytes("agent-1", None, false), 2);
    match r {
        Response::SeedCreated(e) => assert_eq!(e.public_key.len(), 32),
        _ => panic!("seed not created"),
    }
    assert_eq!(store.seed_count(), 1);
}

#[test]
fn encode_each_response() {
    assert_eq!(encode_response(&Response::Unlocked), vec![0, 0]);
    assert_eq!(encode_response(&Response::Locked), vec![0, 5]);
    assert_eq!(encode_response(&Response::Verified(true)), vec![0, 3, 1]);
    assert_eq!(encode_response(&Response::Verified(false)), vec![0, 3, 0]);
    let mut locked = vec![1u8, 3];
    locked.extend(field(b"the session is locked"));
    assert_eq!(encode_response(&Response::Error(KeystoreError::LockedError)), locked);
    let mut protocol = vec![1u8, 1];
    protocol.extend(field(b"the request could not be decoded"));
    assert_eq!(encode_response(&Response::Error(KeystoreError::ProtocolError)), protocol);
    assert_eq!(encode_response(&Response::Error(KeystoreError::InternalError))[..2], [1u8, 8]);
    assert_eq!(KeystoreError::CorruptStoreError.message(), "the sealed store failed its integrity check");
    assert_eq!(
        encode_response(&Response::Signature(vec![9, 8])),
        vec![0, 2, 2, 0, 0, 0, 0, 0, 0, 0, 9, 8]
    );
    assert_eq!(encode_response(&Response::Seeds(vec![])), vec![0, 4, 0, 0, 0, 0, 0, 0, 0, 0]);
    let mut store = KeyStore::new(300);
    handle_request(&mut store, &unlock_bytes(b"pw"), 0);
    let e = match handle_request(&mut store, &new_seed_bytes("ab", Some(&[2]), true), 1) {
        Response::SeedCreated(e) => e,
        _ => panic!("seed not created"),
    };
    let bytes = encode_response(&Response::SeedCreated(e));
    let mut expected = vec![0u8, 1];
    expected.extend(field(b"ab"));
    expected.extend(1u64.to_le_bytes());
    expected.extend(2u64.to_le_bytes());
    expected.extend(&bytes[2 + 10 + 16..2 + 10 + 16 + 32]);
    expected.extend(1u64.to_le_bytes());
    expected.push(1);
    assert_eq!(bytes, expected);
}
