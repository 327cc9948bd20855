//! Deterministic derivation of seed material from the master seed along a path.
use crate::crypto::{derive_from_key, kdf_subkey, KDF_CONTEXT_BYTES, KEY_BYTES};
use crate::error::KeystoreError;
use vstd::prelude::*;

verus! {

/// The context bytes under which every path segment is derived ("SeedDerv").
pub open spec fn kdf_context() -> Seq<u8> {
    seq![83u8, 101u8, 101u8, 100u8, 68u8, 101u8, 114u8, 118u8]
}

/// The seed material at `path` below `master`: each segment derives a subkey of
/// the material at the path before it.
pub open spec fn derived_seed(master: Seq<u8>, path: Seq<u64>) -> Seq<u8>
    decreases path.len(),
{
    if path.len() == 0 {
        master
    } else {
        kdf_subkey(derived_seed(master, path.drop_last()), path.last(), kdf_context())
    }
}

fn kdf_context_bytes() -> (r: Vec<u8>)
    ensures
        r@ == kdf_context(),
        r@.len() == KDF_CONTEXT_BYTES,
{
    let mut r: Vec<u8> = Vec::new();
    r.push(83u8);
    r.push(101u8);
    r.push(101u8);
    r.push(100u8);
    r.push(68u8);
    r.push(101u8);
    r.push(114u8);
    r.push(118u8);
    assert(r@ =~= kdf_context());
    r
}

/// Derives the 32-byte seed material at `path` below `master`.
pub fn derive_seed(master: &Vec<u8>, path: &Vec<u64>) -> (r: Result<Vec<u8>, KeystoreError>)
    requires
        master@.len() == KEY_BYTES,
    ensures
        r is Ok,
        r matches Ok(s) ==> s@ == derived_seed(master@, path@) && s@.len() == KEY_BYTES,
{
    let context = kdf_context_bytes();
    let mut current: Vec<u8> = master.clone();
    assert(current@ =~= master@);
    let mut i: usize = 0;
    while i < path.len()
        invariant
            0 <= i <= path@.len(),
            context@ == kdf_context(),
            context@.len() == KDF_CONTEXT_BYTES,
            current@.len() == KEY_BYTES,
            current@ == derived_seed(master@, path@.take(i as int)),
        decreases path@.len() - i,
    {
        let next = match derive_from_key(&current, path[i], &context) {
            Ok(sub) => sub,
            Err(_) => {
                return Err(KeystoreError::InternalError);
            },
        };
        assert(path@.take(i as int + 1).drop_last() =~= path@.take(i as int));
        current = next;
        i = i + 1;
    }
    assert(path@.take(path@.len() as int) =~= path@);
    Ok(current)
}

} // verus!
