//! The byte encoding of client requests, and the handling of one request as
//! it arrives on a connection.
//!
//! A request is an operation byte followed by its fields: `0` unlock
//! (passphrase), `1` new_seed (tag, optional path, exportable byte),
//! `2` sign_by_pub_key (public key, optional path hint, message),
//! `3` verify_detached (public key, signature, message), `4` list_seeds,
//! `5` lock. A byte field is its length (8 bytes, little-endian) and its bytes;
//! a tag is a byte field of UTF-8; an optional path is `0`, or `1` followed by
//! the segment count and the segments (8 bytes each).
use crate::bytes::slice_bytes;
use crate::error::{error_message, KeystoreError};
use crate::keystore::{vec_opt_view, KeyStore};
use crate::server::{dispatch, is_error, Request, Response};
use crate::bytes::append_bytes;
use crate::table::{
    lemma_path_bytes_index, lemma_path_bytes_len, lemma_u64_le_inverse, le_u64, encode_entry, entries_bytes, entry_bytes, entry_views, path_bytes, push_u64, read_u64,
    string_from_utf8, u64_le,
};
use vstd::prelude::*;
use vstd::string::StrSliceExecFns;
use vstd::utf8::{encode_utf8, valid_utf8};

verus! {

/// A byte field: its length, then its bytes.
pub open spec fn field_bytes(x: Seq<u8>) -> Seq<u8> {
    u64_le(x.len() as u64) + x
}

/// An optional path: a marker byte, then the count and the segments.
pub open spec fn opt_path_bytes(p: Option<Seq<u64>>) -> Seq<u8> {
    match p {
        None => seq![0u8],
        Some(p) => seq![1u8] + u64_le(p.len() as u64) + path_bytes(p),
    }
}

/// The bytes of a request.
pub open spec fn request_bytes(r: Request) -> Seq<u8> {
    match r {
        Request::Unlock { passphrase } => seq![0u8] + field_bytes(passphrase@),
        Request::NewSeed { tag, derivation_path, exportable } => seq![1u8] + field_bytes(
            encode_utf8(tag@),
        ) + opt_path_bytes(vec_opt_view(&derivation_path)) + seq![
            if exportable {
                1u8
            } else {
                0u8
            },
        ],
        Request::SignByPubKey { public_key, derivation_hint, message } => seq![2u8] + field_bytes(
            public_key@,
        ) + opt_path_bytes(vec_opt_view(&derivation_hint)) + field_bytes(message@),
        Request::VerifyDetached { public_key, signature, message } => seq![3u8] + field_bytes(
            public_key@,
        ) + field_bytes(signature@) + field_bytes(message@),
        Request::ListSeeds => seq![4u8],
        Request::Lock => seq![5u8],
    }
}

/// The byte field `x` stands at offset `at` of `b`.
pub open spec fn field_at(b: Seq<u8>, at: int, x: Seq<u8>) -> bool {
    &&& x.len() <= u64::MAX
    &&& 0 <= at
    &&& at + 8 + x.len() <= b.len()
    &&& b.subrange(at, at + 8 + x.len()) == field_bytes(x)
}

proof fn lemma_field_at(b: Seq<u8>, at: int, x: Seq<u8>)
    requires
        field_at(b, at, x),
    ensures
        le_u64(b.subrange(at, at + 8)) == x.len(),
        b.subrange(at + 8, at + 8 + x.len()) == x,
{
    assert(b.subrange(at, at + 8) =~= field_bytes(x).subrange(0, 8));
    assert(field_bytes(x).subrange(0, 8) =~= u64_le(x.len() as u64));
    assert(b.subrange(at + 8, at + 8 + x.len()) =~= field_bytes(x).subrange(8, 8 + x.len() as int));
    assert(field_bytes(x).subrange(8, 8 + x.len() as int) =~= x);
    lemma_u64_le_inverse(x.len() as u64);
}

fn read_field(b: &Vec<u8>, at: usize) -> (r: Option<(Vec<u8>, usize)>)
    requires
        at <= b@.len(),
    ensures
        r matches Some((x, end)) ==> at <= end <= b@.len() && b@.subrange(at as int, end as int)
            == field_bytes(x@),
        forall|x: Seq<u8>|
            #[trigger] field_at(b@, at as int, x) ==> (r matches Some((y, end)) && y@ == x && end
                == at + 8 + x.len()),
{
    let n = b.len();
    if n - at < 8 {
        return None;
    }
    let len = read_u64(b, at);
    let start = at + 8;
    if len > (n - start) as u64 {
        assert forall|x: Seq<u8>| !#[trigger] field_at(b@, at as int, x) by {
            if field_at(b@, at as int, x) {
                lemma_field_at(b@, at as int, x);
            }
        }
        return None;
    }
    let end = start + len as usize;
    let x = slice_bytes(b, start, end);
    assert(b@.subrange(at as int, end as int) =~= b@.subrange(at as int, at + 8) + x@);
    assert forall|y: Seq<u8>| #[trigger] field_at(b@, at as int, y) implies x@ == y && end == at + 8
        + y.len() by {
        lemma_field_at(b@, at as int, y);
    }
    Some((x, end))
}

/// The length of an optional path's bytes.
pub open spec fn opt_path_len(p: Option<Seq<u64>>) -> int {
    match p {
        None => 1,
        Some(p) => 9 + 8 * p.len() as int,
    }
}

/// The optional path `p` stands at offset `at` of `b`.
pub open spec fn opt_path_at(b: Seq<u8>, at: int, p: Option<Seq<u64>>) -> bool {
    &&& (p matches Some(q) ==> q.len() <= u64::MAX)
    &&& 0 <= at
    &&& at + opt_path_len(p) <= b.len()
    &&& b.subrange(at, at + opt_path_len(p)) == opt_path_bytes(p)
}

proof fn lemma_opt_path_at(b: Seq<u8>, at: int, p: Option<Seq<u64>>)
    requires
        opt_path_at(b, at, p),
    ensures
        b[at] == (if p is Some { 1u8 } else { 0u8 }),
        p matches Some(q) ==> le_u64(b.subrange(at + 1, at + 9)) == q.len() && b.subrange(
            at + 9,
            at + 9 + 8 * q.len(),
        ) == path_bytes(q),
{
    let s = opt_path_bytes(p);
    assert(b[at] == b.subrange(at, at + opt_path_len(p))[0]);
    if let Some(q) = p {
        lemma_path_bytes_len(q);
        assert(b.subrange(at + 1, at + 9) =~= s.subrange(1, 9));
        assert(s.subrange(1, 9) =~= u64_le(q.len() as u64));
        assert(b.subrange(at + 9, at + 9 + 8 * q.len()) =~= s.subrange(9, 9 + 8 * q.len() as int));
        assert(s.subrange(9, 9 + 8 * q.len() as int) =~= path_bytes(q));
        lemma_u64_le_inverse(q.len() as u64);
    }
}

fn read_opt_path(b: &Vec<u8>, at: usize) -> (r: Option<(Option<Vec<u64>>, usize)>)
    requires
        at <= b@.len(),
    ensures
        r matches Some((p, end)) ==> at <= end <= b@.len() && b@.subrange(at as int, end as int)
            == opt_path_bytes(vec_opt_view(&p)),
        forall|p: Option<Seq<u64>>|
            #[trigger] opt_path_at(b@, at as int, p) ==> (r matches Some((q, end)) && vec_opt_view(&q)
                == p && end == at + opt_path_len(p)),
{
    let n = b.len();
    if at >= n {
        return None;
    }
    if b[at] == 0 {
        assert(b@.subrange(at as int, at + 1) =~= seq![0u8]);
        assert forall|p: Option<Seq<u64>>| #[trigger] opt_path_at(b@, at as int, p) implies p is None by {
            lemma_opt_path_at(b@, at as int, p);
        }
        return Some((None, at + 1));
    }
    if b[at] != 1 || n - (at + 1) < 8 {
        assert forall|p: Option<Seq<u64>>| !#[trigger] opt_path_at(b@, at as int, p) by {
            if opt_path_at(b@, at as int, p) {
                lemma_opt_path_at(b@, at as int, p);
            }
        }
        return None;
    }
    let count = read_u64(b, at + 1);
    let mut pos = at + 9;
    let path_start = pos;
    let mut path: Vec<u64> = Vec::new();
    let mut k: u64 = 0;
    assert forall|p: Option<Seq<u64>>| #[trigger] opt_path_at(b@, at as int, p) implies (p matches Some(
        q,
    ) && path@ == q.take(0)) by {
        lemma_opt_path_at(b@, at as int, p);
        if let Some(q) = p {
            assert(path@ =~= q.take(0));
        }
    }
    while k < count
        invariant
            at + 9 == path_start <= pos <= n,
            n == b@.len(),
            k <= count,
            path@.len() == k,
            path_bytes(path@) == b@.subrange(path_start as int, pos as int),
            pos as int == path_start + 8 * k,
            count == le_u64(b@.subrange(at + 1, at + 9)),
            b@[at as int] == 1,
            forall|p: Option<Seq<u64>>|
                #[trigger] opt_path_at(b@, at as int, p) ==> (p matches Some(q) && path@ == q.take(
                    k as int,
                )),
        decreases count - k,
    {
        if n - pos < 8 {
            assert forall|p: Option<Seq<u64>>| !#[trigger] opt_path_at(b@, at as int, p) by {
                if opt_path_at(b@, at as int, p) {
                    lemma_opt_path_at(b@, at as int, p);
                }
            }
            return None;
        }
        let seg = read_u64(b, pos);
        let ghost before = path@;
        path.push(seg);
        assert(path@.drop_last() =~= before);
        assert forall|p: Option<Seq<u64>>| #[trigger] opt_path_at(b@, at as int, p) implies (p matches Some(
            q,
        ) && path@ == q.take(k as int + 1)) by {
            lemma_opt_path_at(b@, at as int, p);
            let q = p->Some_0;
            lemma_path_bytes_index(q, k as int);
            assert(b@.subrange(pos as int, pos + 8) =~= b@.subrange(at + 9, at + 9 + 8 * q.len()).subrange(
                8 * k,
                8 * k + 8,
            ));
            lemma_u64_le_inverse(q[k as int]);
            assert(path@ =~= q.take(k as int + 1));
        }
        pos = pos + 8;
        assert(b@.subrange(path_start as int, pos as int) =~= b@.subrange(
            path_start as int,
            pos - 8,
        ) + b@.subrange(pos - 8, pos as int));
        k = k + 1;
    }
    assert(b@.subrange(at as int, pos as int) =~= seq![1u8] + b@.subrange(at + 1, at + 9)
        + b@.subrange(path_start as int, pos as int));
    assert forall|p: Option<Seq<u64>>| #[trigger] opt_path_at(b@, at as int, p) implies vec_opt_view(
        &Some(path),
    ) == p && pos == at + opt_path_len(p) by {
        lemma_opt_path_at(b@, at as int, p);
        let q = p->Some_0;
        assert(q.take(k as int) =~= q);
    }
    Some((Some(path), pos))
}

/// `b` is the request `req`, with lengths that fit the 8-byte length fields.
pub open spec fn request_ok(req: Request, b: Seq<u8>) -> bool {
    &&& request_bytes(req) == b
    &&& match req {
        Request::Unlock { passphrase } => passphrase@.len() <= u64::MAX,
        Request::NewSeed { tag, derivation_path, .. } => encode_utf8(tag@).len() <= u64::MAX
            && (vec_opt_view(&derivation_path) matches Some(q) ==> q.len() <= u64::MAX),
        Request::SignByPubKey { public_key, derivation_hint, message } => public_key@.len()
            <= u64::MAX && message@.len() <= u64::MAX && (vec_opt_view(&derivation_hint) matches Some(
            q,
        ) ==> q.len() <= u64::MAX),
        Request::VerifyDetached { public_key, signature, message } => public_key@.len() <= u64::MAX
            && signature@.len() <= u64::MAX && message@.len() <= u64::MAX,
        _ => true,
    }
}

proof fn lemma_opt_path_bytes_len(p: Option<Seq<u64>>)
    ensures
        opt_path_bytes(p).len() == opt_path_len(p),
{
    if let Some(q) = p {
        lemma_path_bytes_len(q);
    }
}

/// What a request's bytes hold at each offset.
pub open spec fn request_facts(req: Request, b: Seq<u8>) -> bool {
    match req {
        Request::Unlock { passphrase } => b[0] == 0 && field_at(b, 1, passphrase@) && b.len()
            == 9 + passphrase@.len(),
        Request::NewSeed { tag, derivation_path, exportable } => {
            let t = encode_utf8(tag@).len() as int;
            let o = opt_path_len(vec_opt_view(&derivation_path));
            &&& b[0] == 1
            &&& field_at(b, 1, encode_utf8(tag@))
            &&& valid_utf8(encode_utf8(tag@))
            &&& opt_path_at(b, 9 + t, vec_opt_view(&derivation_path))
            &&& b.len() == 10 + t + o
            &&& b[9 + t + o] == (if exportable { 1u8 } else { 0u8 })
        },
        Request::SignByPubKey { public_key, derivation_hint, message } => {
            let l = public_key@.len() as int;
            let o = opt_path_len(vec_opt_view(&derivation_hint));
            &&& b[0] == 2
            &&& field_at(b, 1, public_key@)
            &&& opt_path_at(b, 9 + l, vec_opt_view(&derivation_hint))
            &&& field_at(b, 9 + l + o, message@)
            &&& b.len() == 17 + l + o + message@.len()
        },
        Request::VerifyDetached { public_key, signature, message } => {
            let l = public_key@.len() as int;
            let g = signature@.len() as int;
            &&& b[0] == 3
            &&& field_at(b, 1, public_key@)
            &&& field_at(b, 9 + l, signature@)
            &&& field_at(b, 17 + l + g, message@)
            &&& b.len() == 25 + l + g + message@.len()
        },
        Request::ListSeeds => b[0] == 4 && b.len() == 1,
        Request::Lock => b[0] == 5 && b.len() == 1,
    }
}

proof fn lemma_request_parts(req: Request, b: Seq<u8>)
    requires
        request_ok(req, b),
    ensures
        request_facts(req, b),
{
    match req {
        Request::Unlock { passphrase } => {
            assert(b.subrange(1, 9 + passphrase@.len() as int) =~= field_bytes(passphrase@));
        },
        Request::NewSeed { tag, derivation_path, exportable } => {
            let t = encode_utf8(tag@).len() as int;
            let p = vec_opt_view(&derivation_path);
            lemma_opt_path_bytes_len(p);
            let o = opt_path_len(p);
            vstd::utf8::encode_utf8_valid_utf8(tag@);
            assert(b.subrange(1, 9 + t) =~= field_bytes(encode_utf8(tag@)));
            assert(b.subrange(9 + t, 9 + t + o) =~= opt_path_bytes(p));
        },
        Request::SignByPubKey { public_key, derivation_hint, message } => {
            let l = public_key@.len() as int;
            let p = vec_opt_view(&derivation_hint);
            lemma_opt_path_bytes_len(p);
            let o = opt_path_len(p);
            assert(b.subrange(1, 9 + l) =~= field_bytes(public_key@));
            assert(b.subrange(9 + l, 9 + l + o) =~= opt_path_bytes(p));
            assert(b.subrange(9 + l + o, b.len() as int) =~= field_bytes(message@));
        },
        Request::VerifyDetached { public_key, signature, message } => {
            let l = public_key@.len() as int;
            let g = signature@.len() as int;
            assert(b.subrange(1, 9 + l) =~= field_bytes(public_key@));
            assert(b.subrange(9 + l, 17 + l + g) =~= field_bytes(signature@));
            assert(b.subrange(17 + l + g, b.len() as int) =~= field_bytes(message@));
        },
        _ => {},
    }
}

/// Reads a request; bytes that are not exactly one request give `ProtocolError`.
pub fn decode_request(b: &Vec<u8>) -> (r: Result<Request, KeystoreError>)
    ensures
        r matches Ok(req) ==> request_bytes(req) == b@,
        r matches Err(e) ==> e == KeystoreError::ProtocolError,
        forall|req: Request| #[trigger] request_ok(req, b@) ==> r is Ok,
{
    proof {
        assert forall|req: Request| #[trigger] request_ok(req, b@) implies request_facts(req, b@) by {
            lemma_request_parts(req, b@);
        }
    }
    let n = b.len();
    if n == 0 {
        return Err(KeystoreError::ProtocolError);
    }
    let op = b[0];
    if op == 0 {
        let (passphrase, end) = match read_field(b, 1) {
            Some(x) => x,
            None => {
                return Err(KeystoreError::ProtocolError);
            },
        };
        if end != n {
            return Err(KeystoreError::ProtocolError);
        }
        let req = Request::Unlock { passphrase };
        assert(b@ =~= seq![0u8] + b@.subrange(1, end as int));
        Ok(req)
    } else if op == 1 {
        let (tag_bytes, p1) = match read_field(b, 1) {
            Some(x) => x,
            None => {
                return Err(KeystoreError::ProtocolError);
            },
        };
        let ghost tag_seq = tag_bytes@;
        let tag = match string_from_utf8(tag_bytes) {
            Some(t) => t,
            None => {
                return Err(KeystoreError::ProtocolError);
            },
        };
        let (derivation_path, p2) = match read_opt_path(b, p1) {
            Some(x) => x,
            None => {
                return Err(KeystoreError::ProtocolError);
            },
        };
        if p2 >= n || p2 + 1 != n || b[p2] > 1 {
            return Err(KeystoreError::ProtocolError);
        }
        let exportable = b[p2] == 1;
        let req = Request::NewSeed { tag, derivation_path, exportable };
        assert(b@ =~= seq![1u8] + b@.subrange(1, p1 as int) + b@.subrange(p1 as int, p2 as int)
            + seq![b@[p2 as int]]);
        Ok(req)
    } else if op == 2 {
        let (public_key, p1) = match read_field(b, 1) {
            Some(x) => x,
            None => {
                return Err(KeystoreError::ProtocolError);
            },
        };
        let (derivation_hint, p2) = match read_opt_path(b, p1) {
            Some(x) => x,
            None => {
                return Err(KeystoreError::ProtocolError);
            },
        };
        let (message, p3) = match read_field(b, p2) {
            Some(x) => x,
            None => {
                return Err(KeystoreError::ProtocolError);
            },
        };
        if p3 != n {
            return Err(KeystoreError::ProtocolError);
        }
        let req = Request::SignByPubKey { public_key, derivation_hint, message };
        assert(b@ =~= seq![2u8] + b@.subrange(1, p1 as int) + b@.subrange(p1 as int, p2 as int)
            + b@.subrange(p2 as int, p3 as int));
        Ok(req)
    } else if op == 3 {
        let (public_key, p1) = match read_field(b, 1) {
            Some(x) => x,
            None => {
                return Err(KeystoreError::ProtocolError);
            },
        };
        let (signature, p2) = match read_field(b, p1) {
            Some(x) => x,
            None => {
                return Err(KeystoreError::ProtocolError);
            },
        };
        let (message, p3) = match read_field(b, p2) {
            Some(x) => x,
            None => {
                return Err(KeystoreError::ProtocolError);
            },
        };
        if p3 != n {
            return Err(KeystoreError::ProtocolError);
        }
        let req = Request::VerifyDetached { public_key, signature, message };
        assert(b@ =~= seq![3u8] + b@.subrange(1, p1 as int) + b@.subrange(p1 as int, p2 as int)
            + b@.subrange(p2 as int, p3 as int));
        Ok(req)
    } else if op == 4 && n == 1 {
        assert(b@ =~= seq![4u8]);
        Ok(Request::ListSeeds)
    } else if op == 5 && n == 1 {
        assert(b@ =~= seq![5u8]);
        Ok(Request::Lock)
    } else {
        Err(KeystoreError::ProtocolError)
    }
}

/// Handles one request as it arrives on a connection. Bytes that are not a
/// request get a `ProtocolError` response and leave the store as it was; bytes
/// that encode a request never do, and any other response comes from a
/// request that the bytes encode.
pub fn handle_request(store: &mut KeyStore, bytes: &Vec<u8>, now: u64) -> (r: Response)
    requires
        old(store).wf(),
    ensures
        final(store).wf(),
        is_error(r, KeystoreError::ProtocolError) ==> {
            &&& final(store).session_view() == old(store).session_view()
            &&& final(store).master_view() == old(store).master_view()
            &&& final(store).entries_view() == old(store).entries_view()
            &&& final(store).sealed_view() == old(store).sealed_view()
        },
        !is_error(r, KeystoreError::ProtocolError) ==> exists|req: Request| request_bytes(req) == bytes@,
        forall|req: Request| #[trigger] request_ok(req, bytes@) ==> !is_error(r, KeystoreError::ProtocolError),
{
    match decode_request(bytes) {
        Ok(req) => {
            let ghost decoded = req;
            let r = dispatch(store, req, now);
            assert(request_bytes(decoded) == bytes@);
            r
        },
        Err(e) => Response::Error(e),
    }
}

/// The code of an error kind on the wire.
pub open spec fn error_code(e: KeystoreError) -> u8 {
    match e {
        KeystoreError::ConnectionError => 0,
        KeystoreError::ProtocolError => 1,
        KeystoreError::WrongPassphraseError => 2,
        KeystoreError::LockedError => 3,
        KeystoreError::DuplicateTagError => 4,
        KeystoreError::UnknownKeyError => 5,
        KeystoreError::MalformedSignatureError => 6,
        KeystoreError::CorruptStoreError => 7,
        KeystoreError::InternalError => 8,
    }
}

fn error_code_of(e: KeystoreError) -> (r: u8)
    ensures
        r == error_code(e),
{
    match e {
        KeystoreError::ConnectionError => 0,
        KeystoreError::ProtocolError => 1,
        KeystoreError::WrongPassphraseError => 2,
        KeystoreError::LockedError => 3,
        KeystoreError::DuplicateTagError => 4,
        KeystoreError::UnknownKeyError => 5,
        KeystoreError::MalformedSignatureError => 6,
        KeystoreError::CorruptStoreError => 7,
        KeystoreError::InternalError => 8,
    }
}

/// The bytes of a response: a success byte `0` and the payload, or `1`, the
/// error code and the error's message as a UTF-8 byte field. Payloads:
/// unlocked `0`; a created seed `1` and the entry; a signature `2` and a byte
/// field; a verification `3` and `0`/`1`; a list `4`, the count and the
/// entries; locked `5`.
pub open spec fn response_bytes(r: Response) -> Seq<u8> {
    match r {
        Response::Unlocked => seq![0u8, 0u8],
        Response::SeedCreated(e) => seq![0u8, 1u8] + entry_bytes(e@),
        Response::Signature(sig) => seq![0u8, 2u8] + field_bytes(sig@),
        Response::Verified(b) => seq![0u8, 3u8, if b { 1u8 } else { 0u8 }],
        Response::Seeds(es) => seq![0u8, 4u8] + u64_le(es@.len() as u64) + entries_bytes(
            entry_views(es@),
        ),
        Response::Locked => seq![0u8, 5u8],
        Response::Error(e) => seq![1u8, error_code(e)] + field_bytes(encode_utf8(error_message(e))),
    }
}

/// Writes a response as bytes.
pub fn encode_response(r: &Response) -> (out: Vec<u8>)
    ensures
        out@ == response_bytes(*r),
{
    let mut out: Vec<u8> = Vec::new();
    match r {
        Response::Unlocked => {
            out.push(0u8);
            out.push(0u8);
        },
        Response::SeedCreated(e) => {
            out.push(0u8);
            out.push(1u8);
            encode_entry(&mut out, e);
        },
        Response::Signature(sig) => {
            out.push(0u8);
            out.push(2u8);
            push_u64(&mut out, sig.len() as u64);
            append_bytes(&mut out, sig);
        },
        Response::Verified(b) => {
            out.push(0u8);
            out.push(3u8);
            out.push(if *b { 1u8 } else { 0u8 });
        },
        Response::Seeds(es) => {
            out.push(0u8);
            out.push(4u8);
            push_u64(&mut out, es.len() as u64);
            let ghost start = out@;
            let mut i: usize = 0;
            while i < es.len()
                invariant
                    0 <= i <= es@.len(),
                    out@ == start + entries_bytes(entry_views(es@).take(i as int)),
                decreases es@.len() - i,
            {
                encode_entry(&mut out, &es[i]);
                assert(entry_views(es@).take(i as int + 1).drop_last() =~= entry_views(es@).take(
                    i as int,
                ));
                assert(out@ =~= start + entries_bytes(entry_views(es@).take(i as int + 1)));
                i = i + 1;
            }
            assert(entry_views(es@).take(i as int) =~= entry_views(es@));
        },
        Response::Locked => {
            out.push(0u8);
            out.push(5u8);
        },
        Response::Error(e) => {
            out.push(1u8);
            out.push(error_code_of(*e));
            let text = e.message().as_str().as_bytes_vec();
            push_u64(&mut out, text.len() as u64);
            append_bytes(&mut out, &text);
        },
    }
    assert(out@ =~= response_bytes(*r));
    out
}

} // verus!
