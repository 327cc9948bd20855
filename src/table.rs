//! The byte encoding of the seed table that is sealed beside the master seed.
//!
//! A table is `next_index (8) | count (8) | entry*`, and an entry is
//! `tag length (8) | tag (UTF-8) | path length (8) | path segments (8 each) |
//! public key (32) | created_at (8) | exportable (1)`; integers are little-endian.
use crate::bytes::{append_bytes, slice_bytes};
use crate::crypto::KEY_BYTES;
use crate::keystore::{SeedEntry, SeedEntryView};
use vstd::prelude::*;
use vstd::string::StrSliceExecFns;
use vstd::utf8::{encode_utf8, valid_utf8};

verus! {

/// The eight little-endian bytes of `x`.
pub open spec fn u64_le(x: u64) -> Seq<u8> {
    seq![
        x as u8,
        (x >> 8u64) as u8,
        (x >> 16u64) as u8,
        (x >> 24u64) as u8,
        (x >> 32u64) as u8,
        (x >> 40u64) as u8,
        (x >> 48u64) as u8,
        (x >> 56u64) as u8,
    ]
}

/// The integer whose little-endian bytes are the first eight of `b`.
pub open spec fn le_u64(b: Seq<u8>) -> u64 {
    (b[0] as u64) | ((b[1] as u64) << 8u64) | ((b[2] as u64) << 16u64) | ((b[3] as u64) << 24u64)
        | ((b[4] as u64) << 32u64) | ((b[5] as u64) << 40u64) | ((b[6] as u64) << 48u64) | ((
    b[7] as u64) << 56u64)
}

proof fn lemma_le_u64_bytes(b: Seq<u8>)
    requires
        b.len() == 8,
    ensures
        u64_le(le_u64(b)) == b,
{
    let (b0, b1, b2, b3, b4, b5, b6, b7) = (b[0], b[1], b[2], b[3], b[4], b[5], b[6], b[7]);
    let x = le_u64(b);
    assert(x == (b0 as u64) | ((b1 as u64) << 8u64) | ((b2 as u64) << 16u64) | ((b3 as u64)
        << 24u64) | ((b4 as u64) << 32u64) | ((b5 as u64) << 40u64) | ((b6 as u64) << 48u64) | ((
    b7 as u64) << 56u64));
    assert(x as u8 == b0 && (x >> 8u64) as u8 == b1 && (x >> 16u64) as u8 == b2 && (x >> 24u64) as u8
        == b3 && (x >> 32u64) as u8 == b4 && (x >> 40u64) as u8 == b5 && (x >> 48u64) as u8 == b6
        && (x >> 56u64) as u8 == b7) by (bit_vector)
        requires
            x == (b0 as u64) | ((b1 as u64) << 8u64) | ((b2 as u64) << 16u64) | ((b3 as u64)
                << 24u64) | ((b4 as u64) << 32u64) | ((b5 as u64) << 40u64) | ((b6 as u64)
                << 48u64) | ((b7 as u64) << 56u64),
    ;
    assert(u64_le(x) =~= b);
}

/// The bytes of a derivation path: each segment in turn.
pub open spec fn path_bytes(p: Seq<u64>) -> Seq<u8>
    decreases p.len(),
{
    if p.len() == 0 {
        Seq::empty()
    } else {
        path_bytes(p.drop_last()) + u64_le(p.last())
    }
}

/// The bytes of one entry.
pub open spec fn entry_bytes(e: SeedEntryView) -> Seq<u8> {
    let tag = encode_utf8(e.tag);
    u64_le(tag.len() as u64) + tag + u64_le(e.derivation_path.len() as u64) + path_bytes(
        e.derivation_path,
    ) + e.public_key + u64_le(e.created_at) + seq![if e.exportable { 1u8 } else { 0u8 }]
}

/// The bytes of a sequence of entries: each entry in turn.
pub open spec fn entries_bytes(es: Seq<SeedEntryView>) -> Seq<u8>
    decreases es.len(),
{
    if es.len() == 0 {
        Seq::empty()
    } else {
        entries_bytes(es.drop_last()) + entry_bytes(es.last())
    }
}

/// The bytes of a table: the next free index, the count, and the entries.
pub open spec fn table_bytes(next_index: u64, es: Seq<SeedEntryView>) -> Seq<u8> {
    u64_le(next_index) + u64_le(es.len() as u64) + entries_bytes(es)
}

pub proof fn lemma_path_bytes_len(p: Seq<u64>)
    ensures
        path_bytes(p).len() == 8 * p.len(),
    decreases p.len(),
{
    if p.len() > 0 {
        lemma_path_bytes_len(p.drop_last());
    }
}

/// The length of an entry's bytes.
pub open spec fn entry_len(e: SeedEntryView) -> nat {
    8 + encode_utf8(e.tag).len() + 8 + 8 * e.derivation_path.len() + e.public_key.len() + 8 + 1
}

/// Appending an entry to a table adds the entry's length, whatever the next index.
pub proof fn lemma_table_push_len(n1: u64, n2: u64, es: Seq<SeedEntryView>, e: SeedEntryView)
    ensures
        table_bytes(n2, es.push(e)).len() == table_bytes(n1, es).len() + entry_len(e),
{
    lemma_path_bytes_len(e.derivation_path);
    assert(es.push(e).drop_last() =~= es);
}

pub proof fn lemma_u64_le_inverse(x: u64)
    ensures
        le_u64(u64_le(x)) == x,
{
    assert((((x as u8) as u64) | (((x >> 8u64) as u8) as u64) << 8u64 | (((x >> 16u64) as u8) as u64)
        << 16u64 | (((x >> 24u64) as u8) as u64) << 24u64 | (((x >> 32u64) as u8) as u64) << 32u64 | (((x
        >> 40u64) as u8) as u64) << 40u64 | (((x >> 48u64) as u8) as u64) << 48u64 | (((x >> 56u64) as u8)
        as u64) << 56u64) == x) by (bit_vector);
}

pub proof fn lemma_path_bytes_index(p: Seq<u64>, k: int)
    requires
        0 <= k < p.len(),
    ensures
        path_bytes(p).subrange(8 * k, 8 * k + 8) == u64_le(p[k]),
    decreases p.len(),
{
    lemma_path_bytes_len(p.drop_last());
    if k == p.len() - 1 {
        assert(path_bytes(p).subrange(8 * k, 8 * k + 8) =~= u64_le(p[k]));
    } else {
        lemma_path_bytes_index(p.drop_last(), k);
        assert(path_bytes(p).subrange(8 * k, 8 * k + 8) =~= path_bytes(p.drop_last()).subrange(
            8 * k,
            8 * k + 8,
        ));
    }
}

/// `e` is written at offset `at` of `b`, with a 32-byte key.
pub open spec fn entry_at(b: Seq<u8>, at: int, e: SeedEntryView) -> bool {
    &&& e.public_key.len() == KEY_BYTES
    &&& encode_utf8(e.tag).len() <= u64::MAX
    &&& e.derivation_path.len() <= u64::MAX
    &&& 0 <= at
    &&& at + entry_len(e) <= b.len()
    &&& b.subrange(at, at + entry_len(e)) == entry_bytes(e)
}

proof fn lemma_entry_at_parts(b: Seq<u8>, at: int, e: SeedEntryView)
    requires
        entry_at(b, at, e),
    ensures
        ({
            let t = encode_utf8(e.tag).len() as int;
            let p = e.derivation_path.len() as int;
            &&& b.subrange(at, at + 8) == u64_le(t as u64)
            &&& b.subrange(at + 8, at + 8 + t) == encode_utf8(e.tag)
            &&& b.subrange(at + 8 + t, at + 16 + t) == u64_le(p as u64)
            &&& b.subrange(at + 16 + t, at + 16 + t + 8 * p) == path_bytes(e.derivation_path)
            &&& b.subrange(at + 16 + t + 8 * p, at + 48 + t + 8 * p) == e.public_key
            &&& b.subrange(at + 48 + t + 8 * p, at + 56 + t + 8 * p) == u64_le(e.created_at)
            &&& b[at + 56 + t + 8 * p] == (if e.exportable { 1u8 } else { 0u8 })
            &&& entry_len(e) == 57 + t + 8 * p
            &&& le_u64(b.subrange(at, at + 8)) == t
            &&& le_u64(b.subrange(at + 8 + t, at + 16 + t)) == p
            &&& le_u64(b.subrange(at + 48 + t + 8 * p, at + 56 + t + 8 * p)) == e.created_at
            &&& valid_utf8(b.subrange(at + 8, at + 8 + t))
        }),
{
    let t = encode_utf8(e.tag).len() as int;
    let p = e.derivation_path.len() as int;
    lemma_path_bytes_len(e.derivation_path);
    let s = b.subrange(at, at + entry_len(e));
    let eb = entry_bytes(e);
    assert(s == eb);
    assert(b.subrange(at, at + 8) =~= eb.subrange(0, 8));
    assert(eb.subrange(0, 8) =~= u64_le(t as u64));
    assert(b.subrange(at + 8, at + 8 + t) =~= eb.subrange(8, 8 + t));
    assert(eb.subrange(8, 8 + t) =~= encode_utf8(e.tag));
    assert(b.subrange(at + 8 + t, at + 16 + t) =~= eb.subrange(8 + t, 16 + t));
    assert(eb.subrange(8 + t, 16 + t) =~= u64_le(p as u64));
    assert(b.subrange(at + 16 + t, at + 16 + t + 8 * p) =~= eb.subrange(16 + t, 16 + t + 8 * p));
    assert(eb.subrange(16 + t, 16 + t + 8 * p) =~= path_bytes(e.derivation_path));
    assert(b.subrange(at + 16 + t + 8 * p, at + 48 + t + 8 * p) =~= eb.subrange(16 + t + 8 * p, 48 + t + 8 * p));
    assert(eb.subrange(16 + t + 8 * p, 48 + t + 8 * p) =~= e.public_key);
    assert(b.subrange(at + 48 + t + 8 * p, at + 56 + t + 8 * p) =~= eb.subrange(48 + t + 8 * p, 56 + t + 8 * p));
    assert(eb.subrange(48 + t + 8 * p, 56 + t + 8 * p) =~= u64_le(e.created_at));
    assert(b[at + 56 + t + 8 * p] == s[56 + t + 8 * p]);
    lemma_u64_le_inverse(t as u64);
    lemma_u64_le_inverse(p as u64);
    lemma_u64_le_inverse(e.created_at);
    vstd::utf8::encode_utf8_valid_utf8(e.tag);
}

proof fn lemma_entries_bytes_front(es: Seq<SeedEntryView>)
    requires
        es.len() > 0,
    ensures
        entries_bytes(es) == entry_bytes(es[0]) + entries_bytes(es.drop_first()),
    decreases es.len(),
{
    if es.len() > 1 {
        lemma_entries_bytes_front(es.drop_last());
        assert(es.drop_last().drop_first() =~= es.drop_first().drop_last());
        assert(es.drop_first().last() == es.last());
    } else {
        assert(es.drop_last() =~= Seq::<SeedEntryView>::empty());
        assert(es.drop_first() =~= Seq::<SeedEntryView>::empty());
    }
}

/// `b` is the table of `next_index` and `es`, with 32-byte keys and lengths
/// that fit the 8-byte length fields.
pub open spec fn table_ok(b: Seq<u8>, next_index: u64, es: Seq<SeedEntryView>) -> bool {
    &&& b == table_bytes(next_index, es)
    &&& es.len() <= u64::MAX
    &&& forall|i: int|
        0 <= i < es.len() ==> {
            &&& (#[trigger] es[i]).public_key.len() == KEY_BYTES
            &&& encode_utf8(es[i].tag).len() <= u64::MAX
            &&& es[i].derivation_path.len() <= u64::MAX
        }
}

proof fn lemma_table_head(b: Seq<u8>, n2: u64, es: Seq<SeedEntryView>)
    requires
        table_ok(b, n2, es),
    ensures
        le_u64(b.subrange(0, 8)) == n2,
        le_u64(b.subrange(8, 16)) == es.len(),
        b.len() >= 16,
        b.subrange(16, b.len() as int) == entries_bytes(es),
{
    assert(b.subrange(0, 8) =~= u64_le(n2));
    assert(b.subrange(8, 16) =~= u64_le(es.len() as u64));
    assert(b.subrange(16, b.len() as int) =~= entries_bytes(es));
    lemma_u64_le_inverse(n2);
    lemma_u64_le_inverse(es.len() as u64);
}

proof fn lemma_entry_bytes_len(e: SeedEntryView)
    ensures
        entry_bytes(e).len() == entry_len(e),
{
    lemma_path_bytes_len(e.derivation_path);
}

/// The views of a vector of entries.
pub open spec fn entry_views(es: Seq<SeedEntry>) -> Seq<SeedEntryView> {
    es.map_values(|e: SeedEntry| e@)
}

/// Relies on `String::from_utf8`: it succeeds exactly on valid UTF-8, and the
/// string then holds those bytes.
#[verifier::external_body]
pub(crate) fn string_from_utf8(bytes: Vec<u8>) -> (r: Option<String>)
    ensures
        r matches Some(s) ==> encode_utf8(s@) == bytes@,
        r is None <==> !valid_utf8(bytes@),
{
    String::from_utf8(bytes).ok()
}

pub(crate) fn push_u64(out: &mut Vec<u8>, x: u64)
    ensures
        final(out)@ == old(out)@ + u64_le(x),
{
    out.push(x as u8);
    out.push((x >> 8u64) as u8);
    out.push((x >> 16u64) as u8);
    out.push((x >> 24u64) as u8);
    out.push((x >> 32u64) as u8);
    out.push((x >> 40u64) as u8);
    out.push((x >> 48u64) as u8);
    out.push((x >> 56u64) as u8);
    assert(out@ =~= old(out)@ + u64_le(x));
}

pub(crate) fn read_u64(b: &Vec<u8>, at: usize) -> (r: u64)
    requires
        at + 8 <= b@.len(),
    ensures
        r == le_u64(b@.subrange(at as int, at + 8)),
        u64_le(r) == b@.subrange(at as int, at + 8),
{
    let len = b.len();
    assert(at + 8 <= len);
    let r = (b[at] as u64) | ((b[at + 1] as u64) << 8u64) | ((b[at + 2] as u64) << 16u64) | ((b[at
        + 3] as u64) << 24u64) | ((b[at + 4] as u64) << 32u64) | ((b[at + 5] as u64) << 40u64) | ((b[at
        + 6] as u64) << 48u64) | ((b[at + 7] as u64) << 56u64);
    proof {
        lemma_le_u64_bytes(b@.subrange(at as int, at + 8));
    }
    r
}

/// The bytes of one entry.
pub fn encode_entry(out: &mut Vec<u8>, e: &SeedEntry)
    ensures
        final(out)@ == old(out)@ + entry_bytes(e@),
{
    let tag = e.tag.as_str().as_bytes_vec();
    push_u64(out, tag.len() as u64);
    append_bytes(out, &tag);
    push_u64(out, e.derivation_path.len() as u64);
    let ghost start = out@;
    let mut i: usize = 0;
    while i < e.derivation_path.len()
        invariant
            0 <= i <= e.derivation_path@.len(),
            out@ == start + path_bytes(e.derivation_path@.take(i as int)),
        decreases e.derivation_path@.len() - i,
    {
        push_u64(out, e.derivation_path[i]);
        assert(e.derivation_path@.take(i as int + 1).drop_last() =~= e.derivation_path@.take(i as int));
        assert(out@ =~= start + path_bytes(e.derivation_path@.take(i as int + 1)));
        i = i + 1;
    }
    assert(e.derivation_path@.take(i as int) =~= e.derivation_path@);
    append_bytes(out, &e.public_key);
    push_u64(out, e.created_at);
    out.push(if e.exportable { 1u8 } else { 0u8 });
    assert(out@ =~= old(out)@ + entry_bytes(e@));
}

/// The bytes of a table.
pub fn encode_table(next_index: u64, entries: &Vec<SeedEntry>) -> (r: Vec<u8>)
    ensures
        r@ == table_bytes(next_index, entry_views(entries@)),
{
    let mut out: Vec<u8> = Vec::new();
    push_u64(&mut out, next_index);
    push_u64(&mut out, entries.len() as u64);
    let ghost start = out@;
    let mut i: usize = 0;
    while i < entries.len()
        invariant
            0 <= i <= entries@.len(),
            out@ == start + entries_bytes(entry_views(entries@).take(i as int)),
        decreases entries@.len() - i,
    {
        encode_entry(&mut out, &entries[i]);
        assert(entry_views(entries@).take(i as int + 1).drop_last() =~= entry_views(entries@).take(
            i as int,
        ));
        assert(out@ =~= start + entries_bytes(entry_views(entries@).take(i as int + 1)));
        i = i + 1;
    }
    assert(entry_views(entries@).take(i as int) =~= entry_views(entries@));
    assert(out@ =~= table_bytes(next_index, entry_views(entries@)));
    out
}

/// Reads one entry starting at `at`: the entry and the offset just past it,
/// or `None` when the bytes there are not an entry.
#[verifier::rlimit(60)]
pub fn decode_entry(b: &Vec<u8>, at: usize) -> (r: Option<(SeedEntry, usize)>)
    requires
        at <= b@.len(),
    ensures
        r matches Some((e, end)) ==> at <= end <= b@.len() && b@.subrange(at as int, end as int)
            == entry_bytes(e@) && e@.public_key.len() == KEY_BYTES,
        forall|e: SeedEntryView|
            #[trigger] entry_at(b@, at as int, e) ==> (r matches Some((x, end)) && x@ == e && end
                == at + entry_len(e)),
{
    let n = b.len();
    let mut pos = at;
    if n - pos < 8 {
        assert forall|e: SeedEntryView| !#[trigger] entry_at(b@, at as int, e) by {
            if entry_at(b@, at as int, e) {
                lemma_entry_at_parts(b@, at as int, e);
            }
        }
        return None;
    }
    let tag_len = read_u64(b, pos);
    pos = pos + 8;
    if tag_len > (n - pos) as u64 {
        assert forall|e: SeedEntryView| !#[trigger] entry_at(b@, at as int, e) by {
            if entry_at(b@, at as int, e) {
                lemma_entry_at_parts(b@, at as int, e);
            }
        }
        return None;
    }
    let tag_end = pos + tag_len as usize;
    let tag_bytes = slice_bytes(b, pos, tag_end);
    let ghost tag_seq = tag_bytes@;
    let tag = match string_from_utf8(tag_bytes) {
        Some(t) => t,
        None => {
            assert forall|e: SeedEntryView| !#[trigger] entry_at(b@, at as int, e) by {
                if entry_at(b@, at as int, e) {
                    lemma_entry_at_parts(b@, at as int, e);
                }
            }
            return None;
        },
    };
    assert forall|e: SeedEntryView| #[trigger] entry_at(b@, at as int, e) implies tag@ == e.tag by {
        lemma_entry_at_parts(b@, at as int, e);
        vstd::utf8::encode_utf8_decode_utf8(tag@);
        vstd::utf8::encode_utf8_decode_utf8(e.tag);
    }
    pos = tag_end;
    if n - pos < 8 {
        assert forall|e: SeedEntryView| !#[trigger] entry_at(b@, at as int, e) by {
            if entry_at(b@, at as int, e) {
                lemma_entry_at_parts(b@, at as int, e);
            }
        }
        return None;
    }
    let count = read_u64(b, pos);
    pos = pos + 8;
    let path_start = pos;
    let mut path: Vec<u64> = Vec::new();
    let mut k: u64 = 0;
    while k < count
        invariant
            at <= path_start <= pos <= n,
            n == b@.len(),
            k <= count,
            path@.len() == k,
            pos as int == path_start as int + 8 * k as int,
            path_start as int == at + 16 + tag_len as int,
            count == le_u64(b@.subrange(path_start - 8, path_start as int)),
            tag_len == le_u64(b@.subrange(at as int, at + 8)),
            path_bytes(path@) == b@.subrange(path_start as int, pos as int),
            forall|e: SeedEntryView|
                #[trigger] entry_at(b@, at as int, e) ==> path@ == e.derivation_path.take(k as int),
        decreases count - k,
    {
        if n - pos < 8 {
            assert forall|e: SeedEntryView| !#[trigger] entry_at(b@, at as int, e) by {
                if entry_at(b@, at as int, e) {
                    lemma_entry_at_parts(b@, at as int, e);
                }
            }
            return None;
        }
        let seg = read_u64(b, pos);
        let ghost before = path@;
        path.push(seg);
        assert(path@.drop_last() =~= before);
        assert forall|e: SeedEntryView| #[trigger] entry_at(b@, at as int, e) implies path@
            == e.derivation_path.take(k as int + 1) by {
            lemma_entry_at_parts(b@, at as int, e);
            let t = encode_utf8(e.tag).len() as int;
            let p = e.derivation_path.len() as int;
            lemma_path_bytes_index(e.derivation_path, k as int);
            assert(b@.subrange(pos as int, pos + 8) =~= b@.subrange(
                at + 16 + t,
                at + 16 + t + 8 * p,
            ).subrange(8 * k, 8 * k + 8));
            lemma_u64_le_inverse(e.derivation_path[k as int]);
            assert(path@ =~= e.derivation_path.take(k as int + 1));
        }
        pos = pos + 8;
        assert(b@.subrange(path_start as int, pos as int) =~= b@.subrange(
            path_start as int,
            pos - 8,
        ) + b@.subrange(pos - 8, pos as int));
        k = k + 1;
    }
    assert forall|e: SeedEntryView| #[trigger] entry_at(b@, at as int, e) implies path@
        == e.derivation_path by {
        lemma_entry_at_parts(b@, at as int, e);
        assert(e.derivation_path.take(k as int) =~= e.derivation_path);
    }
    let path_end = pos;
    if n - pos < KEY_BYTES + 9 {
        assert forall|e: SeedEntryView| !#[trigger] entry_at(b@, at as int, e) by {
            if entry_at(b@, at as int, e) {
                lemma_entry_at_parts(b@, at as int, e);
            }
        }
        return None;
    }
    let public_key = slice_bytes(b, pos, pos + KEY_BYTES);
    pos = pos + KEY_BYTES;
    let created_at = read_u64(b, pos);
    pos = pos + 8;
    let flag = b[pos];
    let exportable = if flag == 0 {
        false
    } else if flag == 1 {
        true
    } else {
        assert forall|e: SeedEntryView| !#[trigger] entry_at(b@, at as int, e) by {
            if entry_at(b@, at as int, e) {
                lemma_entry_at_parts(b@, at as int, e);
            }
        }
        return None;
    };
    pos = pos + 1;
    let e = SeedEntry { tag, derivation_path: path, public_key, created_at, exportable };
    assert(encode_utf8(e@.tag) == tag_seq);
    assert(b@.subrange(at as int, pos as int) =~= b@.subrange(at as int, at + 8) + tag_seq
        + b@.subrange(tag_end as int, tag_end + 8) + b@.subrange(path_start as int, path_end as int)
        + b@.subrange(path_end as int, path_end + 32) + b@.subrange(path_end + 32, path_end + 40)
        + seq![flag]);
    assert(b@.subrange(at as int, pos as int) =~= entry_bytes(e@));
    assert forall|x: SeedEntryView| #[trigger] entry_at(b@, at as int, x) implies e@ == x && pos
        == at + entry_len(x) by {
        lemma_entry_at_parts(b@, at as int, x);
        assert(e@.public_key =~= x.public_key);
    }
    Some((e, pos))
}

/// Reads a whole table: the next free index and the entries, or `None` when
/// the bytes are not a table.
#[verifier::rlimit(60)]
pub fn decode_table(b: &Vec<u8>) -> (r: Option<(u64, Vec<SeedEntry>)>)
    ensures
        r matches Some((next_index, es)) ==> table_bytes(next_index, entry_views(es@)) == b@
            && forall|i: int| 0 <= i < es@.len() ==> (#[trigger] es@[i])@.public_key.len() == KEY_BYTES,
        forall|n2: u64, es: Seq<SeedEntryView>|
            #[trigger] table_ok(b@, n2, es) ==> (r matches Some((m, xs)) && m == n2 && entry_views(xs@)
                == es),
{
    let n = b.len();
    if n < 16 {
        assert forall|n2: u64, es: Seq<SeedEntryView>| !#[trigger] table_ok(b@, n2, es) by {
            if table_ok(b@, n2, es) {
                assert(table_bytes(n2, es).len() >= 16);
            }
        }
        return None;
    }
    let next_index = read_u64(b, 0);
    let count = read_u64(b, 8);
    let mut pos: usize = 16;
    let mut entries: Vec<SeedEntry> = Vec::new();
    let mut k: u64 = 0;
    assert forall|n2: u64, es: Seq<SeedEntryView>| #[trigger] table_ok(b@, n2, es) implies {
        &&& entry_views(entries@) == es.take(0)
        &&& b@.subrange(16, n as int) == entries_bytes(es.skip(0))
    } by {
        lemma_table_head(b@, n2, es);
        assert(es.skip(0) =~= es);
        assert(entry_views(entries@) =~= es.take(0));
    }
    while k < count
        invariant
            16 <= pos <= n,
            n == b@.len(),
            k <= count,
            entries@.len() == k,
            entries_bytes(entry_views(entries@)) == b@.subrange(16, pos as int),
            forall|i: int| 0 <= i < entries@.len() ==> (#[trigger] entries@[i])@.public_key.len() == KEY_BYTES,
            count == le_u64(b@.subrange(8, 16)),
            next_index == le_u64(b@.subrange(0, 8)),
            forall|n2: u64, es: Seq<SeedEntryView>|
                #[trigger] table_ok(b@, n2, es) ==> {
                    &&& entry_views(entries@) == es.take(k as int)
                    &&& b@.subrange(pos as int, n as int) == entries_bytes(es.skip(k as int))
                },
        decreases count - k,
    {
        proof {
            assert forall|n2: u64, es: Seq<SeedEntryView>| #[trigger] table_ok(b@, n2, es) implies {
                &&& k < es.len()
                &&& entry_at(b@, pos as int, es[k as int])
                &&& b@.subrange(pos + entry_len(es[k as int]), n as int) == entries_bytes(
                    es.skip(k as int + 1),
                )
            } by {
                lemma_table_head(b@, n2, es);
                let rest = es.skip(k as int);
                lemma_entries_bytes_front(rest);
                assert(rest.drop_first() =~= es.skip(k as int + 1));
                lemma_entry_bytes_len(es[k as int]);
                let l = entry_len(es[k as int]) as int;
                assert(b@.subrange(pos as int, pos + l) =~= b@.subrange(pos as int, n as int).subrange(0, l));
                assert(b@.subrange(pos + l, n as int) =~= b@.subrange(pos as int, n as int).subrange(l, n - pos));
                assert(k < es.len());
                assert(b@.subrange(pos as int, n as int) == entry_bytes(es[k as int]) + entries_bytes(es.skip(k as int + 1)));
                assert(pos + l <= n);
                assert(b@.subrange(pos as int, pos + l) == entry_bytes(es[k as int]));
                assert(es[k as int].public_key.len() == KEY_BYTES);
                assert(entry_at(b@, pos as int, es[k as int]));
            }
        }
        let (e, end) = match decode_entry(b, pos) {
            Some(x) => x,
            None => {
                assert forall|n2: u64, es: Seq<SeedEntryView>| !#[trigger] table_ok(b@, n2, es) by {
                    if table_ok(b@, n2, es) {
                        assert(entry_at(b@, pos as int, es[k as int]));
                    }
                }
                return None;
            },
        };
        let ghost before = entries@;
        entries.push(e);
        assert(entry_views(entries@).drop_last() =~= entry_views(before));
        assert(b@.subrange(16, end as int) =~= b@.subrange(16, pos as int) + b@.subrange(
            pos as int,
            end as int,
        ));
        assert forall|n2: u64, es: Seq<SeedEntryView>| #[trigger] table_ok(b@, n2, es) implies {
            &&& entry_views(entries@) == es.take(k as int + 1)
            &&& b@.subrange(end as int, n as int) == entries_bytes(es.skip(k as int + 1))
        } by {
            assert(entry_at(b@, pos as int, es[k as int]));
            assert(es.take(k as int + 1) =~= es.take(k as int).push(es[k as int]));
            assert(entry_views(entries@) =~= entry_views(before).push(e@));
        }
        pos = end;
        k = k + 1;
    }
    assert forall|n2: u64, es: Seq<SeedEntryView>| #[trigger] table_ok(b@, n2, es) implies pos == n
        && entry_views(entries@) == es && next_index == n2 by {
        lemma_table_head(b@, n2, es);
        assert(es.skip(k as int) =~= Seq::<SeedEntryView>::empty());
        assert(es.take(k as int) =~= es);
    }
    if pos != n {
        return None;
    }
    assert(b@ =~= b@.subrange(0, 8) + b@.subrange(8, 16) + b@.subrange(16, n as int));
    Some((next_index, entries))
}

} // verus!
