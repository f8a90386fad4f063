use vstd::prelude::*;
use crate::snapshot::{Endpoint, EndpointView, EndpointsData};

verus! {

/// The bytes that stand for one character: its code point in three bytes,
/// most significant first, then the marker byte 1.
pub open spec fn char_bytes(c: char) -> Seq<u8> {
    let u = c as u32;
    seq![(u >> 16u32) as u8, (u >> 8u32) as u8, u as u8, 1u8]
}

pub open spec fn chars_bytes(s: Seq<char>) -> Seq<u8>
    decreases s.len(),
{
    if s.len() == 0 {
        Seq::empty()
    } else {
        chars_bytes(s.drop_last()) + char_bytes(s.last())
    }
}

/// One text field: the marker byte 0 opens it, then its characters follow.
/// A field never ends in 0 unless it is empty, so a field's end is always
/// found from the right.
pub open spec fn field_bytes(s: Seq<char>) -> Seq<u8> {
    seq![0u8] + chars_bytes(s)
}

pub open spec fn record_bytes(e: EndpointView) -> Seq<u8> {
    field_bytes(e.endpoint) + field_bytes(e.state) + field_bytes(e.channels)
}

/// The canonical encoding of a list of endpoints: the encodings of its
/// records, in order.
pub open spec fn snapshot_bytes(v: Seq<EndpointView>) -> Seq<u8>
    decreases v.len(),
{
    if v.len() == 0 {
        Seq::empty()
    } else {
        snapshot_bytes(v.drop_last()) + record_bytes(v.last())
    }
}

proof fn lemma_char_bytes_injective(a: char, b: char)
    requires
        char_bytes(a) == char_bytes(b),
    ensures
        a == b,
{
    let u = a as u32;
    let v = b as u32;
    assert(char_bytes(a)[0] == char_bytes(b)[0]);
    assert(char_bytes(a)[1] == char_bytes(b)[1]);
    assert(char_bytes(a)[2] == char_bytes(b)[2]);
    assert(u == v) by (bit_vector)
        requires
            (u >> 16u32) as u8 == (v >> 16u32) as u8,
            (u >> 8u32) as u8 == (v >> 8u32) as u8,
            u as u8 == v as u8,
            u < 0x110000u32,
            v < 0x110000u32,
    ;
}

/// A field and what stands before it are both recovered from the right.
proof fn lemma_field_suffix(x: Seq<u8>, s: Seq<char>, y: Seq<u8>, t: Seq<char>)
    requires
        x + field_bytes(s) == y + field_bytes(t),
    ensures
        x == y,
        s == t,
    decreases s.len() + t.len(),
{
    let l = x + field_bytes(s);
    let r = y + field_bytes(t);
    if s.len() == 0 && t.len() == 0 {
        assert(x =~= l.drop_last());
        assert(y =~= r.drop_last());
        assert(s =~= t);
    } else if s.len() == 0 {
        assert(l.last() == 0u8);
        assert(field_bytes(t) =~= field_bytes(t.drop_last()) + char_bytes(t.last()));
        assert(r.last() == 1u8);
    } else if t.len() == 0 {
        assert(r.last() == 0u8);
        assert(field_bytes(s) =~= field_bytes(s.drop_last()) + char_bytes(s.last()));
        assert(l.last() == 1u8);
    } else {
        assert(field_bytes(s) =~= field_bytes(s.drop_last()) + char_bytes(s.last()));
        assert(field_bytes(t) =~= field_bytes(t.drop_last()) + char_bytes(t.last()));
        let lp = x + field_bytes(s.drop_last());
        let rp = y + field_bytes(t.drop_last());
        assert(l =~= lp + char_bytes(s.last()));
        assert(r =~= rp + char_bytes(t.last()));
        assert(lp =~= l.subrange(0, l.len() - 4));
        assert(rp =~= r.subrange(0, r.len() - 4));
        assert(char_bytes(s.last()) =~= l.subrange(l.len() - 4, l.len() as int));
        assert(char_bytes(t.last()) =~= r.subrange(r.len() - 4, r.len() as int));
        lemma_char_bytes_injective(s.last(), t.last());
        lemma_field_suffix(x, s.drop_last(), y, t.drop_last());
        assert(s =~= s.drop_last().push(s.last()));
        assert(t =~= t.drop_last().push(t.last()));
    }
}

proof fn lemma_record_suffix(x: Seq<u8>, a: EndpointView, y: Seq<u8>, b: EndpointView)
    requires
        x + record_bytes(a) == y + record_bytes(b),
    ensures
        x == y,
        a == b,
{
    let xa = x + field_bytes(a.endpoint) + field_bytes(a.state);
    let yb = y + field_bytes(b.endpoint) + field_bytes(b.state);
    assert(x + record_bytes(a) =~= xa + field_bytes(a.channels));
    assert(y + record_bytes(b) =~= yb + field_bytes(b.channels));
    lemma_field_suffix(xa, a.channels, yb, b.channels);
    lemma_field_suffix(x + field_bytes(a.endpoint), a.state, y + field_bytes(b.endpoint), b.state);
    lemma_field_suffix(x, a.endpoint, y, b.endpoint);
}

/// Distinct lists of endpoints have distinct canonical encodings: any
/// change of a field, of the number of records or of their order changes
/// the bytes that are hashed.
pub proof fn lemma_snapshot_bytes_injective(v: Seq<EndpointView>, w: Seq<EndpointView>)
    requires
        snapshot_bytes(v) == snapshot_bytes(w),
    ensures
        v == w,
    decreases v.len() + w.len(),
{
    if v.len() == 0 && w.len() == 0 {
        assert(v =~= w);
    } else if v.len() == 0 {
        assert(snapshot_bytes(w).len() >= 3);
    } else if w.len() == 0 {
        assert(snapshot_bytes(v).len() >= 3);
    } else {
        lemma_record_suffix(
            snapshot_bytes(v.drop_last()),
            v.last(),
            snapshot_bytes(w.drop_last()),
            w.last(),
        );
        lemma_snapshot_bytes_injective(v.drop_last(), w.drop_last());
        assert(v =~= v.drop_last().push(v.last()));
        assert(w =~= w.drop_last().push(w.last()));
    }
}

/// Changing one record of a list of endpoints changes its encoding.
pub proof fn lemma_one_record_change(v: Seq<EndpointView>, i: int, e: EndpointView)
    requires
        0 <= i < v.len(),
        e != v[i],
    ensures
        snapshot_bytes(v.update(i, e)) != snapshot_bytes(v),
{
    if snapshot_bytes(v.update(i, e)) == snapshot_bytes(v) {
        lemma_snapshot_bytes_injective(v.update(i, e), v);
        assert(v.update(i, e)[i] == e);
    }
}

/// Swapping two different records of a list of endpoints changes its
/// encoding.
pub proof fn lemma_swap_changes_encoding(v: Seq<EndpointView>, i: int, j: int)
    requires
        0 <= i < v.len(),
        0 <= j < v.len(),
        v[i] != v[j],
    ensures
        snapshot_bytes(v.update(i, v[j]).update(j, v[i])) != snapshot_bytes(v),
{
    let w = v.update(i, v[j]).update(j, v[i]);
    if snapshot_bytes(w) == snapshot_bytes(v) {
        lemma_snapshot_bytes_injective(w, v);
        assert(w[j] == v[i]);
    }
}

/// Two lists of endpoints with the same records in the same order have the
/// same fingerprint.
pub proof fn lemma_fingerprint_stable(v: Seq<EndpointView>, w: Seq<EndpointView>)
    requires
        v =~= w,
    ensures
        fingerprint_of(v) == fingerprint_of(w),
{
}

fn push_field(out: &mut Vec<u8>, f: &String)
    ensures
        final(out)@ == old(out)@ + field_bytes(f@),
{
    let cs = crate::text::chars_of(f.as_str());
    out.push(0u8);
    let mut j: usize = 0;
    while j < cs.len()
        invariant
            j <= cs@.len(),
            cs@ == f@,
            out@ == old(out)@ + field_bytes(cs@.take(j as int)),
        decreases cs@.len() - j,
    {
        let u = cs[j] as u32;
        out.push((u >> 16u32) as u8);
        out.push((u >> 8u32) as u8);
        out.push(u as u8);
        out.push(1u8);
        assert(cs@.take(j + 1).drop_last() =~= cs@.take(j as int));
        assert(out@ =~= old(out)@ + field_bytes(cs@.take(j + 1)));
        j = j + 1;
    }
    assert(cs@.take(j as int) =~= cs@);
}

/// The canonical encoding of `data`: each record's fields in order, each
/// field framed so that no two lists of endpoints share an encoding.
pub fn canonical_bytes(data: &EndpointsData) -> (r: Vec<u8>)
    ensures
        r@ == snapshot_bytes(data@),
{
    let mut out: Vec<u8> = Vec::new();
    let mut i: usize = 0;
    while i < data.endpoints.len()
        invariant
            i <= data.endpoints@.len(),
            out@ == snapshot_bytes(data@.take(i as int)),
        decreases data.endpoints@.len() - i,
    {
        let e: &Endpoint = &data.endpoints[i];
        let ghost before = out@;
        push_field(&mut out, &e.endpoint);
        push_field(&mut out, &e.state);
        push_field(&mut out, &e.channels);
        assert(data@.take(i + 1).drop_last() =~= data@.take(i as int));
        assert(data@.take(i + 1).last() == e@);
        assert(out@ =~= before + record_bytes(e@));
        i = i + 1;
    }
    assert(data@.take(i as int) =~= data@);
    out
}

/// The name of the SHA-256 digest of a sequence of bytes.
pub uninterp spec fn sha256_of(data: Seq<u8>) -> Seq<u8>;

/// Relies on `sha2::Sha256::digest` (through `sha2::Digest`): the SHA-256
/// digest of the bytes, 32 bytes long.
#[verifier::external_body]
fn sha256(data: &Vec<u8>) -> (r: Vec<u8>)
    ensures
        r@ == sha256_of(data@),
        r@.len() == 32,
{
    <sha2::Sha256 as sha2::Digest>::digest(data.as_slice()).to_vec()
}

/// The lower-case hexadecimal digit of `n`, for `n < 16`.
pub open spec fn hex_digit(n: u8) -> char {
    if n < 10 {
        (48 + n) as u8 as char
    } else {
        (87 + n) as u8 as char
    }
}

/// Two lower-case hexadecimal digits for each byte, most significant first.
pub open spec fn hex_of(b: Seq<u8>) -> Seq<char>
    decreases b.len(),
{
    if b.len() == 0 {
        Seq::empty()
    } else {
        hex_of(b.drop_last()) + seq![hex_digit(b.last() / 16), hex_digit(b.last() % 16)]
    }
}

/// The fingerprint of a list of endpoints: the SHA-256 digest of its
/// canonical encoding, in hexadecimal.
pub open spec fn fingerprint_of(v: Seq<EndpointView>) -> Seq<char> {
    hex_of(sha256_of(snapshot_bytes(v)))
}

fn hex_digit_exec(n: u8) -> (c: char)
    requires
        n < 16,
    ensures
        c == hex_digit(n),
{
    if n < 10 {
        (48 + n) as char
    } else {
        (87 + n) as char
    }
}

/// The bytes of `digest` written out in lower-case hexadecimal.
pub fn digest_hex(digest: &Vec<u8>) -> (r: String)
    ensures
        r@ == hex_of(digest@),
        r@.len() == 2 * digest@.len(),
{
    let mut out = String::new();
    let mut i: usize = 0;
    while i < digest.len()
        invariant
            i <= digest@.len(),
            out@ == hex_of(digest@.take(i as int)),
            out@.len() == 2 * i,
        decreases digest@.len() - i,
    {
        let b = digest[i];
        crate::text::push_char(&mut out, hex_digit_exec(b / 16));
        crate::text::push_char(&mut out, hex_digit_exec(b % 16));
        assert(digest@.take(i + 1).drop_last() =~= digest@.take(i as int));
        assert(out@ =~= hex_of(digest@.take(i + 1)));
        i = i + 1;
    }
    assert(digest@.take(i as int) =~= digest@);
    out
}

/// The fingerprint of `data`: 64 hexadecimal digits that depend on every
/// field of every record and on the order of the records.
pub fn calculate_hash(data: &EndpointsData) -> (r: String)
    ensures
        r@ == fingerprint_of(data@),
        r@.len() == 64,
{
    let bytes = canonical_bytes(data);
    let digest = sha256(&bytes);
    digest_hex(&digest)
}

} // verus!
