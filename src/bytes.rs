use byteorder::{ByteOrder, LittleEndian};
use vstd::prelude::*;
use vstd::slice::slice_subrange;

verus! {

/// The `u32` stored little-endian in the four bytes at `p`.
pub open spec fn u32_at(d: Seq<u8>, p: int) -> u32 {
    (d[p] as int + 256 * d[p + 1] as int + 65536 * d[p + 2] as int + 16777216 * d[p
        + 3] as int) as u32
}

/// The four little-endian bytes of `n`.
#[verifier::opaque]
pub open spec fn le_bytes(n: u32) -> Seq<u8> {
    seq![
        (n % 256) as u8,
        ((n / 256) % 256) as u8,
        ((n / 65536) % 256) as u8,
        (n / 16777216) as u8,
    ]
}

/// Encodes each element with `f` and concatenates the results in order.
pub open spec fn enc_list<T>(s: Seq<T>, f: spec_fn(T) -> Seq<u8>) -> Seq<u8>
    decreases s.len(),
{
    if s.len() == 0 {
        Seq::empty()
    } else {
        enc_list(s.drop_last(), f) + f(s.last())
    }
}

pub broadcast proof fn lemma_le_bytes_len(n: u32)
    ensures
        #[trigger] le_bytes(n).len() == 4,
{
    reveal(le_bytes);
}

pub open spec fn enc_u32(n: u32) -> Seq<u8> {
    le_bytes(n)
}

/// Relies on byteorder's `LittleEndian::read_u32`: it reads the first four
/// bytes of a slice as a little-endian `u32`, and panics on a shorter slice.
#[verifier::external_body]
fn read_u32_le(buf: &[u8]) -> (r: u32)
    requires
        buf@.len() >= 4,
    ensures
        r == u32_at(buf@, 0),
{
    LittleEndian::read_u32(buf)
}

/// The `u32` stored little-endian at position `pos` of `data`.
pub fn read_u32_at(data: &[u8], pos: usize) -> (r: u32)
    requires
        pos + 4 <= data@.len(),
    ensures
        r == u32_at(data@, pos as int),
{
    proof {
        let w = data@.subrange(pos as int, pos + 4);
        assert(w.subrange(0, 4) =~= w);
        lemma_u32_at_window(data@, pos as int, w, 0);
    }
    let _n = data.len();
    let sub = slice_subrange(data, pos, pos + 4);
    assert(sub@ =~= data@.subrange(pos as int, pos + 4));
    read_u32_le(sub)
}

/// Appends the four little-endian bytes of `n`.
pub fn push_u32(out: &mut Vec<u8>, n: u32)
    ensures
        final(out)@ == old(out)@ + le_bytes(n),
{
    out.push((n % 256) as u8);
    out.push(((n / 256) % 256) as u8);
    out.push(((n / 65536) % 256) as u8);
    out.push((n / 16777216) as u8);
    reveal(le_bytes);
    assert(final(out)@ =~= old(out)@ + le_bytes(n));
}

/// Decoding the bytes of a number gives the number back.
pub proof fn lemma_le_bytes_round_trip(n: u32)
    ensures
        u32_at(le_bytes(n), 0) == n,
        le_bytes(n).len() == 4,
{
    reveal(le_bytes);
    let b = le_bytes(n);
    assert(b[0] as int + 256 * b[1] as int + 65536 * b[2] as int + 16777216 * b[3] as int
        == n) by (nonlinear_arith)
        requires
            b[0] == n % 256,
            b[1] == (n / 256) % 256,
            b[2] == (n / 65536) % 256,
            b[3] == n / 16777216,
            n <= u32::MAX,
    ;
}

/// A number read at `p` depends only on the four bytes there.
pub proof fn lemma_u32_at_window(d: Seq<u8>, p: int, e: Seq<u8>, q: int)
    requires
        0 <= p,
        p + 4 <= d.len(),
        0 <= q,
        q + 4 <= e.len(),
        d.subrange(p, p + 4) == e.subrange(q, q + 4),
    ensures
        u32_at(d, p) == u32_at(e, q),
{
    assert(d[p] == d.subrange(p, p + 4)[0]);
    assert(d[p + 1] == d.subrange(p, p + 4)[1]);
    assert(d[p + 2] == d.subrange(p, p + 4)[2]);
    assert(d[p + 3] == d.subrange(p, p + 4)[3]);
    assert(e[q] == e.subrange(q, q + 4)[0]);
    assert(e[q + 1] == e.subrange(q, q + 4)[1]);
    assert(e[q + 2] == e.subrange(q, q + 4)[2]);
    assert(e[q + 3] == e.subrange(q, q + 4)[3]);
}

/// Where the bytes of `n` stand at `p`, `n` is read there.
pub proof fn lemma_u32_at_le(d: Seq<u8>, p: int, n: u32)
    requires
        0 <= p,
        p + 4 <= d.len(),
        d.subrange(p, p + 4) == le_bytes(n),
    ensures
        u32_at(d, p) == n,
{
    lemma_le_bytes_round_trip(n);
    assert(le_bytes(n).subrange(0, 4) =~= le_bytes(n));
    lemma_u32_at_window(d, p, le_bytes(n), 0);
}

/// When every element encodes to `k` bytes, element `i` stands at `k * i`.
pub proof fn lemma_enc_list<T>(s: Seq<T>, f: spec_fn(T) -> Seq<u8>, k: int)
    requires
        k >= 0,
        forall|t: T| #[trigger] f(t).len() == k,
    ensures
        enc_list(s, f).len() == k * s.len(),
        forall|i: int|
            0 <= i < s.len() ==> enc_list(s, f).subrange(k * i, k * i + k) == f(#[trigger] s[i]),
    decreases s.len(),
{
    if s.len() > 0 {
        let p = s.drop_last();
        lemma_enc_list(p, f, k);
        assert(k * s.len() == k * p.len() + k) by (nonlinear_arith)
            requires
                s.len() == p.len() + 1,
        ;
        let e = enc_list(s, f);
        assert(e == enc_list(p, f) + f(s.last()));
        assert forall|i: int| 0 <= i < s.len() implies e.subrange(k * i, k * i + k) == f(
            #[trigger] s[i],
        ) by {
            if i < p.len() {
                assert(k * i + k <= k * p.len()) by (nonlinear_arith)
                    requires
                        i < p.len(),
                        k >= 0,
                ;
                assert(k * i >= 0) by (nonlinear_arith)
                    requires
                        i >= 0,
                        k >= 0,
                ;
                assert(e.subrange(k * i, k * i + k) =~= enc_list(p, f).subrange(k * i, k * i + k));
                assert(p[i] == s[i]);
            } else {
                assert(k * i == k * p.len());
                assert(e.subrange(k * i, k * i + k) =~= f(s.last()));
            }
        }
    }
}

} // verus!
