use vstd::prelude::*;

use crate::nonce::{le_bytes, le_value, pow256};

verus! {

/// A length as it stands on the wire: eight bytes, little-endian.
pub open spec fn enc_len(n: nat) -> Seq<u8> {
    le_bytes(n, 8)
}

/// A byte string as it stands on the wire: its length, then its bytes.
pub open spec fn enc_bytes(s: Seq<u8>) -> Seq<u8> {
    enc_len(s.len()) + s
}

/// Reads a length-prefixed byte string off the front of `b`: the string and
/// what follows it, or nothing when the prefix or the string is cut short.
pub open spec fn parse_bytes(b: Seq<u8>) -> Option<(Seq<u8>, Seq<u8>)> {
    if b.len() < 8 {
        None
    } else {
        let n = le_value(b.take(8));
        let r = b.skip(8);
        if n <= r.len() {
            Some((r.take(n as int), r.skip(n as int)))
        } else {
            None
        }
    }
}

pub proof fn lemma_pow256_mono(a: nat, b: nat)
    requires
        a <= b,
    ensures
        pow256(a) <= pow256(b),
    decreases b,
{
    if a < b {
        lemma_pow256_mono(a, (b - 1) as nat);
    }
}

pub proof fn lemma_pow256_8()
    ensures
        pow256(4) == 0x1_0000_0000,
        pow256(7) == 0x100_0000_0000_0000,
        pow256(8) == 0x1_0000_0000_0000_0000,
{
    reveal_with_fuel(pow256, 9);
}

pub proof fn lemma_le_value_bound(s: Seq<u8>)
    ensures
        le_value(s) < pow256(s.len()),
    decreases s.len(),
{
    if s.len() > 0 {
        lemma_le_value_bound(s.drop_first());
        let p = pow256((s.len() - 1) as nat);
        let v = le_value(s.drop_first());
        assert(s[0] as nat + 256 * v < 256 * p) by (nonlinear_arith)
            requires
                v < p,
                s[0] < 256,
        ;
    }
}

/// Parsing what `enc_bytes` wrote gives back the string and the rest.
pub proof fn lemma_parse_enc_bytes(s: Seq<u8>, rest: Seq<u8>)
    requires
        s.len() < pow256(8),
    ensures
        parse_bytes(enc_bytes(s) + rest) == Some((s, rest)),
{
    let b = enc_bytes(s) + rest;
    crate::nonce::lemma_le_bytes_len(s.len(), 8);
    crate::nonce::lemma_le_round_trip(s.len(), 8);
    assert(b.take(8) =~= enc_len(s.len()));
    assert(b.skip(8) =~= s + rest);
    assert((s + rest).take(s.len() as int) =~= s);
    assert((s + rest).skip(s.len() as int) =~= rest);
}

/// Appends the `k` low bytes of `v`, least significant first.
pub fn push_le(out: &mut Vec<u8>, v: u64, k: usize)
    requires
        k <= 8,
    ensures
        final(out)@ == old(out)@ + le_bytes(v as nat, k as nat),
{
    let ghost start = old(out)@;
    let mut x: u64 = v;
    let mut i: usize = 0;
    while i < k
        invariant
            i <= k,
            out@ + le_bytes(x as nat, (k - i) as nat) == start + le_bytes(v as nat, k as nat),
        decreases k - i,
    {
        let ghost before = out@;
        out.push((x % 256) as u8);
        assert(le_bytes(x as nat, (k - i) as nat) == seq![(x % 256) as u8] + le_bytes(
            (x / 256) as nat,
            (k - i - 1) as nat,
        ));
        assert(out@ + le_bytes((x / 256) as nat, (k - i - 1) as nat) =~= before + le_bytes(
            x as nat,
            (k - i) as nat,
        ));
        x = x / 256;
        i = i + 1;
    }
    assert(le_bytes(x as nat, 0) =~= Seq::<u8>::empty());
    assert(out@ =~= start + le_bytes(v as nat, k as nat));
}

/// Appends every byte of `s`.
pub fn push_all(out: &mut Vec<u8>, s: &[u8])
    ensures
        final(out)@ == old(out)@ + s@,
{
    let ghost start = old(out)@;
    let mut i: usize = 0;
    while i < s.len()
        invariant
            i <= s@.len(),
            out@ == start + s@.take(i as int),
        decreases s@.len() - i,
    {
        out.push(s[i]);
        assert(s@.take(i + 1) =~= s@.take(i as int).push(s@[i as int]));
        i = i + 1;
    }
    assert(s@.take(s@.len() as int) =~= s@);
}

/// Appends `s` with its eight-byte length in front.
pub fn push_bytes(out: &mut Vec<u8>, s: &[u8])
    ensures
        final(out)@ == old(out)@ + enc_bytes(s@),
{
    push_le(out, s.len() as u64, 8);
    push_all(out, s);
    assert(final(out)@ =~= old(out)@ + enc_bytes(s@));
}

/// The `k`-byte little-endian number at `pos`.
pub fn read_le(b: &[u8], pos: usize, k: usize) -> (r: u64)
    requires
        k <= 8,
        pos + k <= b@.len(),
    ensures
        r as nat == le_value(b@.subrange(pos as int, pos + k)),
{
    let len = b.len();
    let mut acc: u64 = 0;
    let mut i: usize = k;
    proof {
        lemma_pow256_8();
        assert(b@.subrange(pos + k, pos + k) =~= Seq::<u8>::empty());
    }
    while i > 0
        invariant
            i <= k,
            k <= 8,
            pos + k <= len,
            len == b@.len(),
            acc as nat == le_value(b@.subrange(pos + i, pos + k)),
            (acc as nat) < pow256((k - i) as nat),
            pow256(7) == 0x100_0000_0000_0000,
        decreases i,
    {
        i = i - 1;
        let byte = b[pos + i];
        proof {
            lemma_pow256_mono((k - i - 1) as nat, 7);
            let s = b@.subrange(pos + i, pos + k);
            assert(s.drop_first() =~= b@.subrange(pos + i + 1, pos + k));
            assert(s[0] == byte);
            let p = pow256((k - i - 1) as nat);
            assert(byte as nat + 256 * (acc as nat) < 256 * p) by (nonlinear_arith)
                requires
                    (acc as nat) < p,
                    byte < 256,
            ;
        }
        acc = acc * 256 + byte as u64;
    }
    acc
}

/// Reads a length-prefixed byte string at `pos`: the string and the position
/// after it, exactly when `parse_bytes` finds one there.
pub fn read_bytes(b: &[u8], pos: usize) -> (r: Option<(Vec<u8>, usize)>)
    requires
        pos <= b@.len(),
    ensures
        match parse_bytes(b@.skip(pos as int)) {
            None => r is None,
            Some((v, rest)) => match r {
                Some((w, end)) => w@ == v && end <= b@.len() && b@.skip(end as int) == rest,
                None => false,
            },
        },
{
    let ghost tail = b@.skip(pos as int);
    if b.len() - pos < 8 {
        return None;
    }
    let n = read_le(b, pos, 8);
    assert(tail.take(8) =~= b@.subrange(pos as int, pos + 8));
    let start = pos + 8;
    if n as u128 > (b.len() - start) as u128 {
        return None;
    }
    let end = start + n as usize;
    let mut v: Vec<u8> = Vec::new();
    let mut i: usize = start;
    while i < end
        invariant
            start <= i <= end,
            end <= b@.len(),
            v@ == b@.subrange(start as int, i as int),
        decreases end - i,
    {
        v.push(b[i]);
        assert(b@.subrange(start as int, i + 1) =~= b@.subrange(start as int, i as int).push(
            b@[i as int],
        ));
        i = i + 1;
    }
    assert(tail.skip(8).take(n as int) =~= v@);
    assert(tail.skip(8).skip(n as int) =~= b@.skip(end as int));
    Some((v, end))
}

} // verus!
