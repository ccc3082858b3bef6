use vstd::prelude::*;

use crate::error::{Error, Result};

verus! {

/// The role tag of a session key held by a client.
pub const CLIENT_ROLE: u8 = 1;

/// The role tag of a session key held by the server.
pub const SERVER_ROLE: u8 = 2;

/// Number of counter bytes in a nonce; the last byte holds the role tag.
pub const COUNTER_BYTES: usize = 11;

/// The first counter value that no longer fits in the nonce (2 to the 88th).
pub const COUNTER_LIMIT: u128 = 0x0000_0100_0000_0000_0000_0000_0000;

/// `256` to the power `k`.
pub open spec fn pow256(k: nat) -> nat
    decreases k,
{
    if k == 0 {
        1
    } else {
        256 * pow256((k - 1) as nat)
    }
}

/// The `k` low bytes of `n`, least significant first.
pub open spec fn le_bytes(n: nat, k: nat) -> Seq<u8>
    decreases k,
{
    if k == 0 {
        seq![]
    } else {
        seq![(n % 256) as u8] + le_bytes(n / 256, (k - 1) as nat)
    }
}

/// The number that a little-endian byte string denotes.
pub open spec fn le_value(s: Seq<u8>) -> nat
    decreases s.len(),
{
    if s.len() == 0 {
        0
    } else {
        s[0] as nat + 256 * le_value(s.drop_first())
    }
}

/// The nonce for counter value `n` under role tag `role`.
pub open spec fn nonce_bytes(n: nat, role: u8) -> Seq<u8> {
    le_bytes(n, COUNTER_BYTES as nat).push(role)
}

/// The counter value carried by a nonce.
pub open spec fn nonce_counter(nonce: Seq<u8>) -> nat {
    le_value(nonce.take(COUNTER_BYTES as int))
}

/// The whole nonce read as a 96-bit little-endian number.
pub open spec fn nonce_value(nonce: Seq<u8>) -> nat {
    le_value(nonce)
}

pub proof fn lemma_le_bytes_len(n: nat, k: nat)
    ensures
        le_bytes(n, k).len() == k,
    decreases k,
{
    if k > 0 {
        lemma_le_bytes_len(n / 256, (k - 1) as nat);
    }
}

pub proof fn lemma_le_round_trip(n: nat, k: nat)
    requires
        n < pow256(k),
    ensures
        le_value(le_bytes(n, k)) == n,
    decreases k,
{
    if k > 0 {
        let rest = le_bytes(n / 256, (k - 1) as nat);
        assert(n / 256 < pow256((k - 1) as nat)) by (nonlinear_arith)
            requires
                n < 256 * pow256((k - 1) as nat),
        ;
        lemma_le_round_trip(n / 256, (k - 1) as nat);
        assert(le_bytes(n, k).drop_first() =~= rest);
        assert(n == n % 256 + 256 * (n / 256)) by (nonlinear_arith);
    }
}

/// The value of `s.push(b)` adds `b` at the weight of the next byte.
pub proof fn lemma_le_value_push(s: Seq<u8>, b: u8)
    ensures
        le_value(s.push(b)) == le_value(s) + b as nat * pow256(s.len()),
    decreases s.len(),
{
    if s.len() == 0 {
        assert(s.push(b).drop_first() =~= Seq::<u8>::empty());
        assert(s.push(b)[0] == b);
        assert(le_value(s.push(b).drop_first()) == 0);
        assert(le_value(s.push(b)) == b as nat);
        assert(pow256(0) == 1);
        assert(b as nat * pow256(s.len()) == b as nat);
    } else {
        lemma_le_value_push(s.drop_first(), b);
        assert(s.push(b).drop_first() =~= s.drop_first().push(b));
        assert(s.push(b)[0] == s[0]);
        let p = pow256((s.len() - 1) as nat);
        assert(pow256(s.len()) == 256 * p);
        assert(b as nat * pow256(s.len()) == 256 * (b as nat * p)) by (nonlinear_arith)
            requires
                pow256(s.len()) == 256 * p,
        ;
        assert(256 * (le_value(s.drop_first()) + b as nat * p) == 256 * le_value(s.drop_first())
            + 256 * (b as nat * p)) by (nonlinear_arith);
        assert(le_value(s.push(b)) == s[0] as nat + 256 * le_value(s.drop_first().push(b)));
        assert(le_value(s) == s[0] as nat + 256 * le_value(s.drop_first()));
    }
}

pub proof fn lemma_pow256_11()
    ensures
        pow256(11) == COUNTER_LIMIT,
{
    reveal_with_fuel(pow256, 12);
}

/// Decoding a nonce gives back its counter, and the nonce as a number is
/// the counter plus the role tag at the weight of the last byte.
pub proof fn lemma_nonce_decode(n: nat, role: u8)
    requires
        n < COUNTER_LIMIT,
    ensures
        nonce_bytes(n, role).len() == 12,
        nonce_bytes(n, role)[11] == role,
        nonce_counter(nonce_bytes(n, role)) == n,
        nonce_value(nonce_bytes(n, role)) == n + role as nat * COUNTER_LIMIT,
{
    lemma_pow256_11();
    lemma_le_bytes_len(n, 11);
    lemma_le_round_trip(n, 11);
    let b = le_bytes(n, 11);
    assert(nonce_bytes(n, role).take(11) =~= b);
    lemma_le_value_push(b, role);
}

/// A strictly monotonic source of 12-byte AEAD nonces: eleven bytes of
/// little-endian counter followed by a fixed role tag.
pub struct NonceSeq {
    id: u8,
    next: u128,
}

impl NonceSeq {
    /// The role tag written into byte 11 of every nonce.
    pub closed spec fn role(&self) -> u8 {
        self.id
    }

    /// The counter value that the next nonce will carry.
    pub closed spec fn next_counter(&self) -> nat {
        self.next as nat
    }

    /// A fresh sequence whose first nonce carries counter zero.
    pub fn new(id: u8) -> (r: Self)
        ensures
            r.role() == id,
            r.next_counter() == 0,
    {
        Self { id, next: 0 }
    }

    /// Hands out the next nonce and moves the counter on by one; fails with
    /// `NonceExhausted`, leaving the sequence as it was, once the counter no
    /// longer fits in eleven bytes.
    pub fn advance(&mut self) -> (r: Result<[u8; 12]>)
        ensures
            final(self).role() == old(self).role(),
            old(self).next_counter() < COUNTER_LIMIT ==> {
                &&& r is Ok
                &&& r->Ok_0@ == nonce_bytes(old(self).next_counter(), old(self).role())
                &&& final(self).next_counter() == old(self).next_counter() + 1
            },
            old(self).next_counter() >= COUNTER_LIMIT ==> {
                &&& r == Err::<[u8; 12], Error>(Error::NonceExhausted)
                &&& *final(self) == *old(self)
            },
    {
        let value = self.next;
        if value >= COUNTER_LIMIT {
            return Err(Error::NonceExhausted);
        }
        self.next = value + 1;
        let mut bytes: Vec<u8> = Vec::new();
        let mut v: u128 = value;
        let mut i: usize = 0;
        while i < COUNTER_BYTES
            invariant
                i <= COUNTER_BYTES,
                bytes@.len() == i,
                bytes@ + le_bytes(v as nat, (COUNTER_BYTES - i) as nat) == le_bytes(
                    value as nat,
                    COUNTER_BYTES as nat,
                ),
            decreases COUNTER_BYTES - i,
        {
            let ghost before = bytes@;
            bytes.push((v % 256) as u8);
            assert(le_bytes(v as nat, (COUNTER_BYTES - i) as nat) == seq![(v % 256) as u8]
                + le_bytes((v / 256) as nat, (COUNTER_BYTES - i - 1) as nat));
            assert(bytes@ + le_bytes((v / 256) as nat, (COUNTER_BYTES - i - 1) as nat)
                =~= before + le_bytes(v as nat, (COUNTER_BYTES - i) as nat));
            v = v / 256;
            i = i + 1;
        }
        assert(le_bytes(v as nat, 0) =~= Seq::<u8>::empty());
        assert(bytes@ =~= le_bytes(value as nat, COUNTER_BYTES as nat));
        let nonce: [u8; 12] = [
            bytes[0],
            bytes[1],
            bytes[2],
            bytes[3],
            bytes[4],
            bytes[5],
            bytes[6],
            bytes[7],
            bytes[8],
            bytes[9],
            bytes[10],
            self.id,
        ];
        assert(nonce@ =~= nonce_bytes(value as nat, self.id));
        Ok(nonce)
    }
}

} // verus!
