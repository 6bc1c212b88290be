//! Key derivation: key pairs, deterministic randomness and chain codes.
use vstd::prelude::*;
use crate::bytes::push_bytes32;
use crate::prim::{
    base_mul, base_mul_of, point_mul, point_mul_of, point_valid, random_scalar, scalar_reduce,
    scalar_reduce_of, sha3, sha3_of, Fr, PublicKey, Pt, SecretKey,
};

verus! {

/// The domain byte that separates deterministic randomness from other hashes.
pub const DETRAND_DOMAIN: u8 = 0x44;

/// A 256-bit little-endian number shifted right by four bits.
pub open spec fn rshift4(h: Seq<u8>) -> Seq<u8> {
    Seq::new(
        32,
        |i: int|
            if i < 31 {
                ((h[i] >> 4u8) | (h[i + 1] << 4u8)) as u8
            } else {
                (h[i] >> 4u8) as u8
            },
    )
}

/// The chain code that a point stands for: its digest shifted right by four
/// bits, which is always below the group order.
pub open spec fn chain_from_point_of(p: Seq<u8>) -> Seq<u8> {
    rshift4(sha3_of(p))
}

/// `detrand(pk, chain)`: a scalar that two parties holding `pk` and `chain`
/// derive alike.
pub open spec fn detrand_of(pk: Seq<u8>, chain: Seq<u8>) -> Seq<u8> {
    scalar_reduce_of(sha3_of(seq![DETRAND_DOMAIN] + pk + chain))
}

/// The chain that follows `prev` for `pk` under `seed`: `H(seed · pk || prev)`.
pub open spec fn next_chain_of(pk: Seq<u8>, prev: Seq<u8>, seed: Seq<u8>) -> Seq<u8> {
    scalar_reduce_of(sha3_of(point_mul_of(seed, pk) + prev))
}

/// The chain code that a point stands for.
pub fn chain_from_point(p: &Pt) -> (r: Fr)
    ensures
        r@ == chain_from_point_of(p@),
{
    let mut v: Vec<u8> = Vec::new();
    push_bytes32(&mut v, &p.bytes);
    let h = sha3(&v);
    let mut out = [0u8; 32];
    let mut i: usize = 0;
    while i < 31
        invariant
            0 <= i <= 31,
            h@.len() == 32,
            out@.len() == 32,
            h@ == sha3_of(p@),
            forall|j: int| 0 <= j < i ==> out@[j] == rshift4(h@)[j],
        decreases 31 - i,
    {
        out[i] = (h[i] >> 4u8) | (h[i + 1] << 4u8);
        i = i + 1;
    }
    out[31] = h[31] >> 4u8;
    assert(out@ =~= rshift4(h@));
    Fr { bytes: out }
}

/// The new chain that a rekeying with `seed` announces: the chain of
/// `seed · G`, which every member recovers from `seed · pk` with its secret.
pub fn chain_from_seed(seed: &Fr) -> (r: Fr)
    ensures
        r@ == chain_from_point_of(base_mul_of(seed@)),
{
    chain_from_point(&base_mul(seed))
}

/// Deterministic randomness for `(pk, chain)`.
pub fn detrand(pk: &PublicKey, chain: &Fr) -> (r: Fr)
    ensures
        r@ == detrand_of(pk@, chain@),
{
    let mut v: Vec<u8> = Vec::new();
    v.push(DETRAND_DOMAIN);
    push_bytes32(&mut v, &pk.bytes);
    push_bytes32(&mut v, &chain.bytes);
    assert(v@ =~= seq![DETRAND_DOMAIN] + pk@ + chain@);
    let h = sha3(&v);
    scalar_reduce(&h)
}

/// The chain that follows `prev` for `pk` under `seed`; `None` where `pk`
/// encodes no group element.
pub fn next_chain_code(pk: &PublicKey, prev: &Fr, seed: &Fr) -> (r: Option<Fr>)
    ensures
        r is Some <==> point_valid(pk@),
        r matches Some(c) ==> c@ == next_chain_of(pk@, prev@, seed@),
{
    match point_mul(seed, pk) {
        None => None,
        Some(sp) => {
            let mut v: Vec<u8> = Vec::new();
            push_bytes32(&mut v, &sp.bytes);
            push_bytes32(&mut v, &prev.bytes);
            let h = sha3(&v);
            Some(scalar_reduce(&h))
        },
    }
}

/// Rotates a chain: draws a fresh seed and returns `(seed, next)`, where
/// `next` follows `prev` for `pk` under `seed`. `None` where `pk` encodes no
/// group element.
pub fn new_chain_code(pk: &PublicKey, prev: &Fr) -> (r: Option<(Fr, Fr)>)
    ensures
        r is Some <==> point_valid(pk@),
        r matches Some((seed, next)) ==> next@ == next_chain_of(pk@, prev@, seed@),
{
    let seed = random_scalar();
    match next_chain_code(pk, prev, &seed) {
        None => None,
        Some(next) => Some((seed, next)),
    }
}

/// A fresh key pair `(s, s · G)`.
pub fn make_random_keys() -> (r: (SecretKey, PublicKey))
    ensures
        r.1@ == base_mul_of(r.0@),
        point_valid(r.1@),
{
    let skey = random_scalar();
    let pkey = base_mul(&skey);
    (skey, pkey)
}

/// The key pair derived from a seed: `s = H(seed)` reduced, and `s · G`.
pub fn make_deterministic_keys(seed: &Vec<u8>) -> (r: (SecretKey, PublicKey))
    ensures
        r.0@ == scalar_reduce_of(sha3_of(seed@)),
        r.1@ == base_mul_of(r.0@),
        point_valid(r.1@),
{
    let h = sha3(seed);
    let skey = scalar_reduce(&h);
    let pkey = base_mul(&skey);
    (skey, pkey)
}

} // verus!
