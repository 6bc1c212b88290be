//! Scalars, points and the hash, cipher and encoding primitives the protocol
//! is built on.
//!
//! A scalar `Fr` and a point `Pt` are held as their 32-byte encodings. The
//! curve arithmetic itself (Ristretto over Curve25519), SHA3-256, AES-128-CTR
//! and base64 are computed by outside crates; the functions below are the only
//! places that call them, and each result is given a name so that the rest of
//! the library can state exactly which values it combines.
use vstd::prelude::*;
use aes_ctr::cipher::generic_array::GenericArray;
use aes_ctr::cipher::{NewStreamCipher, SyncStreamCipher};
use aes_ctr::Aes128Ctr;
use curve25519_dalek::ristretto::{CompressedRistretto, RistrettoPoint};
use curve25519_dalek::scalar::Scalar;
use rand::RngCore;
use sha3::{Digest, Sha3_256};

verus! {

/// A point in time, in milliseconds since the Unix epoch.
pub type Timestamp = u64;

/// An element of the scalar field, as its 32-byte little-endian encoding.
#[derive(Clone, Copy, Debug)]
pub struct Fr {
    pub bytes: [u8; 32],
}

/// A group element, as its 32-byte compressed encoding.
#[derive(Clone, Copy, Debug)]
pub struct Pt {
    pub bytes: [u8; 32],
}

pub type PublicKey = Pt;

pub type SecretKey = Fr;

impl View for Fr {
    type V = Seq<u8>;

    open spec fn view(&self) -> Seq<u8> {
        self.bytes@
    }
}

impl View for Pt {
    type V = Seq<u8>;

    open spec fn view(&self) -> Seq<u8> {
        self.bytes@
    }
}

/// Compares two 32-byte arrays.
pub fn bytes32_eq(a: &[u8; 32], b: &[u8; 32]) -> (r: bool)
    ensures
        r == (a@ == b@),
{
    let mut i: usize = 0;
    while i < 32
        invariant
            0 <= i <= 32,
            a@.len() == 32,
            b@.len() == 32,
            forall|j: int| 0 <= j < i ==> a@[j] == b@[j],
        decreases 32 - i,
    {
        if a[i] != b[i] {
            return false;
        }
        i = i + 1;
    }
    assert(a@ =~= b@);
    true
}

impl PartialEq for Fr {
    fn eq(&self, other: &Fr) -> (r: bool) {
        bytes32_eq(&self.bytes, &other.bytes)
    }
}

impl vstd::std_specs::cmp::PartialEqSpecImpl for Fr {
    open spec fn obeys_eq_spec() -> bool {
        true
    }

    open spec fn eq_spec(&self, other: &Fr) -> bool {
        self@ == other@
    }
}

impl PartialEq for Pt {
    fn eq(&self, other: &Pt) -> (r: bool) {
        bytes32_eq(&self.bytes, &other.bytes)
    }
}

impl vstd::std_specs::cmp::PartialEqSpecImpl for Pt {
    open spec fn obeys_eq_spec() -> bool {
        true
    }

    open spec fn eq_spec(&self, other: &Pt) -> bool {
        self@ == other@
    }
}

impl Fr {
    pub fn zero() -> (r: Fr)
        ensures
            r@ == Seq::new(32, |i: int| 0u8),
    {
        let r = Fr { bytes: [0u8; 32] };
        assert(r@ =~= Seq::new(32, |i: int| 0u8));
        r
    }

    pub fn to_bytes(&self) -> (r: [u8; 32])
        ensures
            r@ == self@,
    {
        self.bytes
    }
}

impl Pt {
    pub fn to_bytes(&self) -> (r: [u8; 32])
        ensures
            r@ == self@,
    {
        self.bytes
    }
}

/// The product of two scalars.
pub uninterp spec fn scalar_mul_of(a: Seq<u8>, b: Seq<u8>) -> Seq<u8>;

/// The sum of two scalars.
pub uninterp spec fn scalar_add_of(a: Seq<u8>, b: Seq<u8>) -> Seq<u8>;

/// The multiplicative inverse of a scalar (zero for zero).
pub uninterp spec fn scalar_invert_of(a: Seq<u8>) -> Seq<u8>;

/// The scalar that a 32-byte string reduces to.
pub uninterp spec fn scalar_reduce_of(b: Seq<u8>) -> Seq<u8>;

/// The scalar that a 64-byte string reduces to.
pub uninterp spec fn scalar_reduce_wide_of(b: Seq<u8>) -> Seq<u8>;

/// Whether 32 bytes are the encoding of a group element.
pub uninterp spec fn point_valid(p: Seq<u8>) -> bool;

/// Whether 32 bytes are the canonical encoding of a scalar.
pub uninterp spec fn scalar_canonical(b: Seq<u8>) -> bool;

/// The multiple `s · P` of a group element.
pub uninterp spec fn point_mul_of(s: Seq<u8>, p: Seq<u8>) -> Seq<u8>;

/// The multiple `s · G` of the group's generator.
pub uninterp spec fn base_mul_of(s: Seq<u8>) -> Seq<u8>;

/// The sum of two group elements.
pub uninterp spec fn point_add_of(p: Seq<u8>, q: Seq<u8>) -> Seq<u8>;

/// The SHA3-256 digest of a byte string.
pub uninterp spec fn sha3_of(data: Seq<u8>) -> Seq<u8>;

/// AES-128 in counter mode, keyed by the first 16 bytes of `key` and started
/// at the counter block given by its last 16 bytes, applied to `data`.
pub uninterp spec fn aes_ctr_of(key: Seq<u8>, data: Seq<u8>) -> Seq<u8>;

/// The standard base64 text of a byte string.
pub uninterp spec fn base64_of(data: Seq<u8>) -> Seq<char>;

/// The bytes that a text decodes to as standard base64, if it is base64.
pub uninterp spec fn base64_decoded_of(text: Seq<char>) -> Option<Seq<u8>>;

/// Relies on `curve25519_dalek::scalar::Scalar`'s `Mul`: the product of the
/// two scalars that the arguments reduce to.
#[verifier::external_body]
pub(crate) fn scalar_mul(a: &Fr, b: &Fr) -> (r: Fr)
    ensures
        r@ == scalar_mul_of(a@, b@),
{
    let x = Scalar::from_bytes_mod_order(a.bytes);
    let y = Scalar::from_bytes_mod_order(b.bytes);
    Fr { bytes: (x * y).to_bytes() }
}

/// Relies on `curve25519_dalek::scalar::Scalar`'s `Add`.
#[verifier::external_body]
pub(crate) fn scalar_add(a: &Fr, b: &Fr) -> (r: Fr)
    ensures
        r@ == scalar_add_of(a@, b@),
{
    let x = Scalar::from_bytes_mod_order(a.bytes);
    let y = Scalar::from_bytes_mod_order(b.bytes);
    Fr { bytes: (x + y).to_bytes() }
}

/// Relies on `curve25519_dalek::scalar::Scalar::invert`.
#[verifier::external_body]
pub(crate) fn scalar_invert(a: &Fr) -> (r: Fr)
    ensures
        r@ == scalar_invert_of(a@),
{
    let x = Scalar::from_bytes_mod_order(a.bytes);
    Fr { bytes: x.invert().to_bytes() }
}

/// Relies on `curve25519_dalek::scalar::Scalar::from_bytes_mod_order`.
#[verifier::external_body]
pub(crate) fn scalar_reduce(b: &[u8; 32]) -> (r: Fr)
    ensures
        r@ == scalar_reduce_of(b@),
{
    Fr { bytes: Scalar::from_bytes_mod_order(*b).to_bytes() }
}

/// Relies on `curve25519_dalek::scalar::Scalar::from_canonical_bytes`: it
/// accepts exactly the canonical encodings.
#[verifier::external_body]
pub(crate) fn is_canonical_scalar(b: &[u8; 32]) -> (r: bool)
    ensures
        r == scalar_canonical(b@),
{
    bool::from(Scalar::from_canonical_bytes(*b).is_some())
}

/// Relies on `curve25519_dalek::ristretto::CompressedRistretto::decompress`:
/// it accepts exactly the encodings of group elements.
#[verifier::external_body]
pub(crate) fn is_valid_point(p: &[u8; 32]) -> (r: bool)
    ensures
        r == point_valid(p@),
{
    CompressedRistretto(*p).decompress().is_some()
}

/// Relies on `curve25519_dalek`'s `Scalar * RistrettoPoint`: `None` where the
/// point's bytes encode no group element. A compressed point always
/// decompresses again.
#[verifier::external_body]
pub(crate) fn point_mul(s: &Fr, p: &Pt) -> (r: Option<Pt>)
    ensures
        r is Some <==> point_valid(p@),
        r matches Some(q) ==> q@ == point_mul_of(s@, p@) && point_valid(q@),
{
    let x = Scalar::from_bytes_mod_order(s.bytes);
    match CompressedRistretto(p.bytes).decompress() {
        Some(q) => Some(Pt { bytes: (x * q).compress().to_bytes() }),
        None => None,
    }
}

/// Relies on `curve25519_dalek::ristretto::RistrettoPoint::mul_base`.
#[verifier::external_body]
pub(crate) fn base_mul(s: &Fr) -> (r: Pt)
    ensures
        r@ == base_mul_of(s@),
        point_valid(r@),
{
    let x = Scalar::from_bytes_mod_order(s.bytes);
    Pt { bytes: RistrettoPoint::mul_base(&x).compress().to_bytes() }
}

/// Relies on `curve25519_dalek`'s `RistrettoPoint + RistrettoPoint`: `None`
/// where either argument encodes no group element.
#[verifier::external_body]
pub(crate) fn point_add(p: &Pt, q: &Pt) -> (r: Option<Pt>)
    ensures
        r is Some <==> (point_valid(p@) && point_valid(q@)),
        r matches Some(x) ==> x@ == point_add_of(p@, q@) && point_valid(x@),
{
    match (CompressedRistretto(p.bytes).decompress(), CompressedRistretto(q.bytes).decompress()) {
        (Some(a), Some(b)) => Some(Pt { bytes: (a + b).compress().to_bytes() }),
        _ => None,
    }
}

/// Relies on `sha3::Sha3_256::digest`.
#[verifier::external_body]
pub(crate) fn sha3(data: &Vec<u8>) -> (r: [u8; 32])
    ensures
        r@ == sha3_of(data@),
{
    Sha3_256::digest(data.as_slice()).into()
}

/// Relies on `aes_ctr::Aes128Ctr`: a keystream of the data's length, xored
/// onto it, so that applying it twice with one key gives the data back.
#[verifier::external_body]
pub(crate) fn aes_ctr(key: &[u8; 32], data: &Vec<u8>) -> (r: Vec<u8>)
    ensures
        r@ == aes_ctr_of(key@, data@),
        r@.len() == data@.len(),
        aes_ctr_of(key@, r@) == data@,
{
    let mut out = data.clone();
    let mut c = Aes128Ctr::new(GenericArray::from_slice(&key[..16]), GenericArray::from_slice(&key[16..]));
    c.apply_keystream(&mut out);
    out
}

/// Relies on `base64::encode` (standard alphabet, padded).
#[verifier::external_body]
pub(crate) fn base64_encode(data: &Vec<u8>) -> (r: String)
    ensures
        r@ == base64_of(data@),
{
    base64::encode(data)
}

/// Relies on `base64::decode`: a function of the text alone, which inverts
/// `base64::encode`.
#[verifier::external_body]
pub(crate) fn base64_decode(text: &str) -> (r: Option<Vec<u8>>)
    ensures
        r is Some <==> base64_decoded_of(text@) is Some,
        r matches Some(v) ==> base64_decoded_of(text@) == Some(v@),
        r matches Some(v) ==> forall|d: Seq<u8>| #[trigger] base64_of(d) == text@ ==> v@ == d,
        r is None ==> forall|d: Seq<u8>| #[trigger] base64_of(d) != text@,
{
    base64::decode(text).ok()
}

/// Relies on `rand::RngCore::next_u64` of `rand::thread_rng`, a
/// cryptographically secure generator: a uniformly drawn 64-bit number.
#[verifier::external_body]
pub(crate) fn random_u64() -> (r: u64) {
    rand::thread_rng().next_u64()
}

/// Relies on `rand::RngCore::fill_bytes` of `rand::thread_rng`, a
/// cryptographically secure generator: the buffer is overwritten with
/// uniformly drawn bytes.
#[verifier::external_body]
pub(crate) fn fill_random(buf: &mut Vec<u8>)
    ensures
        final(buf)@.len() == old(buf)@.len(),
{
    rand::thread_rng().fill_bytes(buf.as_mut_slice())
}

/// Relies on `curve25519_dalek::scalar::Scalar::from_bytes_mod_order_wide`.
#[verifier::external_body]
pub(crate) fn scalar_reduce_wide(b: &[u8; 64]) -> (r: Fr)
    ensures
        r@ == scalar_reduce_wide_of(b@),
{
    Fr { bytes: Scalar::from_bytes_mod_order_wide(b).to_bytes() }
}

/// A uniformly drawn scalar: 64 random bytes reduced modulo the group order.
pub fn random_scalar() -> (r: Fr) {
    let mut buf: Vec<u8> = vec![0u8; 64];
    fill_random(&mut buf);
    let mut wide = [0u8; 64];
    let mut i: usize = 0;
    while i < 64
        invariant
            0 <= i <= 64,
            buf@.len() == 64,
            wide@.len() == 64,
        decreases 64 - i,
    {
        wide[i] = buf[i];
        i = i + 1;
    }
    scalar_reduce_wide(&wide)
}

/// 16 uniformly drawn bytes.
pub fn random_iv() -> (r: [u8; 16]) {
    let mut buf: Vec<u8> = vec![0u8; 16];
    fill_random(&mut buf);
    let mut iv = [0u8; 16];
    let mut i: usize = 0;
    while i < 16
        invariant
            0 <= i <= 16,
            buf@.len() == 16,
            iv@.len() == 16,
        decreases 16 - i,
    {
        iv[i] = buf[i];
        i = i + 1;
    }
    iv
}

/// Relies on `std::time::SystemTime::now`: the current time.
#[verifier::external_body]
pub(crate) fn now() -> (r: Timestamp) {
    match std::time::SystemTime::now().duration_since(std::time::UNIX_EPOCH) {
        Ok(d) => d.as_millis() as u64,
        Err(_) => 0,
    }
}

} // verus!
