//! The chat output that travels on the ledger: its canonical wire encoding,
//! recipient and sender cloaking, the per-message key, payload encryption and
//! the Schnorr signature over the wire fields.
use vstd::prelude::*;
use crate::bytes::{
    lemma_u32_le_injective, lemma_u64_le_injective, push_all, push_bytes32,
    push_u32_le, push_u64_le, take32, u32_le, u64_le,
};
use crate::error::ChatError;
use crate::prim::{
    aes_ctr, aes_ctr_of, base_mul, base_mul_of, point_add, point_add_of, point_mul, point_mul_of,
    point_valid, scalar_add, scalar_add_of, scalar_mul, scalar_mul_of, scalar_reduce,
    scalar_reduce_of, sha3, sha3_of, Fr, PublicKey, Pt, SecretKey, Timestamp,
};

verus! {

/// What an output carries: a ciphertext, or the cloaked points of a rekeying.
#[derive(Clone, Debug)]
pub enum MessagePayload {
    EncryptedMessage(Vec<u8>),
    EncryptedChainCodes(Vec<Pt>),
}

/// A Schnorr signature `(R, s)`: valid under `P` on `msg` when
/// `s · G == R + e · P` with `e` the challenge of `(R, P, msg)`.
#[derive(Clone, Copy, Debug)]
pub struct SchnorrSig {
    pub r: Pt,
    pub s: Fr,
}

#[derive(Clone, Debug)]
pub struct ChatMessageOutput {
    /// Cloaked owner key of the destination group or channel.
    pub recipient: Pt,
    /// `recipient == owner_chain · recipient_keying_hint`.
    pub recipient_keying_hint: Pt,
    pub recipient_cloaking_hint: Fr,
    /// Cloaked sender key: `sender == sender_chain · sender_keying_hint`.
    pub sender: Pt,
    pub sender_keying_hint: Pt,
    pub sender_cloaking_hint: Fr,
    pub sequence: u64,
    pub msg_nbr: u32,
    pub msg_tot: u32,
    pub created: Timestamp,
    pub payload: MessagePayload,
    pub signature: SchnorrSig,
}

/// The concatenated encodings of a list of points.
pub open spec fn pts_bytes(s: Seq<Pt>) -> Seq<u8>
    decreases s.len(),
{
    if s.len() == 0 {
        seq![]
    } else {
        s[0]@ + pts_bytes(s.drop_first())
    }
}

pub proof fn lemma_pts_bytes_len(s: Seq<Pt>)
    ensures
        pts_bytes(s).len() == 32 * s.len(),
    decreases s.len(),
{
    if s.len() > 0 {
        lemma_pts_bytes_len(s.drop_first());
    }
}

pub proof fn lemma_pts_bytes_push(s: Seq<Pt>, p: Pt)
    ensures
        pts_bytes(s.push(p)) == pts_bytes(s) + p@,
    decreases s.len(),
{
    if s.len() == 0 {
        assert(s.push(p).drop_first() =~= s);
        assert(pts_bytes(s.push(p)) =~= p@);
    } else {
        assert(s.push(p).drop_first() =~= s.drop_first().push(p));
        lemma_pts_bytes_push(s.drop_first(), p);
        assert(pts_bytes(s.push(p)) =~= pts_bytes(s) + p@);
    }
}

/// Equal encodings of two point lists hold the same points.
pub proof fn lemma_pts_bytes_injective(a: Seq<Pt>, b: Seq<Pt>)
    requires
        pts_bytes(a) == pts_bytes(b),
    ensures
        a.len() == b.len(),
        forall|i: int| 0 <= i < a.len() ==> #[trigger] a[i]@ == b[i]@,
    decreases a.len(),
{
    lemma_pts_bytes_len(a);
    lemma_pts_bytes_len(b);
    if a.len() > 0 {
        let x = pts_bytes(a);
        assert(x.subrange(0, 32) =~= a[0]@);
        assert(x.subrange(0, 32) =~= b[0]@);
        assert(x.subrange(32, x.len() as int) =~= pts_bytes(a.drop_first()));
        assert(x.subrange(32, x.len() as int) =~= pts_bytes(b.drop_first()));
        lemma_pts_bytes_injective(a.drop_first(), b.drop_first());
        assert forall|i: int| 0 <= i < a.len() implies #[trigger] a[i]@ == b[i]@ by {
            if i > 0 {
                assert(a[i] == a.drop_first()[i - 1]);
                assert(b[i] == b.drop_first()[i - 1]);
            }
        }
    }
}

/// The payload's tag byte followed by its body.
pub open spec fn payload_bytes(p: MessagePayload) -> Seq<u8> {
    match p {
        MessagePayload::EncryptedMessage(c) => seq![0u8] + c@,
        MessagePayload::EncryptedChainCodes(pts) => seq![1u8] + pts_bytes(pts@),
    }
}

/// The fixed-size wire fields, in canonical order.
pub open spec fn header_bytes(m: ChatMessageOutput) -> Seq<u8> {
    m.recipient@ + m.recipient_keying_hint@ + m.recipient_cloaking_hint@ + m.sender@
        + m.sender_keying_hint@ + m.sender_cloaking_hint@ + u64_le(m.sequence) + u32_le(
        m.msg_nbr,
    ) + u32_le(m.msg_tot) + u64_le(m.created)
}

/// The canonical encoding of every wire field but the signature: what the
/// signature is computed over.
pub open spec fn wire_bytes(m: ChatMessageOutput) -> Seq<u8> {
    header_bytes(m) + payload_bytes(m.payload)
}

/// Whether two outputs agree on every wire field but the signature.
pub open spec fn same_wire_fields(a: ChatMessageOutput, b: ChatMessageOutput) -> bool {
    &&& a.recipient@ == b.recipient@
    &&& a.recipient_keying_hint@ == b.recipient_keying_hint@
    &&& a.recipient_cloaking_hint@ == b.recipient_cloaking_hint@
    &&& a.sender@ == b.sender@
    &&& a.sender_keying_hint@ == b.sender_keying_hint@
    &&& a.sender_cloaking_hint@ == b.sender_cloaking_hint@
    &&& a.sequence == b.sequence
    &&& a.msg_nbr == b.msg_nbr
    &&& a.msg_tot == b.msg_tot
    &&& a.created == b.created
    &&& match (a.payload, b.payload) {
        (MessagePayload::EncryptedMessage(x), MessagePayload::EncryptedMessage(y)) => x@ == y@,
        (MessagePayload::EncryptedChainCodes(x), MessagePayload::EncryptedChainCodes(y)) => {
            x@.len() == y@.len() && forall|i: int| 0 <= i < x@.len() ==> #[trigger] x@[i]@ == y@[i]@
        },
        _ => false,
    }
}

/// The signed bytes determine every wire field: two outputs that differ in
/// any field but the signature have different signed bytes, so a signature
/// made for one is checked against other bytes for the other.
pub proof fn lemma_wire_bytes_injective(a: ChatMessageOutput, b: ChatMessageOutput)
    requires
        wire_bytes(a) == wire_bytes(b),
    ensures
        same_wire_fields(a, b),
{
    let x = wire_bytes(a);
    let ha = header_bytes(a);
    let hb = header_bytes(b);
    assert(ha.len() == 216);
    assert(hb.len() == 216);
    assert(x.subrange(0, 216) =~= ha);
    assert(x.subrange(0, 216) =~= hb);
    assert(ha.subrange(0, 32) =~= a.recipient@);
    assert(hb.subrange(0, 32) =~= b.recipient@);
    assert(ha.subrange(32, 64) =~= a.recipient_keying_hint@);
    assert(hb.subrange(32, 64) =~= b.recipient_keying_hint@);
    assert(ha.subrange(64, 96) =~= a.recipient_cloaking_hint@);
    assert(hb.subrange(64, 96) =~= b.recipient_cloaking_hint@);
    assert(ha.subrange(96, 128) =~= a.sender@);
    assert(hb.subrange(96, 128) =~= b.sender@);
    assert(ha.subrange(128, 160) =~= a.sender_keying_hint@);
    assert(hb.subrange(128, 160) =~= b.sender_keying_hint@);
    assert(ha.subrange(160, 192) =~= a.sender_cloaking_hint@);
    assert(hb.subrange(160, 192) =~= b.sender_cloaking_hint@);
    assert(ha.subrange(192, 200) =~= u64_le(a.sequence));
    assert(hb.subrange(192, 200) =~= u64_le(b.sequence));
    lemma_u64_le_injective(a.sequence, b.sequence);
    assert(ha.subrange(200, 204) =~= u32_le(a.msg_nbr));
    assert(hb.subrange(200, 204) =~= u32_le(b.msg_nbr));
    lemma_u32_le_injective(a.msg_nbr, b.msg_nbr);
    assert(ha.subrange(204, 208) =~= u32_le(a.msg_tot));
    assert(hb.subrange(204, 208) =~= u32_le(b.msg_tot));
    lemma_u32_le_injective(a.msg_tot, b.msg_tot);
    assert(ha.subrange(208, 216) =~= u64_le(a.created));
    assert(hb.subrange(208, 216) =~= u64_le(b.created));
    lemma_u64_le_injective(a.created, b.created);
    let pa = payload_bytes(a.payload);
    let pb = payload_bytes(b.payload);
    assert(x.subrange(216, x.len() as int) =~= pa);
    assert(x.subrange(216, x.len() as int) =~= pb);
    assert(pa[0] == pb[0]);
    match (a.payload, b.payload) {
        (MessagePayload::EncryptedMessage(c), MessagePayload::EncryptedMessage(d)) => {
            assert(pa.subrange(1, pa.len() as int) =~= c@);
            assert(pb.subrange(1, pb.len() as int) =~= d@);
        },
        (MessagePayload::EncryptedChainCodes(c), MessagePayload::EncryptedChainCodes(d)) => {
            assert(pa.subrange(1, pa.len() as int) =~= pts_bytes(c@));
            assert(pb.subrange(1, pb.len() as int) =~= pts_bytes(d@));
            lemma_pts_bytes_injective(c@, d@);
        },
        _ => {},
    }
}

/// Appends the encodings of a list of points.
fn push_pts(v: &mut Vec<u8>, pts: &Vec<Pt>)
    ensures
        final(v)@ == old(v)@ + pts_bytes(pts@),
{
    let mut i: usize = 0;
    while i < pts.len()
        invariant
            0 <= i <= pts@.len(),
            v@ == old(v)@ + pts_bytes(pts@.subrange(0, i as int)),
        decreases pts@.len() - i,
    {
        let p = pts[i];
        push_bytes32(v, &p.bytes);
        proof {
            lemma_pts_bytes_push(pts@.subrange(0, i as int), p);
            assert(pts@.subrange(0, i + 1) =~= pts@.subrange(0, i as int).push(p));
        }
        i = i + 1;
    }
    assert(pts@.subrange(0, pts@.len() as int) =~= pts@);
}

impl ChatMessageOutput {
    /// The canonical bytes that the signature covers.
    pub fn wire_bytes(&self) -> (r: Vec<u8>)
        ensures
            r@ == wire_bytes(*self),
    {
        let mut v: Vec<u8> = Vec::new();
        push_bytes32(&mut v, &self.recipient.bytes);
        push_bytes32(&mut v, &self.recipient_keying_hint.bytes);
        push_bytes32(&mut v, &self.recipient_cloaking_hint.bytes);
        push_bytes32(&mut v, &self.sender.bytes);
        push_bytes32(&mut v, &self.sender_keying_hint.bytes);
        push_bytes32(&mut v, &self.sender_cloaking_hint.bytes);
        push_u64_le(&mut v, self.sequence);
        push_u32_le(&mut v, self.msg_nbr);
        push_u32_le(&mut v, self.msg_tot);
        push_u64_le(&mut v, self.created);
        assert(v@ =~= header_bytes(*self));
        match &self.payload {
            MessagePayload::EncryptedMessage(c) => {
                v.push(0u8);
                push_all(&mut v, c);
            },
            MessagePayload::EncryptedChainCodes(pts) => {
                v.push(1u8);
                push_pts(&mut v, pts);
            },
        }
        assert(v@ =~= wire_bytes(*self));
        v
    }
}

/// A decrypted payload.
#[derive(Clone, Debug)]
pub enum IncomingChatPayload {
    /// A user message.
    PlainText(Vec<u8>),
    /// Members joining a group, with their chains, and the owner's
    /// signature on the list.
    NewMembers(Vec<(PublicKey, Fr)>, SchnorrSig),
    /// Members leaving a group.
    Evictions(Vec<PublicKey>),
    /// A sender's new chain, learned from a rekeying.
    Rekeying(Fr),
}

/// The concatenated encodings of a list of (key, chain) pairs.
pub open spec fn pairs_bytes(s: Seq<(PublicKey, Fr)>) -> Seq<u8>
    decreases s.len(),
{
    if s.len() == 0 {
        seq![]
    } else {
        s[0].0@ + s[0].1@ + pairs_bytes(s.drop_first())
    }
}

pub proof fn lemma_pairs_bytes_push(s: Seq<(PublicKey, Fr)>, p: (PublicKey, Fr))
    ensures
        pairs_bytes(s.push(p)) == pairs_bytes(s) + p.0@ + p.1@,
    decreases s.len(),
{
    if s.len() == 0 {
        assert(s.push(p).drop_first() =~= s);
        assert(pairs_bytes(s.push(p)) =~= p.0@ + p.1@);
    } else {
        assert(s.push(p).drop_first() =~= s.drop_first().push(p));
        lemma_pairs_bytes_push(s.drop_first(), p);
        assert(pairs_bytes(s.push(p)) =~= pairs_bytes(s) + p.0@ + p.1@);
    }
}

/// The plaintext encoding of a payload: a tag byte, then the body.
pub open spec fn plain_bytes(p: IncomingChatPayload) -> Seq<u8> {
    match p {
        IncomingChatPayload::PlainText(t) => seq![0u8] + t@,
        IncomingChatPayload::NewMembers(v, sig) => seq![1u8] + sig.r@ + sig.s@ + pairs_bytes(v@),
        IncomingChatPayload::Evictions(v) => seq![2u8] + pts_bytes(v@),
        IncomingChatPayload::Rekeying(c) => seq![3u8] + c@,
    }
}

/// The bytes an owner signs to onboard `pairs` into its group: the owner's
/// key, the group's rekeying chain, then the list.
pub open spec fn onboarding_bytes(owner_pk: Seq<u8>, rekeying_chain: Seq<u8>, pairs: Seq<(PublicKey, Fr)>) -> Seq<u8> {
    owner_pk + rekeying_chain + pairs_bytes(pairs)
}

/// The bytes an owner signs to onboard `pairs`.
pub fn onboarding_message(owner_pk: &PublicKey, rekeying_chain: &Fr, pairs: &Vec<(PublicKey, Fr)>) -> (r: Vec<u8>)
    ensures
        r@ == onboarding_bytes(owner_pk@, rekeying_chain@, pairs@),
{
    let mut v: Vec<u8> = Vec::new();
    push_bytes32(&mut v, &owner_pk.bytes);
    push_bytes32(&mut v, &rekeying_chain.bytes);
    push_pairs(&mut v, pairs);
    v
}

/// Whether bytes are the plaintext encoding of a payload that may travel in
/// a message. A rekeying is learned from cloaked points, never sent as text.
pub open spec fn plain_wf(b: Seq<u8>) -> bool {
    &&& b.len() >= 1
    &&& {
        ||| b[0] == 0
        ||| b[0] == 1 && b.len() >= 65 && (b.len() - 65) % 64 == 0
        ||| b[0] == 2 && (b.len() - 1) % 32 == 0
    }
}

pub(crate) fn push_pairs(v: &mut Vec<u8>, pairs: &Vec<(PublicKey, Fr)>)
    ensures
        final(v)@ == old(v)@ + pairs_bytes(pairs@),
{
    let mut i: usize = 0;
    while i < pairs.len()
        invariant
            0 <= i <= pairs@.len(),
            v@ == old(v)@ + pairs_bytes(pairs@.subrange(0, i as int)),
        decreases pairs@.len() - i,
    {
        let p = pairs[i];
        push_bytes32(v, &p.0.bytes);
        push_bytes32(v, &p.1.bytes);
        proof {
            lemma_pairs_bytes_push(pairs@.subrange(0, i as int), p);
            assert(pairs@.subrange(0, i + 1) =~= pairs@.subrange(0, i as int).push(p));
        }
        i = i + 1;
    }
    assert(pairs@.subrange(0, pairs@.len() as int) =~= pairs@);
}

/// The plaintext encoding of a payload.
pub fn encode_payload(p: &IncomingChatPayload) -> (r: Vec<u8>)
    ensures
        r@ == plain_bytes(*p),
{
    let mut v: Vec<u8> = Vec::new();
    match p {
        IncomingChatPayload::PlainText(t) => {
            v.push(0u8);
            push_all(&mut v, t);
        },
        IncomingChatPayload::NewMembers(pairs, sig) => {
            v.push(1u8);
            push_bytes32(&mut v, &sig.r.bytes);
            push_bytes32(&mut v, &sig.s.bytes);
            push_pairs(&mut v, pairs);
        },
        IncomingChatPayload::Evictions(pts) => {
            v.push(2u8);
            push_pts(&mut v, pts);
        },
        IncomingChatPayload::Rekeying(c) => {
            v.push(3u8);
            push_bytes32(&mut v, &c.bytes);
        },
    }
    v
}

/// Reads the points encoded in `b` from `start` on.
fn read_pts(b: &Vec<u8>, start: usize) -> (r: Vec<Pt>)
    requires
        1 <= start <= b@.len(),
        (b@.len() - start) % 32 == 0,
    ensures
        pts_bytes(r@) == b@.subrange(start as int, b@.len() as int),
{
    let mut r: Vec<Pt> = Vec::new();
    let mut off = start;
    while off < b.len()
        invariant
            start <= off <= b@.len(),
            (b@.len() - off) % 32 == 0,
            pts_bytes(r@) == b@.subrange(start as int, off as int),
        decreases b@.len() - off,
    {
        let p = Pt { bytes: take32(b, off) };
        proof {
            lemma_pts_bytes_push(r@, p);
            assert(b@.subrange(start as int, off + 32) =~= b@.subrange(start as int, off as int)
                + p@);
        }
        r.push(p);
        off = off + 32;
    }
    r
}

/// Reads the (key, chain) pairs encoded in `b` from `start` on.
fn read_pairs(b: &Vec<u8>, start: usize) -> (r: Vec<(PublicKey, Fr)>)
    requires
        1 <= start <= b@.len(),
        (b@.len() - start) % 64 == 0,
    ensures
        pairs_bytes(r@) == b@.subrange(start as int, b@.len() as int),
{
    let mut r: Vec<(PublicKey, Fr)> = Vec::new();
    let mut off = start;
    while off < b.len()
        invariant
            start <= off <= b@.len(),
            (b@.len() - off) % 64 == 0,
            pairs_bytes(r@) == b@.subrange(start as int, off as int),
        decreases b@.len() - off,
    {
        let p = (Pt { bytes: take32(b, off) }, Fr { bytes: take32(b, off + 32) });
        proof {
            lemma_pairs_bytes_push(r@, p);
            assert(b@.subrange(start as int, off + 64) =~= b@.subrange(start as int, off as int)
                + p.0@ + p.1@);
        }
        r.push(p);
        off = off + 64;
    }
    r
}

/// Decodes a plaintext; fails with `DecodeError` on an unknown tag (a
/// rekeying's among them) or a body of the wrong length.
pub fn decode_payload(b: &Vec<u8>) -> (r: Result<IncomingChatPayload, ChatError>)
    ensures
        r is Ok <==> plain_wf(b@),
        r matches Ok(p) ==> plain_bytes(p) == b@ && !(p is Rekeying),
        r matches Err(e) ==> e == ChatError::DecodeError,
{
    let n = b.len();
    if n == 0 {
        return Err(ChatError::DecodeError);
    }
    let tag = b[0];
    if tag == 0 {
        let mut t: Vec<u8> = Vec::new();
        let mut i: usize = 1;
        while i < n
            invariant
                1 <= i <= n,
                n == b@.len(),
                t@ == b@.subrange(1, i as int),
            decreases n - i,
        {
            t.push(b[i]);
            assert(b@.subrange(1, i + 1) =~= b@.subrange(1, i as int).push(b@[i as int]));
            i = i + 1;
        }
        let p = IncomingChatPayload::PlainText(t);
        assert(plain_bytes(p) =~= b@);
        Ok(p)
    } else if tag == 1 && n >= 65 && (n - 65) % 64 == 0 {
        let sig = SchnorrSig { r: Pt { bytes: take32(b, 1) }, s: Fr { bytes: take32(b, 33) } };
        let v = read_pairs(b, 65);
        let p = IncomingChatPayload::NewMembers(v, sig);
        assert(plain_bytes(p) =~= b@);
        Ok(p)
    } else if tag == 2 && (n - 1) % 32 == 0 {
        let v = read_pts(b, 1);
        let p = IncomingChatPayload::Evictions(v);
        assert(plain_bytes(p) =~= b@);
        Ok(p)
    } else {
        Err(ChatError::DecodeError)
    }
}

/// The per-message key between the owner `(owner_pk, owner_chain)` and a
/// peer `(peer_pk, peer_chain)`:
/// `H(rch · owner_chain · peer_pk || sch · peer_chain · owner_pk)`.
pub open spec fn enc_key_of(
    rch: Seq<u8>,
    sch: Seq<u8>,
    owner_pk: Seq<u8>,
    owner_chain: Seq<u8>,
    peer_pk: Seq<u8>,
    peer_chain: Seq<u8>,
) -> Seq<u8> {
    sha3_of(
        point_mul_of(scalar_mul_of(rch, owner_chain), peer_pk) + point_mul_of(
            scalar_mul_of(sch, peer_chain),
            owner_pk,
        ),
    )
}

/// The recipient side of `m` was cloaked for `(owner_pk, owner_chain)` with
/// randomness `r_owner`, for a sender on `sender_chain`.
pub open spec fn recipient_cloaked(
    m: ChatMessageOutput,
    owner_pk: Seq<u8>,
    owner_chain: Seq<u8>,
    r_owner: Seq<u8>,
    sender_chain: Seq<u8>,
) -> bool {
    &&& m.recipient_keying_hint@ == point_mul_of(r_owner, owner_pk)
    &&& point_valid(m.recipient_keying_hint@)
    &&& m.recipient@ == point_mul_of(owner_chain, m.recipient_keying_hint@)
    &&& m.recipient_cloaking_hint@ == scalar_mul_of(r_owner, sender_chain)
}

/// The sender side of `m` was cloaked for `(sender_pk, sender_chain)` with
/// randomness `r_sender`, towards an owner on `owner_chain`.
pub open spec fn sender_cloaked(
    m: ChatMessageOutput,
    sender_pk: Seq<u8>,
    sender_chain: Seq<u8>,
    r_sender: Seq<u8>,
    owner_chain: Seq<u8>,
) -> bool {
    &&& m.sender_keying_hint@ == point_mul_of(r_sender, sender_pk)
    &&& point_valid(m.sender_keying_hint@)
    &&& m.sender@ == point_mul_of(sender_chain, m.sender_keying_hint@)
    &&& m.sender_cloaking_hint@ == scalar_mul_of(r_sender, owner_chain)
}

/// The secret key under which a sender's cloaked point verifies:
/// `sender_chain · r_sender · sender_skey`.
pub open spec fn signing_key_of(skey: Seq<u8>, chain: Seq<u8>, r_sender: Seq<u8>) -> Seq<u8> {
    scalar_mul_of(scalar_mul_of(chain, r_sender), skey)
}

/// The deterministic signing nonce for key `x` and message `msg`.
pub open spec fn nonce_of(x: Seq<u8>, msg: Seq<u8>) -> Seq<u8> {
    scalar_reduce_of(sha3_of(x + msg))
}

/// The Schnorr challenge of commitment `rp`, key `p` and message `msg`.
pub open spec fn challenge_of(rp: Seq<u8>, p: Seq<u8>, msg: Seq<u8>) -> Seq<u8> {
    scalar_reduce_of(sha3_of(rp + p + msg))
}

/// `sig` is the signature made with secret `x`, whose key is `p`, on `msg`.
pub open spec fn schnorr_signed(sig: SchnorrSig, x: Seq<u8>, p: Seq<u8>, msg: Seq<u8>) -> bool {
    let k = nonce_of(x, msg);
    &&& sig.r@ == base_mul_of(k)
    &&& sig.s@ == scalar_add_of(k, scalar_mul_of(challenge_of(base_mul_of(k), p, msg), x))
}

/// `sig` verifies under key `p` on `msg`: `s · G == R + e · P`.
pub open spec fn schnorr_valid(sig: SchnorrSig, p: Seq<u8>, msg: Seq<u8>) -> bool {
    &&& point_valid(p)
    &&& point_valid(sig.r@)
    &&& base_mul_of(sig.s@) == point_add_of(sig.r@, point_mul_of(challenge_of(sig.r@, p, msg), p))
}

/// `m` carries the signature made with secret `x` over its wire bytes.
pub open spec fn signed_with(m: ChatMessageOutput, x: Seq<u8>) -> bool {
    schnorr_signed(m.signature, x, m.sender@, wire_bytes(m))
}

/// `m`'s signature verifies under its cloaked sender point.
pub open spec fn sig_valid(m: ChatMessageOutput) -> bool {
    schnorr_valid(m.signature, m.sender@, wire_bytes(m))
}

/// The SHA3 digest of `a || b`, reduced to a scalar.
fn hash_to_scalar2(a: &[u8; 32], b: &Vec<u8>) -> (r: Fr)
    ensures
        r@ == scalar_reduce_of(sha3_of(a@ + b@)),
{
    let mut buf: Vec<u8> = Vec::new();
    push_bytes32(&mut buf, a);
    push_all(&mut buf, b);
    assert(buf@ =~= a@ + b@);
    let h = sha3(&buf);
    scalar_reduce(&h)
}

/// The SHA3 digest of `a || b || c`, reduced to a scalar.
fn hash_to_scalar3(a: &[u8; 32], b: &[u8; 32], c: &Vec<u8>) -> (r: Fr)
    ensures
        r@ == scalar_reduce_of(sha3_of(a@ + b@ + c@)),
{
    let mut buf: Vec<u8> = Vec::new();
    push_bytes32(&mut buf, a);
    push_bytes32(&mut buf, b);
    push_all(&mut buf, c);
    let h = sha3(&buf);
    scalar_reduce(&h)
}

/// Signs `msg` with secret `x`, whose key is `p`, with a deterministic nonce.
pub fn schnorr_sign(x: &Fr, p: &Pt, msg: &Vec<u8>) -> (r: SchnorrSig)
    ensures
        schnorr_signed(r, x@, p@, msg@),
{
    let k = hash_to_scalar2(&x.bytes, msg);
    let rp = base_mul(&k);
    let e = hash_to_scalar3(&rp.bytes, &p.bytes, msg);
    let s = scalar_add(&k, &scalar_mul(&e, x));
    SchnorrSig { r: rp, s }
}

/// Checks a signature on `msg` under key `p`.
pub fn schnorr_verify(p: &Pt, msg: &Vec<u8>, sig: &SchnorrSig) -> (r: bool)
    ensures
        r == schnorr_valid(*sig, p@, msg@),
{
    let e = hash_to_scalar3(&sig.r.bytes, &p.bytes, msg);
    match point_mul(&e, p) {
        None => false,
        Some(ep) => match point_add(&sig.r, &ep) {
            None => false,
            Some(sum) => base_mul(&sig.s) == sum,
        },
    }
}

impl ChatMessageOutput {
    /// An output with every field zero and an empty ciphertext.
    pub fn new() -> (r: ChatMessageOutput)
        ensures
            r.sequence == 0,
            r.msg_nbr == 0,
            r.msg_tot == 0,
            r.created == 0,
            r.payload matches MessagePayload::EncryptedMessage(c) && c@.len() == 0,
    {
        let z = Pt { bytes: [0u8; 32] };
        let f = Fr { bytes: [0u8; 32] };
        ChatMessageOutput {
            recipient: z,
            recipient_keying_hint: z,
            recipient_cloaking_hint: f,
            sender: z,
            sender_keying_hint: z,
            sender_cloaking_hint: f,
            sequence: 0,
            msg_nbr: 0,
            msg_tot: 0,
            created: 0,
            payload: MessagePayload::EncryptedMessage(Vec::new()),
            signature: SchnorrSig { r: z, s: f },
        }
    }

    /// Cloaks the recipient side for the owner `(owner_pkey, owner_chain)`;
    /// fails, changing nothing, where `owner_pkey` encodes no group element.
    pub fn cloak_recipient(
        &mut self,
        owner_pkey: &PublicKey,
        owner_chain: &Fr,
        r_owner: &Fr,
        sender_chain: &Fr,
    ) -> (r: Result<(), ChatError>)
        ensures
            r is Ok <==> point_valid(owner_pkey@),
            r is Err ==> r == Err::<(), ChatError>(ChatError::InvalidPoint) && *final(self)
                == *old(self),
            r is Ok ==> recipient_cloaked(
                *final(self),
                owner_pkey@,
                owner_chain@,
                r_owner@,
                sender_chain@,
            ),
            *final(self) == (ChatMessageOutput {
                recipient: final(self).recipient,
                recipient_keying_hint: final(self).recipient_keying_hint,
                recipient_cloaking_hint: final(self).recipient_cloaking_hint,
                ..*old(self)
            }),
    {
        match point_mul(r_owner, owner_pkey) {
            None => Err(ChatError::InvalidPoint),
            Some(hint) => {
                match point_mul(owner_chain, &hint) {
                    None => Err(ChatError::InvalidPoint),
                    Some(rcpt) => {
                        self.recipient_keying_hint = hint;
                        self.recipient = rcpt;
                        self.recipient_cloaking_hint = scalar_mul(r_owner, sender_chain);
                        Ok(())
                    },
                }
            },
        }
    }

    /// Cloaks the sender side for `(sender_pkey, sender_chain)`; fails,
    /// changing nothing, where `sender_pkey` encodes no group element.
    pub fn cloak_sender(
        &mut self,
        sender_pkey: &PublicKey,
        sender_chain: &Fr,
        r_sender: &Fr,
        owner_chain: &Fr,
    ) -> (r: Result<(), ChatError>)
        ensures
            r is Ok <==> point_valid(sender_pkey@),
            r is Err ==> r == Err::<(), ChatError>(ChatError::InvalidPoint) && *final(self)
                == *old(self),
            r is Ok ==> sender_cloaked(
                *final(self),
                sender_pkey@,
                sender_chain@,
                r_sender@,
                owner_chain@,
            ),
            *final(self) == (ChatMessageOutput {
                sender: final(self).sender,
                sender_keying_hint: final(self).sender_keying_hint,
                sender_cloaking_hint: final(self).sender_cloaking_hint,
                ..*old(self)
            }),
    {
        match point_mul(r_sender, sender_pkey) {
            None => Err(ChatError::InvalidPoint),
            Some(hint) => {
                match point_mul(sender_chain, &hint) {
                    None => Err(ChatError::InvalidPoint),
                    Some(snd) => {
                        self.sender_keying_hint = hint;
                        self.sender = snd;
                        self.sender_cloaking_hint = scalar_mul(r_sender, owner_chain);
                        Ok(())
                    },
                }
            },
        }
    }

    /// Signs the wire bytes with `chain · r_sender · skey`, the secret key of
    /// the cloaked sender point.
    pub fn sign(&mut self, skey: &SecretKey, chain: &Fr, r_sender: &Fr)
        ensures
            *final(self) == (ChatMessageOutput { signature: final(self).signature, ..*old(self) }),
            signed_with(*final(self), signing_key_of(skey@, chain@, r_sender@)),
    {
        let x = scalar_mul(&scalar_mul(chain, r_sender), skey);
        let msg = self.wire_bytes();
        self.signature = schnorr_sign(&x, &self.sender, &msg);
    }

    /// Checks the signature against the cloaked sender point.
    pub fn verify(&self) -> (r: bool)
        ensures
            r == sig_valid(*self),
    {
        let msg = self.wire_bytes();
        schnorr_verify(&self.sender, &msg, &self.signature)
    }

    /// The key for this output between the owner and a peer; `None` where
    /// either key encodes no group element.
    pub fn compute_encryption_key(
        &self,
        owner_pkey: &PublicKey,
        owner_chain: &Fr,
        peer_pkey: &PublicKey,
        peer_chain: &Fr,
    ) -> (r: Option<[u8; 32]>)
        ensures
            r is Some <==> point_valid(owner_pkey@) && point_valid(peer_pkey@),
            r matches Some(k) ==> k@ == enc_key_of(
                self.recipient_cloaking_hint@,
                self.sender_cloaking_hint@,
                owner_pkey@,
                owner_chain@,
                peer_pkey@,
                peer_chain@,
            ),
    {
        let a = scalar_mul(&self.recipient_cloaking_hint, owner_chain);
        let b = scalar_mul(&self.sender_cloaking_hint, peer_chain);
        match (point_mul(&a, peer_pkey), point_mul(&b, owner_pkey)) {
            (Some(x), Some(y)) => {
                let mut buf: Vec<u8> = Vec::new();
                push_bytes32(&mut buf, &x.bytes);
                push_bytes32(&mut buf, &y.bytes);
                Some(sha3(&buf))
            },
            _ => None,
        }
    }

    /// Decrypts a ciphertext with `key` and decodes the plaintext.
    pub fn decrypt(&self, key: &[u8; 32], ctxt: &Vec<u8>) -> (r: Result<
        IncomingChatPayload,
        ChatError,
    >)
        ensures
            r is Ok <==> plain_wf(aes_ctr_of(key@, ctxt@)),
            r matches Ok(p) ==> plain_bytes(p) == aes_ctr_of(key@, ctxt@) && !(p is Rekeying),
            r matches Err(e) ==> e == ChatError::DecodeError,
    {
        let plain = aes_ctr(key, ctxt);
        decode_payload(&plain)
    }
}

/// Builds, cloaks, encrypts and signs an output carrying `payload` from the
/// sender `(sender_pkey, sender_chain)` to the owner
/// `(owner_pkey, owner_chain)`, with the given randomness and metadata.
/// `None` where either key encodes no group element.
pub fn make_chat_message(
    owner_pkey: &PublicKey,
    owner_chain: &Fr,
    sender_skey: &SecretKey,
    sender_pkey: &PublicKey,
    sender_chain: &Fr,
    payload: &IncomingChatPayload,
    r_owner: &Fr,
    r_sender: &Fr,
    sequence: u64,
    created: Timestamp,
) -> (r: Option<ChatMessageOutput>)
    ensures
        r is Some <==> point_valid(owner_pkey@) && point_valid(sender_pkey@),
        r matches Some(m) ==> {
            &&& recipient_cloaked(m, owner_pkey@, owner_chain@, r_owner@, sender_chain@)
            &&& sender_cloaked(m, sender_pkey@, sender_chain@, r_sender@, owner_chain@)
            &&& m.sequence == sequence
            &&& m.msg_nbr == 0
            &&& m.msg_tot == 1
            &&& m.created == created
            &&& m.payload matches MessagePayload::EncryptedMessage(c) && c@ == aes_ctr_of(
                enc_key_of(
                    m.recipient_cloaking_hint@,
                    m.sender_cloaking_hint@,
                    owner_pkey@,
                    owner_chain@,
                    sender_pkey@,
                    sender_chain@,
                ),
                plain_bytes(*payload),
            ) && aes_ctr_of(
                enc_key_of(
                    m.recipient_cloaking_hint@,
                    m.sender_cloaking_hint@,
                    owner_pkey@,
                    owner_chain@,
                    sender_pkey@,
                    sender_chain@,
                ),
                c@,
            ) == plain_bytes(*payload)
            &&& signed_with(m, signing_key_of(sender_skey@, sender_chain@, r_sender@))
        },
{
    let mut m = ChatMessageOutput::new();
    m.sequence = sequence;
    m.msg_nbr = 0;
    m.msg_tot = 1;
    m.created = created;
    if m.cloak_recipient(owner_pkey, owner_chain, r_owner, sender_chain).is_err() {
        return None;
    }
    if m.cloak_sender(sender_pkey, sender_chain, r_sender, owner_chain).is_err() {
        return None;
    }
    let key = match m.compute_encryption_key(owner_pkey, owner_chain, sender_pkey, sender_chain) {
        Some(k) => k,
        None => {
            return None;
        },
    };
    let plain = encode_payload(payload);
    let ctxt = aes_ctr(&key, &plain);
    m.payload = MessagePayload::EncryptedMessage(ctxt);
    m.sign(sender_skey, sender_chain, r_sender);
    Some(m)
}

/// Whether `o` is addressed to the owner on `chain`:
/// `recipient == chain · recipient_keying_hint`.
pub open spec fn addressed_on(o: ChatMessageOutput, chain: Seq<u8>) -> bool {
    point_valid(o.recipient_keying_hint@) && point_mul_of(chain, o.recipient_keying_hint@)
        == o.recipient@
}

/// The membership probe: one scalar multiplication and a comparison.
pub fn is_addressed_on(o: &ChatMessageOutput, chain: &Fr) -> (r: bool)
    ensures
        r == addressed_on(*o, chain@),
{
    match point_mul(chain, &o.recipient_keying_hint) {
        Some(p) => p == o.recipient,
        None => false,
    }
}

/// `m` carries text `t` from the sender `(sender_pk, sender_chain)`, whose
/// secret is `sender_skey` and whose signing randomness is `r_sender`, to
/// the owner `(owner_pk, owner_chain)`: it is addressed on the owner chain,
/// sent on the sender chain, its ciphertext opens to the text under the key
/// between the two, and it is signed.
pub open spec fn carries(
    m: ChatMessageOutput,
    owner_pk: Seq<u8>,
    owner_chain: Seq<u8>,
    sender_pk: Seq<u8>,
    sender_chain: Seq<u8>,
    sender_skey: Seq<u8>,
    r_sender: Seq<u8>,
    t: Seq<u8>,
) -> bool {
    &&& addressed_on(m, owner_chain)
    &&& point_valid(m.sender_keying_hint@)
    &&& m.sender@ == point_mul_of(sender_chain, m.sender_keying_hint@)
    &&& m.payload matches MessagePayload::EncryptedMessage(c) && aes_ctr_of(
        enc_key_of(
            m.recipient_cloaking_hint@,
            m.sender_cloaking_hint@,
            owner_pk,
            owner_chain,
            sender_pk,
            sender_chain,
        ),
        c@,
    ) == seq![0u8] + t
    &&& signed_with(m, signing_key_of(sender_skey, sender_chain, r_sender))
}

} // verus!
