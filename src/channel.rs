//! Channels: single-writer broadcasts. The owner posts; subscribers hold the
//! owner's key and chain from an invite and decrypt.
use vstd::prelude::*;
use crate::bytes::{push_bytes32, take32};
use crate::error::ChatError;
use crate::message::{
    addressed_on, carries, make_chat_message, plain_bytes, plain_wf, wire_bytes, enc_key_of, ChatMessageOutput,
    IncomingChatPayload, MessagePayload,
};
use crate::prim::{
    aes_ctr_of, base64_decode, base64_decoded_of, base64_encode, base64_of, is_canonical_scalar, is_valid_point,
    point_mul, point_mul_of, point_valid, random_scalar, random_u64, now, scalar_canonical,
    scalar_mul, scalar_mul_of, sha3, sha3_of, Fr, PublicKey, SecretKey, Timestamp,
};
use crate::roster::sent_on_chain;

verus! {

/// The length of an encoded invite: a key and a chain.
pub const INVITE_SIZE: usize = 64;

/// What a subscriber needs to read a channel.
#[derive(Clone, Copy, Debug)]
pub struct ChannelInvite {
    pub owner_pkey: PublicKey,
    pub owner_chain: Fr,
}

impl View for ChannelInvite {
    type V = (Seq<u8>, Seq<u8>);

    open spec fn view(&self) -> (Seq<u8>, Seq<u8>) {
        (self.owner_pkey@, self.owner_chain@)
    }
}

impl PartialEq for ChannelInvite {
    fn eq(&self, other: &ChannelInvite) -> (r: bool) {
        self.owner_pkey == other.owner_pkey && self.owner_chain == other.owner_chain
    }
}

impl vstd::std_specs::cmp::PartialEqSpecImpl for ChannelInvite {
    open spec fn obeys_eq_spec() -> bool {
        true
    }

    open spec fn eq_spec(&self, other: &ChannelInvite) -> bool {
        self@ == other@
    }
}

/// The 64 bytes of an invite: the owner's key, then the chain.
pub open spec fn invite_bytes(i: (Seq<u8>, Seq<u8>)) -> Seq<u8> {
    i.0 + i.1
}

/// Decoding 64 bytes into an invite: the length, the key and the chain are
/// checked in that order.
pub open spec fn decode_invite(b: Seq<u8>) -> Result<(Seq<u8>, Seq<u8>), ChatError> {
    if b.len() != 64 {
        Err(ChatError::InvalidLength(b.len() as usize))
    } else if !point_valid(b.subrange(0, 32)) {
        Err(ChatError::InvalidPoint)
    } else if !scalar_canonical(b.subrange(32, 64)) {
        Err(ChatError::InvalidScalar)
    } else {
        Ok((b.subrange(0, 32), b.subrange(32, 64)))
    }
}

/// Whether an invite's key is a group element and its chain canonical.
pub open spec fn invite_valid(i: (Seq<u8>, Seq<u8>)) -> bool {
    point_valid(i.0) && scalar_canonical(i.1)
}

/// Encoding a valid invite and decoding the bytes gives the invite back.
pub proof fn lemma_invite_round_trip(inv: ChannelInvite)
    requires
        invite_valid(inv@),
    ensures
        decode_invite(invite_bytes(inv@)) == Ok::<(Seq<u8>, Seq<u8>), ChatError>(inv@),
{
    let b = invite_bytes(inv@);
    assert(b.subrange(0, 32) =~= inv.owner_pkey@);
    assert(b.subrange(32, 64) =~= inv.owner_chain@);
}

/// Bytes that decode determine the invite: altered bytes either fail to
/// decode or decode to a different invite.
pub proof fn lemma_invite_alteration(a: Seq<u8>, b: Seq<u8>)
    requires
        a != b,
    ensures
        decode_invite(a) is Err || decode_invite(b) is Err || decode_invite(a) != decode_invite(b),
{
    if decode_invite(a) is Ok && decode_invite(b) is Ok && decode_invite(a) == decode_invite(b) {
        assert(a =~= a.subrange(0, 32) + a.subrange(32, 64));
        assert(b =~= b.subrange(0, 32) + b.subrange(32, 64));
    }
}

impl ChannelInvite {
    pub fn to_bytes(&self) -> (r: Vec<u8>)
        ensures
            r@ == invite_bytes(self@),
    {
        let mut data: Vec<u8> = Vec::new();
        push_bytes32(&mut data, &self.owner_pkey.bytes);
        push_bytes32(&mut data, &self.owner_chain.bytes);
        data
    }

    pub fn try_from_bytes(data: &Vec<u8>) -> (r: Result<ChannelInvite, ChatError>)
        ensures
            match r {
                Ok(inv) => decode_invite(data@) == Ok::<(Seq<u8>, Seq<u8>), ChatError>(inv@),
                Err(e) => decode_invite(data@) == Err::<(Seq<u8>, Seq<u8>), ChatError>(e),
            },
    {
        if data.len() != INVITE_SIZE {
            return Err(ChatError::InvalidLength(data.len()));
        }
        let pk = take32(data, 0);
        if !is_valid_point(&pk) {
            return Err(ChatError::InvalidPoint);
        }
        let chain = take32(data, 32);
        if !is_canonical_scalar(&chain) {
            return Err(ChatError::InvalidScalar);
        }
        Ok(ChannelInvite { owner_pkey: PublicKey { bytes: pk }, owner_chain: Fr { bytes: chain } })
    }

    /// The invite as base64 text, for delivery out of band.
    pub fn to_base64(&self) -> (r: String)
        ensures
            r@ == base64_of(invite_bytes(self@)),
    {
        base64_encode(&self.to_bytes())
    }

    /// Reads an invite from base64 text.
    pub fn try_from_base64(source: &str) -> (r: Result<ChannelInvite, ChatError>)
        ensures
            match base64_decoded_of(source@) {
                None => r == Err::<ChannelInvite, ChatError>(ChatError::InvalidBase64),
                Some(d) => match r {
                    Ok(inv) => decode_invite(d) == Ok::<(Seq<u8>, Seq<u8>), ChatError>(inv@),
                    Err(e) => decode_invite(d) == Err::<(Seq<u8>, Seq<u8>), ChatError>(e),
                },
            },
            forall|d: Seq<u8>|
                #[trigger] base64_of(d) == source@ ==> match r {
                    Ok(inv) => decode_invite(d) == Ok::<(Seq<u8>, Seq<u8>), ChatError>(inv@),
                    Err(e) => decode_invite(d) == Err::<(Seq<u8>, Seq<u8>), ChatError>(e),
                },
            r == Err::<ChannelInvite, ChatError>(ChatError::InvalidBase64) ==> forall|d: Seq<u8>|
                #[trigger] base64_of(d) != source@,
    {
        match base64_decode(source) {
            None => Err(ChatError::InvalidBase64),
            Some(data) => {
                let r = ChannelInvite::try_from_bytes(&data);
                assert(r != Err::<ChannelInvite, ChatError>(ChatError::InvalidBase64));
                r
            },
        }
    }
}

/// A chat output that the owner of a channel holds as spendable.
#[derive(Clone, Copy, Debug)]
pub struct UtxoInfo {
    /// The digest of the output.
    pub id: [u8; 32],
    pub created: Timestamp,
    /// The spending key: `recipient_cloaking_hint · owner_skey`.
    pub keying: Fr,
}

/// The bytes an output's identifier is the digest of: its wire bytes, then
/// the signature.
pub open spec fn output_id_bytes(o: ChatMessageOutput) -> Seq<u8> {
    wire_bytes(o) + o.signature.r@ + o.signature.s@
}

/// The digest that identifies an output.
pub fn output_id(o: &ChatMessageOutput) -> (r: [u8; 32])
    ensures
        r@ == sha3_of(output_id_bytes(*o)),
{
    let mut v = o.wire_bytes();
    push_bytes32(&mut v, &o.signature.r.bytes);
    push_bytes32(&mut v, &o.signature.s.bytes);
    sha3(&v)
}

#[derive(Clone, Debug)]
pub struct ChannelOwnerInfo {
    pub channel_id: String,
    pub owner_pkey: PublicKey,
    pub owner_skey: SecretKey,
    pub owner_chain: Fr,
}

#[derive(Clone, Debug)]
pub struct ChannelSession {
    pub channel_id: String,
    pub owner_pkey: PublicKey,
    pub owner_chain: Fr,
    /// Messages received, with their senders.
    pub messages: Vec<(PublicKey, Vec<u8>)>,
}

/// The channel key of output `o`: the owner stands on both sides.
pub open spec fn channel_key(o: ChatMessageOutput, owner_pk: Seq<u8>, owner_chain: Seq<u8>) -> Seq<
    u8,
> {
    enc_key_of(
        o.recipient_cloaking_hint@,
        o.sender_cloaking_hint@,
        owner_pk,
        owner_chain,
        owner_pk,
        owner_chain,
    )
}

/// The text that a channel output `o` with ciphertext `c` decrypts to, if
/// it decrypts to a user message.
pub open spec fn channel_text(
    o: ChatMessageOutput,
    c: Seq<u8>,
    owner_pk: Seq<u8>,
    owner_chain: Seq<u8>,
    t: Seq<u8>,
) -> bool {
    &&& point_valid(owner_pk)
    &&& aes_ctr_of(channel_key(o, owner_pk, owner_chain), c) == seq![0u8] + t
}

/// The text that channel output `o` carries for session `s`: the channel
/// key opens its ciphertext to a user message.
pub open spec fn channel_plain(s: ChannelSession, o: ChatMessageOutput) -> Option<Seq<u8>> {
    match o.payload {
        MessagePayload::EncryptedMessage(c) => {
            let a = aes_ctr_of(channel_key(o, s.owner_pkey@, s.owner_chain@), c@);
            if point_valid(s.owner_pkey@) && plain_wf(a) && a[0] == 0 {
                Some(a.drop_first())
            } else {
                None
            }
        },
        MessagePayload::EncryptedChainCodes(_) => None,
    }
}

impl ChannelSession {
    /// Decrypts a channel ciphertext; only a user message is accepted.
    fn decrypt_channel_message(&self, utxo: &ChatMessageOutput, ctxt: &Vec<u8>) -> (r: Option<
        Vec<u8>,
    >)
        ensures
            r is Some <==> point_valid(self.owner_pkey@) && plain_wf(
                aes_ctr_of(channel_key(*utxo, self.owner_pkey@, self.owner_chain@), ctxt@),
            ) && aes_ctr_of(channel_key(*utxo, self.owner_pkey@, self.owner_chain@), ctxt@)[0]
                == 0,
            r matches Some(t) ==> channel_text(
                *utxo,
                ctxt@,
                self.owner_pkey@,
                self.owner_chain@,
                t@,
            ),
    {
        let key = match utxo.compute_encryption_key(
            &self.owner_pkey,
            &self.owner_chain,
            &self.owner_pkey,
            &self.owner_chain,
        ) {
            Some(k) => k,
            None => {
                return None;
            },
        };
        match utxo.decrypt(&key, ctxt) {
            Ok(m) => match m {
                IncomingChatPayload::PlainText(txt) => Some(txt),
                IncomingChatPayload::Evictions(_) => None,
                IncomingChatPayload::NewMembers(..) => None,
                IncomingChatPayload::Rekeying(_) => None,
            },
            Err(_) => None,
        }
    }

    /// The user message that a recognised channel output carries, tagged
    /// with the owner; rekeyings and other payloads are dropped.
    pub fn get_message(&self, utxo: &ChatMessageOutput) -> (r: Option<(PublicKey, Vec<u8>)>)
        ensures
            match channel_plain(*self, *utxo) {
                Some(t) => r matches Some((pk, u)) && pk == self.owner_pkey && u@ == t,
                None => r is None,
            },
            utxo.payload is EncryptedChainCodes ==> r is None,
            utxo.payload matches MessagePayload::EncryptedMessage(c) ==> {
                &&& r is Some <==> point_valid(self.owner_pkey@) && plain_wf(
                    aes_ctr_of(channel_key(*utxo, self.owner_pkey@, self.owner_chain@), c@),
                ) && aes_ctr_of(channel_key(*utxo, self.owner_pkey@, self.owner_chain@), c@)[0]
                    == 0
                &&& r matches Some((pk, t)) ==> pk == self.owner_pkey && channel_text(
                    *utxo,
                    c@,
                    self.owner_pkey@,
                    self.owner_chain@,
                    t@,
                )
            },
    {
        match &utxo.payload {
            MessagePayload::EncryptedChainCodes(_) => None,
            MessagePayload::EncryptedMessage(m) => match self.decrypt_channel_message(utxo, m) {
                None => None,
                Some(txt) => {
                    assert((seq![0u8] + txt@).drop_first() =~= txt@);
                    Some((self.owner_pkey, txt))
                },
            },
        }
    }
}

impl ChannelOwnerInfo {
    /// The spendable record of an output on this channel.
    fn record_utxo(&self, utxo: &ChatMessageOutput) -> (r: UtxoInfo)
        ensures
            r.id@ == sha3_of(output_id_bytes(*utxo)),
            r.created == utxo.created,
            r.keying@ == scalar_mul_of(utxo.recipient_cloaking_hint@, self.owner_skey@),
    {
        UtxoInfo {
            id: output_id(utxo),
            created: utxo.created,
            keying: scalar_mul(&utxo.recipient_cloaking_hint, &self.owner_skey),
        }
    }

    /// An output recognised as this channel's: recorded as spendable when
    /// the owner sent it, dropped otherwise.
    pub fn get_message(&self, utxo: &ChatMessageOutput) -> (r: Option<UtxoInfo>)
        ensures
            r is Some <==> sent_on_chain(*utxo, self.owner_chain@),
            r matches Some(u) ==> u.id@ == sha3_of(output_id_bytes(*utxo)) && u.created
                == utxo.created && u.keying@ == scalar_mul_of(
                utxo.recipient_cloaking_hint@,
                self.owner_skey@,
            ),
    {
        match point_mul(&self.owner_chain, &utxo.sender_keying_hint) {
            Some(p) => {
                if p == utxo.sender {
                    Some(self.record_utxo(utxo))
                } else {
                    None
                }
            },
            None => None,
        }
    }

    /// A post with the given randomness and metadata: the owner is both
    /// sender and recipient.
    pub fn new_message_with(
        &self,
        msg: Vec<u8>,
        r_owner: &Fr,
        r_sender: &Fr,
        sequence: u64,
        created: Timestamp,
    ) -> (r: Option<ChatMessageOutput>)
        ensures
            r is Some <==> point_valid(self.owner_pkey@),
            r matches Some(m) ==> {
                &&& sent_on_chain(m, self.owner_chain@)
                &&& carries(
                    m,
                    self.owner_pkey@,
                    self.owner_chain@,
                    self.owner_pkey@,
                    self.owner_chain@,
                    self.owner_skey@,
                    r_sender@,
                    msg@,
                )
                &&& m.created == created
                &&& m.sequence == sequence
                &&& point_valid(m.recipient_keying_hint@)
                &&& m.recipient@ == point_mul_of(self.owner_chain@, m.recipient_keying_hint@)
                &&& m.payload matches MessagePayload::EncryptedMessage(c) && aes_ctr_of(
                    channel_key(m, self.owner_pkey@, self.owner_chain@),
                    c@,
                ) == plain_bytes(IncomingChatPayload::PlainText(msg))
            },
    {
        let payload = IncomingChatPayload::PlainText(msg);
        let r = make_chat_message(
            &self.owner_pkey,
            &self.owner_chain,
            &self.owner_skey,
            &self.owner_pkey,
            &self.owner_chain,
            &payload,
            r_owner,
            r_sender,
            sequence,
            created,
        );
        r
    }

    /// A post, with fresh randomness, stamped now.
    pub fn new_message(&self, msg: Vec<u8>) -> (r: Option<ChatMessageOutput>)
        ensures
            r is Some <==> point_valid(self.owner_pkey@),
            r matches Some(m) ==> sent_on_chain(m, self.owner_chain@) && exists|rs: Seq<u8>|
                #[trigger] carries(
                    m,
                    self.owner_pkey@,
                    self.owner_chain@,
                    self.owner_pkey@,
                    self.owner_chain@,
                    self.owner_skey@,
                    rs,
                    msg@,
                ),
    {
        let r_owner = random_scalar();
        let r_sender = random_scalar();
        let sequence = random_u64();
        let created = now();
        self.new_message_with(msg, &r_owner, &r_sender, sequence, created)
    }
}

} // verus!
