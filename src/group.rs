//! Groups: the owner's and a subscriber's side of a group conversation.
use vstd::prelude::*;
use crate::keys::{chain_from_point_of, chain_from_seed};
use crate::message::{
    addressed_on, carries, enc_key_of, is_addressed_on, make_chat_message, onboarding_bytes,
    onboarding_message, schnorr_sign, schnorr_signed, schnorr_valid, schnorr_verify, SchnorrSig, plain_bytes, recipient_cloaked,
    sender_cloaked, ChatMessageOutput, IncomingChatPayload, MessagePayload,
};
use crate::prim::{
    aes_ctr_of, base_mul_of, point_valid, random_scalar, random_u64, now, Fr, PublicKey, SecretKey,
    Timestamp,
};
use crate::roster::{
    chunk_count, copy_members, decrypts_from, is_first, lemma_first_unique, GroupMember, is_rekey_chunk, member_key, rekey_applies,
    rekey_chain_of, roster_after_onboarding, sender_probe, sent_on_chain, with_new_chain,
    without_keys, MemberRoster,
};

verus! {

/// What handling an incoming output surfaces.
#[derive(Clone, Debug)]
pub enum ChatItem {
    /// A member adopted a new chain.
    Rekeying(PublicKey, Fr),
    /// A user message and its sender.
    Text(PublicKey, Vec<u8>),
}

#[derive(Clone, Debug)]
pub struct GroupOwnerInfo {
    pub group_id: String,
    pub owner_pkey: PublicKey,
    pub owner_skey: SecretKey,
    /// The chain that ordinary traffic is addressed on.
    pub owner_chain: Fr,
    /// The chain that onboarding is addressed on.
    pub owner_rekeying_chain: Fr,
    pub members: MemberRoster,
    pub ignored_members: Vec<PublicKey>,
    pub messages: Vec<(PublicKey, Vec<u8>)>,
}

#[derive(Clone, Debug)]
pub struct GroupSession {
    pub group_id: String,
    pub owner_pkey: PublicKey,
    pub owner_chain: Fr,
    pub owner_rekeying_chain: Fr,
    pub my_pkey: PublicKey,
    pub my_skey: SecretKey,
    pub my_chain: Fr,
    pub members: MemberRoster,
    pub ignored_members: Vec<PublicKey>,
    pub messages: Vec<(PublicKey, Vec<u8>)>,
}

/// The owner chain that output `o` is addressed on, of a group with chains
/// `chain` and `rekeying`: the ordinary chain where its probe matches, else
/// the rekeying chain where that one matches, else the ordinary chain.
pub open spec fn select_owner_chain(o: ChatMessageOutput, chain: Fr, rekeying: Fr) -> Fr {
    if addressed_on(o, chain@) {
        chain
    } else if addressed_on(o, rekeying@) {
        rekeying
    } else {
        chain
    }
}

fn select_chain(o: &ChatMessageOutput, chain: &Fr, rekeying: &Fr) -> (r: Fr)
    ensures
        r == select_owner_chain(*o, *chain, *rekeying),
{
    if is_addressed_on(o, chain) {
        *chain
    } else if is_addressed_on(o, rekeying) {
        *rekeying
    } else {
        *chain
    }
}

/// What a group output yields to its holder, given the roster result.
fn to_item(d: Option<(PublicKey, IncomingChatPayload)>) -> (r: Option<ChatItem>)
    ensures
        r matches Some(ChatItem::Text(pk, t)) ==> d matches Some((q, IncomingChatPayload::PlainText(u)))
            && pk == q && t@ == u@,
        r matches Some(ChatItem::Rekeying(pk, c)) ==> d matches Some((q, IncomingChatPayload::Rekeying(e)))
            && pk == q && c == e,
        r is None <==> !(d matches Some((_, IncomingChatPayload::PlainText(_))) || d matches Some((_, IncomingChatPayload::Rekeying(_)))),
{
    match d {
        Some((sender, IncomingChatPayload::PlainText(t))) => Some(ChatItem::Text(sender, t)),
        Some((sender, IncomingChatPayload::Rekeying(c))) => Some(ChatItem::Rekeying(sender, c)),
        _ => None,
    }
}

/// The decryption of output `o` through roster `s` on `owner_chain`: the
/// first member that passes the sender probe, if the key between the owner
/// and it opens the ciphertext to a user message, with that message's text.
pub open spec fn group_text(
    s: Seq<GroupMember>,
    owner_pk: Seq<u8>,
    owner_chain: Seq<u8>,
    o: ChatMessageOutput,
) -> Option<(PublicKey, Seq<u8>)> {
    match o.payload {
        MessagePayload::EncryptedMessage(c) => {
            if exists|i: int| text_from(s, i, owner_pk, owner_chain, o, c@) {
                let i = choose|i: int| text_from(s, i, owner_pk, owner_chain, o, c@);
                Some(
                    (
                        s[i].pkey,
                        aes_ctr_of(member_key(s[i], owner_pk, owner_chain, o), c@).drop_first(),
                    ),
                )
            } else {
                None
            }
        },
        MessagePayload::EncryptedChainCodes(_) => None,
    }
}

/// Member `i` is the first to pass the sender probe of `o`, and the key
/// between the owner and it opens `c` to a user message.
pub open spec fn text_from(
    s: Seq<GroupMember>,
    i: int,
    owner_pk: Seq<u8>,
    owner_chain: Seq<u8>,
    o: ChatMessageOutput,
    c: Seq<u8>,
) -> bool {
    &&& is_first(s, i, sender_probe(o))
    &&& decrypts_from(s[i], owner_pk, owner_chain, o, c)
    &&& aes_ctr_of(member_key(s[i], owner_pk, owner_chain, o), c)[0] == 0
}

pub proof fn lemma_group_text(
    s: Seq<GroupMember>,
    i: int,
    owner_pk: Seq<u8>,
    owner_chain: Seq<u8>,
    o: ChatMessageOutput,
    c: Seq<u8>,
    t: Seq<u8>,
)
    requires
        o.payload matches MessagePayload::EncryptedMessage(d) && d@ == c,
        text_from(s, i, owner_pk, owner_chain, o, c),
        aes_ctr_of(member_key(s[i], owner_pk, owner_chain, o), c) == seq![0u8] + t,
    ensures
        group_text(s, owner_pk, owner_chain, o) == Some::<(PublicKey, Seq<u8>)>((s[i].pkey, t)),
{
    let k = choose|k: int| text_from(s, k, owner_pk, owner_chain, o, c);
    lemma_first_unique(s, i, k, sender_probe(o));
    assert((seq![0u8] + t).drop_first() =~= t);
}

/// What a roster lookup's result says, restated over `group_text`.
pub proof fn lemma_text_result(
    s: Seq<GroupMember>,
    owner_pk: Seq<u8>,
    owner_chain: Seq<u8>,
    o: ChatMessageOutput,
    c: Vec<u8>,
    r: Option<ChatItem>,
)
    requires
        o.payload == MessagePayload::EncryptedMessage(c),
        r is Some <==> exists|i: int|
            is_first(s, i, sender_probe(o)) && decrypts_from(s[i], owner_pk, owner_chain, o, c@)
                && aes_ctr_of(member_key(s[i], owner_pk, owner_chain, o), c@)[0] == 0,
        r is Some ==> (r matches Some(ChatItem::Text(..))),
        r matches Some(ChatItem::Text(q, u)) ==> exists|i: int|
            is_first(s, i, sender_probe(o)) && q == s[i].pkey && aes_ctr_of(
                member_key(s[i], owner_pk, owner_chain, o),
                c@,
            ) == seq![0u8] + u@,
    ensures
        match group_text(s, owner_pk, owner_chain, o) {
            Some((pk, t)) => r matches Some(ChatItem::Text(q, u)) && q == pk && u@ == t,
            None => r is None,
        },
{
    if let Some(ChatItem::Text(q, u)) = r {
        let i = choose|i: int|
            is_first(s, i, sender_probe(o)) && q == s[i].pkey && aes_ctr_of(
                member_key(s[i], owner_pk, owner_chain, o),
                c@,
            ) == seq![0u8] + u@;
        let j = choose|j: int|
            is_first(s, j, sender_probe(o)) && decrypts_from(s[j], owner_pk, owner_chain, o, c@)
                && aes_ctr_of(member_key(s[j], owner_pk, owner_chain, o), c@)[0] == 0;
        lemma_first_unique(s, i, j, sender_probe(o));
        lemma_group_text(s, i, owner_pk, owner_chain, o, c@, u@);
    } else {
        assert(!exists|i: int| text_from(s, i, owner_pk, owner_chain, o, c@));
    }
}

/// Evicting `evicted` from `g` can be announced: the owner key and every
/// remaining member's key encode group elements, and the rekeying chunks can
/// be numbered.
pub open spec fn eviction_possible(g: GroupOwnerInfo, evicted: Seq<PublicKey>) -> bool {
    let kept = without_keys(g.members@, evicted);
    &&& point_valid(g.owner_pkey@)
    &&& forall|j: int| 0 <= j < kept.len() ==> point_valid(#[trigger] kept[j].pkey@)
    &&& chunk_count(kept.len() as int) <= u32::MAX
}

impl GroupOwnerInfo {
    pub fn get_owner_chain(&self, msg: &ChatMessageOutput) -> (r: Fr)
        ensures
            r == select_owner_chain(*msg, self.owner_chain, self.owner_rekeying_chain),
    {
        select_chain(msg, &self.owner_chain, &self.owner_rekeying_chain)
    }

    /// Handles an output addressed on `owner_chain`: a member's message is
    /// decrypted through the roster; a member's rekeying updates it.
    pub fn get_message(&mut self, msg: &ChatMessageOutput, owner_chain: &Fr) -> (r: Option<
        ChatItem,
    >)
        ensures
            final(self).group_id == old(self).group_id,
            final(self).owner_pkey == old(self).owner_pkey,
            final(self).owner_skey == old(self).owner_skey,
            final(self).owner_chain == old(self).owner_chain,
            final(self).owner_rekeying_chain == old(self).owner_rekeying_chain,
            final(self).ignored_members == old(self).ignored_members,
            final(self).messages == old(self).messages,
            msg.payload is EncryptedMessage ==> match group_text(
                old(self).members@,
                old(self).owner_pkey@,
                owner_chain@,
                *msg,
            ) {
                Some((pk, t)) => r matches Some(ChatItem::Text(q, u)) && q == pk && u@ == t,
                None => r is None,
            },
            msg.payload matches MessagePayload::EncryptedMessage(c) ==> {
                &&& final(self).members@ == old(self).members@
                &&& r is Some ==> (r matches Some(ChatItem::Text(..)))
                &&& r is Some <==> exists|i: int|
                    is_first(old(self).members@, i, sender_probe(*msg)) && decrypts_from(
                        old(self).members@[i],
                        old(self).owner_pkey@,
                        owner_chain@,
                        *msg,
                        c@,
                    ) && aes_ctr_of(
                        member_key(old(self).members@[i], old(self).owner_pkey@, owner_chain@, *msg),
                        c@,
                    )[0] == 0
                &&& r matches Some(ChatItem::Text(pk, t)) ==> exists|i: int|
                    is_first(old(self).members@, i, sender_probe(*msg)) && pk
                        == old(self).members@[i].pkey && aes_ctr_of(
                        member_key(old(self).members@[i], old(self).owner_pkey@, owner_chain@, *msg),
                        c@,
                    ) == seq![0u8] + t@
            },
            msg.payload matches MessagePayload::EncryptedChainCodes(pts) ==> {
                &&& r is Some ==> (r matches Some(ChatItem::Rekeying(..)))
                &&& r is Some <==> !sent_on_chain(*msg, old(self).owner_chain@) && rekey_applies(
                    old(self).members@,
                    owner_chain@,
                    *msg,
                    pts@,
                    old(self).owner_skey@,
                )
                &&& r is None ==> final(self).members@ == old(self).members@
                &&& r matches Some(ChatItem::Rekeying(pk, c)) ==> c@ == rekey_chain_of(
                    old(self).owner_skey@,
                    pts@,
                    *msg,
                ) && final(self).members@ == with_new_chain(
                    old(self).members@,
                    pk,
                    c,
                    msg.created,
                )
            },
    {
        let owner_pkey = self.owner_pkey;
        let owner_skey = self.owner_skey;
        let my_chain = self.owner_chain;
        let d = self.members.get_decrypted_message(
            &owner_pkey,
            owner_chain,
            &owner_skey,
            &owner_pkey,
            &my_chain,
            msg,
        );
        proof {
            if d is Some && msg.payload is EncryptedMessage {
                let p = (d->0).1;
                assert(plain_bytes(p)[0] == 0 <==> p is PlainText);
            }
        }
        let r = to_item(d);
        proof {
            if msg.payload is EncryptedMessage {
                lemma_text_result(
                    old(self).members@,
                    old(self).owner_pkey@,
                    owner_chain@,
                    *msg,
                    msg.payload->EncryptedMessage_0,
                    r,
                );
            }
        }
        r
    }

    /// A message to the group with the given randomness and metadata.
    pub fn new_message_with(
        &self,
        msg: Vec<u8>,
        r_owner: &Fr,
        r_sender: &Fr,
        sequence: u64,
        created: Timestamp,
    ) -> (r: Option<ChatMessageOutput>)
        ensures
            r is Some <==> point_valid(self.owner_pkey@),
            r matches Some(m) ==> {
                &&& recipient_cloaked(
                    m,
                    self.owner_pkey@,
                    self.owner_chain@,
                    r_owner@,
                    self.owner_chain@,
                )
                &&& sender_cloaked(m, self.owner_pkey@, self.owner_chain@, r_sender@, self.owner_chain@)
                &&& carries(
                    m,
                    self.owner_pkey@,
                    self.owner_chain@,
                    self.owner_pkey@,
                    self.owner_chain@,
                    self.owner_skey@,
                    r_sender@,
                    msg@,
                )
                &&& m.created == created
                &&& m.sequence == sequence
            },
    {
        let payload = IncomingChatPayload::PlainText(msg);
        make_chat_message(
            &self.owner_pkey,
            &self.owner_chain,
            &self.owner_skey,
            &self.owner_pkey,
            &self.owner_chain,
            &payload,
            r_owner,
            r_sender,
            sequence,
            created,
        )
    }

    /// A message to the group, with fresh randomness, stamped now.
    pub fn new_message(&self, msg: Vec<u8>) -> (r: Option<ChatMessageOutput>)
        ensures
            r is Some <==> point_valid(self.owner_pkey@),
            r matches Some(m) ==> exists|rs: Seq<u8>|
                #[trigger] carries(
                    m,
                    self.owner_pkey@,
                    self.owner_chain@,
                    self.owner_pkey@,
                    self.owner_chain@,
                    self.owner_skey@,
                    rs,
                    msg@,
                ),
    {
        let r_owner = random_scalar();
        let r_sender = random_scalar();
        let sequence = random_u64();
        let created = now();
        self.new_message_with(msg, &r_owner, &r_sender, sequence, created)
    }

    /// Evicts members: the roster drops them, the rekeying outputs announce
    /// the chain that `seed` stands for to the remaining members, and the
    /// group switches to that chain. Nothing changes where a key encodes no
    /// group element.
    pub fn evict_members_with(
        &mut self,
        evicted: &Vec<PublicKey>,
        seed: &Fr,
        msg_ser: u64,
        created: Timestamp,
    ) -> (r: Option<Vec<ChatMessageOutput>>)
        ensures
            r is None ==> *final(self) == *old(self),
            r matches Some(v) ==> {
                let kept = without_keys(old(self).members@, evicted@);
                &&& final(self).members@ == kept
                &&& *final(self) == (GroupOwnerInfo {
                    members: final(self).members,
                    owner_chain: final(self).owner_chain,
                    ..*old(self)
                })
                &&& final(self).owner_chain@ == chain_from_point_of(base_mul_of(seed@))
                &&& v@.len() == chunk_count(kept.len() as int)
                &&& forall|i: int|
                    0 <= i < v@.len() ==> is_rekey_chunk(
                        #[trigger] v@[i],
                        kept,
                        i,
                        v@.len() as int,
                        msg_ser,
                        created,
                        seed@,
                        old(self).owner_pkey@,
                        old(self).owner_chain@,
                        old(self).owner_skey@,
                        old(self).owner_pkey@,
                    )
            },
            r is Some <==> eviction_possible(*old(self), evicted@),
    {
        let mut kept = MemberRoster(copy_members(&self.members.0));
        kept.evict(evicted);
        match kept.rekeying_messages_with(
            &self.owner_pkey,
            &self.owner_chain,
            &self.owner_skey,
            &self.owner_pkey,
            seed,
            msg_ser,
            created,
        ) {
            None => None,
            Some(v) => {
                self.members = kept;
                self.owner_chain = chain_from_seed(seed);
                Some(v)
            },
        }
    }

    /// Evicts members under a fresh seed and sequence number.
    pub fn evict_members(&mut self, evicted: &Vec<PublicKey>) -> (r: Option<Vec<ChatMessageOutput>>)
        ensures
            r is Some <==> eviction_possible(*old(self), evicted@),
            r is None ==> *final(self) == *old(self),
            r matches Some(v) ==> {
                let kept = without_keys(old(self).members@, evicted@);
                &&& final(self).members@ == kept
                &&& *final(self) == (GroupOwnerInfo {
                    members: final(self).members,
                    owner_chain: final(self).owner_chain,
                    ..*old(self)
                })
                &&& v@.len() == chunk_count(kept.len() as int)
                &&& exists|seed: Seq<u8>|
                    #[trigger] chain_from_point_of(base_mul_of(seed)) == final(self).owner_chain@
                        && forall|i: int|
                        0 <= i < v@.len() ==> is_rekey_chunk(
                            #[trigger] v@[i],
                            kept,
                            i,
                            v@.len() as int,
                            v@[0].sequence,
                            v@[0].created,
                            seed,
                            old(self).owner_pkey@,
                            old(self).owner_chain@,
                            old(self).owner_skey@,
                            old(self).owner_pkey@,
                        )
            },
    {
        let seed = random_scalar();
        let msg_ser = random_u64();
        let created = now();
        self.evict_members_with(evicted, &seed, msg_ser, created)
    }

    /// Onboards members: they join the owner's roster at `created`, and the
    /// returned output carries the list to the group on the rekeying chain.
    pub fn add_members_with(
        &mut self,
        pairs: Vec<(PublicKey, Fr)>,
        r_owner: &Fr,
        r_sender: &Fr,
        sequence: u64,
        created: Timestamp,
    ) -> (r: Option<ChatMessageOutput>)
        ensures
            r is Some <==> point_valid(old(self).owner_pkey@),
            r is None ==> *final(self) == *old(self),
            r matches Some(m) ==> {
                &&& final(self).members@ == roster_after_onboarding(
                    old(self).members@,
                    pairs@,
                    created,
                )
                &&& recipient_cloaked(
                    m,
                    old(self).owner_pkey@,
                    old(self).owner_rekeying_chain@,
                    r_owner@,
                    old(self).owner_chain@,
                )
                &&& sender_cloaked(
                    m,
                    old(self).owner_pkey@,
                    old(self).owner_chain@,
                    r_sender@,
                    old(self).owner_rekeying_chain@,
                )
                &&& m.created == created
                &&& exists|sig: SchnorrSig|
                    #[trigger] schnorr_signed(
                        sig,
                        old(self).owner_skey@,
                        old(self).owner_pkey@,
                        onboarding_bytes(old(self).owner_pkey@, old(self).owner_rekeying_chain@, pairs@),
                    ) && (m.payload matches MessagePayload::EncryptedMessage(c) && aes_ctr_of(
                        enc_key_of(
                            m.recipient_cloaking_hint@,
                            m.sender_cloaking_hint@,
                            old(self).owner_pkey@,
                            old(self).owner_rekeying_chain@,
                            old(self).owner_pkey@,
                            old(self).owner_chain@,
                        ),
                        c@,
                    ) == plain_bytes(IncomingChatPayload::NewMembers(pairs, sig)))
            },
    {
        let b = onboarding_message(&self.owner_pkey, &self.owner_rekeying_chain, &pairs);
        let sig = schnorr_sign(&self.owner_skey, &self.owner_pkey, &b);
        let payload = IncomingChatPayload::NewMembers(pairs, sig);
        let out = make_chat_message(
            &self.owner_pkey,
            &self.owner_rekeying_chain,
            &self.owner_skey,
            &self.owner_pkey,
            &self.owner_chain,
            &payload,
            r_owner,
            r_sender,
            sequence,
            created,
        );
        match out {
            None => None,
            Some(m) => {
                match &payload {
                    IncomingChatPayload::NewMembers(p, _) => {
                        self.members.add_members_to_roster(p, created);
                    },
                    _ => {},
                }
                Some(m)
            },
        }
    }
}

impl GroupSession {
    pub fn get_owner_chain(&self, msg: &ChatMessageOutput) -> (r: Fr)
        ensures
            r == select_owner_chain(*msg, self.owner_chain, self.owner_rekeying_chain),
    {
        select_chain(msg, &self.owner_chain, &self.owner_rekeying_chain)
    }

    /// Handles an output addressed on `owner_chain`: messages are decrypted
    /// through the roster; a rekeying updates the roster (and the owner
    /// chain, when the owner rotated); the owner's evictions and signed
    /// onboarding lists update the roster.
    pub fn get_message(&mut self, msg: &ChatMessageOutput, owner_chain: &Fr) -> (r: Option<
        ChatItem,
    >)
        ensures
            final(self).group_id == old(self).group_id,
            final(self).owner_pkey == old(self).owner_pkey,
            final(self).my_pkey == old(self).my_pkey,
            final(self).my_skey == old(self).my_skey,
            final(self).my_chain == old(self).my_chain,
            final(self).owner_rekeying_chain == old(self).owner_rekeying_chain,
            final(self).ignored_members == old(self).ignored_members,
            final(self).messages == old(self).messages,
            msg.payload is EncryptedMessage && final(self).members@ != old(self).members@ ==> {
                &&& exists|i: int|
                    is_first(old(self).members@, i, sender_probe(*msg)) && old(self).members@[i].pkey@
                        == old(self).owner_pkey@
                &&& (exists|ks: Seq<PublicKey>|
                    final(self).members@ == #[trigger] without_keys(old(self).members@, ks)) || (
                exists|pairs: Seq<(PublicKey, Fr)>, sig: SchnorrSig|
                    #[trigger] schnorr_valid(
                        sig,
                        old(self).owner_pkey@,
                        onboarding_bytes(old(self).owner_pkey@, old(self).owner_rekeying_chain@, pairs),
                    ) && final(self).members@ == roster_after_onboarding(
                        old(self).members@,
                        pairs,
                        msg.created,
                    ))
            },
            msg.payload is EncryptedMessage ==> match group_text(
                old(self).members@,
                old(self).owner_pkey@,
                owner_chain@,
                *msg,
            ) {
                Some((pk, t)) => r matches Some(ChatItem::Text(q, u)) && q == pk && u@ == t,
                None => r is None,
            },
            msg.payload matches MessagePayload::EncryptedMessage(c) ==> {
                &&& r is Some ==> (r matches Some(ChatItem::Text(..)))
                &&& r is Some <==> exists|i: int|
                    is_first(old(self).members@, i, sender_probe(*msg)) && decrypts_from(
                        old(self).members@[i],
                        old(self).owner_pkey@,
                        owner_chain@,
                        *msg,
                        c@,
                    ) && aes_ctr_of(
                        member_key(old(self).members@[i], old(self).owner_pkey@, owner_chain@, *msg),
                        c@,
                    )[0] == 0
                &&& r matches Some(ChatItem::Text(pk, t)) ==> final(self).members@ == old(
                    self,
                ).members@ && exists|i: int|
                    is_first(old(self).members@, i, sender_probe(*msg)) && pk
                        == old(self).members@[i].pkey && aes_ctr_of(
                        member_key(old(self).members@[i], old(self).owner_pkey@, owner_chain@, *msg),
                        c@,
                    ) == seq![0u8] + t@
            },
            msg.payload matches MessagePayload::EncryptedChainCodes(pts) ==> {
                &&& r is Some ==> (r matches Some(ChatItem::Rekeying(..)))
                &&& r is Some <==> !sent_on_chain(*msg, old(self).my_chain@) && rekey_applies(
                    old(self).members@,
                    owner_chain@,
                    *msg,
                    pts@,
                    old(self).my_skey@,
                )
                &&& r is None ==> final(self).members@ == old(self).members@
                    && final(self).owner_chain == old(self).owner_chain
                &&& r matches Some(ChatItem::Rekeying(pk, c)) ==> {
                    &&& c@ == rekey_chain_of(old(self).my_skey@, pts@, *msg)
                    &&& final(self).members@ == with_new_chain(
                        old(self).members@,
                        pk,
                        c,
                        msg.created,
                    )
                    &&& final(self).owner_chain == (if pk@ == old(self).owner_pkey@ {
                        c
                    } else {
                        old(self).owner_chain
                    })
                }
            },
    {
        let owner_pkey = self.owner_pkey;
        let my_skey = self.my_skey;
        let my_pkey = self.my_pkey;
        let my_chain = self.my_chain;
        let d = self.members.get_decrypted_message(
            &owner_pkey,
            owner_chain,
            &my_skey,
            &my_pkey,
            &my_chain,
            msg,
        );
        proof {
            if d is Some && msg.payload is EncryptedMessage {
                let p = (d->0).1;
                assert(plain_bytes(p)[0] == 0 <==> p is PlainText);
            }
        }
        let r = match d {
            Some((sender, IncomingChatPayload::PlainText(t))) => Some(ChatItem::Text(sender, t)),
            Some((sender, IncomingChatPayload::Rekeying(c))) => {
                if sender == owner_pkey {
                    self.owner_chain = c;
                }
                Some(ChatItem::Rekeying(sender, c))
            },
            Some((sender, IncomingChatPayload::Evictions(list))) => {
                if sender == owner_pkey {
                    self.members.evict(&list);
                }
                None
            },
            Some((sender, IncomingChatPayload::NewMembers(pairs, sig))) => {
                if sender == owner_pkey {
                    let b = onboarding_message(&owner_pkey, &self.owner_rekeying_chain, &pairs);
                    if schnorr_verify(&owner_pkey, &b, &sig) {
                        self.members.add_members_to_roster(&pairs, msg.created);
                    }
                }
                None
            },
            None => None,
        };
        proof {
            if msg.payload is EncryptedMessage {
                lemma_text_result(
                    old(self).members@,
                    old(self).owner_pkey@,
                    owner_chain@,
                    *msg,
                    msg.payload->EncryptedMessage_0,
                    r,
                );
            }
        }
        r
    }

    /// A message to the group with the given randomness and metadata, sent
    /// on this member's chain.
    pub fn new_message_with(
        &self,
        msg: Vec<u8>,
        r_owner: &Fr,
        r_sender: &Fr,
        sequence: u64,
        created: Timestamp,
    ) -> (r: Option<ChatMessageOutput>)
        ensures
            r is Some <==> point_valid(self.owner_pkey@) && point_valid(self.my_pkey@),
            r matches Some(m) ==> {
                &&& recipient_cloaked(m, self.owner_pkey@, self.owner_chain@, r_owner@, self.my_chain@)
                &&& sender_cloaked(m, self.my_pkey@, self.my_chain@, r_sender@, self.owner_chain@)
                &&& carries(
                    m,
                    self.owner_pkey@,
                    self.owner_chain@,
                    self.my_pkey@,
                    self.my_chain@,
                    self.my_skey@,
                    r_sender@,
                    msg@,
                )
                &&& m.created == created
                &&& m.sequence == sequence
            },
    {
        let payload = IncomingChatPayload::PlainText(msg);
        make_chat_message(
            &self.owner_pkey,
            &self.owner_chain,
            &self.my_skey,
            &self.my_pkey,
            &self.my_chain,
            &payload,
            r_owner,
            r_sender,
            sequence,
            created,
        )
    }

    /// A message to the group, with fresh randomness, stamped now.
    pub fn new_message(&self, msg: Vec<u8>) -> (r: Option<ChatMessageOutput>)
        ensures
            r is Some <==> point_valid(self.owner_pkey@) && point_valid(self.my_pkey@),
            r matches Some(m) ==> exists|rs: Seq<u8>|
                #[trigger] carries(
                    m,
                    self.owner_pkey@,
                    self.owner_chain@,
                    self.my_pkey@,
                    self.my_chain@,
                    self.my_skey@,
                    rs,
                    msg@,
                ),
    {
        let r_owner = random_scalar();
        let r_sender = random_scalar();
        let sequence = random_u64();
        let created = now();
        self.new_message_with(msg, &r_owner, &r_sender, sequence, created)
    }
}

} // verus!
