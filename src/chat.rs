//! The chat aggregator: every group and channel a participant holds, the
//! classification of observed outputs, and the send and receive API.
use vstd::prelude::*;
use crate::bytes::{copy_bytes, push_bytes32};
use crate::channel::{channel_plain, ChannelInvite, ChannelOwnerInfo, ChannelSession, UtxoInfo};
use crate::error::ChatError;
use crate::group::{eviction_possible, group_text, select_owner_chain, ChatItem, GroupOwnerInfo, GroupSession};
use crate::message::{addressed_on, carries, is_addressed_on, ChatMessageOutput, MessagePayload};
use crate::keys::{make_deterministic_keys, next_chain_code, next_chain_of};
use vstd::utf8::encode_utf8;
use crate::prim::{
    base_mul_of, now, point_valid, random_scalar, random_u64, scalar_reduce, scalar_reduce_of, sha3,
    sha3_of, Fr, PublicKey, Pt,
    SecretKey, Timestamp,
};
use crate::roster::{contains_key, has_key, rekey_applies, sent_on_chain, without_keys};

verus! {

/// The name of the topic that carries chat outputs.
pub const CHAT_TOPIC: &'static str = "chat";

/// What the aggregator is doing.
#[derive(Clone, Copy, Debug)]
pub enum ChatState {
    Idle,
    HandlingOwnedChatGroup,
    HandlingSubscribedChatGroup,
    HandlingOwnedChannel,
    HandlingSubscribedChannel,
}

pub open spec fn state_name(s: ChatState) -> Seq<char> {
    match s {
        ChatState::Idle => "Idle"@,
        ChatState::HandlingOwnedChatGroup => "HandlingOwnedChatGroup"@,
        ChatState::HandlingSubscribedChatGroup => "HandlingSubscribedChatGroup"@,
        ChatState::HandlingOwnedChannel => "HandlingOwnedChannel"@,
        ChatState::HandlingSubscribedChannel => "HandlingSubscribedChannel"@,
    }
}

impl ChatState {
    pub fn name(&self) -> (r: &'static str)
        ensures
            r@ == state_name(*self),
    {
        match *self {
            ChatState::Idle => "Idle",
            ChatState::HandlingOwnedChatGroup => "HandlingOwnedChatGroup",
            ChatState::HandlingSubscribedChatGroup => "HandlingSubscribedChatGroup",
            ChatState::HandlingOwnedChannel => "HandlingOwnedChannel",
            ChatState::HandlingSubscribedChannel => "HandlingSubscribedChannel",
        }
    }
}

/// What the aggregator hands to the embedding wallet.
#[derive(Clone, Debug)]
pub enum Event {
    /// A message surfaced from a group or channel.
    IncommingMessage { channel_id: String, sender: PublicKey, msg: Vec<u8> },
    /// Outputs to put in a transaction.
    SendTransaction { outputs: Vec<ChatMessageOutput> },
}

/// Which state object an observed output belongs to.
#[derive(Clone, Copy, Debug)]
pub enum Classification {
    /// An owned group, at this index, addressed on this chain.
    OwnedGroup(usize, Fr),
    /// A subscribed group, at this index, addressed on this chain.
    SubscribedGroup(usize, Fr),
    SubscribedChannel(usize),
    OwnedChannel(usize),
    NotOurs,
}

#[derive(Clone, Debug)]
pub struct Chat {
    pub chat_pkey: PublicKey,
    pub chat_skey: SecretKey,
    pub owned_groups: Vec<GroupOwnerInfo>,
    pub owned_channels: Vec<ChannelOwnerInfo>,
    pub subscribed_channels: Vec<ChannelSession>,
    pub subscribed_groups: Vec<GroupSession>,
    /// Chat outputs that this participant can spend.
    pub my_utxos: Vec<UtxoInfo>,
    pub state: ChatState,
    /// Notifications for the wallet, oldest first.
    pub events: Vec<Event>,
}

/// `i` is the first index of `s` that satisfies `p`.
pub open spec fn first_of<T>(s: Seq<T>, i: int, p: spec_fn(T) -> bool) -> bool {
    &&& 0 <= i < s.len()
    &&& p(s[i])
    &&& forall|j: int| 0 <= j < i ==> !p(#[trigger] s[j])
}

/// No element of `s` satisfies `p`.
pub open spec fn none_of<T>(s: Seq<T>, p: spec_fn(T) -> bool) -> bool {
    forall|j: int| 0 <= j < s.len() ==> !p(#[trigger] s[j])
}

pub proof fn lemma_first_of_unique<T>(s: Seq<T>, i: int, k: int, p: spec_fn(T) -> bool)
    requires
        first_of(s, i, p),
        first_of(s, k, p),
    ensures
        i == k,
{
    if i < k {
        assert(!p(s[i]));
    } else if k < i {
        assert(!p(s[k]));
    }
}

pub open spec fn og_named(id: Seq<char>) -> spec_fn(GroupOwnerInfo) -> bool {
    |g: GroupOwnerInfo| g.group_id@ == id
}

pub open spec fn sg_named(id: Seq<char>) -> spec_fn(GroupSession) -> bool {
    |g: GroupSession| g.group_id@ == id
}

pub open spec fn oc_named(id: Seq<char>) -> spec_fn(ChannelOwnerInfo) -> bool {
    |c: ChannelOwnerInfo| c.channel_id@ == id
}

pub open spec fn sc_named(id: Seq<char>) -> spec_fn(ChannelSession) -> bool {
    |c: ChannelSession| c.channel_id@ == id
}

/// Whether any group or channel of `c` has identifier `id`.
pub open spec fn id_in_use(c: Chat, id: Seq<char>) -> bool {
    ||| !none_of(c.owned_groups@, og_named(id))
    ||| !none_of(c.owned_channels@, oc_named(id))
    ||| !none_of(c.subscribed_channels@, sc_named(id))
    ||| !none_of(c.subscribed_groups@, sg_named(id))
}

/// The ownership probe of an owned group for output `o`.
pub open spec fn og_probe(o: ChatMessageOutput) -> spec_fn(GroupOwnerInfo) -> bool {
    |g: GroupOwnerInfo|
        addressed_on(o, select_owner_chain(o, g.owner_chain, g.owner_rekeying_chain)@)
}

/// The membership probe of a subscribed group for output `o`.
pub open spec fn sg_probe(o: ChatMessageOutput) -> spec_fn(GroupSession) -> bool {
    |g: GroupSession| addressed_on(o, select_owner_chain(o, g.owner_chain, g.owner_rekeying_chain)@)
}

pub open spec fn sc_probe(o: ChatMessageOutput) -> spec_fn(ChannelSession) -> bool {
    |c: ChannelSession| addressed_on(o, c.owner_chain@)
}

pub open spec fn oc_probe(o: ChatMessageOutput) -> spec_fn(ChannelOwnerInfo) -> bool {
    |c: ChannelOwnerInfo| addressed_on(o, c.owner_chain@)
}

/// The classification of `o` by `c`: owned groups, then subscribed groups,
/// then subscribed channels, then owned channels; the first match wins.
pub open spec fn classified(c: Chat, o: ChatMessageOutput, k: Classification) -> bool {
    match k {
        Classification::OwnedGroup(i, ch) => first_of(c.owned_groups@, i as int, og_probe(o))
            && ch == select_owner_chain(
            o,
            c.owned_groups@[i as int].owner_chain,
            c.owned_groups@[i as int].owner_rekeying_chain,
        ),
        Classification::SubscribedGroup(i, ch) => none_of(c.owned_groups@, og_probe(o)) && first_of(
            c.subscribed_groups@,
            i as int,
            sg_probe(o),
        ) && ch == select_owner_chain(
            o,
            c.subscribed_groups@[i as int].owner_chain,
            c.subscribed_groups@[i as int].owner_rekeying_chain,
        ),
        Classification::SubscribedChannel(i) => none_of(c.owned_groups@, og_probe(o)) && none_of(
            c.subscribed_groups@,
            sg_probe(o),
        ) && first_of(c.subscribed_channels@, i as int, sc_probe(o)),
        Classification::OwnedChannel(i) => none_of(c.owned_groups@, og_probe(o)) && none_of(
            c.subscribed_groups@,
            sg_probe(o),
        ) && none_of(c.subscribed_channels@, sc_probe(o)) && first_of(
            c.owned_channels@,
            i as int,
            oc_probe(o),
        ),
        Classification::NotOurs => none_of(c.owned_groups@, og_probe(o)) && none_of(
            c.subscribed_groups@,
            sg_probe(o),
        ) && none_of(c.subscribed_channels@, sc_probe(o)) && none_of(
            c.owned_channels@,
            oc_probe(o),
        ),
    }
}

/// `k` is the first position of key `pk` in `ks`.
pub open spec fn first_key(ks: Seq<Pt>, k: int, pk: Seq<u8>) -> bool {
    &&& 0 <= k < ks.len()
    &&& ks[k]@ == pk
    &&& forall|j: int| 0 <= j < k ==> (#[trigger] ks[j])@ != pk
}

/// The first position of key `pk` in `v`.
fn key_position(v: &Vec<Pt>, pk: &Pt) -> (r: Option<usize>)
    ensures
        r matches Some(k) ==> first_key(v@, k as int, pk@),
        r is None ==> !has_key(v@, pk@),
{
    let mut i: usize = 0;
    while i < v.len()
        invariant
            0 <= i <= v@.len(),
            forall|j: int| 0 <= j < i ==> (#[trigger] v@[j])@ != pk@,
        decreases v@.len() - i,
    {
        if v[i] == *pk {
            return Some(i);
        }
        i = i + 1;
    }
    None
}

/// `new` is `old` with the owned group at `i` replaced by `g`.
pub open spec fn og_replaced(old: Chat, new: Chat, i: int, g: GroupOwnerInfo) -> bool {
    &&& new == (Chat { owned_groups: new.owned_groups, ..old })
    &&& new.owned_groups@ == old.owned_groups@.update(i, g)
}

/// `new` is `old` with the subscribed group at `i` replaced by `g`.
pub open spec fn sg_replaced(old: Chat, new: Chat, i: int, g: GroupSession) -> bool {
    &&& new == (Chat { subscribed_groups: new.subscribed_groups, ..old })
    &&& new.subscribed_groups@ == old.subscribed_groups@.update(i, g)
}

impl Chat {
    pub fn new(chat_skey: SecretKey, chat_pkey: PublicKey) -> (r: Chat)
        ensures
            r.chat_skey == chat_skey,
            r.chat_pkey == chat_pkey,
            r.owned_groups@.len() == 0,
            r.owned_channels@.len() == 0,
            r.subscribed_channels@.len() == 0,
            r.subscribed_groups@.len() == 0,
            r.my_utxos@.len() == 0,
            r.events@.len() == 0,
            r.state == ChatState::Idle,
    {
        Chat {
            chat_pkey,
            chat_skey,
            owned_groups: Vec::new(),
            owned_channels: Vec::new(),
            subscribed_channels: Vec::new(),
            subscribed_groups: Vec::new(),
            my_utxos: Vec::new(),
            state: ChatState::Idle,
            events: Vec::new(),
        }
    }

    fn find_owned_group(&self, name: &String) -> (r: Option<usize>)
        ensures
            r matches Some(i) ==> first_of(self.owned_groups@, i as int, og_named(name@)),
            r is None ==> none_of(self.owned_groups@, og_named(name@)),
    {
        let mut i: usize = 0;
        while i < self.owned_groups.len()
            invariant
                0 <= i <= self.owned_groups@.len(),
                forall|j: int| 0 <= j < i ==> !og_named(name@)(#[trigger] self.owned_groups@[j]),
            decreases self.owned_groups@.len() - i,
        {
            if self.owned_groups[i].group_id == *name {
                return Some(i);
            }
            i = i + 1;
        }
        None
    }

    fn find_subscribed_group(&self, name: &String) -> (r: Option<usize>)
        ensures
            r matches Some(i) ==> first_of(self.subscribed_groups@, i as int, sg_named(name@)),
            r is None ==> none_of(self.subscribed_groups@, sg_named(name@)),
    {
        let mut i: usize = 0;
        while i < self.subscribed_groups.len()
            invariant
                0 <= i <= self.subscribed_groups@.len(),
                forall|j: int|
                    0 <= j < i ==> !sg_named(name@)(#[trigger] self.subscribed_groups@[j]),
            decreases self.subscribed_groups@.len() - i,
        {
            if self.subscribed_groups[i].group_id == *name {
                return Some(i);
            }
            i = i + 1;
        }
        None
    }

    fn find_owned_channel(&self, name: &String) -> (r: Option<usize>)
        ensures
            r matches Some(i) ==> first_of(self.owned_channels@, i as int, oc_named(name@)),
            r is None ==> none_of(self.owned_channels@, oc_named(name@)),
    {
        let mut i: usize = 0;
        while i < self.owned_channels.len()
            invariant
                0 <= i <= self.owned_channels@.len(),
                forall|j: int| 0 <= j < i ==> !oc_named(name@)(#[trigger] self.owned_channels@[j]),
            decreases self.owned_channels@.len() - i,
        {
            if self.owned_channels[i].channel_id == *name {
                return Some(i);
            }
            i = i + 1;
        }
        None
    }

    fn find_subscribed_channel(&self, name: &String) -> (r: Option<usize>)
        ensures
            r matches Some(i) ==> first_of(self.subscribed_channels@, i as int, sc_named(name@)),
            r is None ==> none_of(self.subscribed_channels@, sc_named(name@)),
    {
        let mut i: usize = 0;
        while i < self.subscribed_channels.len()
            invariant
                0 <= i <= self.subscribed_channels@.len(),
                forall|j: int|
                    0 <= j < i ==> !sc_named(name@)(#[trigger] self.subscribed_channels@[j]),
            decreases self.subscribed_channels@.len() - i,
        {
            if self.subscribed_channels[i].channel_id == *name {
                return Some(i);
            }
            i = i + 1;
        }
        None
    }

    /// Whether no group or channel has identifier `name`.
    pub fn is_unique_id(&self, name: &String) -> (r: bool)
        ensures
            r == !id_in_use(*self, name@),
    {
        self.find_owned_channel(name).is_none() && self.find_owned_group(name).is_none()
            && self.find_subscribed_channel(name).is_none() && self.find_subscribed_group(
            name,
        ).is_none()
    }

    /// Adds a group this participant owns; its identifier must be new.
    pub fn add_owned_group(&mut self, info: GroupOwnerInfo) -> (r: Result<(), ChatError>)
        ensures
            r is Ok <==> !id_in_use(*old(self), info.group_id@),
            r is Ok ==> *final(self) == (Chat { owned_groups: final(self).owned_groups, ..*old(self) })
                && final(self).owned_groups@ == old(self).owned_groups@.push(info),
            r is Err ==> r == Err::<(), ChatError>(ChatError::DuplicateID) && *final(self) == *old(self),
    {
        if self.is_unique_id(&info.group_id) {
            self.owned_groups.push(info);
            Ok(())
        } else {
            Err(ChatError::DuplicateID)
        }
    }

    /// Adds a channel this participant owns; its identifier must be new.
    pub fn add_owned_channel(&mut self, info: ChannelOwnerInfo) -> (r: Result<(), ChatError>)
        ensures
            r is Ok <==> !id_in_use(*old(self), info.channel_id@),
            r is Ok ==> *final(self) == (Chat {
                owned_channels: final(self).owned_channels,
                ..*old(self)
            }) && final(self).owned_channels@ == old(self).owned_channels@.push(info),
            r is Err ==> r == Err::<(), ChatError>(ChatError::DuplicateID) && *final(self) == *old(self),
    {
        if self.is_unique_id(&info.channel_id) {
            self.owned_channels.push(info);
            Ok(())
        } else {
            Err(ChatError::DuplicateID)
        }
    }

    /// Adds a group this participant is a member of; its identifier must be
    /// new.
    pub fn add_subscribed_group(&mut self, info: GroupSession) -> (r: Result<(), ChatError>)
        ensures
            r is Ok <==> !id_in_use(*old(self), info.group_id@),
            r is Ok ==> *final(self) == (Chat {
                subscribed_groups: final(self).subscribed_groups,
                ..*old(self)
            }) && final(self).subscribed_groups@ == old(self).subscribed_groups@.push(info),
            r is Err ==> r == Err::<(), ChatError>(ChatError::DuplicateID) && *final(self) == *old(self),
    {
        if self.is_unique_id(&info.group_id) {
            self.subscribed_groups.push(info);
            Ok(())
        } else {
            Err(ChatError::DuplicateID)
        }
    }

    /// Adds a channel this participant reads; its identifier must be new.
    pub fn add_subscribed_channel(&mut self, info: ChannelSession) -> (r: Result<(), ChatError>)
        ensures
            r is Ok <==> !id_in_use(*old(self), info.channel_id@),
            r is Ok ==> *final(self) == (Chat {
                subscribed_channels: final(self).subscribed_channels,
                ..*old(self)
            }) && final(self).subscribed_channels@ == old(self).subscribed_channels@.push(info),
            r is Err ==> r == Err::<(), ChatError>(ChatError::DuplicateID) && *final(self) == *old(self),
    {
        if self.is_unique_id(&info.channel_id) {
            self.subscribed_channels.push(info);
            Ok(())
        } else {
            Err(ChatError::DuplicateID)
        }
    }

    pub fn remove_owned_group(&mut self, name: String)
        ensures
            none_of(old(self).owned_groups@, og_named(name@)) ==> *final(self) == *old(self),
            forall|i: int|
                first_of(old(self).owned_groups@, i, og_named(name@)) ==> *final(self) == (Chat {
                    owned_groups: final(self).owned_groups,
                    ..*old(self)
                }) && final(self).owned_groups@ == old(self).owned_groups@.remove(i),
    {
        if let Some(pos) = self.find_owned_group(&name) {
            proof {
                assert forall|i: int| first_of(old(self).owned_groups@, i, og_named(name@)) implies i
                    == pos by {
                    lemma_first_of_unique(old(self).owned_groups@, i, pos as int, og_named(name@));
                }
            }
            self.owned_groups.remove(pos);
        }
    }

    pub fn remove_owned_channel(&mut self, name: String)
        ensures
            none_of(old(self).owned_channels@, oc_named(name@)) ==> *final(self) == *old(self),
            forall|i: int|
                first_of(old(self).owned_channels@, i, oc_named(name@)) ==> *final(self) == (Chat {
                    owned_channels: final(self).owned_channels,
                    ..*old(self)
                }) && final(self).owned_channels@ == old(self).owned_channels@.remove(i),
    {
        if let Some(pos) = self.find_owned_channel(&name) {
            proof {
                assert forall|i: int| first_of(old(self).owned_channels@, i, oc_named(name@)) implies i
                    == pos by {
                    lemma_first_of_unique(old(self).owned_channels@, i, pos as int, oc_named(name@));
                }
            }
            self.owned_channels.remove(pos);
        }
    }

    pub fn remove_subscribed_group(&mut self, name: String)
        ensures
            none_of(old(self).subscribed_groups@, sg_named(name@)) ==> *final(self) == *old(self),
            forall|i: int|
                first_of(old(self).subscribed_groups@, i, sg_named(name@)) ==> *final(self) == (Chat {
                    subscribed_groups: final(self).subscribed_groups,
                    ..*old(self)
                }) && final(self).subscribed_groups@ == old(self).subscribed_groups@.remove(i),
    {
        if let Some(pos) = self.find_subscribed_group(&name) {
            proof {
                assert forall|i: int|
                    first_of(old(self).subscribed_groups@, i, sg_named(name@)) implies i == pos by {
                    lemma_first_of_unique(
                        old(self).subscribed_groups@,
                        i,
                        pos as int,
                        sg_named(name@),
                    );
                }
            }
            self.subscribed_groups.remove(pos);
        }
    }

    pub fn remove_subscribed_channel(&mut self, name: String)
        ensures
            none_of(old(self).subscribed_channels@, sc_named(name@)) ==> *final(self) == *old(self),
            forall|i: int|
                first_of(old(self).subscribed_channels@, i, sc_named(name@)) ==> *final(self) == (
                Chat { subscribed_channels: final(self).subscribed_channels, ..*old(self) })
                    && final(self).subscribed_channels@ == old(self).subscribed_channels@.remove(i),
    {
        if let Some(pos) = self.find_subscribed_channel(&name) {
            proof {
                assert forall|i: int|
                    first_of(old(self).subscribed_channels@, i, sc_named(name@)) implies i == pos by {
                    lemma_first_of_unique(
                        old(self).subscribed_channels@,
                        i,
                        pos as int,
                        sc_named(name@),
                    );
                }
            }
            self.subscribed_channels.remove(pos);
        }
    }

    /// Stops surfacing messages from `member_pkey` in the named group (an
    /// owned group first, else a subscribed one).
    pub fn add_ignored_member(&mut self, group_name: String, member_pkey: PublicKey)
        ensures
            forall|i: int|
                first_of(old(self).owned_groups@, i, og_named(group_name@)) ==> if has_key(
                    old(self).owned_groups@[i].ignored_members@,
                    member_pkey@,
                ) {
                    *final(self) == *old(self)
                } else {
                    og_replaced(
                        *old(self),
                        *final(self),
                        i,
                        final(self).owned_groups@[i],
                    ) && final(self).owned_groups@[i] == (GroupOwnerInfo {
                        ignored_members: final(self).owned_groups@[i].ignored_members,
                        ..old(self).owned_groups@[i]
                    }) && final(self).owned_groups@[i].ignored_members@ == old(self).owned_groups@[i].ignored_members@.push(member_pkey)
                },
            forall|i: int|
                none_of(old(self).owned_groups@, og_named(group_name@)) && first_of(
                    old(self).subscribed_groups@,
                    i,
                    sg_named(group_name@),
                ) ==> if has_key(old(self).subscribed_groups@[i].ignored_members@, member_pkey@) {
                    *final(self) == *old(self)
                } else {
                    sg_replaced(
                        *old(self),
                        *final(self),
                        i,
                        final(self).subscribed_groups@[i],
                    ) && final(self).subscribed_groups@[i] == (GroupSession {
                        ignored_members: final(self).subscribed_groups@[i].ignored_members,
                        ..old(self).subscribed_groups@[i]
                    }) && final(self).subscribed_groups@[i].ignored_members@ == old(self).subscribed_groups@[i].ignored_members@.push(member_pkey)
                },
            none_of(old(self).owned_groups@, og_named(group_name@)) && none_of(
                old(self).subscribed_groups@,
                sg_named(group_name@),
            ) ==> *final(self) == *old(self),
    {
        if let Some(pos) = self.find_owned_group(&group_name) {
            proof {
                assert forall|i: int| first_of(old(self).owned_groups@, i, og_named(group_name@)) implies i
                    == pos by {
                    lemma_first_of_unique(
                        old(self).owned_groups@,
                        i,
                        pos as int,
                        og_named(group_name@),
                    );
                }
            }
            if !contains_key(&self.owned_groups[pos].ignored_members, &member_pkey) {
                let mut grp = self.owned_groups.remove(pos);
                grp.ignored_members.push(member_pkey);
                self.owned_groups.insert(pos, grp);
                assert(self.owned_groups@ =~= old(self).owned_groups@.update(pos as int, grp));
            }
        } else if let Some(pos) = self.find_subscribed_group(&group_name) {
            proof {
                assert forall|i: int|
                    first_of(old(self).subscribed_groups@, i, sg_named(group_name@)) implies i
                    == pos by {
                    lemma_first_of_unique(
                        old(self).subscribed_groups@,
                        i,
                        pos as int,
                        sg_named(group_name@),
                    );
                }
            }
            if !contains_key(&self.subscribed_groups[pos].ignored_members, &member_pkey) {
                let mut grp = self.subscribed_groups.remove(pos);
                grp.ignored_members.push(member_pkey);
                self.subscribed_groups.insert(pos, grp);
                assert(self.subscribed_groups@ =~= old(self).subscribed_groups@.update(
                    pos as int,
                    grp,
                ));
            }
        }
    }

    /// Surfaces messages from `member_pkey` again in the named group (an
    /// owned group first, else a subscribed one).
    pub fn remove_ignored_member(&mut self, group_name: String, member_pkey: PublicKey)
        ensures
            forall|i: int|
                first_of(old(self).owned_groups@, i, og_named(group_name@)) ==> {
                    &&& !has_key(old(self).owned_groups@[i].ignored_members@, member_pkey@)
                        ==> *final(self) == *old(self)
                    &&& forall|k: int|
                        first_key(old(self).owned_groups@[i].ignored_members@, k, member_pkey@)
                            ==> og_replaced(
                            *old(self),
                            *final(self),
                            i,
                            final(self).owned_groups@[i],
                        ) && final(self).owned_groups@[i] == (GroupOwnerInfo {
                            ignored_members: final(self).owned_groups@[i].ignored_members,
                            ..old(self).owned_groups@[i]
                        }) && final(self).owned_groups@[i].ignored_members@ == old(self).owned_groups@[i].ignored_members@.remove(k)
                },
            forall|i: int|
                none_of(old(self).owned_groups@, og_named(group_name@)) && first_of(
                    old(self).subscribed_groups@,
                    i,
                    sg_named(group_name@),
                ) ==> {
                    &&& !has_key(old(self).subscribed_groups@[i].ignored_members@, member_pkey@)
                        ==> *final(self) == *old(self)
                    &&& forall|k: int|
                        first_key(old(self).subscribed_groups@[i].ignored_members@, k, member_pkey@)
                            ==> sg_replaced(
                            *old(self),
                            *final(self),
                            i,
                            final(self).subscribed_groups@[i],
                        ) && final(self).subscribed_groups@[i] == (GroupSession {
                            ignored_members: final(self).subscribed_groups@[i].ignored_members,
                            ..old(self).subscribed_groups@[i]
                        }) && final(self).subscribed_groups@[i].ignored_members@ == old(self).subscribed_groups@[i].ignored_members@.remove(k)
                },
            none_of(old(self).owned_groups@, og_named(group_name@)) && none_of(
                old(self).subscribed_groups@,
                sg_named(group_name@),
            ) ==> *final(self) == *old(self),
    {
        if let Some(pos) = self.find_owned_group(&group_name) {
            proof {
                assert forall|i: int| first_of(old(self).owned_groups@, i, og_named(group_name@)) implies i
                    == pos by {
                    lemma_first_of_unique(
                        old(self).owned_groups@,
                        i,
                        pos as int,
                        og_named(group_name@),
                    );
                }
            }
            if let Some(mempos) = key_position(&self.owned_groups[pos].ignored_members, &member_pkey) {
                proof {
                    let ks = old(self).owned_groups@[pos as int].ignored_members@;
                    assert forall|k: int| first_key(ks, k, member_pkey@) implies k == mempos by {
                        if k < mempos {
                            assert(ks[k]@ != member_pkey@);
                        } else if mempos < k {
                            assert(ks[mempos as int]@ != member_pkey@);
                        }
                    }
                }
                let mut grp = self.owned_groups.remove(pos);
                grp.ignored_members.remove(mempos);
                self.owned_groups.insert(pos, grp);
                assert(self.owned_groups@ =~= old(self).owned_groups@.update(pos as int, grp));
            }
        } else if let Some(pos) = self.find_subscribed_group(&group_name) {
            proof {
                assert forall|i: int|
                    first_of(old(self).subscribed_groups@, i, sg_named(group_name@)) implies i
                    == pos by {
                    lemma_first_of_unique(
                        old(self).subscribed_groups@,
                        i,
                        pos as int,
                        sg_named(group_name@),
                    );
                }
            }
            if let Some(mempos) = key_position(
                &self.subscribed_groups[pos].ignored_members,
                &member_pkey,
            ) {
                proof {
                    let ks = old(self).subscribed_groups@[pos as int].ignored_members@;
                    assert forall|k: int| first_key(ks, k, member_pkey@) implies k == mempos by {
                        if k < mempos {
                            assert(ks[k]@ != member_pkey@);
                        } else if mempos < k {
                            assert(ks[mempos as int]@ != member_pkey@);
                        }
                    }
                }
                let mut grp = self.subscribed_groups.remove(pos);
                grp.ignored_members.remove(mempos);
                self.subscribed_groups.insert(pos, grp);
                assert(self.subscribed_groups@ =~= old(self).subscribed_groups@.update(
                    pos as int,
                    grp,
                ));
            }
        }
    }
}

/// `new` is the log `old` followed by `(pk, t)`.
pub open spec fn logged(
    old: Seq<(PublicKey, Vec<u8>)>,
    new: Seq<(PublicKey, Vec<u8>)>,
    pk: PublicKey,
    t: Seq<u8>,
) -> bool {
    &&& new.len() == old.len() + 1
    &&& new.drop_last() == old
    &&& new.last().0 == pk
    &&& new.last().1@ == t
}

/// `new` is the events `old` followed by one notice of text `t` from `pk`
/// in the group or channel `id`.
pub open spec fn notified(old: Seq<Event>, new: Seq<Event>, id: Seq<char>, pk: PublicKey, t: Seq<u8>) -> bool {
    &&& new.len() == old.len() + 1
    &&& new.drop_last() == old
    &&& new.last() matches Event::IncommingMessage { channel_id, sender, msg } && channel_id@ == id
        && sender == pk && msg@ == t
}

/// A group surfaces text from `pk`: it is not this participant's own, and
/// `pk` is not ignored.
pub open spec fn surfaces(pk: PublicKey, me: Seq<u8>, ignored: Seq<Pt>) -> bool {
    pk@ != me && !has_key(ignored, pk@)
}

/// What handling the decrypted group text `d` does to a group's log and to
/// the events: a surfaced text is logged and notified once; otherwise
/// neither changes.
pub open spec fn text_handled(
    d: Option<(PublicKey, Seq<u8>)>,
    me: Seq<u8>,
    ignored: Seq<Pt>,
    id: Seq<char>,
    old_log: Seq<(PublicKey, Vec<u8>)>,
    new_log: Seq<(PublicKey, Vec<u8>)>,
    old_events: Seq<Event>,
    new_events: Seq<Event>,
) -> bool {
    match d {
        Some((pk, t)) => if surfaces(pk, me, ignored) {
            logged(old_log, new_log, pk, t) && notified(old_events, new_events, id, pk, t)
        } else {
            new_log == old_log && new_events == old_events
        },
        None => new_log == old_log && new_events == old_events,
    }
}

/// An owned group keeps its identity and keys while it is handled.
pub open spec fn same_owned_group(a: GroupOwnerInfo, b: GroupOwnerInfo) -> bool {
    &&& b.group_id == a.group_id
    &&& b.owner_pkey == a.owner_pkey
    &&& b.owner_skey == a.owner_skey
    &&& b.owner_chain == a.owner_chain
    &&& b.owner_rekeying_chain == a.owner_rekeying_chain
    &&& b.ignored_members == a.ignored_members
}

/// A subscribed group keeps its identity and keys while it is handled (its
/// owner chain follows the owner's rekeyings).
pub open spec fn same_session(a: GroupSession, b: GroupSession) -> bool {
    &&& b.group_id == a.group_id
    &&& b.owner_pkey == a.owner_pkey
    &&& b.owner_rekeying_chain == a.owner_rekeying_chain
    &&& b.my_pkey == a.my_pkey
    &&& b.my_skey == a.my_skey
    &&& b.my_chain == a.my_chain
    &&& b.ignored_members == a.ignored_members
}

/// A subscribed channel keeps its identity and keys while it is handled.
pub open spec fn same_channel(a: ChannelSession, b: ChannelSession) -> bool {
    &&& b.channel_id == a.channel_id
    &&& b.owner_pkey == a.owner_pkey
    &&& b.owner_chain == a.owner_chain
}

/// The result of handling subscribed group `g` given output `o` on
/// `owner_chain`: the decrypted text where it is surfaced, the rekeying
/// where the roster advanced, nothing otherwise.
pub open spec fn session_result(
    g: GroupSession,
    o: ChatMessageOutput,
    owner_chain: Seq<u8>,
    r: Option<ChatItem>,
) -> bool {
    match o.payload {
        MessagePayload::EncryptedMessage(_) => match group_text(
            g.members@,
            g.owner_pkey@,
            owner_chain,
            o,
        ) {
            Some((pk, t)) => if surfaces(pk, g.my_pkey@, g.ignored_members@) {
                r matches Some(ChatItem::Text(q, u)) && q == pk && u@ == t
            } else {
                r is None
            },
            None => r is None,
        },
        MessagePayload::EncryptedChainCodes(pts) => {
            &&& r is Some <==> !sent_on_chain(o, g.my_chain@) && rekey_applies(
                g.members@,
                owner_chain,
                o,
                pts@,
                g.my_skey@,
            )
            &&& r is Some ==> (r matches Some(ChatItem::Rekeying(..)))
        },
    }
}

/// The result of handling subscribed channel `c` given output `o`, and
/// what it does to the channel's log and the events.
pub open spec fn channel_handled(
    c: ChannelSession,
    new_c: ChannelSession,
    o: ChatMessageOutput,
    r: Option<ChatItem>,
    old_events: Seq<Event>,
    new_events: Seq<Event>,
) -> bool {
    match channel_plain(c, o) {
        Some(t) => {
            &&& r matches Some(ChatItem::Text(q, u)) && q == c.owner_pkey && u@ == t
            &&& logged(c.messages@, new_c.messages@, c.owner_pkey, t)
            &&& notified(old_events, new_events, c.channel_id@, c.owner_pkey, t)
        },
        None => r is None && new_c.messages@ == c.messages@ && new_events == old_events,
    }
}

impl Chat {
    /// Finds the state object an output belongs to: owned groups, then
    /// subscribed groups, then subscribed channels, then owned channels.
    pub fn classify(&self, msg: &ChatMessageOutput) -> (r: Classification)
        ensures
            classified(*self, *msg, r),
    {
        let mut i: usize = 0;
        while i < self.owned_groups.len()
            invariant
                0 <= i <= self.owned_groups@.len(),
                forall|j: int| 0 <= j < i ==> !og_probe(*msg)(#[trigger] self.owned_groups@[j]),
            decreases self.owned_groups@.len() - i,
        {
            let ch = self.owned_groups[i].get_owner_chain(msg);
            if is_addressed_on(msg, &ch) {
                return Classification::OwnedGroup(i, ch);
            }
            i = i + 1;
        }
        let mut i: usize = 0;
        while i < self.subscribed_groups.len()
            invariant
                0 <= i <= self.subscribed_groups@.len(),
                none_of(self.owned_groups@, og_probe(*msg)),
                forall|j: int| 0 <= j < i ==> !sg_probe(*msg)(#[trigger] self.subscribed_groups@[j]),
            decreases self.subscribed_groups@.len() - i,
        {
            let ch = self.subscribed_groups[i].get_owner_chain(msg);
            if is_addressed_on(msg, &ch) {
                return Classification::SubscribedGroup(i, ch);
            }
            i = i + 1;
        }
        let mut i: usize = 0;
        while i < self.subscribed_channels.len()
            invariant
                0 <= i <= self.subscribed_channels@.len(),
                none_of(self.owned_groups@, og_probe(*msg)),
                none_of(self.subscribed_groups@, sg_probe(*msg)),
                forall|j: int|
                    0 <= j < i ==> !sc_probe(*msg)(#[trigger] self.subscribed_channels@[j]),
            decreases self.subscribed_channels@.len() - i,
        {
            if is_addressed_on(msg, &self.subscribed_channels[i].owner_chain) {
                return Classification::SubscribedChannel(i);
            }
            i = i + 1;
        }
        let mut i: usize = 0;
        while i < self.owned_channels.len()
            invariant
                0 <= i <= self.owned_channels@.len(),
                none_of(self.owned_groups@, og_probe(*msg)),
                none_of(self.subscribed_groups@, sg_probe(*msg)),
                none_of(self.subscribed_channels@, sc_probe(*msg)),
                forall|j: int| 0 <= j < i ==> !oc_probe(*msg)(#[trigger] self.owned_channels@[j]),
            decreases self.owned_channels@.len() - i,
        {
            if is_addressed_on(msg, &self.owned_channels[i].owner_chain) {
                return Classification::OwnedChannel(i);
            }
            i = i + 1;
        }
        Classification::NotOurs
    }

    fn notify_wallet_of_new_incomning_message(
        &mut self,
        channel_id: &String,
        sender: PublicKey,
        msg: &Vec<u8>,
    )
        ensures
            *final(self) == (Chat { events: final(self).events, ..*old(self) }),
            final(self).events@.len() == old(self).events@.len() + 1,
            final(self).events@.drop_last() == old(self).events@,
            final(self).events@.last() matches Event::IncommingMessage { sender: s, channel_id: c, msg: m } && s
                == sender && c@ == channel_id@ && m@ == msg@,
    {
        let e = Event::IncommingMessage {
            channel_id: channel_id.clone(),
            sender,
            msg: copy_bytes(msg),
        };
        self.events.push(e);
    }

    fn notify_wallet_to_send_transaction(&mut self, msgs: Vec<ChatMessageOutput>)
        ensures
            *final(self) == (Chat { events: final(self).events, ..*old(self) }),
            final(self).events@ == old(self).events@.push(Event::SendTransaction { outputs: msgs }),
    {
        self.events.push(Event::SendTransaction { outputs: msgs });
    }

    /// An output of an owned group: a member's message is logged and handed
    /// to the wallet unless it is the owner's own or its sender is ignored;
    /// nothing is returned.
    fn process_owned_group_message(
        &mut self,
        info: &mut GroupOwnerInfo,
        msg: &ChatMessageOutput,
        owner_chain: &Fr,
    ) -> (r: Option<ChatItem>)
        ensures
            r is None,
            *final(self) == (Chat { events: final(self).events, state: final(self).state, ..*old(self) }),
            text_handled(
                group_text(old(info).members@, old(info).owner_pkey@, owner_chain@, *msg),
                old(info).owner_pkey@,
                old(info).ignored_members@,
                old(info).group_id@,
                old(info).messages@,
                final(info).messages@,
                old(self).events@,
                final(self).events@,
            ),
            same_owned_group(*old(info), *final(info)),
    {
        self.state = ChatState::HandlingOwnedChatGroup;
        match info.get_message(msg, owner_chain) {
            Some(ChatItem::Text(sender, txt)) => {
                if sender != info.owner_pkey && !contains_key(&info.ignored_members, &sender) {
                    info.messages.push((sender, copy_bytes(&txt)));
                    assert(info.messages@.drop_last() =~= old(info).messages@);
                    let id = info.group_id.clone();
                    self.notify_wallet_of_new_incomning_message(&id, sender, &txt);
                }
            },
            _ => {},
        }
        None
    }

    /// An output of a subscribed group: a rekeying is passed up; a message is
    /// logged and passed up unless it is this member's own or its sender is
    /// ignored.
    fn process_subscribed_group_message(
        &mut self,
        info: &mut GroupSession,
        msg: &ChatMessageOutput,
        owner_chain: &Fr,
    ) -> (r: Option<ChatItem>)
        ensures
            *final(self) == (Chat { events: final(self).events, state: final(self).state, ..*old(self) }),
            text_handled(
                group_text(old(info).members@, old(info).owner_pkey@, owner_chain@, *msg),
                old(info).my_pkey@,
                old(info).ignored_members@,
                old(info).group_id@,
                old(info).messages@,
                final(info).messages@,
                old(self).events@,
                final(self).events@,
            ),
            session_result(*old(info), *msg, owner_chain@, r),
            same_session(*old(info), *final(info)),
    {
        self.state = ChatState::HandlingSubscribedChatGroup;
        match info.get_message(msg, owner_chain) {
            Some(ChatItem::Rekeying(pk, c)) => Some(ChatItem::Rekeying(pk, c)),
            Some(ChatItem::Text(sender, txt)) => {
                if sender != info.my_pkey && !contains_key(&info.ignored_members, &sender) {
                    info.messages.push((sender, copy_bytes(&txt)));
                    assert(info.messages@.drop_last() =~= old(info).messages@);
                    let id = info.group_id.clone();
                    self.notify_wallet_of_new_incomning_message(&id, sender, &txt);
                    Some(ChatItem::Text(sender, txt))
                } else {
                    None
                }
            },
            None => None,
        }
    }

    /// An output of a subscribed channel: the owner's message is logged and
    /// passed up.
    fn process_subscribed_channel_message(
        &mut self,
        info: &mut ChannelSession,
        msg: &ChatMessageOutput,
    ) -> (r: Option<ChatItem>)
        ensures
            *final(self) == (Chat { events: final(self).events, state: final(self).state, ..*old(self) }),
            channel_handled(*old(info), *final(info), *msg, r, old(self).events@, final(self).events@),
            same_channel(*old(info), *final(info)),
    {
        self.state = ChatState::HandlingSubscribedChannel;
        match info.get_message(msg) {
            Some((sender, txt)) => {
                info.messages.push((sender, copy_bytes(&txt)));
                    assert(info.messages@.drop_last() =~= old(info).messages@);
                let id = info.channel_id.clone();
                self.notify_wallet_of_new_incomning_message(&id, sender, &txt);
                Some(ChatItem::Text(sender, txt))
            },
            None => None,
        }
    }

    /// An output of the owned channel at `pos`: recorded as spendable when
    /// the owner sent it, dropped otherwise.
    fn process_owned_channel_messages(&mut self, pos: usize, utxo: &ChatMessageOutput) -> (r:
        Option<ChatItem>)
        requires
            pos < old(self).owned_channels@.len(),
        ensures
            r is None,
            *final(self) == (Chat { my_utxos: final(self).my_utxos, state: final(self).state, ..*old(self) }),
            sent_on_chain(*utxo, old(self).owned_channels@[pos as int].owner_chain@) ==> final(self).my_utxos@.len() == old(self).my_utxos@.len() + 1 && final(self).my_utxos@.drop_last()
                == old(self).my_utxos@,
            !sent_on_chain(*utxo, old(self).owned_channels@[pos as int].owner_chain@) ==> final(self).my_utxos@ == old(self).my_utxos@,
    {
        self.state = ChatState::HandlingOwnedChannel;
        match self.owned_channels[pos].get_message(utxo) {
            Some(u) => {
                self.my_utxos.push(u);
            },
            None => {},
        }
        None
    }
}

/// An output has exactly one classification.
pub proof fn lemma_classified_unique(
    c: Chat,
    o: ChatMessageOutput,
    k1: Classification,
    k2: Classification,
)
    requires
        classified(c, o, k1),
        classified(c, o, k2),
    ensures
        k1 == k2,
{
    match (k1, k2) {
        (Classification::OwnedGroup(i, _), Classification::OwnedGroup(j, _)) => {
            lemma_first_of_unique(c.owned_groups@, i as int, j as int, og_probe(o));
        },
        (Classification::SubscribedGroup(i, _), Classification::SubscribedGroup(j, _)) => {
            lemma_first_of_unique(c.subscribed_groups@, i as int, j as int, sg_probe(o));
        },
        (Classification::SubscribedChannel(i), Classification::SubscribedChannel(j)) => {
            lemma_first_of_unique(c.subscribed_channels@, i as int, j as int, sc_probe(o));
        },
        (Classification::OwnedChannel(i), Classification::OwnedChannel(j)) => {
            lemma_first_of_unique(c.owned_channels@, i as int, j as int, oc_probe(o));
        },
        (Classification::NotOurs, Classification::NotOurs) => {},
        (Classification::OwnedGroup(i, _), _) => {
            assert(og_probe(o)(c.owned_groups@[i as int]));
        },
        (_, Classification::OwnedGroup(j, _)) => {
            assert(og_probe(o)(c.owned_groups@[j as int]));
        },
        (Classification::SubscribedGroup(i, _), _) => {
            assert(sg_probe(o)(c.subscribed_groups@[i as int]));
        },
        (_, Classification::SubscribedGroup(j, _)) => {
            assert(sg_probe(o)(c.subscribed_groups@[j as int]));
        },
        (Classification::SubscribedChannel(i), _) => {
            assert(sc_probe(o)(c.subscribed_channels@[i as int]));
        },
        (_, Classification::SubscribedChannel(j)) => {
            assert(sc_probe(o)(c.subscribed_channels@[j as int]));
        },
        (Classification::OwnedChannel(i), _) => {
            assert(oc_probe(o)(c.owned_channels@[i as int]));
        },
        (_, Classification::OwnedChannel(j)) => {
            assert(oc_probe(o)(c.owned_channels@[j as int]));
        },
    }
}

/// What handling an output of class `k` may do to `c`, and may return.
pub open spec fn handled(
    old: Chat,
    new: Chat,
    o: ChatMessageOutput,
    k: Classification,
    r: Option<ChatItem>,
) -> bool {
    match k {
        Classification::NotOurs => r is None && new == old,
        Classification::OwnedGroup(i, ch) => {
            &&& r is None
            &&& new == (Chat {
                owned_groups: new.owned_groups,
                events: new.events,
                state: new.state,
                ..old
            })
            &&& new.owned_groups@.len() == old.owned_groups@.len()
            &&& forall|j: int|
                0 <= j < old.owned_groups@.len() && j != i ==> #[trigger] new.owned_groups@[j]
                    == old.owned_groups@[j]
            &&& same_owned_group(old.owned_groups@[i as int], new.owned_groups@[i as int])
            &&& text_handled(
                group_text(
                    old.owned_groups@[i as int].members@,
                    old.owned_groups@[i as int].owner_pkey@,
                    ch@,
                    o,
                ),
                old.owned_groups@[i as int].owner_pkey@,
                old.owned_groups@[i as int].ignored_members@,
                old.owned_groups@[i as int].group_id@,
                old.owned_groups@[i as int].messages@,
                new.owned_groups@[i as int].messages@,
                old.events@,
                new.events@,
            )
        },
        Classification::SubscribedGroup(i, ch) => {
            &&& new == (Chat {
                subscribed_groups: new.subscribed_groups,
                events: new.events,
                state: new.state,
                ..old
            })
            &&& new.subscribed_groups@.len() == old.subscribed_groups@.len()
            &&& forall|j: int|
                0 <= j < old.subscribed_groups@.len() && j != i ==> #[trigger] new.subscribed_groups@[j]
                    == old.subscribed_groups@[j]
            &&& same_session(old.subscribed_groups@[i as int], new.subscribed_groups@[i as int])
            &&& text_handled(
                group_text(
                    old.subscribed_groups@[i as int].members@,
                    old.subscribed_groups@[i as int].owner_pkey@,
                    ch@,
                    o,
                ),
                old.subscribed_groups@[i as int].my_pkey@,
                old.subscribed_groups@[i as int].ignored_members@,
                old.subscribed_groups@[i as int].group_id@,
                old.subscribed_groups@[i as int].messages@,
                new.subscribed_groups@[i as int].messages@,
                old.events@,
                new.events@,
            )
            &&& session_result(old.subscribed_groups@[i as int], o, ch@, r)
        },
        Classification::SubscribedChannel(i) => {
            &&& new == (Chat {
                subscribed_channels: new.subscribed_channels,
                events: new.events,
                state: new.state,
                ..old
            })
            &&& new.subscribed_channels@.len() == old.subscribed_channels@.len()
            &&& forall|j: int|
                0 <= j < old.subscribed_channels@.len() && j != i ==> #[trigger] new.subscribed_channels@[j]
                    == old.subscribed_channels@[j]
            &&& same_channel(old.subscribed_channels@[i as int], new.subscribed_channels@[i as int])
            &&& channel_handled(
                old.subscribed_channels@[i as int],
                new.subscribed_channels@[i as int],
                o,
                r,
                old.events@,
                new.events@,
            )
        },
        Classification::OwnedChannel(i) => {
            &&& r is None
            &&& new == (Chat { my_utxos: new.my_utxos, state: new.state, ..old })
            &&& sent_on_chain(o, old.owned_channels@[i as int].owner_chain@) ==> new.my_utxos@.len()
                == old.my_utxos@.len() + 1 && new.my_utxos@.drop_last() == old.my_utxos@
            &&& !sent_on_chain(o, old.owned_channels@[i as int].owner_chain@) ==> new.my_utxos@
                == old.my_utxos@
        },
    }
}

/// What `new_message` sends for id `id`: text `t`, from the first owned
/// channel named `id` (the owner writing to itself), else the first owned
/// group (likewise), else the first subscribed group (this member writing to
/// the owner), signed with randomness `rs`.
pub open spec fn sent_as(c: Chat, id: Seq<char>, t: Seq<u8>, m: ChatMessageOutput, rs: Seq<u8>) -> bool {
    if !none_of(c.owned_channels@, oc_named(id)) {
        exists|i: int|
            first_of(c.owned_channels@, i, oc_named(id)) && #[trigger] carries(
                m,
                c.owned_channels@[i].owner_pkey@,
                c.owned_channels@[i].owner_chain@,
                c.owned_channels@[i].owner_pkey@,
                c.owned_channels@[i].owner_chain@,
                c.owned_channels@[i].owner_skey@,
                rs,
                t,
            )
    } else if !none_of(c.owned_groups@, og_named(id)) {
        exists|i: int|
            first_of(c.owned_groups@, i, og_named(id)) && #[trigger] carries(
                m,
                c.owned_groups@[i].owner_pkey@,
                c.owned_groups@[i].owner_chain@,
                c.owned_groups@[i].owner_pkey@,
                c.owned_groups@[i].owner_chain@,
                c.owned_groups@[i].owner_skey@,
                rs,
                t,
            )
    } else {
        exists|i: int|
            first_of(c.subscribed_groups@, i, sg_named(id)) && #[trigger] carries(
                m,
                c.subscribed_groups@[i].owner_pkey@,
                c.subscribed_groups@[i].owner_chain@,
                c.subscribed_groups@[i].my_pkey@,
                c.subscribed_groups@[i].my_chain@,
                c.subscribed_groups@[i].my_skey@,
                rs,
                t,
            )
    }
}

/// The keys of the writer that `new_message` picks for `id` encode group
/// elements.
pub open spec fn writer_valid(c: Chat, id: Seq<char>) -> bool {
    if !none_of(c.owned_channels@, oc_named(id)) {
        exists|i: int|
            first_of(c.owned_channels@, i, oc_named(id)) && point_valid(
                #[trigger] c.owned_channels@[i].owner_pkey@,
            )
    } else if !none_of(c.owned_groups@, og_named(id)) {
        exists|i: int|
            first_of(c.owned_groups@, i, og_named(id)) && point_valid(
                #[trigger] c.owned_groups@[i].owner_pkey@,
            )
    } else {
        exists|i: int|
            first_of(c.subscribed_groups@, i, sg_named(id)) && point_valid(
                #[trigger] c.subscribed_groups@[i].owner_pkey@,
            ) && point_valid(c.subscribed_groups@[i].my_pkey@)
    }
}

/// Whether `c` holds something named `id` that it may write to: an owned
/// channel, an owned group or a subscribed group.
pub open spec fn writable(c: Chat, id: Seq<char>) -> bool {
    ||| !none_of(c.owned_channels@, oc_named(id))
    ||| !none_of(c.owned_groups@, og_named(id))
    ||| !none_of(c.subscribed_groups@, sg_named(id))
}

impl Chat {
    /// Handles an observed output: it is classified, and the state object
    /// it belongs to handles it. Outputs that are not ours change nothing.
    pub fn on_message_received(&mut self, msg: &ChatMessageOutput) -> (r: Option<ChatItem>)
        ensures
            forall|k: Classification|
                classified(*old(self), *msg, k) ==> handled(*old(self), *final(self), *msg, k, r),
    {
        let k = self.classify(msg);
        proof {
            assert forall|k2: Classification| classified(*old(self), *msg, k2) implies k2 == k by {
                lemma_classified_unique(*old(self), *msg, k, k2);
            }
        }
        match k {
            Classification::OwnedGroup(pos, ch) => {
                let mut info = self.owned_groups.remove(pos);
                let r = self.process_owned_group_message(&mut info, msg, &ch);
                self.owned_groups.insert(pos, info);
                self.state = ChatState::Idle;
                assert(self.owned_groups@ =~= old(self).owned_groups@.update(pos as int, info));
                r
            },
            Classification::SubscribedGroup(pos, ch) => {
                let mut info = self.subscribed_groups.remove(pos);
                let r = self.process_subscribed_group_message(&mut info, msg, &ch);
                self.subscribed_groups.insert(pos, info);
                self.state = ChatState::Idle;
                assert(self.subscribed_groups@ =~= old(self).subscribed_groups@.update(
                    pos as int,
                    info,
                ));
                r
            },
            Classification::SubscribedChannel(pos) => {
                let mut info = self.subscribed_channels.remove(pos);
                let r = self.process_subscribed_channel_message(&mut info, msg);
                self.subscribed_channels.insert(pos, info);
                self.state = ChatState::Idle;
                assert(self.subscribed_channels@ =~= old(self).subscribed_channels@.update(
                    pos as int,
                    info,
                ));
                r
            },
            Classification::OwnedChannel(pos) => {
                let r = self.process_owned_channel_messages(pos, msg);
                self.state = ChatState::Idle;
                r
            },
            Classification::NotOurs => None,
        }
    }

    /// Handles an observed output; what it surfaces reaches the wallet as
    /// events.
    pub fn process_incomming(&mut self, msg: ChatMessageOutput)
        ensures
            forall|k: Classification|
                classified(*old(self), msg, k) ==> exists|r: Option<ChatItem>|
                    handled(*old(self), *final(self), msg, k, r),
    {
        let r = self.on_message_received(&msg);
    }

    /// A message to the group or channel `chat_id` with the given randomness
    /// and metadata: an owned channel, else an owned group, else a subscribed
    /// group. A subscriber of a channel cannot write to it.
    pub fn new_message_with(
        &self,
        chat_id: String,
        message: Vec<u8>,
        r_owner: &Fr,
        r_sender: &Fr,
        sequence: u64,
        created: Timestamp,
    ) -> (r: Result<ChatMessageOutput, ChatError>)
        ensures
            !writable(*self, chat_id@) <==> r == Err::<ChatMessageOutput, ChatError>(
                ChatError::InvalidGroup(chat_id),
            ),
            writable(*self, chat_id@) ==> (r is Ok <==> writer_valid(*self, chat_id@)),
            r matches Err(e) ==> e == ChatError::InvalidGroup(chat_id) || e == ChatError::InvalidPoint,
            r matches Ok(m) ==> sent_as(*self, chat_id@, message@, m, r_sender@) && m.created == created
                && m.sequence == sequence,
    {
        if let Some(pos) = self.find_owned_channel(&chat_id) {
            let chan = &self.owned_channels[pos];
            match chan.new_message_with(message, r_owner, r_sender, sequence, created) {
                Some(m) => Ok(m),
                None => Err(ChatError::InvalidPoint),
            }
        } else if let Some(pos) = self.find_owned_group(&chat_id) {
            let grp = &self.owned_groups[pos];
            match grp.new_message_with(message, r_owner, r_sender, sequence, created) {
                Some(m) => Ok(m),
                None => Err(ChatError::InvalidPoint),
            }
        } else if let Some(pos) = self.find_subscribed_group(&chat_id) {
            let grp = &self.subscribed_groups[pos];
            match grp.new_message_with(message, r_owner, r_sender, sequence, created) {
                Some(m) => Ok(m),
                None => Err(ChatError::InvalidPoint),
            }
        } else {
            Err(ChatError::InvalidGroup(chat_id))
        }
    }

    /// A message to `chat_id`, with fresh randomness, stamped now.
    pub fn new_message(&self, chat_id: String, message: Vec<u8>) -> (r: Result<
        ChatMessageOutput,
        ChatError,
    >)
        ensures
            !writable(*self, chat_id@) <==> r == Err::<ChatMessageOutput, ChatError>(
                ChatError::InvalidGroup(chat_id),
            ),
            writable(*self, chat_id@) ==> (r is Ok <==> writer_valid(*self, chat_id@)),
            r matches Ok(m) ==> exists|rs: Seq<u8>| #[trigger] sent_as(*self, chat_id@, message@, m, rs),
    {
        let r_owner = random_scalar();
        let r_sender = random_scalar();
        let sequence = random_u64();
        let created = now();
        self.new_message_with(chat_id, message, &r_owner, &r_sender, sequence, created)
    }
}

/// Appends the bytes of a slice.
fn push_slice(v: &mut Vec<u8>, b: &[u8])
    ensures
        final(v)@ == old(v)@ + b@,
{
    let mut i: usize = 0;
    while i < b.len()
        invariant
            0 <= i <= b@.len(),
            v@ == old(v)@ + b@.subrange(0, i as int),
        decreases b@.len() - i,
    {
        v.push(b[i]);
        assert(b@.subrange(0, i + 1) =~= b@.subrange(0, i as int).push(b@[i as int]));
        i = i + 1;
    }
    assert(b@.subrange(0, b@.len() as int) =~= b@);
}

/// The digest that a channel's keys derive from: the participant's secret,
/// then the identifier's UTF-8 bytes.
pub open spec fn channel_digest(chat_skey: Seq<u8>, id: Seq<char>) -> Seq<u8> {
    sha3_of(chat_skey + encode_utf8(id))
}

/// `c` is the channel that `chat_skey` creates for identifier `id`: its owner
/// secret is the digest hashed again and reduced, its key is that secret
/// times the generator, and its chain follows the reduced digest under
/// `seed`.
pub open spec fn derived_channel(c: ChannelOwnerInfo, chat_skey: Seq<u8>, id: Seq<char>, seed: Seq<u8>) -> bool {
    &&& c.channel_id@ == id
    &&& c.owner_skey@ == scalar_reduce_of(sha3_of(channel_digest(chat_skey, id)))
    &&& c.owner_pkey@ == base_mul_of(c.owner_skey@)
    &&& point_valid(c.owner_pkey@)
    &&& c.owner_chain@ == next_chain_of(
        c.owner_pkey@,
        scalar_reduce_of(channel_digest(chat_skey, id)),
        seed,
    )
}

impl Chat {
    /// Creates a channel whose owner keys derive from this participant's
    /// secret and the identifier, on the chain that `seed` rotates to; the
    /// invite carries the owner key and chain.
    pub fn create_channel_with(&mut self, channel_id: String, seed: &Fr) -> (r: Result<
        ChannelInvite,
        ChatError,
    >)
        ensures
            r is Ok <==> !id_in_use(*old(self), channel_id@),
            r is Err ==> r == Err::<ChannelInvite, ChatError>(ChatError::DuplicateID) && *final(self)
                == *old(self),
            r matches Ok(inv) ==> {
                let c = final(self).owned_channels@.last();
                &&& *final(self) == (Chat { owned_channels: final(self).owned_channels, ..*old(self) })
                &&& final(self).owned_channels@.drop_last() == old(self).owned_channels@
                &&& final(self).owned_channels@.len() == old(self).owned_channels@.len() + 1
                &&& derived_channel(c, old(self).chat_skey@, channel_id@, seed@)
                &&& c.owner_pkey == inv.owner_pkey
                &&& c.owner_chain == inv.owner_chain
            },
    {
        if !self.is_unique_id(&channel_id) {
            return Err(ChatError::DuplicateID);
        }
        let mut buf: Vec<u8> = Vec::new();
        push_bytes32(&mut buf, &self.chat_skey.bytes);
        push_slice(&mut buf, channel_id.as_str().as_bytes());
        let unique_id = sha3(&buf);
        let mut id_bytes: Vec<u8> = Vec::new();
        push_bytes32(&mut id_bytes, &unique_id);
        let (owner_skey, owner_pkey) = make_deterministic_keys(&id_bytes);
        let initial_owner_chain = scalar_reduce(&unique_id);
        let owner_chain = match next_chain_code(&owner_pkey, &initial_owner_chain, seed) {
            Some(c) => c,
            None => {
                // a derived key always encodes a group element
                proof {
                    assert(false);
                }
                return Err(ChatError::InvalidPoint);
            },
        };
        let info = ChannelOwnerInfo { channel_id, owner_pkey, owner_skey, owner_chain };
        match self.add_owned_channel(info) {
            Ok(()) => Ok(ChannelInvite { owner_pkey, owner_chain }),
            Err(e) => Err(e),
        }
    }

    /// Creates a channel under a freshly drawn chain seed.
    pub fn create_channel(&mut self, channel_id: String) -> (r: Result<ChannelInvite, ChatError>)
        ensures
            r is Ok <==> !id_in_use(*old(self), channel_id@),
            r is Err ==> r == Err::<ChannelInvite, ChatError>(ChatError::DuplicateID) && *final(self)
                == *old(self),
            r matches Ok(inv) ==> {
                let c = final(self).owned_channels@.last();
                &&& *final(self) == (Chat { owned_channels: final(self).owned_channels, ..*old(self) })
                &&& final(self).owned_channels@.drop_last() == old(self).owned_channels@
                &&& final(self).owned_channels@.len() == old(self).owned_channels@.len() + 1
                &&& exists|seed: Seq<u8>| #[trigger] derived_channel(c, old(self).chat_skey@, channel_id@, seed)
                &&& c.owner_pkey == inv.owner_pkey
                &&& c.owner_chain == inv.owner_chain
            },
    {
        let seed = random_scalar();
        self.create_channel_with(channel_id, &seed)
    }

    /// Subscribes to a channel from its invite.
    pub fn join_channel(&mut self, channel_id: String, invite_id: ChannelInvite) -> (r: Result<
        (),
        ChatError,
    >)
        ensures
            r is Ok <==> !id_in_use(*old(self), channel_id@),
            r is Err ==> r == Err::<(), ChatError>(ChatError::DuplicateID) && *final(self) == *old(self),
            r is Ok ==> {
                let c = final(self).subscribed_channels@.last();
                &&& *final(self) == (Chat {
                    subscribed_channels: final(self).subscribed_channels,
                    ..*old(self)
                })
                &&& final(self).subscribed_channels@.drop_last() == old(self).subscribed_channels@
                &&& final(self).subscribed_channels@.len() == old(self).subscribed_channels@.len() + 1
                &&& c.channel_id@ == channel_id@
                &&& c.owner_pkey == invite_id.owner_pkey
                &&& c.owner_chain == invite_id.owner_chain
                &&& c.messages@.len() == 0
            },
    {
        let session = ChannelSession {
            channel_id,
            owner_pkey: invite_id.owner_pkey,
            owner_chain: invite_id.owner_chain,
            messages: Vec::new(),
        };
        self.add_subscribed_channel(session)
    }

    /// Evicts members from an owned group: the roster drops them, the group
    /// moves to a fresh chain, and the rekeying outputs go to the wallet.
    pub fn evict_members(&mut self, group_id: String, evicted: Vec<PublicKey>) -> (r: Result<
        (),
        ChatError,
    >)
        ensures
            none_of(old(self).owned_groups@, og_named(group_id@)) <==> r == Err::<(), ChatError>(
                ChatError::InvalidGroup(group_id),
            ),
            r matches Err(e) ==> *final(self) == (Chat { owned_groups: final(self).owned_groups, ..*old(self) })
                && final(self).owned_groups@ == old(self).owned_groups@ && (e == ChatError::InvalidGroup(
                group_id,
            ) || e == ChatError::InvalidPoint),
            forall|i: int|
                first_of(old(self).owned_groups@, i, og_named(group_id@)) ==> (r is Ok
                    <==> eviction_possible(old(self).owned_groups@[i], evicted@)),
            r is Ok ==> exists|i: int|
                first_of(old(self).owned_groups@, i, og_named(group_id@))
                    && final(self).owned_groups@[i].members@ == without_keys(
                    old(self).owned_groups@[i].members@,
                    evicted@,
                ) && final(self).events@.last() is SendTransaction,
    {
        match self.find_owned_group(&group_id) {
            None => Err(ChatError::InvalidGroup(group_id)),
            Some(pos) => {
                proof {
                    assert forall|i: int| first_of(old(self).owned_groups@, i, og_named(group_id@)) implies i
                        == pos by {
                        lemma_first_of_unique(
                            old(self).owned_groups@,
                            i,
                            pos as int,
                            og_named(group_id@),
                        );
                    }
                }
                let mut grp = self.owned_groups.remove(pos);
                let out = grp.evict_members(&evicted);
                self.owned_groups.insert(pos, grp);
                match out {
                    None => {
                        assert(self.owned_groups@ =~= old(self).owned_groups@);
                        Err(ChatError::InvalidPoint)
                    },
                    Some(msgs) => {
                        self.notify_wallet_to_send_transaction(msgs);
                        Ok(())
                    },
                }
            },
        }
    }
}

} // verus!
