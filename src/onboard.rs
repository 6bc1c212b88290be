//! The owner's onboarding of a new member: the group's chains and its member
//! list, cut into owner-signed chunks.
use vstd::prelude::*;
use crate::bytes::{push_bytes32, push_u32_le, u32_le};
use crate::message::{
    pairs_bytes, push_pairs, schnorr_sign, schnorr_signed, schnorr_valid, schnorr_verify,
    SchnorrSig,
};
use crate::group::{GroupOwnerInfo, GroupSession};
use crate::prim::{Fr, PublicKey, SecretKey, Timestamp};
use crate::roster::{
    roster_after_onboarding, without_keys, GroupMember, MemberRoster, PAIRS_PER_MEMBER_LIST,
};

verus! {

/// Members listed in each continuation chunk.
pub const PAIRS_PER_MEMBER_LIST_CONT: usize = 12;

/// The first onboarding chunk.
#[derive(Clone, Debug)]
pub struct NewMemberInfo {
    /// The owner, which identifies the group.
    pub owner_pkey: PublicKey,
    /// The group's current chain.
    pub owner_chain: Fr,
    /// The group's rekeying chain.
    pub rekeying_chain: Fr,
    /// The new member's first chain.
    pub my_initial_chain: Fr,
    /// Members in the whole list, the new one included.
    pub num_members: u32,
    /// The first members of the list.
    pub members: Vec<(PublicKey, Fr)>,
    /// The owner's signature on the fields above.
    pub signature: SchnorrSig,
}

/// A continuation chunk.
#[derive(Clone, Debug)]
pub struct NewMemberInfoCont {
    pub owner_pkey: PublicKey,
    pub num_members: u32,
    /// The list position of this chunk's first member.
    pub member_index: u32,
    pub members: Vec<(PublicKey, Fr)>,
    /// The owner's signature on the fields above.
    pub signature: SchnorrSig,
}

/// The bytes the owner signs in a first chunk.
pub open spec fn info_bytes(i: NewMemberInfo) -> Seq<u8> {
    i.owner_pkey@ + i.owner_chain@ + i.rekeying_chain@ + i.my_initial_chain@ + u32_le(
        i.num_members,
    ) + pairs_bytes(i.members@)
}

/// The bytes the owner signs in a continuation chunk.
pub open spec fn cont_bytes(c: NewMemberInfoCont) -> Seq<u8> {
    c.owner_pkey@ + u32_le(c.num_members) + u32_le(c.member_index) + pairs_bytes(c.members@)
}

/// The members that a first chunk and its continuations list, in order.
pub open spec fn listed_members(i: NewMemberInfo, cs: Seq<NewMemberInfoCont>) -> Seq<
    (PublicKey, Fr),
>
    decreases cs.len(),
{
    if cs.len() == 0 {
        i.members@
    } else {
        listed_members(i, cs.drop_last()) + cs.last().members@
    }
}

/// Every chunk is signed by the first chunk's owner, agrees on the count,
/// and starts where the previous one ended.
pub open spec fn chunks_consistent(i: NewMemberInfo, cs: Seq<NewMemberInfoCont>) -> bool {
    &&& schnorr_valid(i.signature, i.owner_pkey@, info_bytes(i))
    &&& forall|j: int|
        0 <= j < cs.len() ==> {
            &&& (#[trigger] cs[j]).owner_pkey@ == i.owner_pkey@
            &&& cs[j].num_members == i.num_members
            &&& cs[j].member_index == listed_members(i, cs.subrange(0, j)).len()
            &&& schnorr_valid(cs[j].signature, i.owner_pkey@, cont_bytes(cs[j]))
        }
    &&& listed_members(i, cs).len() == i.num_members
}

impl NewMemberInfo {
    pub fn signed_bytes(&self) -> (r: Vec<u8>)
        ensures
            r@ == info_bytes(*self),
    {
        let mut v: Vec<u8> = Vec::new();
        push_bytes32(&mut v, &self.owner_pkey.bytes);
        push_bytes32(&mut v, &self.owner_chain.bytes);
        push_bytes32(&mut v, &self.rekeying_chain.bytes);
        push_bytes32(&mut v, &self.my_initial_chain.bytes);
        push_u32_le(&mut v, self.num_members);
        push_pairs(&mut v, &self.members);
        v
    }

    /// Signs the chunk with the owner's secret key.
    pub fn sign(&mut self, owner_skey: &SecretKey)
        ensures
            *final(self) == (NewMemberInfo { signature: final(self).signature, ..*old(self) }),
            schnorr_signed(final(self).signature, owner_skey@, old(self).owner_pkey@, info_bytes(*old(self))),
    {
        let b = self.signed_bytes();
        self.signature = schnorr_sign(owner_skey, &self.owner_pkey, &b);
    }

    /// Checks the owner's signature.
    pub fn verify(&self) -> (r: bool)
        ensures
            r == schnorr_valid(self.signature, self.owner_pkey@, info_bytes(*self)),
    {
        let b = self.signed_bytes();
        schnorr_verify(&self.owner_pkey, &b, &self.signature)
    }
}

impl NewMemberInfoCont {
    pub fn signed_bytes(&self) -> (r: Vec<u8>)
        ensures
            r@ == cont_bytes(*self),
    {
        let mut v: Vec<u8> = Vec::new();
        push_bytes32(&mut v, &self.owner_pkey.bytes);
        push_u32_le(&mut v, self.num_members);
        push_u32_le(&mut v, self.member_index);
        push_pairs(&mut v, &self.members);
        v
    }

    /// Signs the chunk with the owner's secret key.
    pub fn sign(&mut self, owner_skey: &SecretKey)
        ensures
            *final(self) == (NewMemberInfoCont { signature: final(self).signature, ..*old(self) }),
            schnorr_signed(final(self).signature, owner_skey@, old(self).owner_pkey@, cont_bytes(*old(self))),
    {
        let b = self.signed_bytes();
        self.signature = schnorr_sign(owner_skey, &self.owner_pkey, &b);
    }

    /// Checks the owner's signature under `owner_pkey`.
    pub fn verify(&self, owner_pkey: &PublicKey) -> (r: bool)
        ensures
            r == schnorr_valid(self.signature, owner_pkey@, cont_bytes(*self)),
    {
        let b = self.signed_bytes();
        schnorr_verify(owner_pkey, &b, &self.signature)
    }
}

/// The pairs `v[start..end]`.
fn slice_pairs(v: &Vec<(PublicKey, Fr)>, start: usize, end: usize) -> (r: Vec<(PublicKey, Fr)>)
    requires
        start <= end <= v@.len(),
    ensures
        r@ == v@.subrange(start as int, end as int),
{
    let mut r: Vec<(PublicKey, Fr)> = Vec::new();
    let mut i = start;
    while i < end
        invariant
            start <= i <= end <= v@.len(),
            r@ == v@.subrange(start as int, i as int),
        decreases end - i,
    {
        r.push(v[i]);
        assert(r@ =~= v@.subrange(start as int, i + 1));
        i = i + 1;
    }
    r
}

/// Cuts a member list into a signed first chunk of at most
/// `PAIRS_PER_MEMBER_LIST` members and signed continuations of at most
/// `PAIRS_PER_MEMBER_LIST_CONT`. `None` where the list is longer than
/// `u32::MAX`.
pub fn member_list_chunks(
    owner_skey: &SecretKey,
    owner_pkey: &PublicKey,
    owner_chain: &Fr,
    rekeying_chain: &Fr,
    my_initial_chain: &Fr,
    members: &Vec<(PublicKey, Fr)>,
) -> (r: Option<(NewMemberInfo, Vec<NewMemberInfoCont>)>)
    ensures
        r is Some <==> members@.len() <= u32::MAX,
        r matches Some((info, conts)) ==> {
            &&& info.owner_pkey == *owner_pkey
            &&& info.owner_chain == *owner_chain
            &&& info.rekeying_chain == *rekeying_chain
            &&& info.my_initial_chain == *my_initial_chain
            &&& info.num_members == members@.len()
            &&& info.members@.len() <= 10
            &&& schnorr_signed(info.signature, owner_skey@, owner_pkey@, info_bytes(info))
            &&& forall|j: int|
                0 <= j < conts@.len() ==> {
                    &&& (#[trigger] conts@[j]).owner_pkey == *owner_pkey
                    &&& conts@[j].num_members == members@.len()
                    &&& conts@[j].member_index == listed_members(info, conts@.subrange(0, j)).len()
                    &&& 0 < conts@[j].members@.len() <= 12
                    &&& schnorr_signed(
                        conts@[j].signature,
                        owner_skey@,
                        owner_pkey@,
                        cont_bytes(conts@[j]),
                    )
                }
            &&& listed_members(info, conts@) == members@
        },
{
    let n = members.len();
    if n > u32::MAX as usize {
        return None;
    }
    let first_end = if n < PAIRS_PER_MEMBER_LIST {
        n
    } else {
        PAIRS_PER_MEMBER_LIST
    };
    let zero_sig = SchnorrSig { r: PublicKey { bytes: [0u8; 32] }, s: Fr { bytes: [0u8; 32] } };
    let mut info = NewMemberInfo {
        owner_pkey: *owner_pkey,
        owner_chain: *owner_chain,
        rekeying_chain: *rekeying_chain,
        my_initial_chain: *my_initial_chain,
        num_members: n as u32,
        members: slice_pairs(members, 0, first_end),
        signature: zero_sig,
    };
    info.sign(owner_skey);
    let mut conts: Vec<NewMemberInfoCont> = Vec::new();
    let mut start = first_end;
    assert(listed_members(info, conts@) =~= members@.subrange(0, start as int));
    while start < n
        invariant
            first_end <= start <= n,
            n == members@.len(),
            n <= u32::MAX,
            info.owner_pkey == *owner_pkey,
            info.num_members == n,
            listed_members(info, conts@) == members@.subrange(0, start as int),
            forall|j: int|
                0 <= j < conts@.len() ==> {
                    &&& (#[trigger] conts@[j]).owner_pkey == *owner_pkey
                    &&& conts@[j].num_members == n
                    &&& conts@[j].member_index == listed_members(info, conts@.subrange(0, j)).len()
                    &&& 0 < conts@[j].members@.len() <= 12
                    &&& schnorr_signed(
                        conts@[j].signature,
                        owner_skey@,
                        owner_pkey@,
                        cont_bytes(conts@[j]),
                    )
                },
        decreases n - start,
    {
        let end = if n - start < PAIRS_PER_MEMBER_LIST_CONT {
            n
        } else {
            start + PAIRS_PER_MEMBER_LIST_CONT
        };
        let mut c = NewMemberInfoCont {
            owner_pkey: *owner_pkey,
            num_members: n as u32,
            member_index: start as u32,
            members: slice_pairs(members, start, end),
            signature: zero_sig,
        };
        c.sign(owner_skey);
        let ghost before = conts@;
        conts.push(c);
        proof {
            assert(conts@.drop_last() =~= before);
            assert(conts@.subrange(0, before.len() as int) =~= before);
            assert(members@.subrange(0, end as int) =~= members@.subrange(0, start as int)
                + members@.subrange(start as int, end as int));
            assert forall|j: int| 0 <= j < conts@.len() implies {
                &&& (#[trigger] conts@[j]).owner_pkey == *owner_pkey
                &&& conts@[j].num_members == n
                &&& conts@[j].member_index == listed_members(info, conts@.subrange(0, j)).len()
                &&& 0 < conts@[j].members@.len() <= 12
                &&& schnorr_signed(
                    conts@[j].signature,
                    owner_skey@,
                    owner_pkey@,
                    cont_bytes(conts@[j]),
                )
            } by {
                if j < before.len() {
                    assert(conts@[j] == before[j]);
                    assert(conts@.subrange(0, j) =~= before.subrange(0, j));
                }
            }
        }
        start = end;
    }
    assert(members@.subrange(0, n as int) =~= members@);
    Some((info, conts))
}

/// Reassembles a member list from its chunks: the list, where every chunk
/// is signed by the first chunk's owner, agrees on the count and continues
/// where the previous one ended, and the count is reached; `None` otherwise.
pub fn reassemble_members(info: &NewMemberInfo, conts: &Vec<NewMemberInfoCont>) -> (r: Option<
    Vec<(PublicKey, Fr)>,
>)
    ensures
        r is Some <==> chunks_consistent(*info, conts@),
        r matches Some(v) ==> v@ == listed_members(*info, conts@),
{
    if !info.verify() {
        return None;
    }
    let mut all: Vec<(PublicKey, Fr)> = slice_pairs(&info.members, 0, info.members.len());
    assert(info.members@.subrange(0, info.members@.len() as int) =~= info.members@);
    let mut j: usize = 0;
    while j < conts.len()
        invariant
            0 <= j <= conts@.len(),
            schnorr_valid(info.signature, info.owner_pkey@, info_bytes(*info)),
            all@ == listed_members(*info, conts@.subrange(0, j as int)),
            forall|k: int|
                0 <= k < j ==> {
                    &&& (#[trigger] conts@[k]).owner_pkey@ == info.owner_pkey@
                    &&& conts@[k].num_members == info.num_members
                    &&& conts@[k].member_index == listed_members(*info, conts@.subrange(0, k)).len()
                    &&& schnorr_valid(conts@[k].signature, info.owner_pkey@, cont_bytes(conts@[k]))
                },
        decreases conts@.len() - j,
    {
        let c = &conts[j];
        if !(c.owner_pkey == info.owner_pkey) || c.num_members != info.num_members || c.member_index
            as usize != all.len() || !c.verify(&info.owner_pkey) {
            proof {
                assert(conts@.subrange(0, j as int) =~= conts@.subrange(0, j as int));
            }
            return None;
        }
        let ghost before = all@;
        let mut k: usize = 0;
        while k < c.members.len()
            invariant
                0 <= k <= c.members@.len(),
                all@ == before + c.members@.subrange(0, k as int),
            decreases c.members@.len() - k,
        {
            all.push(c.members[k]);
            assert(all@ =~= before + c.members@.subrange(0, k + 1));
            k = k + 1;
        }
        proof {
            assert(c.members@.subrange(0, c.members@.len() as int) =~= c.members@);
            assert(conts@.subrange(0, j + 1).drop_last() =~= conts@.subrange(0, j as int));
        }
        j = j + 1;
    }
    assert(conts@.subrange(0, conts@.len() as int) =~= conts@);
    if all.len() != info.num_members as usize {
        return None;
    }
    Some(all)
}

/// The member list an owner hands to a joining member: the owner itself on
/// the group's chain, then every member of its roster.
pub open spec fn invitation_list(g: GroupOwnerInfo) -> Seq<(PublicKey, Fr)> {
    seq![(g.owner_pkey, g.owner_chain)] + g.members@.map_values(|m: GroupMember| (m.pkey, m.chain))
}

impl GroupOwnerInfo {
    /// The signed chunks that invite a member whose first chain is
    /// `new_member_chain`: the group's chains and its member list. `None`
    /// where the list is longer than `u32::MAX`.
    pub fn invitation(&self, new_member_chain: &Fr) -> (r: Option<(NewMemberInfo, Vec<NewMemberInfoCont>)>)
        ensures
            r is Some <==> invitation_list(*self).len() <= u32::MAX,
            r matches Some((info, conts)) ==> {
                &&& info.owner_pkey == self.owner_pkey
                &&& info.owner_chain == self.owner_chain
                &&& info.rekeying_chain == self.owner_rekeying_chain
                &&& info.my_initial_chain == *new_member_chain
                &&& listed_members(info, conts@) == invitation_list(*self)
                &&& info.num_members == invitation_list(*self).len()
                &&& schnorr_signed(info.signature, self.owner_skey@, self.owner_pkey@, info_bytes(info))
                &&& forall|j: int|
                    0 <= j < conts@.len() ==> schnorr_signed(
                        (#[trigger] conts@[j]).signature,
                        self.owner_skey@,
                        self.owner_pkey@,
                        cont_bytes(conts@[j]),
                    )
            },
    {
        let mut pairs: Vec<(PublicKey, Fr)> = Vec::new();
        pairs.push((self.owner_pkey, self.owner_chain));
        let mut i: usize = 0;
        while i < self.members.0.len()
            invariant
                0 <= i <= self.members@.len(),
                pairs@ == seq![(self.owner_pkey, self.owner_chain)] + self.members@.subrange(
                    0,
                    i as int,
                ).map_values(|m: GroupMember| (m.pkey, m.chain)),
            decreases self.members@.len() - i,
        {
            let m = self.members.0[i];
            pairs.push((m.pkey, m.chain));
            assert(pairs@ =~= seq![(self.owner_pkey, self.owner_chain)] + self.members@.subrange(
                0,
                i + 1,
            ).map_values(|m: GroupMember| (m.pkey, m.chain)));
            i = i + 1;
        }
        assert(self.members@.subrange(0, self.members@.len() as int) =~= self.members@);
        member_list_chunks(
            &self.owner_skey,
            &self.owner_pkey,
            &self.owner_chain,
            &self.owner_rekeying_chain,
            new_member_chain,
            &pairs,
        )
    }
}

impl GroupSession {
    /// Joins a group from its invitation chunks: only a list whose every
    /// chunk the owner signed, complete and in order, is accepted. The roster
    /// holds the listed members adopted at `epoch`, this member left out; the
    /// member's chain is the one the owner assigned.
    pub fn join(
        group_id: String,
        my_skey: SecretKey,
        my_pkey: PublicKey,
        info: &NewMemberInfo,
        conts: &Vec<NewMemberInfoCont>,
        epoch: Timestamp,
    ) -> (r: Option<GroupSession>)
        ensures
            r is Some <==> chunks_consistent(*info, conts@),
            r matches Some(g) ==> {
                &&& g.group_id == group_id
                &&& g.owner_pkey == info.owner_pkey
                &&& g.owner_chain == info.owner_chain
                &&& g.owner_rekeying_chain == info.rekeying_chain
                &&& g.my_pkey == my_pkey
                &&& g.my_skey == my_skey
                &&& g.my_chain == info.my_initial_chain
                &&& g.members@ == without_keys(
                    roster_after_onboarding(seq![], listed_members(*info, conts@), epoch),
                    seq![my_pkey],
                )
                &&& g.ignored_members@.len() == 0
                &&& g.messages@.len() == 0
            },
    {
        let all = match reassemble_members(info, conts) {
            Some(v) => v,
            None => {
                return None;
            },
        };
        let mut members = MemberRoster(Vec::new());
        members.add_members_to_roster(&all, epoch);
        let mut me: Vec<PublicKey> = Vec::new();
        me.push(my_pkey);
        assert(me@ =~= seq![my_pkey]);
        members.evict(&me);
        Some(GroupSession {
            group_id,
            owner_pkey: info.owner_pkey,
            owner_chain: info.owner_chain,
            owner_rekeying_chain: info.rekeying_chain,
            my_pkey,
            my_skey,
            my_chain: info.my_initial_chain,
            members,
            ignored_members: Vec::new(),
            messages: Vec::new(),
        })
    }
}

} // verus!
