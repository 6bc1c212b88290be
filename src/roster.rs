//! The roster of a group: members with their current chains and epochs,
//! unique by key, in order.
use vstd::prelude::*;
use crate::message::{
    plain_bytes, plain_wf, enc_key_of, recipient_cloaked, sender_cloaked,
    signed_with, signing_key_of, ChatMessageOutput, IncomingChatPayload, MessagePayload,
};
use crate::keys::{chain_from_point, chain_from_point_of, chain_from_seed, detrand, detrand_of};
use crate::prim::{
    aes_ctr_of, base_mul_of, is_valid_point, now, point_mul, point_mul_of, point_valid, random_u64, scalar_invert, scalar_invert_of,
    scalar_mul, scalar_mul_of, Fr, PublicKey, Pt, SecretKey, Timestamp,
};

verus! {

/// Cloaked points carried by one rekeying output.
pub const PTS_PER_CHAIN_LIST: usize = 20;

/// Members listed in the first onboarding chunk.
pub const PAIRS_PER_MEMBER_LIST: usize = 10;

#[derive(Clone, Copy, Debug)]
pub struct GroupMember {
    pub pkey: PublicKey,
    pub chain: Fr,
    /// When the member's current chain was adopted.
    pub epoch: Timestamp,
}

#[derive(Clone, Debug)]
pub struct MemberRoster(pub Vec<GroupMember>);

impl View for MemberRoster {
    type V = Seq<GroupMember>;

    open spec fn view(&self) -> Seq<GroupMember> {
        self.0@
    }
}

impl From<Vec<GroupMember>> for MemberRoster {
    fn from(d: Vec<GroupMember>) -> (r: MemberRoster)
        ensures
            r@ == d@,
    {
        MemberRoster(d)
    }
}

impl vstd::std_specs::convert::FromSpecImpl<Vec<GroupMember>> for MemberRoster {
    open spec fn obeys_from_spec() -> bool {
        true
    }

    open spec fn from_spec(d: Vec<GroupMember>) -> MemberRoster {
        MemberRoster(d)
    }
}

/// Whether some member of `s` has key `pk`.
pub open spec fn has_member(s: Seq<GroupMember>, pk: Seq<u8>) -> bool {
    exists|i: int| 0 <= i < s.len() && #[trigger] s[i].pkey@ == pk
}

/// Whether some key of `ks` is `pk`.
pub open spec fn has_key(ks: Seq<Pt>, pk: Seq<u8>) -> bool {
    exists|i: int| 0 <= i < ks.len() && #[trigger] ks[i]@ == pk
}

/// No two members share a key.
pub open spec fn unique_keys(s: Seq<GroupMember>) -> bool {
    forall|i: int, j: int| 0 <= i < j < s.len() ==> #[trigger] s[i].pkey@ != #[trigger] s[j].pkey@
}

/// `i` is the first index of `s` that satisfies `p`.
pub open spec fn is_first(s: Seq<GroupMember>, i: int, p: spec_fn(GroupMember) -> bool) -> bool {
    &&& 0 <= i < s.len()
    &&& p(s[i])
    &&& forall|j: int| 0 <= j < i ==> !p(#[trigger] s[j])
}

/// No index of `s` satisfies `p`.
pub open spec fn none_match(s: Seq<GroupMember>, p: spec_fn(GroupMember) -> bool) -> bool {
    forall|j: int| 0 <= j < s.len() ==> !p(#[trigger] s[j])
}

pub proof fn lemma_first_unique(s: Seq<GroupMember>, i: int, k: int, p: spec_fn(GroupMember) -> bool)
    requires
        is_first(s, i, p),
        is_first(s, k, p),
    ensures
        i == k,
{
    if i < k {
        assert(!p(s[i]));
    } else if k < i {
        assert(!p(s[k]));
    }
}

/// The members of `s` whose key is not among `ks`, in order.
pub open spec fn without_keys(s: Seq<GroupMember>, ks: Seq<Pt>) -> Seq<GroupMember>
    decreases s.len(),
{
    if s.len() == 0 {
        seq![]
    } else {
        let rest = without_keys(s.drop_last(), ks);
        if has_key(ks, s.last().pkey@) {
            rest
        } else {
            rest.push(s.last())
        }
    }
}

/// The members of `s` whose key is not `pk`, in order.
pub open spec fn without_key(s: Seq<GroupMember>, pk: Seq<u8>) -> Seq<GroupMember>
    decreases s.len(),
{
    if s.len() == 0 {
        seq![]
    } else {
        let rest = without_key(s.drop_last(), pk);
        if s.last().pkey@ == pk {
            rest
        } else {
            rest.push(s.last())
        }
    }
}

/// `acc` followed by the members of `s` whose key is not yet held, each
/// added in turn: the first entry for a key wins.
pub open spec fn merge_members(acc: Seq<GroupMember>, s: Seq<GroupMember>) -> Seq<GroupMember>
    decreases s.len(),
{
    if s.len() == 0 {
        acc
    } else {
        let rest = merge_members(acc, s.drop_last());
        if has_member(rest, s.last().pkey@) {
            rest
        } else {
            rest.push(s.last())
        }
    }
}

/// The (key, chain) pairs as members adopted at `epoch`.
pub open spec fn pairs_as_members(s: Seq<(PublicKey, Fr)>, epoch: Timestamp) -> Seq<GroupMember> {
    s.map_values(|p: (PublicKey, Fr)| GroupMember { pkey: p.0, chain: p.1, epoch })
}

/// The roster after an onboarding list `pairs` at `epoch`: the listed members
/// (first entry per key), then the held members that the list leaves out.
pub open spec fn roster_after_onboarding(
    old: Seq<GroupMember>,
    pairs: Seq<(PublicKey, Fr)>,
    epoch: Timestamp,
) -> Seq<GroupMember> {
    merge_members(merge_members(seq![], pairs_as_members(pairs, epoch)), old)
}

pub proof fn lemma_without_keys_sub(s: Seq<GroupMember>, ks: Seq<Pt>)
    ensures
        forall|i: int| 0 <= i < without_keys(s, ks).len() ==> exists|j: int|
            0 <= j < s.len() && #[trigger] without_keys(s, ks)[i] == s[j],
        forall|i: int| 0 <= i < without_keys(s, ks).len() ==> !has_key(ks, #[trigger] without_keys(s, ks)[i].pkey@),
    decreases s.len(),
{
    if s.len() > 0 {
        lemma_without_keys_sub(s.drop_last(), ks);
        let rest = without_keys(s.drop_last(), ks);
        assert forall|i: int| 0 <= i < without_keys(s, ks).len() implies exists|j: int|
            0 <= j < s.len() && #[trigger] without_keys(s, ks)[i] == s[j] by {
            if i < rest.len() {
                let j = choose|j: int| 0 <= j < s.drop_last().len() && rest[i] == s.drop_last()[j];
                assert(s[j] == s.drop_last()[j]);
            } else {
                assert(without_keys(s, ks)[i] == s[s.len() - 1]);
            }
        }
    }
}

pub proof fn lemma_without_keys_unique(s: Seq<GroupMember>, ks: Seq<Pt>)
    requires
        unique_keys(s),
    ensures
        unique_keys(without_keys(s, ks)),
    decreases s.len(),
{
    if s.len() > 0 {
        let t = s.drop_last();
        assert(unique_keys(t));
        lemma_without_keys_unique(t, ks);
        lemma_without_keys_sub(t, ks);
        let rest = without_keys(t, ks);
        if !has_key(ks, s.last().pkey@) {
            assert forall|i: int, j: int| 0 <= i < j < rest.push(s.last()).len() implies #[trigger] rest.push(
                s.last(),
            )[i].pkey@ != #[trigger] rest.push(s.last())[j].pkey@ by {
                if j == rest.len() {
                    let k = choose|k: int| 0 <= k < t.len() && rest[i] == t[k];
                    assert(s[k] == t[k]);
                }
            }
        }
    }
}

pub proof fn lemma_without_key_sub(s: Seq<GroupMember>, pk: Seq<u8>)
    ensures
        forall|i: int| 0 <= i < without_key(s, pk).len() ==> exists|j: int|
            0 <= j < s.len() && #[trigger] without_key(s, pk)[i] == s[j],
        forall|i: int| 0 <= i < without_key(s, pk).len() ==> (#[trigger] without_key(s, pk)[i]).pkey@ != pk,
    decreases s.len(),
{
    if s.len() > 0 {
        lemma_without_key_sub(s.drop_last(), pk);
        let rest = without_key(s.drop_last(), pk);
        assert forall|i: int| 0 <= i < without_key(s, pk).len() implies exists|j: int|
            0 <= j < s.len() && #[trigger] without_key(s, pk)[i] == s[j] by {
            if i < rest.len() {
                let j = choose|j: int| 0 <= j < s.drop_last().len() && rest[i] == s.drop_last()[j];
                assert(s[j] == s.drop_last()[j]);
            } else {
                assert(without_key(s, pk)[i] == s[s.len() - 1]);
            }
        }
    }
}

pub proof fn lemma_without_key_unique(s: Seq<GroupMember>, pk: Seq<u8>)
    requires
        unique_keys(s),
    ensures
        unique_keys(without_key(s, pk)),
    decreases s.len(),
{
    if s.len() > 0 {
        let t = s.drop_last();
        assert(unique_keys(t));
        lemma_without_key_unique(t, pk);
        lemma_without_key_sub(t, pk);
        let rest = without_key(t, pk);
        if s.last().pkey@ != pk {
            assert forall|i: int, j: int| 0 <= i < j < rest.push(s.last()).len() implies #[trigger] rest.push(
                s.last(),
            )[i].pkey@ != #[trigger] rest.push(s.last())[j].pkey@ by {
                if j == rest.len() {
                    let k = choose|k: int| 0 <= k < t.len() && rest[i] == t[k];
                    assert(s[k] == t[k]);
                }
            }
        }
    }
}

pub proof fn lemma_merge_unique(acc: Seq<GroupMember>, s: Seq<GroupMember>)
    requires
        unique_keys(acc),
    ensures
        unique_keys(merge_members(acc, s)),
    decreases s.len(),
{
    if s.len() > 0 {
        lemma_merge_unique(acc, s.drop_last());
        let rest = merge_members(acc, s.drop_last());
        if !has_member(rest, s.last().pkey@) {
            assert forall|i: int, j: int| 0 <= i < j < rest.push(s.last()).len() implies #[trigger] rest.push(
                s.last(),
            )[i].pkey@ != #[trigger] rest.push(s.last())[j].pkey@ by {
                if j == rest.len() {
                    assert(rest.push(s.last())[i] == rest[i]);
                }
            }
        }
    }
}

/// A copy of a member list.
pub fn copy_members(v: &Vec<GroupMember>) -> (r: Vec<GroupMember>)
    ensures
        r@ == v@,
{
    let mut r: Vec<GroupMember> = Vec::new();
    let mut i: usize = 0;
    while i < v.len()
        invariant
            0 <= i <= v@.len(),
            r@ == v@.subrange(0, i as int),
        decreases v@.len() - i,
    {
        r.push(v[i]);
        assert(r@ =~= v@.subrange(0, i + 1));
        i = i + 1;
    }
    assert(v@.subrange(0, v@.len() as int) =~= v@);
    r
}

/// Whether `v` holds the key `pk`.
pub fn contains_key(v: &Vec<Pt>, pk: &Pt) -> (r: bool)
    ensures
        r == has_key(v@, pk@),
{
    let mut i: usize = 0;
    while i < v.len()
        invariant
            0 <= i <= v@.len(),
            forall|j: int| 0 <= j < i ==> (#[trigger] v@[j])@ != pk@,
        decreases v@.len() - i,
    {
        if v[i] == *pk {
            return true;
        }
        i = i + 1;
    }
    false
}

/// Whether `v` holds a member with key `pk`.
fn holds_member(v: &Vec<GroupMember>, pk: &Pt) -> (r: bool)
    ensures
        r == has_member(v@, pk@),
{
    let mut i: usize = 0;
    while i < v.len()
        invariant
            0 <= i <= v@.len(),
            forall|j: int| 0 <= j < i ==> (#[trigger] v@[j]).pkey@ != pk@,
        decreases v@.len() - i,
    {
        if v[i].pkey == *pk {
            return true;
        }
        i = i + 1;
    }
    false
}

/// Appends to `acc` each member of `s` whose key `acc` does not hold yet.
fn merge_into(acc: &mut Vec<GroupMember>, s: &Vec<GroupMember>)
    ensures
        final(acc)@ == merge_members(old(acc)@, s@),
{
    let ghost start = acc@;
    let mut i: usize = 0;
    while i < s.len()
        invariant
            0 <= i <= s@.len(),
            acc@ == merge_members(start, s@.subrange(0, i as int)),
        decreases s@.len() - i,
    {
        let m = s[i];
        assert(s@.subrange(0, i + 1).drop_last() =~= s@.subrange(0, i as int));
        if !holds_member(acc, &m.pkey) {
            acc.push(m);
        }
        i = i + 1;
    }
    assert(s@.subrange(0, s@.len() as int) =~= s@);
}

/// The sender probe: `m`'s chain reproduces the output's cloaked sender.
pub open spec fn sender_probe(o: ChatMessageOutput) -> spec_fn(GroupMember) -> bool {
    |m: GroupMember|
        point_valid(o.sender_keying_hint@) && point_mul_of(m.chain@, o.sender_keying_hint@)
            == o.sender@
}

/// The key probe of a rekeying: `m`'s key, times the sender's randomness
/// recovered with `owner_chain`, reproduces the sender's keying hint.
pub open spec fn rekey_sender_probe(o: ChatMessageOutput, owner_chain: Seq<u8>) -> spec_fn(
    GroupMember,
) -> bool {
    |m: GroupMember|
        point_valid(m.pkey@) && point_mul_of(
            scalar_mul_of(o.sender_cloaking_hint@, scalar_invert_of(owner_chain)),
            m.pkey@,
        ) == o.sender_keying_hint@
}

/// Whether the key lookup for output `o` decrypts `ctxt` to a well-formed
/// payload with member `m` as the sender.
pub open spec fn decrypts_from(
    m: GroupMember,
    owner_pk: Seq<u8>,
    owner_chain: Seq<u8>,
    o: ChatMessageOutput,
    ctxt: Seq<u8>,
) -> bool {
    &&& point_valid(owner_pk)
    &&& point_valid(m.pkey@)
    &&& plain_wf(aes_ctr_of(member_key(m, owner_pk, owner_chain, o), ctxt))
}

/// The key of output `o` between the owner and member `m`.
pub open spec fn member_key(
    m: GroupMember,
    owner_pk: Seq<u8>,
    owner_chain: Seq<u8>,
    o: ChatMessageOutput,
) -> Seq<u8> {
    enc_key_of(
        o.recipient_cloaking_hint@,
        o.sender_cloaking_hint@,
        owner_pk,
        owner_chain,
        m.pkey@,
        m.chain@,
    )
}

/// The chain that cloaked point `pt` stands for, for the holder of `skey`:
/// the chain of `(1/skey) · pt`, which is `seed · G` for the point
/// `seed · pk` made for that holder.
pub open spec fn rekey_candidate(skey: Seq<u8>, pt: Pt) -> Seq<u8> {
    chain_from_point_of(point_mul_of(scalar_invert_of(skey), pt@))
}

/// `pt` is the holder of `skey`'s own point in rekeying `o`: the rekeying is
/// sent on the chain that `pt` stands for.
pub open spec fn own_point(o: ChatMessageOutput, skey: Seq<u8>, pt: Pt) -> bool {
    point_valid(pt@) && sent_on_chain(o, rekey_candidate(skey, pt))
}

/// Some point of `pts` is the holder of `skey`'s own.
pub open spec fn has_own_point(o: ChatMessageOutput, skey: Seq<u8>, pts: Seq<Pt>) -> bool {
    exists|k: int| 0 <= k < pts.len() && own_point(o, skey, #[trigger] pts[k])
}

/// `k` is the first own point of the holder of `skey` in `pts`.
pub open spec fn first_own_point(o: ChatMessageOutput, skey: Seq<u8>, pts: Seq<Pt>, k: int) -> bool {
    &&& 0 <= k < pts.len()
    &&& own_point(o, skey, pts[k])
    &&& forall|j: int| 0 <= j < k ==> !own_point(o, skey, #[trigger] pts[j])
}

/// The new chain that rekeying `o` carries for the holder of `skey`: the
/// chain of its first own point.
pub open spec fn rekey_chain_of(skey: Seq<u8>, pts: Seq<Pt>, o: ChatMessageOutput) -> Seq<u8> {
    rekey_candidate(skey, pts[choose|k: int| first_own_point(o, skey, pts, k)])
}

/// Finds the holder of `skey`'s own point in a rekeying, and the chain it
/// stands for.
fn find_own_chain(skey: &SecretKey, utxo: &ChatMessageOutput, pts: &Vec<Pt>) -> (r: Option<Fr>)
    ensures
        r is Some <==> has_own_point(*utxo, skey@, pts@),
        r matches Some(c) ==> c@ == rekey_chain_of(skey@, pts@, *utxo),
{
    let sf = scalar_invert(skey);
    let mut k: usize = 0;
    while k < pts.len()
        invariant
            0 <= k <= pts@.len(),
            sf@ == scalar_invert_of(skey@),
            forall|j: int| 0 <= j < k ==> !own_point(*utxo, skey@, #[trigger] pts@[j]),
        decreases pts@.len() - k,
    {
        if let Some(cg) = point_mul(&sf, &pts[k]) {
            let c = chain_from_point(&cg);
            if let Some(p) = point_mul(&c, &utxo.sender_keying_hint) {
                if p == utxo.sender {
                    proof {
                        assert(own_point(*utxo, skey@, pts@[k as int]));
                        assert(first_own_point(*utxo, skey@, pts@, k as int));
                        let k2 = choose|k2: int| first_own_point(*utxo, skey@, pts@, k2);
                        if k2 < k {
                            assert(!own_point(*utxo, skey@, pts@[k2]));
                        } else if k2 > k {
                            assert(!own_point(*utxo, skey@, pts@[k as int]));
                        }
                    }
                    return Some(c);
                }
            }
        }
        k = k + 1;
    }
    None
}

/// The number of rekeying outputs that carry `n` points.
pub open spec fn chunk_count(n: int) -> int {
    if n % 20 == 0 {
        n / 20
    } else {
        n / 20 + 1
    }
}

/// Output `m` is the rekeying chunk `i` of `tot` in sequence `seq`, made at
/// `created`, carrying `seed · pk` for the members `s[20 i ..]`, cloaked and
/// signed as sent by `sender_pk` on the chain that `seed` stands for, to the
/// owner `(owner_pk, owner_chain)`.
pub open spec fn is_rekey_chunk(
    m: ChatMessageOutput,
    s: Seq<GroupMember>,
    i: int,
    tot: int,
    seq: u64,
    created: Timestamp,
    seed: Seq<u8>,
    owner_pk: Seq<u8>,
    owner_chain: Seq<u8>,
    sender_skey: Seq<u8>,
    sender_pk: Seq<u8>,
) -> bool {
    let nc = chain_from_point_of(base_mul_of(seed));
    &&& m.sequence == seq
    &&& m.created == created
    &&& m.msg_nbr == i
    &&& m.msg_tot == tot
    &&& m.payload matches MessagePayload::EncryptedChainCodes(pts) && {
        &&& pts@.len() == (if i < tot - 1 {
            20
        } else {
            s.len() - 20 * i
        })
        &&& forall|k: int| 0 <= k < pts@.len() ==> #[trigger] pts@[k]@ == point_mul_of(seed, s[20 * i + k].pkey@)
    }
    &&& recipient_cloaked(m, owner_pk, owner_chain, detrand_of(owner_pk, owner_chain), nc)
    &&& sender_cloaked(m, sender_pk, nc, detrand_of(sender_pk, nc), owner_chain)
    &&& signed_with(m, signing_key_of(sender_skey, nc, detrand_of(sender_pk, nc)))
}

/// Builds one signed rekeying output.
fn rekey_message(
    owner_pkey: &PublicKey,
    owner_chain: &Fr,
    sender_skey: &SecretKey,
    sender_pkey: &PublicKey,
    sender_chain: &Fr,
    msg_ser: u64,
    created: Timestamp,
    msg_nbr: u32,
    msg_tot: u32,
    cloaked: Vec<Pt>,
) -> (r: Option<ChatMessageOutput>)
    ensures
        r is Some <==> point_valid(owner_pkey@) && point_valid(sender_pkey@),
        r matches Some(m) ==> {
            &&& m.sequence == msg_ser
            &&& m.created == created
            &&& m.msg_nbr == msg_nbr
            &&& m.msg_tot == msg_tot
            &&& m.payload matches MessagePayload::EncryptedChainCodes(pts) && pts@ == cloaked@
            &&& recipient_cloaked(
                m,
                owner_pkey@,
                owner_chain@,
                detrand_of(owner_pkey@, owner_chain@),
                sender_chain@,
            )
            &&& sender_cloaked(
                m,
                sender_pkey@,
                sender_chain@,
                detrand_of(sender_pkey@, sender_chain@),
                owner_chain@,
            )
            &&& signed_with(
                m,
                signing_key_of(sender_skey@, sender_chain@, detrand_of(sender_pkey@, sender_chain@)),
            )
        },
{
    let mut msg = ChatMessageOutput::new();
    msg.sequence = msg_ser;
    msg.created = created;
    msg.msg_nbr = msg_nbr;
    msg.msg_tot = msg_tot;
    msg.payload = MessagePayload::EncryptedChainCodes(cloaked);
    let r_owner = detrand(owner_pkey, owner_chain);
    let r_sender = detrand(sender_pkey, sender_chain);
    if msg.cloak_recipient(owner_pkey, owner_chain, &r_owner, sender_chain).is_err() {
        return None;
    }
    if msg.cloak_sender(sender_pkey, sender_chain, &r_sender, owner_chain).is_err() {
        return None;
    }
    msg.sign(sender_skey, sender_chain, &r_sender);
    Some(msg)
}

/// Whether `o` was sent on `chain`: `sender == chain · sender_keying_hint`.
pub open spec fn sent_on_chain(o: ChatMessageOutput, chain: Seq<u8>) -> bool {
    point_valid(o.sender_keying_hint@) && point_mul_of(chain, o.sender_keying_hint@) == o.sender@
}

pub open spec fn max_u64(a: u64, b: u64) -> u64 {
    if a >= b {
        a
    } else {
        b
    }
}

/// A rekeying output with points `pts` holds the own point of the holder of
/// `skey`, and names a sender in `s` whose epoch is older than the output.
pub open spec fn rekey_applies(
    s: Seq<GroupMember>,
    owner_chain: Seq<u8>,
    o: ChatMessageOutput,
    pts: Seq<Pt>,
    skey: Seq<u8>,
) -> bool {
    &&& has_own_point(o, skey, pts)
    &&& exists|i: int|
        is_first(s, i, rekey_sender_probe(o, owner_chain)) && o.created > #[trigger] s[i].epoch
}

/// The roster after member `pk` adopted `chain` at `epoch`.
pub open spec fn with_new_chain(
    s: Seq<GroupMember>,
    pk: PublicKey,
    chain: Fr,
    epoch: Timestamp,
) -> Seq<GroupMember> {
    without_key(s, pk@).push(GroupMember { pkey: pk, chain, epoch })
}

impl MemberRoster {
    /// Removes the members whose keys are listed; the others keep their order.
    pub fn evict(&mut self, evicted_members: &Vec<PublicKey>)
        ensures
            final(self)@ == without_keys(old(self)@, evicted_members@),
            unique_keys(old(self)@) ==> unique_keys(final(self)@),
    {
        let mut remaining: Vec<GroupMember> = Vec::new();
        let mut i: usize = 0;
        while i < self.0.len()
            invariant
                0 <= i <= self@.len(),
                self@ == old(self)@,
                remaining@ == without_keys(self@.subrange(0, i as int), evicted_members@),
            decreases self@.len() - i,
        {
            let m = self.0[i];
            assert(self@.subrange(0, i + 1).drop_last() =~= self@.subrange(0, i as int));
            if !contains_key(evicted_members, &m.pkey) {
                remaining.push(m);
            }
            i = i + 1;
        }
        assert(self@.subrange(0, self@.len() as int) =~= self@);
        proof {
            if unique_keys(old(self)@) {
                lemma_without_keys_unique(old(self)@, evicted_members@);
            }
        }
        self.0 = remaining;
    }

    /// The first member with key `pkey`.
    pub fn find_member(&self, pkey: &PublicKey) -> (r: Option<GroupMember>)
        ensures
            r is None <==> !has_member(self@, pkey@),
            r matches Some(m) ==> exists|i: int|
                is_first(self@, i, |x: GroupMember| x.pkey@ == pkey@) && self@[i] == m,
    {
        let mut i: usize = 0;
        while i < self.0.len()
            invariant
                0 <= i <= self@.len(),
                forall|j: int| 0 <= j < i ==> (#[trigger] self@[j]).pkey@ != pkey@,
            decreases self@.len() - i,
        {
            if self.0[i].pkey == *pkey {
                return Some(self.0[i]);
            }
            i = i + 1;
        }
        None
    }

    /// The first member whose chain reproduces the output's cloaked sender:
    /// `sender == chain · sender_keying_hint`.
    pub fn find_sender_chain(&self, utxo: &ChatMessageOutput) -> (r: Option<GroupMember>)
        ensures
            r is None <==> none_match(self@, sender_probe(*utxo)),
            r matches Some(m) ==> exists|i: int| is_first(self@, i, sender_probe(*utxo)) && self@[i] == m,
    {
        let mut i: usize = 0;
        while i < self.0.len()
            invariant
                0 <= i <= self@.len(),
                forall|j: int| 0 <= j < i ==> !(#[trigger] sender_probe(*utxo)(self@[j])),
            decreases self@.len() - i,
        {
            let m = self.0[i];
            match point_mul(&m.chain, &utxo.sender_keying_hint) {
                Some(p) => {
                    if p == utxo.sender {
                        return Some(m);
                    }
                },
                None => {},
            }
            i = i + 1;
        }
        None
    }

    /// Identifies the sender by the roster and decrypts the ciphertext with
    /// the key between the owner and that sender.
    pub fn decrypt_chat_message(
        &self,
        owner_pkey: &PublicKey,
        owner_chain: &Fr,
        utxo: &ChatMessageOutput,
        ctxt: &Vec<u8>,
    ) -> (r: Option<(PublicKey, IncomingChatPayload)>)
        ensures
            r is Some <==> exists|i: int|
                is_first(self@, i, sender_probe(*utxo)) && decrypts_from(
                    self@[i],
                    owner_pkey@,
                    owner_chain@,
                    *utxo,
                    ctxt@,
                ),
            r matches Some((pk, p)) ==> !(p is Rekeying) && exists|i: int|
                is_first(self@, i, sender_probe(*utxo)) && pk == self@[i].pkey && plain_bytes(p)
                    == aes_ctr_of(member_key(self@[i], owner_pkey@, owner_chain@, *utxo), ctxt@),
    {
        match self.find_sender_chain(utxo) {
            None => None,
            Some(member) => {
                let ghost i = choose|i: int| is_first(self@, i, sender_probe(*utxo)) && self@[i] == member;
                proof {
                    assert forall|k: int| is_first(self@, k, sender_probe(*utxo)) implies k == i by {
                        lemma_first_unique(self@, i, k, sender_probe(*utxo));
                    }
                }
                match utxo.compute_encryption_key(owner_pkey, owner_chain, &member.pkey, &member.chain) {
                    None => None,
                    Some(key) => match utxo.decrypt(&key, ctxt) {
                        Ok(m) => Some((member.pkey, m)),
                        Err(_) => None,
                    },
                }
            },
        }
    }

    /// For a rekeying output carrying `pts`: the sender, found by its key in
    /// the roster, with the new chain read from the first point and the
    /// sender's current epoch.
    pub fn find_sender_newchain(
        &self,
        skey: &SecretKey,
        owner_chain: &Fr,
        utxo: &ChatMessageOutput,
        pts: &Vec<Pt>,
    ) -> (r: Option<(PublicKey, Fr, Timestamp)>)
        ensures
            r is Some <==> has_own_point(*utxo, skey@, pts@) && exists|i: int|
                is_first(self@, i, rekey_sender_probe(*utxo, owner_chain@)),
            r matches Some((pk, chain, epoch)) ==> exists|i: int|
                is_first(self@, i, rekey_sender_probe(*utxo, owner_chain@)) && pk == self@[i].pkey
                    && epoch == self@[i].epoch && chain@ == rekey_chain_of(skey@, pts@, *utxo),
    {
        let chain = match find_own_chain(skey, utxo, pts) {
            Some(c) => c,
            None => {
                return None;
            },
        };
        let sfk = scalar_mul(&utxo.sender_cloaking_hint, &scalar_invert(owner_chain));
        let mut i: usize = 0;
        while i < self.0.len()
            invariant
                0 <= i <= self@.len(),
                sfk@ == scalar_mul_of(utxo.sender_cloaking_hint@, scalar_invert_of(owner_chain@)),
                has_own_point(*utxo, skey@, pts@),
                chain@ == rekey_chain_of(skey@, pts@, *utxo),
                forall|j: int|
                    0 <= j < i ==> !(#[trigger] rekey_sender_probe(*utxo, owner_chain@)(self@[j])),
            decreases self@.len() - i,
        {
            let m = self.0[i];
            match point_mul(&sfk, &m.pkey) {
                Some(p) => {
                    if p == utxo.sender_keying_hint {
                        assert(is_first(self@, i as int, rekey_sender_probe(*utxo, owner_chain@)));
                        return Some((m.pkey, chain, m.epoch));
                    }
                },
                None => {},
            }
            i = i + 1;
        }
        proof {
            assert forall|k: int| !is_first(self@, k, rekey_sender_probe(*utxo, owner_chain@)) by {
                if 0 <= k < self@.len() {
                    assert(!rekey_sender_probe(*utxo, owner_chain@)(self@[k]));
                }
            }
        }
        None
    }
    /// Applies a rekeying output: the sender's entry takes the new chain and
    /// the output's time as its epoch, moving to the end of the roster. A
    /// rekeying no newer than the sender's epoch is ignored.
    pub fn process_rekeying_message(
        &mut self,
        my_skey: &SecretKey,
        owner_pkey: &PublicKey,
        owner_chain: &Fr,
        utxo: &ChatMessageOutput,
        pts: &Vec<Pt>,
    ) -> (r: Option<(PublicKey, Fr)>)
        ensures
            r is Some <==> rekey_applies(old(self)@, owner_chain@, *utxo, pts@, my_skey@),
            r is None ==> final(self)@ == old(self)@,
            r matches Some((pk, c)) ==> {
                &&& exists|i: int|
                    is_first(old(self)@, i, rekey_sender_probe(*utxo, owner_chain@)) && pk
                        == old(self)@[i].pkey
                &&& c@ == rekey_chain_of(my_skey@, pts@, *utxo)
                &&& final(self)@ == with_new_chain(old(self)@, pk, c, utxo.created)
            },
            unique_keys(old(self)@) ==> unique_keys(final(self)@),
            unique_keys(old(self)@) ==> forall|i: int|
                #![trigger old(self)@[i]]
                is_first(old(self)@, i, rekey_sender_probe(*utxo, owner_chain@)) && has_own_point(
                    *utxo,
                    my_skey@,
                    pts@,
                ) ==> forall|j: int|
                    0 <= j < final(self)@.len() && final(self)@[j].pkey@ == old(self)@[i].pkey@
                        ==> final(self)@[j].epoch == max_u64(old(self)@[i].epoch, utxo.created) && (
                    utxo.created <= old(self)@[i].epoch ==> final(self)@[j].chain
                        == old(self)@[i].chain),
    {
        match self.find_sender_newchain(my_skey, owner_chain, utxo, pts) {
            Some((pkey, chain, epoch)) => {
                let ghost i = choose|i: int|
                    is_first(self@, i, rekey_sender_probe(*utxo, owner_chain@)) && pkey
                        == self@[i].pkey && epoch == self@[i].epoch;
                proof {
                    assert forall|k: int|
                        is_first(self@, k, rekey_sender_probe(*utxo, owner_chain@)) implies k
                        == i by {
                        lemma_first_unique(self@, i, k, rekey_sender_probe(*utxo, owner_chain@));
                    }
                }
                if utxo.created > epoch {
                    let mut trimmed: Vec<GroupMember> = Vec::new();
                    let mut j: usize = 0;
                    while j < self.0.len()
                        invariant
                            0 <= j <= self@.len(),
                            self@ == old(self)@,
                            trimmed@ == without_key(self@.subrange(0, j as int), pkey@),
                        decreases self@.len() - j,
                    {
                        let m = self.0[j];
                        assert(self@.subrange(0, j + 1).drop_last() =~= self@.subrange(0, j as int));
                        if m.pkey != pkey {
                            trimmed.push(m);
                        }
                        j = j + 1;
                    }
                    assert(self@.subrange(0, self@.len() as int) =~= self@);
                    trimmed.push(GroupMember { pkey, chain, epoch: utxo.created });
                    proof {
                        lemma_without_key_sub(old(self)@, pkey@);
                        if unique_keys(old(self)@) {
                            lemma_without_key_unique(old(self)@, pkey@);
                            let w = without_key(old(self)@, pkey@);
                            let t = trimmed@;
                            assert forall|a: int, b: int| 0 <= a < b < t.len() implies #[trigger] t[a].pkey@
                                != #[trigger] t[b].pkey@ by {
                                if b == w.len() {
                                    assert(t[a] == w[a]);
                                }
                            }
                            assert forall|j: int|
                                0 <= j < t.len() && t[j].pkey@ == pkey@ implies t[j].epoch
                                == max_u64(epoch, utxo.created) by {
                                if j < w.len() {
                                    assert(t[j] == w[j]);
                                }
                            }
                        }
                    }
                    self.0 = trimmed;
                    Some((pkey, chain))
                } else {
                    proof {
                        if unique_keys(old(self)@) {
                            assert forall|j: int|
                                0 <= j < self@.len() && self@[j].pkey@ == self@[i].pkey@ implies j
                                == i by {
                                if j < i {
                                    assert(self@[j].pkey@ != self@[i].pkey@);
                                } else if i < j {
                                    assert(self@[i].pkey@ != self@[j].pkey@);
                                }
                            }
                        }
                    }
                    None
                }
            },
            None => None,
        }
    }

    /// Whether this participant sent `utxo`: it was sent on `my_chain`.
    fn is_one_of_mine(
        &self,
        owner_chain: &Fr,
        my_pkey: &PublicKey,
        my_chain: &Fr,
        utxo: &ChatMessageOutput,
    ) -> (r: bool)
        ensures
            r == sent_on_chain(*utxo, my_chain@),
    {
        match point_mul(my_chain, &utxo.sender_keying_hint) {
            Some(p) => p == utxo.sender,
            None => false,
        }
    }

    /// Handles an output recognised as this group's: a rekeying not sent by
    /// this participant updates the roster and yields the sender's new chain;
    /// a message is decrypted through the roster.
    pub fn get_decrypted_message(
        &mut self,
        owner_pkey: &PublicKey,
        owner_chain: &Fr,
        my_skey: &SecretKey,
        my_pkey: &PublicKey,
        my_chain: &Fr,
        utxo: &ChatMessageOutput,
    ) -> (r: Option<(PublicKey, IncomingChatPayload)>)
        ensures
            utxo.payload matches MessagePayload::EncryptedMessage(c) ==> {
                &&& final(self)@ == old(self)@
                &&& r is Some <==> exists|i: int|
                    is_first(old(self)@, i, sender_probe(*utxo)) && decrypts_from(
                        old(self)@[i],
                        owner_pkey@,
                        owner_chain@,
                        *utxo,
                        c@,
                    )
                &&& r matches Some((pk, p)) ==> !(p is Rekeying) && exists|i: int|
                    is_first(old(self)@, i, sender_probe(*utxo)) && pk == old(self)@[i].pkey
                        && plain_bytes(p) == aes_ctr_of(
                        member_key(old(self)@[i], owner_pkey@, owner_chain@, *utxo),
                        c@,
                    )
            },
            utxo.payload matches MessagePayload::EncryptedChainCodes(pts) ==> {
                &&& r is Some <==> !sent_on_chain(*utxo, my_chain@) && rekey_applies(
                    old(self)@,
                    owner_chain@,
                    *utxo,
                    pts@,
                    my_skey@,
                )
                &&& r matches Some((pk, _)) ==> exists|i: int|
                    is_first(old(self)@, i, rekey_sender_probe(*utxo, owner_chain@)) && pk
                        == old(self)@[i].pkey
                &&& r is None ==> final(self)@ == old(self)@
                &&& r matches Some((pk, p)) ==> p matches IncomingChatPayload::Rekeying(c) && c@
                    == rekey_chain_of(my_skey@, pts@, *utxo) && final(self)@ == with_new_chain(
                    old(self)@,
                    pk,
                    c,
                    utxo.created,
                )
            },
            unique_keys(old(self)@) ==> unique_keys(final(self)@),
    {
        match &utxo.payload {
            MessagePayload::EncryptedChainCodes(m) => {
                if !self.is_one_of_mine(owner_chain, my_pkey, my_chain, utxo) {
                    if let Some((sender, chain)) = self.process_rekeying_message(
                        my_skey,
                        owner_pkey,
                        owner_chain,
                        utxo,
                        m,
                    ) {
                        Some((sender, IncomingChatPayload::Rekeying(chain)))
                    } else {
                        None
                    }
                } else {
                    None
                }
            },
            MessagePayload::EncryptedMessage(m) => self.decrypt_chat_message(
                owner_pkey,
                owner_chain,
                utxo,
                m,
            ),
        }
    }

    /// Takes in an owner-authored onboarding list: its members (the first
    /// entry per key) adopted at `epoch`, then the held members it leaves
    /// out. The owner's entries replace held ones.
    pub fn add_members_to_roster(&mut self, vec: &Vec<(PublicKey, Fr)>, epoch: Timestamp)
        ensures
            final(self)@ == roster_after_onboarding(old(self)@, vec@, epoch),
            unique_keys(final(self)@),
    {
        let mut members: Vec<GroupMember> = Vec::new();
        let mut i: usize = 0;
        while i < vec.len()
            invariant
                0 <= i <= vec@.len(),
                members@ == merge_members(seq![], pairs_as_members(vec@.subrange(0, i as int), epoch)),
            decreases vec@.len() - i,
        {
            let (pkey, chain) = vec[i];
            let ghost before = pairs_as_members(vec@.subrange(0, i as int), epoch);
            let ghost after = pairs_as_members(vec@.subrange(0, i + 1), epoch);
            assert(after.drop_last() =~= before);
            assert(after.last() == GroupMember { pkey, chain, epoch });
            if !holds_member(&members, &pkey) {
                members.push(GroupMember { pkey, chain, epoch });
            }
            i = i + 1;
        }
        assert(vec@.subrange(0, vec@.len() as int) =~= vec@);
        proof {
            lemma_merge_unique(seq![], pairs_as_members(vec@, epoch));
            lemma_merge_unique(members@, self@);
        }
        merge_into(&mut members, &self.0);
        self.0 = members;
    }

    /// The rekeying outputs that announce `new_chain_seed · pk` to every
    /// member, in chunks of `PTS_PER_CHAIN_LIST` points, all in one sequence
    /// `msg_ser`. `None` where a key encodes no group element or the chunk
    /// count exceeds `u32::MAX`.
    pub fn rekeying_messages_with(
        &self,
        owner_pkey: &PublicKey,
        owner_chain: &Fr,
        sender_skey: &SecretKey,
        sender_pkey: &PublicKey,
        new_chain_seed: &Fr,
        msg_ser: u64,
        created: Timestamp,
    ) -> (r: Option<Vec<ChatMessageOutput>>)
        ensures
            r is Some <==> point_valid(owner_pkey@) && point_valid(sender_pkey@) && (forall|j: int|
                0 <= j < self@.len() ==> point_valid(#[trigger] self@[j].pkey@)) && chunk_count(
                self@.len() as int,
            ) <= u32::MAX,
            r matches Some(v) ==> {
                &&& v@.len() == chunk_count(self@.len() as int)
                &&& forall|i: int|
                    0 <= i < v@.len() ==> is_rekey_chunk(
                        #[trigger] v@[i],
                        self@,
                        i,
                        v@.len() as int,
                        msg_ser,
                        created,
                        new_chain_seed@,
                        owner_pkey@,
                        owner_chain@,
                        sender_skey@,
                        sender_pkey@,
                    )
            },
    {
        if !is_valid_point(&owner_pkey.bytes) || !is_valid_point(&sender_pkey.bytes) {
            return None;
        }
        let n = self.0.len();
        let tot: usize = if n % PTS_PER_CHAIN_LIST == 0 {
            n / PTS_PER_CHAIN_LIST
        } else {
            n / PTS_PER_CHAIN_LIST + 1
        };
        if tot > u32::MAX as usize {
            return None;
        }
        let msg_tot = tot as u32;
        let new_chain = chain_from_seed(new_chain_seed);
        let mut msgs: Vec<ChatMessageOutput> = Vec::new();
        let mut nbr: usize = 0;
        while nbr < tot
            invariant
                0 <= nbr <= tot,
                tot == chunk_count(n as int),
                tot <= u32::MAX,
                msg_tot == tot,
                new_chain@ == chain_from_point_of(base_mul_of(new_chain_seed@)),
                n == self@.len(),
                point_valid(owner_pkey@),
                point_valid(sender_pkey@),
                msgs@.len() == nbr,
                forall|j: int| 0 <= j < 20 * nbr && j < n ==> point_valid(#[trigger] self@[j].pkey@),
                forall|i: int|
                    0 <= i < nbr ==> is_rekey_chunk(
                        #[trigger] msgs@[i],
                        self@,
                        i,
                        tot as int,
                        msg_ser,
                        created,
                        new_chain_seed@,
                        owner_pkey@,
                        owner_chain@,
                        sender_skey@,
                        sender_pkey@,
                    ),
            decreases tot - nbr,
        {
            assert(20 * nbr < n) by (nonlinear_arith)
                requires
                    nbr < tot,
                    tot == chunk_count(n as int),
            ;
            let start = nbr * PTS_PER_CHAIN_LIST;
            let end = if n - start > PTS_PER_CHAIN_LIST {
                start + PTS_PER_CHAIN_LIST
            } else {
                n
            };
            assert(end - start == (if nbr < tot - 1 {
                20
            } else {
                n - 20 * nbr
            })) by (nonlinear_arith)
                requires
                    nbr < tot,
                    tot == chunk_count(n as int),
                    start == 20 * nbr,
                    end == (if n - start > 20 {
                        start + 20
                    } else {
                        n as int
                    }),
            ;
            let mut cloaked: Vec<Pt> = Vec::new();
            let mut k: usize = start;
            while k < end
                invariant
                    start <= k <= end <= n,
                    n == self@.len(),
                    cloaked@.len() == k - start,
                    forall|q: int|
                        0 <= q < cloaked@.len() ==> #[trigger] cloaked@[q]@ == point_mul_of(
                            new_chain_seed@,
                            self@[start + q].pkey@,
                        ),
                    forall|j: int| 0 <= j < k ==> point_valid(#[trigger] self@[j].pkey@),
                decreases end - k,
            {
                match point_mul(new_chain_seed, &self.0[k].pkey) {
                    Some(cpt) => cloaked.push(cpt),
                    None => {
                        return None;
                    },
                }
                k = k + 1;
            }
            let m = rekey_message(
                owner_pkey,
                owner_chain,
                sender_skey,
                sender_pkey,
                &new_chain,
                msg_ser,
                created,
                nbr as u32,
                msg_tot,
                cloaked,
            );
            match m {
                Some(m) => msgs.push(m),
                None => {
                    return None;
                },
            }
            nbr = nbr + 1;
        }
        assert(20 * tot >= n) by (nonlinear_arith)
            requires
                tot == chunk_count(n as int),
        ;
        Some(msgs)
    }

    /// The rekeying outputs for `new_chain_seed`, under a freshly drawn
    /// sequence number, stamped now.
    pub fn generate_rekeying_messages(
        &self,
        owner_pkey: &PublicKey,
        owner_chain: &Fr,
        sender_skey: &SecretKey,
        sender_pkey: &PublicKey,
        new_chain_seed: &Fr,
    ) -> (r: Option<Vec<ChatMessageOutput>>)
        ensures
            r is Some <==> point_valid(owner_pkey@) && point_valid(sender_pkey@) && (forall|j: int|
                0 <= j < self@.len() ==> point_valid(#[trigger] self@[j].pkey@)) && chunk_count(
                self@.len() as int,
            ) <= u32::MAX,
            r matches Some(v) ==> v@.len() == chunk_count(self@.len() as int) && forall|i: int|
                0 <= i < v@.len() ==> is_rekey_chunk(
                        #[trigger] v@[i],
                        self@,
                        i,
                        v@.len() as int,
                        v@[0].sequence,
                        v@[0].created,
                        new_chain_seed@,
                        owner_pkey@,
                        owner_chain@,
                        sender_skey@,
                        sender_pkey@,
                    ),
    {
        let msg_ser = random_u64();
        let created = now();
        self.rekeying_messages_with(
            owner_pkey,
            owner_chain,
            sender_skey,
            sender_pkey,
            new_chain_seed,
            msg_ser,
            created,
        )
    }
}

} // verus!
