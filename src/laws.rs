//! Properties of the protocol that relate several functions.
use vstd::prelude::*;
use crate::message::{
    addressed_on, carries, plain_bytes, plain_wf, recipient_cloaked, sender_cloaked, ChatMessageOutput,
    IncomingChatPayload, MessagePayload,
};
use crate::group::{group_text, lemma_group_text};
use crate::prim::{aes_ctr_of, point_valid, PublicKey};
use crate::roster::{decrypts_from, is_first, member_key, sender_probe, GroupMember};

verus! {

/// An output cloaked for an owner on `owner_chain` passes the membership
/// probe of whoever holds `owner_chain`: the holder recognises it.
pub proof fn lemma_recognized_by_chain_holder(
    m: ChatMessageOutput,
    owner_pk: Seq<u8>,
    owner_chain: Seq<u8>,
    r_owner: Seq<u8>,
    sender_chain: Seq<u8>,
)
    requires
        recipient_cloaked(m, owner_pk, owner_chain, r_owner, sender_chain),
    ensures
        addressed_on(m, owner_chain),
{
}

/// An output cloaked for a sender on `chain` passes the sender probe of a
/// roster entry that holds `chain`.
pub proof fn lemma_sender_found_by_chain(
    m: ChatMessageOutput,
    sender_pk: Seq<u8>,
    r_sender: Seq<u8>,
    owner_chain: Seq<u8>,
    entry: GroupMember,
)
    requires
        sender_cloaked(m, sender_pk, entry.chain@, r_sender, owner_chain),
    ensures
        sender_probe(m)(entry),
{
}

/// Decryption is correct: when a member's roster identifies the sender of
/// a message by its entry `(pk, chain)`, and the message's ciphertext is the
/// text `text` encrypted under the key between the owner and that entry (as
/// `make_chat_message` produces it), decryption succeeds, and the only
/// payload it can decode to is `PlainText(text)`; the sender reported is the
/// entry's key.
pub proof fn lemma_decryption_correct(
    m: ChatMessageOutput,
    roster: Seq<GroupMember>,
    i: int,
    owner_pk: Seq<u8>,
    owner_chain: Seq<u8>,
    text: Seq<u8>,
)
    requires
        is_first(roster, i, sender_probe(m)),
        point_valid(owner_pk),
        point_valid(roster[i].pkey@),
        m.payload matches MessagePayload::EncryptedMessage(c) && aes_ctr_of(
            member_key(roster[i], owner_pk, owner_chain, m),
            c@,
        ) == seq![0u8] + text,
    ensures
        m.payload matches MessagePayload::EncryptedMessage(c) && decrypts_from(
            roster[i],
            owner_pk,
            owner_chain,
            m,
            c@,
        ),
        forall|p: IncomingChatPayload|
            m.payload matches MessagePayload::EncryptedMessage(c) && #[trigger] plain_bytes(p)
                == aes_ctr_of(member_key(roster[i], owner_pk, owner_chain, m), c@) ==> (
            p matches IncomingChatPayload::PlainText(t) && t@ == text),
{
    assert forall|p: IncomingChatPayload|
        m.payload matches MessagePayload::EncryptedMessage(c) && #[trigger] plain_bytes(p)
            == aes_ctr_of(member_key(roster[i], owner_pk, owner_chain, m), c@) implies (
    p matches IncomingChatPayload::PlainText(t) && t@ == text) by {
        let b = seq![0u8] + text;
        assert(plain_bytes(p)[0] == 0);
        if let IncomingChatPayload::PlainText(t) = p {
            assert(t@ =~= b.subrange(1, b.len() as int));
            assert(text =~= b.subrange(1, b.len() as int));
        }
    }
}

/// Decryption correctness end to end: an output that carries text `t` from
/// member `a` to the owner (as `new_message` sends it) decrypts, through a
/// roster whose first entry passing the sender probe holds `a`'s key and
/// chain, to exactly `t` with `a`'s key as the sender.
pub proof fn lemma_group_message_received(
    m: ChatMessageOutput,
    roster: Seq<GroupMember>,
    i: int,
    owner_pk: Seq<u8>,
    owner_chain: Seq<u8>,
    a_skey: Seq<u8>,
    r_sender: Seq<u8>,
    t: Seq<u8>,
)
    requires
        carries(m, owner_pk, owner_chain, roster[i].pkey@, roster[i].chain@, a_skey, r_sender, t),
        is_first(roster, i, sender_probe(m)),
        point_valid(owner_pk),
        point_valid(roster[i].pkey@),
    ensures
        group_text(roster, owner_pk, owner_chain, m) == Some::<(PublicKey, Seq<u8>)>((roster[i].pkey, t)),
{
    let c = m.payload->EncryptedMessage_0;
    let b = seq![0u8] + t;
    assert(b[0] == 0);
    assert(plain_wf(b));
    lemma_group_text(roster, i, owner_pk, owner_chain, m, c@, t);
}

} // verus!
