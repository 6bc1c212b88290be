use chat_core::api::{decode, decrypt, encode, encrypt_with, EnvelopeError, NetworkResponse};
use chat_core::channel::{output_id, ChannelInvite};
use chat_core::chat::{Chat, ChatState, Classification, Event, CHAT_TOPIC};
use chat_core::error::ChatError;
use chat_core::group::{ChatItem, GroupOwnerInfo, GroupSession};
use chat_core::keys::{
    chain_from_point, chain_from_seed, detrand, make_deterministic_keys, make_random_keys,
    new_chain_code, next_chain_code,
};
use chat_core::message::{
    decode_payload, encode_payload, make_chat_message, ChatMessageOutput, IncomingChatPayload,
    MessagePayload, SchnorrSig,
};
use chat_core::prim::{Fr, Pt, PublicKey, SecretKey};
use chat_core::onboard::{member_list_chunks, reassemble_members};
use chat_core::roster::{GroupMember, MemberRoster, PTS_PER_CHAIN_LIST};

fn chain_for(pk: &PublicKey, prev: &Fr) -> Fr {
    new_chain_code(pk, prev).unwrap().1
}

fn member(epoch: u64) -> (SecretKey, GroupMember) {
    let (skey, pkey) = make_random_keys();
    let chain = chain_for(&pkey, &Fr::zero());
    (skey, GroupMember { pkey, chain, epoch })
}

fn keys_of(ms: &[GroupMember]) -> Vec<PublicKey> {
    ms.iter().map(|m| m.pkey).collect()
}

fn owned_group(id: &str, skey: SecretKey, pkey: PublicKey, roster: Vec<GroupMember>) -> GroupOwnerInfo {
    let chain = chain_for(&pkey, &Fr::zero());
    GroupOwnerInfo {
        group_id: id.to_string(),
        owner_pkey: pkey,
        owner_skey: skey,
        owner_chain: chain,
        owner_rekeying_chain: chain_for(&pkey, &chain),
        members: roster.into(),
        ignored_members: vec![],
        messages: vec![],
    }
}

fn session_for(g: &GroupOwnerInfo, skey: SecretKey, me: &GroupMember, others: &[GroupMember]) -> GroupSession {
    let mut view = vec![GroupMember { pkey: g.owner_pkey, chain: g.owner_chain, epoch: 0 }];
    view.extend(others.iter().filter(|m| m.pkey != me.pkey).cloned());
    GroupSession {
        group_id: g.group_id.clone(),
        owner_pkey: g.owner_pkey,
        owner_chain: g.owner_chain,
        owner_rekeying_chain: g.owner_rekeying_chain,
        my_pkey: me.pkey,
        my_skey: skey,
        my_chain: me.chain,
        members: view.into(),
        ignored_members: vec![],
        messages: vec![],
    }
}

#[test]
fn channel_happy_path_records_utxo() {
    let (skey, pkey) = make_random_keys();
    let mut owner = Chat::new(skey, pkey);
    let invite = owner.create_channel("c1".to_string()).unwrap();
    let text = invite.to_base64();
    let mut subs: Vec<Chat> = (0..3)
        .map(|_| {
            let (s, p) = make_random_keys();
            let mut c = Chat::new(s, p);
            let inv = ChannelInvite::try_from_base64(&text).unwrap();
            c.join_channel("c1".to_string(), inv).unwrap();
            c
        })
        .collect();
    let out = owner.new_message("c1".to_string(), vec![0, 1, 2, 3]).unwrap();
    for s in subs.iter_mut() {
        match s.on_message_received(&out) {
            Some(ChatItem::Text(sender, t)) => {
                assert_eq!(sender, invite.owner_pkey);
                assert_eq!(t, vec![0, 1, 2, 3]);
            }
            other => panic!("unexpected {:?}", other),
        }
        assert_eq!(s.subscribed_channels[0].messages.len(), 1);
    }
    assert!(matches!(owner.classify(&out), Classification::OwnedChannel(0)));
    owner.process_incomming(out.clone());
    assert_eq!(owner.my_utxos.len(), 1);
    assert_eq!(owner.my_utxos[0].id, output_id(&out));
    assert_eq!(owner.my_utxos[0].created, out.created);
    assert!(owner.events.is_empty());
}

#[test]
fn channel_rejects_output_from_other_writer() {
    let (skey, pkey) = make_random_keys();
    let mut owner = Chat::new(skey, pkey);
    let invite = owner.create_channel("c1".to_string()).unwrap();
    // someone who learned the invite forges a post on the channel's chain
    let (fs, fp) = make_random_keys();
    let forged = make_chat_message(
        &invite.owner_pkey,
        &invite.owner_chain,
        &fs,
        &fp,
        &chain_for(&fp, &Fr::zero()),
        &IncomingChatPayload::PlainText(vec![9]),
        &detrand(&fp, &Fr::zero()),
        &detrand(&fp, &invite.owner_chain),
        7,
        11,
    )
    .unwrap();
    assert!(matches!(owner.classify(&forged), Classification::OwnedChannel(0)));
    assert!(owner.on_message_received(&forged).is_none());
    assert!(owner.my_utxos.is_empty());
}

#[test]
fn channel_subscriber_cannot_send() {
    let (skey, pkey) = make_random_keys();
    let mut owner = Chat::new(skey, pkey);
    let invite = owner.create_channel("c1".to_string()).unwrap();
    let (s, p) = make_random_keys();
    let mut sub = Chat::new(s, p);
    sub.join_channel("c1".to_string(), invite).unwrap();
    assert_eq!(
        sub.new_message("c1".to_string(), vec![1]).unwrap_err(),
        ChatError::InvalidGroup("c1".to_string())
    );
    assert_eq!(
        owner.new_message("nope".to_string(), vec![1]).unwrap_err(),
        ChatError::InvalidGroup("nope".to_string())
    );
}

#[test]
fn duplicate_ids_are_refused_across_collections() {
    let (skey, pkey) = make_random_keys();
    let mut chat = Chat::new(skey, pkey);
    let invite = chat.create_channel("x".to_string()).unwrap();
    assert_eq!(chat.create_channel("x".to_string()).unwrap_err(), ChatError::DuplicateID);
    assert_eq!(chat.join_channel("x".to_string(), invite).unwrap_err(), ChatError::DuplicateID);
    let g = owned_group("x", skey, pkey, vec![]);
    assert_eq!(chat.add_owned_group(g.clone()).unwrap_err(), ChatError::DuplicateID);
    let (ms, m) = member(0);
    let sess = session_for(&g, ms, &m, &[]);
    assert_eq!(chat.add_subscribed_group(sess).unwrap_err(), ChatError::DuplicateID);
    assert_eq!(chat.owned_channels.len(), 1);
    chat.remove_owned_channel("x".to_string());
    assert!(chat.owned_channels.is_empty());
    assert!(chat.add_owned_group(g).is_ok());
}

#[test]
fn ignored_sender_is_not_surfaced() {
    let (os, op) = make_random_keys();
    let (s1, m1) = member(0);
    let (s2, m2) = member(0);
    let g = owned_group("g", os, op, vec![m1, m2]);
    let mut owner = Chat::new(os, op);
    owner.add_owned_group(g.clone()).unwrap();
    let mut c1 = Chat::new(s1, m1.pkey);
    c1.add_subscribed_group(session_for(&g, s1, &m1, &[m1, m2])).unwrap();
    let mut c2 = Chat::new(s2, m2.pkey);
    c2.add_subscribed_group(session_for(&g, s2, &m2, &[m1, m2])).unwrap();

    owner.add_ignored_member("g".to_string(), m2.pkey);
    owner.add_ignored_member("g".to_string(), m2.pkey);
    assert_eq!(owner.owned_groups[0].ignored_members.len(), 1);
    let from2 = c2.new_message("g".to_string(), vec![5]).unwrap();
    assert!(owner.on_message_received(&from2).is_none());
    assert!(owner.events.is_empty());
    assert!(owner.owned_groups[0].messages.is_empty());
    let from1 = c1.new_message("g".to_string(), vec![6]).unwrap();
    owner.on_message_received(&from1);
    assert_eq!(owner.events.len(), 1);

    owner.remove_ignored_member("g".to_string(), m2.pkey);
    assert!(owner.owned_groups[0].ignored_members.is_empty());
    owner.on_message_received(&from2);
    assert_eq!(owner.events.len(), 2);

    c1.add_ignored_member("g".to_string(), m2.pkey);
    assert!(c1.on_message_received(&from2).is_none());
}

#[test]
fn own_messages_are_not_surfaced() {
    let (os, op) = make_random_keys();
    let (s1, m1) = member(0);
    let g = owned_group("g", os, op, vec![m1]);
    let mut owner = Chat::new(os, op);
    owner.add_owned_group(g.clone()).unwrap();
    let mut c1 = Chat::new(s1, m1.pkey);
    // a member whose roster lists itself still does not surface its own text
    c1.add_subscribed_group(session_for(&g, s1, &m1, &[])).unwrap();
    c1.subscribed_groups[0].members.0.push(m1);
    let mine = c1.new_message("g".to_string(), vec![1, 2]).unwrap();
    assert!(c1.on_message_received(&mine).is_none());
    let owners = owner.new_message("g".to_string(), vec![3]).unwrap();
    assert!(owner.on_message_received(&owners).is_none());
    assert!(owner.events.is_empty());
}

#[test]
fn eviction_rekeys_remaining_members() {
    let (os, op) = make_random_keys();
    let (s1, m1) = member(0);
    let (s2, m2) = member(0);
    let (s3, m3) = member(0);
    let all = [m1, m2, m3];
    let g = owned_group("g", os, op, all.to_vec());
    let mut owner = Chat::new(os, op);
    owner.add_owned_group(g.clone()).unwrap();
    let mut c1 = Chat::new(s1, m1.pkey);
    c1.add_subscribed_group(session_for(&g, s1, &m1, &all)).unwrap();
    let mut c2 = Chat::new(s2, m2.pkey);
    c2.add_subscribed_group(session_for(&g, s2, &m2, &all)).unwrap();
    let mut c3 = Chat::new(s3, m3.pkey);
    c3.add_subscribed_group(session_for(&g, s3, &m3, &all)).unwrap();
    let old_from2 = c2.new_message("g".to_string(), vec![4]).unwrap();

    owner.evict_members("g".to_string(), vec![m2.pkey]).unwrap();
    assert_eq!(keys_of(&owner.owned_groups[0].members.0), vec![m1.pkey, m3.pkey]);
    let outs = match owner.events.last().unwrap() {
        Event::SendTransaction { outputs } => outputs.clone(),
        other => panic!("unexpected {:?}", other),
    };
    assert_eq!(outs.len(), 1);
    let new_chain = owner.owned_groups[0].owner_chain;
    assert!(new_chain != g.owner_chain);
    // the owner ignores its own rekeying
    assert!(owner.on_message_received(&outs[0]).is_none());

    // both remaining members recover the owner's new chain from their own point
    for c in [&mut c1, &mut c3] {
        match c.on_message_received(&outs[0]) {
            Some(ChatItem::Rekeying(sender, chain)) => {
                assert_eq!(sender, op);
                assert_eq!(chain, new_chain);
            }
            other => panic!("unexpected {:?}", other),
        }
        assert_eq!(c.subscribed_groups[0].owner_chain, new_chain);
    }
    // the evicted member's own point is not in the list
    assert!(c2.on_message_received(&outs[0]).is_none());

    let post = owner.new_message("g".to_string(), vec![8]).unwrap();
    for c in [&mut c1, &mut c3] {
        match c.on_message_received(&post) {
            Some(ChatItem::Text(sender, t)) => {
                assert_eq!(sender, op);
                assert_eq!(t, vec![8]);
            }
            other => panic!("unexpected {:?}", other),
        }
    }
    let from1 = c1.new_message("g".to_string(), vec![9]).unwrap();
    match c3.on_message_received(&from1) {
        Some(ChatItem::Text(sender, t)) => {
            assert_eq!(sender, m1.pkey);
            assert_eq!(t, vec![9]);
        }
        other => panic!("unexpected {:?}", other),
    }
    // the evicted member no longer recognises the group's traffic
    assert!(matches!(c2.classify(&post), Classification::NotOurs));
    // and its earlier message no longer reaches the owner's roster
    let before = owner.events.len();
    owner.on_message_received(&old_from2);
    assert_eq!(owner.events.len(), before);
}

#[test]
fn stale_rekeying_is_ignored() {
    let (ss, sender) = member(0);
    let (ms, me) = member(0);
    let owner_chain = chain_for(&sender.pkey, &Fr::zero());
    let roster_of_sender = MemberRoster::from(vec![me]);
    let seed1 = chain_for(&me.pkey, &Fr::zero());
    let seed2 = chain_for(&me.pkey, &seed1);
    let older = roster_of_sender
        .rekeying_messages_with(&sender.pkey, &owner_chain, &ss, &sender.pkey, &seed1, 1, 10)
        .unwrap();
    let newer = roster_of_sender
        .rekeying_messages_with(&sender.pkey, &owner_chain, &ss, &sender.pkey, &seed2, 2, 20)
        .unwrap();
    let mut mine = MemberRoster::from(vec![sender]);
    let pts = |o: &ChatMessageOutput| match &o.payload {
        MessagePayload::EncryptedChainCodes(p) => p.clone(),
        _ => panic!("not a rekeying"),
    };
    let r2 = mine
        .process_rekeying_message(&ms, &sender.pkey, &owner_chain, &newer[0], &pts(&newer[0]))
        .unwrap();
    assert_eq!(r2.0, sender.pkey);
    assert_eq!(r2.1, chain_from_seed(&seed2));
    assert!(mine
        .process_rekeying_message(&ms, &sender.pkey, &owner_chain, &older[0], &pts(&older[0]))
        .is_none());
    assert_eq!(mine.0.len(), 1);
    assert_eq!(mine.0[0].chain, chain_from_seed(&seed2));
    assert_eq!(mine.0[0].epoch, 20);
    // the same output again is no newer than the epoch it set
    assert!(mine
        .process_rekeying_message(&ms, &sender.pkey, &owner_chain, &newer[0], &pts(&newer[0]))
        .is_none());
}

#[test]
fn rekeying_outputs_are_chunked() {
    let (ss, sp) = make_random_keys();
    let chain = chain_for(&sp, &Fr::zero());
    let members: Vec<GroupMember> = (0..45).map(|_| member(0).1).collect();
    let roster = MemberRoster::from(members.clone());
    let seed = chain_for(&sp, &chain);
    let outs = roster
        .rekeying_messages_with(&sp, &chain, &ss, &sp, &seed, 99, 5)
        .unwrap();
    assert_eq!(PTS_PER_CHAIN_LIST, 20);
    assert_eq!(outs.len(), 3);
    let sizes: Vec<usize> = outs
        .iter()
        .map(|o| match &o.payload {
            MessagePayload::EncryptedChainCodes(p) => p.len(),
            _ => 0,
        })
        .collect();
    assert_eq!(sizes, vec![20, 20, 5]);
    for (i, o) in outs.iter().enumerate() {
        assert_eq!(o.sequence, 99);
        assert_eq!(o.msg_nbr, i as u32);
        assert_eq!(o.msg_tot, 3);
        assert_eq!(o.created, 5);
        assert!(o.verify());
    }
    let empty = MemberRoster::from(vec![]);
    assert!(empty.rekeying_messages_with(&sp, &chain, &ss, &sp, &seed, 1, 1).unwrap().is_empty());
    let exact = MemberRoster::from(members[..40].to_vec());
    assert_eq!(exact.rekeying_messages_with(&sp, &chain, &ss, &sp, &seed, 1, 1).unwrap().len(), 2);
    let bad = MemberRoster::from(vec![GroupMember { pkey: Pt { bytes: [0xff; 32] }, chain, epoch: 0 }]);
    assert!(bad.rekeying_messages_with(&sp, &chain, &ss, &sp, &seed, 1, 1).is_none());
}

#[test]
fn onboarding_list_is_authoritative_and_deduplicated() {
    let (_, a) = member(1);
    let (_, b) = member(1);
    let (_, c) = member(1);
    let mut roster = MemberRoster::from(vec![a, b]);
    let a2 = chain_for(&a.pkey, &a.chain);
    let c2 = chain_for(&c.pkey, &c.chain);
    roster.add_members_to_roster(&vec![(c.pkey, c.chain), (a.pkey, a2), (c.pkey, c2)], 7);
    assert_eq!(keys_of(&roster.0), vec![c.pkey, a.pkey, b.pkey]);
    assert_eq!(roster.0[0].chain, c.chain);
    assert_eq!(roster.0[0].epoch, 7);
    assert_eq!(roster.0[1].chain, a2);
    assert_eq!(roster.0[1].epoch, 7);
    assert_eq!(roster.0[2].epoch, 1);
}

#[test]
fn evict_keeps_order() {
    let ms: Vec<GroupMember> = (0..4).map(|_| member(0).1).collect();
    let mut roster = MemberRoster::from(ms.clone());
    roster.evict(&vec![ms[1].pkey, ms[3].pkey]);
    assert_eq!(keys_of(&roster.0), vec![ms[0].pkey, ms[2].pkey]);
    assert_eq!(roster.find_member(&ms[2].pkey).unwrap().chain, ms[2].chain);
    assert!(roster.find_member(&ms[1].pkey).is_none());
}

#[test]
fn invite_round_trip_and_tamper() {
    let (_, pkey) = make_random_keys();
    let invite = ChannelInvite { owner_pkey: pkey, owner_chain: chain_for(&pkey, &Fr::zero()) };
    let bytes = invite.to_bytes();
    assert_eq!(bytes.len(), 64);
    assert_eq!(ChannelInvite::try_from_bytes(&bytes).unwrap(), invite);
    assert_eq!(ChannelInvite::try_from_base64(&invite.to_base64()).unwrap(), invite);
    for i in [0usize, 5, 31, 32, 40, 63] {
        let mut t = bytes.clone();
        t[i] ^= 0x01;
        match ChannelInvite::try_from_bytes(&t) {
            Ok(other) => assert!(other != invite),
            Err(e) => assert!(e == ChatError::InvalidPoint || e == ChatError::InvalidScalar),
        }
    }
    let mut high = bytes.clone();
    high[63] = 0xff;
    assert_eq!(ChannelInvite::try_from_bytes(&high).unwrap_err(), ChatError::InvalidScalar);
    assert_eq!(ChannelInvite::try_from_bytes(&bytes[..63].to_vec()).unwrap_err(), ChatError::InvalidLength(63));
    assert_eq!(ChannelInvite::try_from_base64("***").unwrap_err(), ChatError::InvalidBase64);
    let mut badpt = bytes.clone();
    for b in badpt[..32].iter_mut() {
        *b = 0xff;
    }
    assert_eq!(ChannelInvite::try_from_bytes(&badpt).unwrap_err(), ChatError::InvalidPoint);
}

#[test]
fn signature_covers_every_wire_field() {
    let (os, op) = make_random_keys();
    let chain = chain_for(&op, &Fr::zero());
    let m = make_chat_message(
        &op,
        &chain,
        &os,
        &op,
        &chain,
        &IncomingChatPayload::PlainText(vec![1, 2, 3]),
        &detrand(&op, &chain),
        &chain_for(&op, &chain),
        3,
        4,
    )
    .unwrap();
    assert!(m.verify());
    assert_eq!(m.wire_bytes().len(), 216 + 1 + 4);
    let mut t = m.clone();
    t.sequence += 1;
    assert!(!t.verify());
    let mut t = m.clone();
    t.created += 1;
    assert!(!t.verify());
    let mut t = m.clone();
    t.msg_tot = 2;
    assert!(!t.verify());
    let mut t = m.clone();
    t.recipient_cloaking_hint.bytes[0] ^= 1;
    assert!(!t.verify());
    let mut t = m.clone();
    if let MessagePayload::EncryptedMessage(c) = &mut t.payload {
        c[0] ^= 1;
    }
    assert!(!t.verify());
    assert_ne!(t.wire_bytes(), m.wire_bytes());
}

#[test]
fn payload_codec() {
    let (_, p) = make_random_keys();
    let f = chain_for(&p, &Fr::zero());
    let cases = vec![
        IncomingChatPayload::PlainText(vec![]),
        IncomingChatPayload::PlainText(vec![7, 8]),
        IncomingChatPayload::NewMembers(vec![(p, f)], SchnorrSig { r: p, s: f }),
        IncomingChatPayload::Evictions(vec![p, p]),
    ];
    for c in cases {
        let b = encode_payload(&c);
        let d = decode_payload(&b).unwrap();
        assert_eq!(encode_payload(&d), b);
    }
    assert_eq!(encode_payload(&IncomingChatPayload::PlainText(vec![7, 8])), vec![0, 7, 8]);
    assert_eq!(decode_payload(&vec![]).unwrap_err(), ChatError::DecodeError);
    assert_eq!(decode_payload(&vec![9, 1]).unwrap_err(), ChatError::DecodeError);
    assert_eq!(decode_payload(&vec![2, 1, 2, 3, 4]).unwrap_err(), ChatError::DecodeError);
    assert_eq!(decode_payload(&vec![1; 33]).unwrap_err(), ChatError::DecodeError);
    // a rekeying is never accepted as text
    let rk = encode_payload(&IncomingChatPayload::Rekeying(f));
    assert_eq!(rk.len(), 33);
    assert_eq!(decode_payload(&rk).unwrap_err(), ChatError::DecodeError);
}

#[test]
fn decryption_recovers_text_and_sender() {
    let (os, op) = make_random_keys();
    let (as_, a) = member(0);
    let chain = chain_for(&op, &Fr::zero());
    let m = make_chat_message(
        &op,
        &chain,
        &as_,
        &a.pkey,
        &a.chain,
        &IncomingChatPayload::PlainText(b"hello".to_vec()),
        &detrand(&a.pkey, &chain),
        &detrand(&op, &a.chain),
        1,
        2,
    )
    .unwrap();
    let (_, b) = member(0);
    let roster = MemberRoster::from(vec![b, a]);
    let ctxt = match &m.payload {
        MessagePayload::EncryptedMessage(c) => c.clone(),
        _ => panic!(),
    };
    assert_ne!(ctxt[1..].to_vec(), b"hello".to_vec());
    match roster.decrypt_chat_message(&op, &chain, &m, &ctxt) {
        Some((sender, IncomingChatPayload::PlainText(t))) => {
            assert_eq!(sender, a.pkey);
            assert_eq!(t, b"hello".to_vec());
        }
        other => panic!("unexpected {:?}", other),
    }
    assert_eq!(roster.find_sender_chain(&m).unwrap().pkey, a.pkey);
    let _ = os;
    let strangers = MemberRoster::from(vec![b]);
    assert!(strangers.decrypt_chat_message(&op, &chain, &m, &ctxt).is_none());
}

#[test]
fn key_derivation_is_deterministic() {
    let (_, p) = make_random_keys();
    let (_, q) = make_random_keys();
    let c = Fr::zero();
    assert_eq!(detrand(&p, &c), detrand(&p, &c));
    assert!(detrand(&p, &c) != detrand(&q, &c));
    let seed = chain_for(&p, &c);
    assert_eq!(next_chain_code(&p, &c, &seed), next_chain_code(&p, &c, &seed));
    assert!(next_chain_code(&p, &c, &seed).unwrap() != c);
    assert!(next_chain_code(&Pt { bytes: [0xff; 32] }, &c, &seed).is_none());
    let (s1, p1) = make_deterministic_keys(&b"abc".to_vec());
    let (s2, p2) = make_deterministic_keys(&b"abc".to_vec());
    assert_eq!(s1, s2);
    assert_eq!(p1, p2);
    assert!(p1 != make_deterministic_keys(&b"abd".to_vec()).1);
    // a derived chain is below the group order: its top four bits are clear
    let ch = chain_from_point(&p);
    assert_eq!(ch.bytes[31] >> 4, 0);
    assert!(ch != chain_from_point(&q));
}

#[test]
fn envelope_round_trip_and_errors() {
    let token = [7u8; 16];
    let json = b"{\"type\":\"version_info\"}".to_vec();
    let text = encode(&token, &json);
    assert_eq!(decode(&token, &text).unwrap(), json);
    assert_eq!(decode(&[8u8; 16], &text).unwrap_err(), EnvelopeError::NotJson);
    assert_eq!(decode(&token, "@@@").unwrap_err(), EnvelopeError::Base64);
    assert_eq!(decode(&token, "AAAA").unwrap_err(), EnvelopeError::TooShort);
    let iv = [3u8; 16];
    let c = encrypt_with(&token, &iv, &json);
    assert_eq!(c[..16].to_vec(), iv.to_vec());
    assert_ne!(c[16..].to_vec(), json);
    assert_eq!(decrypt(&token, &c).unwrap(), json);
    assert!(decrypt(&token, &vec![0; 15]).is_none());
}

#[test]
fn names_and_constants() {
    assert_eq!(ChatState::Idle.name(), "Idle");
    assert_eq!(ChatState::HandlingOwnedChannel.name(), "HandlingOwnedChannel");
    assert_eq!(CHAT_TOPIC, "chat");
    assert_eq!(NetworkResponse::SentUnicast.kind(), "sent_unicast");
    assert_eq!(NetworkResponse::Error { error: "x".to_string() }.kind(), "error");
}

#[test]
fn not_ours_changes_nothing() {
    let (os, op) = make_random_keys();
    let mut a = Chat::new(os, op);
    a.create_channel("c".to_string()).unwrap();
    let (bs, bp) = make_random_keys();
    let mut b = Chat::new(bs, bp);
    b.create_channel("d".to_string()).unwrap();
    let out = b.new_message("d".to_string(), vec![1]).unwrap();
    assert!(matches!(a.classify(&out), Classification::NotOurs));
    assert!(a.on_message_received(&out).is_none());
    assert!(a.my_utxos.is_empty());
    let mut forged = out.clone();
    forged.recipient_keying_hint = Pt { bytes: [0xff; 32] };
    assert!(matches!(b.classify(&forged), Classification::NotOurs));
}

#[test]
fn onboarding_chunks_round_trip() {
    let (os, op) = make_random_keys();
    let chain = chain_for(&op, &Fr::zero());
    let rk = chain_for(&op, &chain);
    let pairs: Vec<(PublicKey, Fr)> = (0..25).map(|_| {
        let m = member(0).1;
        (m.pkey, m.chain)
    }).collect();
    let (info, conts) = member_list_chunks(&os, &op, &chain, &rk, &chain, &pairs).unwrap();
    assert_eq!(info.num_members, 25);
    assert_eq!(info.members.len(), 10);
    assert_eq!(conts.len(), 2);
    assert_eq!(conts[0].member_index, 10);
    assert_eq!(conts[0].members.len(), 12);
    assert_eq!(conts[1].member_index, 22);
    assert_eq!(conts[1].members.len(), 3);
    assert!(info.verify());
    assert!(conts[1].verify(&op));
    let all = reassemble_members(&info, &conts).unwrap();
    assert_eq!(all, pairs);
    // a missing, reordered or altered chunk is refused
    assert!(reassemble_members(&info, &conts[..1].to_vec()).is_none());
    assert!(reassemble_members(&info, &vec![conts[1].clone(), conts[0].clone()]).is_none());
    let mut bad = conts.clone();
    bad[1].members[0].1 = chain;
    assert!(reassemble_members(&info, &bad).is_none());
    let mut forged = info.clone();
    forged.rekeying_chain = chain;
    assert!(!forged.verify());
    let (small, none) = member_list_chunks(&os, &op, &chain, &rk, &chain, &pairs[..4].to_vec()).unwrap();
    assert_eq!(small.members.len(), 4);
    assert!(none.is_empty());
    assert_eq!(reassemble_members(&small, &none).unwrap(), pairs[..4].to_vec());
}

#[test]
fn onboarding_message_updates_subscriber_roster() {
    let (os, op) = make_random_keys();
    let (s1, m1) = member(0);
    let mut g = owned_group("g", os, op, vec![m1]);
    let sess = session_for(&g, s1, &m1, &[]);
    let (_, m3) = member(0);
    let out = g
        .add_members_with(vec![(m3.pkey, m3.chain)], &detrand(&op, &m3.chain), &detrand(&m3.pkey, &g.owner_chain), 5, 30)
        .unwrap();
    assert_eq!(keys_of(&g.members.0), vec![m3.pkey, m1.pkey]);
    let mut c1 = Chat::new(s1, m1.pkey);
    c1.add_subscribed_group(sess).unwrap();
    assert!(matches!(c1.classify(&out), Classification::SubscribedGroup(0, _)));
    assert!(c1.on_message_received(&out).is_none());
    let roster = &c1.subscribed_groups[0].members.0;
    assert_eq!(roster[0].pkey, m3.pkey);
    assert_eq!(roster[0].epoch, 30);
}

#[test]
fn invalid_keys_and_unknown_groups_are_reported() {
    let (os, op) = make_random_keys();
    let mut chat = Chat::new(os, op);
    let bad = Pt { bytes: [0xff; 32] };
    let (_, m1) = member(0);
    let mut g = owned_group("bad", os, op, vec![m1]);
    g.owner_pkey = bad;
    chat.add_owned_group(g).unwrap();
    assert_eq!(chat.new_message("bad".to_string(), vec![1]).unwrap_err(), ChatError::InvalidPoint);
    assert_eq!(
        chat.evict_members("missing".to_string(), vec![m1.pkey]).unwrap_err(),
        ChatError::InvalidGroup("missing".to_string())
    );
    assert_eq!(chat.evict_members("bad".to_string(), vec![]).unwrap_err(), ChatError::InvalidPoint);
    assert_eq!(keys_of(&chat.owned_groups[0].members.0), vec![m1.pkey]);
    assert!(chat.events.is_empty());
}

#[test]
fn forged_onboarding_list_is_refused() {
    let (os, op) = make_random_keys();
    let (s1, m1) = member(0);
    let g = owned_group("g", os, op, vec![m1]);
    let (_, m3) = member(0);
    // a list signed with another key, delivered under the owner's chains
    let (xs, _) = make_random_keys();
    let mut forger = g.clone();
    forger.owner_skey = xs;
    let out = forger
        .add_members_with(vec![(m3.pkey, m3.chain)], &detrand(&op, &m3.chain), &detrand(&m3.pkey, &g.owner_chain), 5, 30)
        .unwrap();
    let mut c1 = Chat::new(s1, m1.pkey);
    c1.add_subscribed_group(session_for(&g, s1, &m1, &[])).unwrap();
    assert!(c1.on_message_received(&out).is_none());
    assert_eq!(keys_of(&c1.subscribed_groups[0].members.0), vec![op]);
}

#[test]
fn invitation_and_join() {
    let (os, op) = make_random_keys();
    let members: Vec<GroupMember> = (0..14).map(|_| member(0).1).collect();
    let g = owned_group("g", os, op, members.clone());
    let (ns, np) = make_random_keys();
    let my_chain = chain_for(&np, &g.owner_chain);
    let (info, conts) = g.invitation(&my_chain).unwrap();
    assert_eq!(info.num_members, 15);
    assert_eq!(conts.len(), 1);
    let sess = GroupSession::join("g".to_string(), ns, np, &info, &conts, 3).unwrap();
    assert_eq!(sess.owner_pkey, op);
    assert_eq!(sess.owner_chain, g.owner_chain);
    assert_eq!(sess.owner_rekeying_chain, g.owner_rekeying_chain);
    assert_eq!(sess.my_chain, my_chain);
    let mut expect = vec![op];
    expect.extend(keys_of(&members));
    assert_eq!(keys_of(&sess.members.0), expect);
    assert!(sess.members.0.iter().all(|m| m.epoch == 3));
    // the joined member reads the owner's posts
    let mut owner = Chat::new(os, op);
    owner.add_owned_group(g.clone()).unwrap();
    let mut me = Chat::new(ns, np);
    me.add_subscribed_group(sess).unwrap();
    let post = owner.new_message("g".to_string(), vec![1, 1]).unwrap();
    assert!(matches!(me.on_message_received(&post), Some(ChatItem::Text(_, _))));
    // a missing continuation is refused
    assert!(GroupSession::join("g".to_string(), ns, np, &info, &vec![], 3).is_none());
}
