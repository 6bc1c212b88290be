use chat_core::channel::{ChannelOwnerInfo, ChannelSession};
use chat_core::chat::{Chat, Event};
use chat_core::group::{ChatItem, GroupOwnerInfo, GroupSession};
use chat_core::keys::{detrand, make_random_keys, new_chain_code};
use chat_core::prim::{Fr, PublicKey, SecretKey};
use chat_core::roster::{GroupMember, MemberRoster};

fn chain_for(pk: &PublicKey, prev: &Fr) -> Fr {
    new_chain_code(pk, prev).unwrap().1
}

fn initial_chain(pk: &PublicKey) -> Fr {
    detrand(pk, &Fr::zero())
}

struct Member {
    skey: SecretKey,
    pkey: PublicKey,
    chain: Fr,
}

/// An owner and `n` members, each member knowing the owner and the others.
fn group_setup(n: usize) -> (Chat, Vec<Chat>, PublicKey, Vec<Member>) {
    let group_id = String::from("GROUP_ID");
    let (owner_skey, owner_pkey) = make_random_keys();
    let owner_chain = chain_for(&owner_pkey, &initial_chain(&owner_pkey));
    let rekeying_chain = chain_for(&owner_pkey, &owner_chain);
    let members: Vec<Member> = (0..n)
        .map(|_| {
            let (skey, pkey) = make_random_keys();
            let chain = chain_for(&pkey, &owner_chain);
            Member { skey, pkey, chain }
        })
        .collect();
    let roster: Vec<GroupMember> = members
        .iter()
        .map(|m| GroupMember { pkey: m.pkey, chain: m.chain, epoch: 0 })
        .collect();
    let mut owner = Chat::new(owner_skey, owner_pkey);
    owner
        .add_owned_group(GroupOwnerInfo {
            group_id: group_id.clone(),
            owner_pkey,
            owner_skey,
            owner_chain,
            owner_rekeying_chain: rekeying_chain,
            members: roster.clone().into(),
            ignored_members: vec![],
            messages: vec![],
        })
        .unwrap();
    let sessions: Vec<Chat> = members
        .iter()
        .map(|m| {
            let mut view = vec![GroupMember { pkey: owner_pkey, chain: owner_chain, epoch: 0 }];
            view.extend(roster.iter().filter(|g| g.pkey != m.pkey).cloned());
            let mut chat = Chat::new(m.skey, m.pkey);
            chat.add_subscribed_group(GroupSession {
                group_id: group_id.clone(),
                owner_pkey,
                owner_chain,
                owner_rekeying_chain: rekeying_chain,
                my_pkey: m.pkey,
                my_skey: m.skey,
                my_chain: m.chain,
                members: MemberRoster::from(view),
                ignored_members: vec![],
                messages: vec![],
            })
            .unwrap();
            chat
        })
        .collect();
    (owner, sessions, owner_pkey, members)
}

#[test]
fn start_session() {
    let (chat_skey, chat_pkey) = make_random_keys();
    let session = Chat::new(chat_skey, chat_pkey);
    assert_eq!(session.chat_pkey, chat_pkey);
    assert!(session.owned_groups.is_empty());
    assert!(session.owned_channels.is_empty());
    assert!(session.subscribed_groups.is_empty());
    assert!(session.subscribed_channels.is_empty());
    assert!(session.my_utxos.is_empty());
}

#[test]
fn group() {
    const N: usize = 3;
    let group_id = String::from("GROUP_ID");
    let (mut session, mut members_sessions, owner_pkey, members) = group_setup(N);

    let output = session.new_message(group_id.clone(), vec![0u8, 1, 2, 3]).unwrap();
    let member_outputs: Vec<_> = members_sessions
        .iter()
        .map(|chat| chat.new_message(group_id.clone(), vec![0u8, 1, 2, 3]).unwrap())
        .collect();

    for member_chat in members_sessions.iter_mut() {
        match member_chat.on_message_received(&output) {
            Some(ChatItem::Text(sender, txt)) => {
                assert_eq!(sender, owner_pkey);
                assert_eq!(txt, vec![0u8, 1, 2, 3]);
            }
            other => panic!("unexpected {:?}", other),
        }
    }

    for (member_output, member) in member_outputs.iter().zip(members.iter()) {
        let before = session.events.len();
        assert!(session.on_message_received(member_output).is_none());
        assert_eq!(session.events.len(), before + 1);
        match session.events.last().unwrap() {
            Event::IncommingMessage { channel_id, sender, msg } => {
                assert_eq!(channel_id, &group_id);
                assert_eq!(*sender, member.pkey);
                assert_eq!(msg, &vec![0u8, 1, 2, 3]);
            }
            other => panic!("unexpected {:?}", other),
        }
    }
    assert_eq!(session.owned_groups[0].messages.len(), N);
}

#[test]
fn channel() {
    const N: usize = 3;
    let channel_id: String = String::from("CHANNEL_ID");
    let (owner_skey, owner_pkey) = make_random_keys();
    let (chat_skey, chat_pkey) = make_random_keys();
    let owner_chain = chain_for(&owner_pkey, &initial_chain(&owner_pkey));

    let mut session = Chat::new(chat_skey, chat_pkey);
    session
        .add_owned_channel(ChannelOwnerInfo {
            channel_id: channel_id.clone(),
            owner_pkey,
            owner_skey,
            owner_chain,
        })
        .unwrap();

    let mut members_sessions: Vec<Chat> = (0..N)
        .map(|_| {
            let (my_skey, my_pkey) = make_random_keys();
            let mut chat = Chat::new(my_skey, my_pkey);
            chat.add_subscribed_channel(ChannelSession {
                channel_id: channel_id.clone(),
                owner_pkey,
                owner_chain,
                messages: vec![],
            })
            .unwrap();
            chat
        })
        .collect();
    let output = session.new_message(channel_id.clone(), vec![0u8, 1, 2, 3]).unwrap();

    for member_chat in members_sessions.iter_mut() {
        let result = member_chat.on_message_received(&output).unwrap();
        let result = if let ChatItem::Text(_, result) = result {
            result
        } else {
            unreachable!()
        };
        assert_eq!(&result[0..4], &[0u8, 1, 2, 3]);
    }
}
