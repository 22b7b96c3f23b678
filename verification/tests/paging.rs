use layer::client::api::enums;
use layer::client::api::types;
use layer::client::difference::{apply_difference, Difference};
use layer::client::input_message::Dialog;
use layer::client::pagination::{DialogIter, DialogPage, MessageIter, MessagePage, Pull, PAGE_SIZE};
use layer::client::participants::{
    admin_rights, banned_rights, channel_member, channel_of, chat_member, effective_limit,
    link_members, ChannelParticipant, ChatParticipant, MemberLink, ParticipantStatus,
};
use layer::client::pts::{GapAction, PtsState, State};
use layer::client::update::{IncomingMessage, Update};
use layer::codegen::grouper::{group_by_ns, group_types_by_ns};
use layer::codegen::metadata::{compute_recursive, defs_for_type, is_unused_flag, Metadata};
use layer::parser::parse_tl_file;
use layer::parser::tl::{Category, Definition};

fn empty_message(id: i32) -> enums::Message {
    enums::Message::Empty(types::MessageEmpty { id })
}

fn dialog(user: i64, top_message: i32) -> Dialog {
    Dialog {
        raw: enums::Dialog::Dialog(types::Dialog {
            peer: enums::Peer::User(types::PeerUser { user_id: user }),
            top_message,
            unread_count: 0,
        }),
        message: None,
        entity: None,
        chat: None,
    }
}

fn user(id: i64) -> enums::User {
    enums::User::User(types::User {
        id,
        access_hash: None,
        first_name: None,
        last_name: None,
        username: None,
        bot: false,
    })
}

fn schema(text: &str) -> Vec<Definition> {
    parse_tl_file(text).into_iter().map(|d| d.unwrap()).collect()
}

#[test]
fn dialogs_are_pulled_page_by_page() {
    let mut it = DialogIter::new();
    let first = DialogPage {
        offset_date: 0,
        offset_id: 0,
        offset_peer: enums::InputPeer::Empty,
        limit: PAGE_SIZE,
    };
    assert_eq!(it.next(), Pull::Fetch(first));
    let page: Vec<Dialog> = (0..PAGE_SIZE).map(|k| dialog(k as i64, 1000 - k)).collect();
    let peer = enums::InputPeer::User(types::InputPeerUser { user_id: 99, access_hash: 5 });
    it.on_page(page, Some(peer));
    for k in 0..PAGE_SIZE {
        assert_eq!(it.next(), Pull::Item(dialog(k as i64, 1000 - k)));
    }
    let second = DialogPage { offset_date: 0, offset_id: 901, offset_peer: peer, limit: PAGE_SIZE };
    assert_eq!(it.next(), Pull::Fetch(second));
    it.on_page(vec![dialog(500, 7)], None);
    assert_eq!(it.next(), Pull::Item(dialog(500, 7)));
    assert_eq!(it.next(), Pull::Done);
    assert_eq!(it.next(), Pull::Done);
}

#[test]
fn an_empty_page_ends_the_list() {
    let mut it = DialogIter::new();
    it.on_page(Vec::new(), None);
    assert_eq!(it.next(), Pull::Done);
}

#[test]
fn history_is_pulled_page_by_page() {
    let peer = enums::Peer::User(types::PeerUser { user_id: 3 });
    let mut it = MessageIter::new(peer);
    assert_eq!(it.next(), Pull::Fetch(MessagePage { peer, offset_id: 0, limit: PAGE_SIZE }));
    let page: Vec<IncomingMessage> =
        (0..PAGE_SIZE).map(|k| IncomingMessage::from_raw(empty_message(500 - k))).collect();
    it.on_page(page);
    for k in 0..PAGE_SIZE {
        match it.next() {
            Pull::Item(m) => assert_eq!(m.id(), 500 - k),
            other => panic!("{:?}", other),
        }
    }
    assert_eq!(it.next(), Pull::Fetch(MessagePage { peer, offset_id: 401, limit: PAGE_SIZE }));
    it.on_page(vec![IncomingMessage::from_raw(empty_message(400))]);
    assert!(matches!(it.next(), Pull::Item(_)));
    assert_eq!(it.next(), Pull::Done);
}

#[test]
fn members_and_their_standing() {
    let peer = enums::Peer::User(types::PeerUser { user_id: 8 });
    let chat = enums::Peer::Chat(types::PeerChat { chat_id: 8 });
    assert_eq!(
        channel_member(&ChannelParticipant::ChannelParticipant { user_id: 1 }),
        (1, ParticipantStatus::Member)
    );
    assert_eq!(
        channel_member(&ChannelParticipant::ParticipantSelf { user_id: 2 }),
        (2, ParticipantStatus::Member)
    );
    assert_eq!(channel_member(&ChannelParticipant::Creator { user_id: 3 }), (3, ParticipantStatus::Creator));
    assert_eq!(channel_member(&ChannelParticipant::Admin { user_id: 4 }), (4, ParticipantStatus::Admin));
    assert_eq!(channel_member(&ChannelParticipant::Banned { peer }), (8, ParticipantStatus::Banned));
    assert_eq!(channel_member(&ChannelParticipant::Left { peer }), (8, ParticipantStatus::Left));
    assert_eq!(channel_member(&ChannelParticipant::Left { peer: chat }), (0, ParticipantStatus::Left));
    assert_eq!(chat_member(&ChatParticipant::ChatParticipant { user_id: 5 }), (5, ParticipantStatus::Member));
    assert_eq!(chat_member(&ChatParticipant::Creator { user_id: 6 }), (6, ParticipantStatus::Creator));
    assert_eq!(chat_member(&ChatParticipant::Admin { user_id: 7 }), (7, ParticipantStatus::Admin));
}

#[test]
fn member_limit() {
    assert_eq!(effective_limit(0), 200);
    assert_eq!(effective_limit(-5), 200);
    assert_eq!(effective_limit(1), 1);
    assert_eq!(effective_limit(5000), 5000);
}

#[test]
fn members_without_a_user_are_left_out() {
    let users = vec![user(10), enums::User::Empty(types::UserEmpty { id: 11 }), user(12)];
    let members = vec![
        (12, ParticipantStatus::Admin),
        (11, ParticipantStatus::Member),
        (99, ParticipantStatus::Member),
        (10, ParticipantStatus::Creator),
    ];
    assert_eq!(
        link_members(&members, &users),
        vec![
            MemberLink { user: 2, status: ParticipantStatus::Admin },
            MemberLink { user: 0, status: ParticipantStatus::Creator },
        ]
    );
}

#[test]
fn difference_moves_the_counters() {
    let start = PtsState { pts: 10, qts: 2, date: 100, seq: 1 };
    let mut cache = layer::client::peer_cache::PeerCache::new();

    let mut s = start;
    let (events, next) = apply_difference(&mut s, &mut cache, Difference::Empty { date: 200, seq: 4 });
    assert!(events.is_empty());
    assert_eq!(next, None);
    assert_eq!(s, PtsState { pts: 10, qts: 2, date: 200, seq: 4 });

    let mut s = start;
    let state = State { pts: 20, qts: 3, date: 300, seq: 5, unread_count: 9 };
    let (events, next) = apply_difference(
        &mut s,
        &mut cache,
        Difference::Difference {
            users: vec![enums::User::User(types::User {
                id: 31,
                access_hash: Some(3100),
                first_name: None,
                last_name: None,
                username: None,
                bot: false,
            })],
            chats: Vec::new(),
            new_messages: vec![empty_message(1), empty_message(2)],
            other_updates: vec![enums::Update::DeleteMessages(types::UpdateDeleteMessages {
                messages: vec![5, 6],
                pts: 20,
                pts_count: 2,
            })],
            state,
        },
    );
    assert_eq!(events.len(), 3);
    match (&events[0], &events[1], &events[2]) {
        (Update::NewMessage(a), Update::NewMessage(b), Update::MessageDeleted(d)) => {
            assert_eq!(a.id(), 1);
            assert_eq!(b.id(), 2);
            assert_eq!(d.message_ids, vec![5, 6]);
        }
        other => panic!("{:?}", other),
    }
    assert_eq!(next, None);
    assert_eq!(s, PtsState { pts: 20, qts: 3, date: 300, seq: 5 });

    let mut s = start;
    assert_eq!(cache.users.get(&31), Some(&3100));
    let (events, next) = apply_difference(
        &mut s,
        &mut cache,
        Difference::Slice {
            users: vec![user(32)],
            chats: Vec::new(),
            new_messages: vec![empty_message(3)],
            other_updates: Vec::new(),
            intermediate_state: state,
        },
    );
    assert_eq!(events.len(), 1);
    assert_eq!(next, Some(GapAction::FetchDifference { pts: 20, qts: 3, date: 300 }));
    assert_eq!(s, PtsState { pts: 20, qts: 3, date: 300, seq: 5 });

    let mut s = start;
    let (events, next) = apply_difference(&mut s, &mut cache, Difference::TooLong { pts: 77 });
    assert!(events.is_empty());
    assert_eq!(next, Some(GapAction::SyncState));
    assert_eq!(s, PtsState { pts: 77, qts: 2, date: 100, seq: 1 });
}

const SCHEMA: &str = "\
zeta#1 = Z;
alpha#2 = A;
auth.sentCode#3 = auth.SentCode;
auth.authorization#4 = auth.Authorization;
alpha2#5 = A;
box#6 = Box;
---functions---
help.getConfig#7 = Config;
auth.signIn#8 = auth.Authorization;
ping#9 = Pong;
";

#[test]
fn definitions_are_grouped_by_namespace() {
    let defs = schema(SCHEMA);
    let groups = group_by_ns(&defs, Category::Types);
    let shape: Vec<(String, Vec<&str>)> = groups
        .iter()
        .map(|g| {
            (
                String::from_utf8(g.ns.clone()).unwrap(),
                g.members.iter().map(|&m| defs[m].name.as_str()).collect(),
            )
        })
        .collect();
    assert_eq!(
        shape,
        vec![
            (String::new(), vec!["alpha", "alpha2", "box", "zeta"]),
            ("auth".to_owned(), vec!["authorization", "sentCode"]),
        ]
    );
    let groups = group_by_ns(&defs, Category::Functions);
    let shape: Vec<(String, Vec<&str>)> = groups
        .iter()
        .map(|g| {
            (
                String::from_utf8(g.ns.clone()).unwrap(),
                g.members.iter().map(|&m| defs[m].name.as_str()).collect(),
            )
        })
        .collect();
    assert_eq!(
        shape,
        vec![
            (String::new(), vec!["ping"]),
            ("auth".to_owned(), vec!["signIn"]),
            ("help".to_owned(), vec!["getConfig"]),
        ]
    );
}

#[test]
fn types_are_grouped_once_each() {
    let defs = schema(SCHEMA);
    let groups = group_types_by_ns(&defs);
    let shape: Vec<(String, Vec<&str>)> = groups
        .iter()
        .map(|g| {
            (
                String::from_utf8(g.ns.clone()).unwrap(),
                g.members.iter().map(|&m| defs[m].ty.name.as_str()).collect(),
            )
        })
        .collect();
    assert_eq!(
        shape,
        vec![
            (String::new(), vec!["A", "Box", "Z"]),
            ("auth".to_owned(), vec!["Authorization", "SentCode"]),
        ]
    );
}

#[test]
fn constructors_of_a_type() {
    let defs = schema(SCHEMA);
    assert_eq!(defs_for_type(&defs, &defs[1].ty), vec![1, 4]);
    assert_eq!(defs_for_type(&defs, &defs[0].ty), vec![0]);
    assert_eq!(defs_for_type(&defs, &defs[7].ty), vec![3]);
    assert_eq!(defs_for_type(&defs, &defs[8].ty), Vec::<usize>::new());
}

#[test]
fn flags_words_that_guard_nothing() {
    let defs = schema("a#1 flags:# x:flags.0?int = A;\nb#2 flags:# other:# y:flags.1?true z:int = B;");
    assert!(!is_unused_flag(&defs[0], 0));
    assert!(!is_unused_flag(&defs[0], 1));
    assert!(!is_unused_flag(&defs[1], 0));
    assert!(is_unused_flag(&defs[1], 1));
    assert!(!is_unused_flag(&defs[1], 3));
    assert!(!is_unused_flag(&defs[1], 9));
}

#[test]
fn recursion_through_fields() {
    let defs = schema(
        "\
textEmpty#1 = RichText;
textBold#2 text:RichText = RichText;
page#3 blocks:Vector<PageBlock> = Page;
pageBlock#4 flags:# inner:flags.0?PageBlock = PageBlock;
pageBlockList#5 items:Vector<PageBlock> = PageBlock;
leaf#6 n:int = Leaf;
pair#7 a:Leaf b:Leaf = Pair;
",
    );
    let expected = [false, true, false, true, false, false, false];
    let meta = Metadata::build(&defs);
    for (i, want) in expected.iter().enumerate() {
        assert_eq!(compute_recursive(&defs, i), *want, "definition {}", i);
        assert_eq!(meta.is_recursive(i), *want, "definition {}", i);
    }
    assert!(!meta.is_recursive(defs.len()));
}

#[test]
fn rights_of_administrators_and_banned_members() {
    let yes = admin_rights(true);
    assert!(yes.change_info && yes.post_messages && yes.edit_messages && yes.delete_messages);
    assert!(yes.ban_users && yes.invite_users && yes.pin_messages && yes.manage_call);
    assert!(!yes.add_admins && !yes.anonymous && !yes.other && !yes.manage_topics);
    assert!(!yes.post_stories && !yes.edit_stories && !yes.delete_stories);
    assert!(!yes.manage_direct_messages);
    let no = admin_rights(false);
    assert_eq!(
        no,
        types::ChatAdminRights {
            change_info: false,
            post_messages: false,
            edit_messages: false,
            delete_messages: false,
            ban_users: false,
            invite_users: false,
            pin_messages: false,
            add_admins: false,
            anonymous: false,
            manage_call: false,
            other: false,
            manage_topics: false,
            post_stories: false,
            edit_stories: false,
            delete_stories: false,
            manage_direct_messages: false,
        }
    );
    let ban = banned_rights(1700000000);
    assert_eq!(ban.until_date, 1700000000);
    assert!(ban.view_messages && ban.send_messages && ban.send_media && ban.send_stickers);
    assert!(ban.send_gifs && ban.send_games && ban.send_inline && ban.embed_links);
    assert!(ban.send_polls && ban.change_info && ban.invite_users && ban.pin_messages);
    assert!(!ban.manage_topics && !ban.send_photos && !ban.send_videos && !ban.send_roundvideos);
    assert!(!ban.send_audios && !ban.send_voices && !ban.send_docs && !ban.send_plain);
    assert_eq!(banned_rights(0).until_date, 0);
}

#[test]
fn only_a_channel_is_a_channel() {
    assert_eq!(channel_of(&enums::Peer::Channel(types::PeerChannel { channel_id: 12 })), Some(12));
    assert_eq!(channel_of(&enums::Peer::Chat(types::PeerChat { chat_id: 12 })), None);
    assert_eq!(channel_of(&enums::Peer::User(types::PeerUser { user_id: 12 })), None);
}
