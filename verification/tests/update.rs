use layer::client::api::enums;
use layer::client::api::types;
use layer::client::dialogs::{link_dialogs, DialogLinks};
use layer::client::input_message::{extract_user_name, Dialog, InputMessage};
use layer::client::media::{largest_thumb, upload_plan, UploadedFile};
use layer::client::peer_cache::{PeerCache, PeerError};
use layer::client::update::{
    container_kind, from_single_update, from_single_update_pub, make_short_chat, make_short_dm,
    parse_updates, tl_constructor_id, CallbackQuery, ContainerKind, IncomingMessage, InlineQuery,
    MessageDeletion, RawUpdate, Update,
};

fn peer_user(id: i64) -> enums::Peer {
    enums::Peer::User(types::PeerUser { user_id: id })
}

fn message(id: i32, text: &str) -> types::Message {
    types::Message {
        out: true,
        mentioned: false,
        media_unread: false,
        silent: true,
        post: false,
        pinned: true,
        noforwards: false,
        id,
        from_id: Some(peer_user(7)),
        peer_id: enums::Peer::Chat(types::PeerChat { chat_id: 9 }),
        fwd_from: None,
        via_bot_id: None,
        reply_to: Some(enums::MessageReplyHeader::MessageReplyHeader(types::MessageReplyHeader {
            reply_to_msg_id: Some(41),
            reply_to_top_id: None,
        })),
        date: 1700,
        message: text.to_owned(),
        media: None,
        reply_markup: None,
        entities: Some(vec![enums::MessageEntity::Bold(types::Span { offset: 0, length: 2 })]),
        views: Some(3),
        forwards: None,
        replies: Some(enums::MessageReplies::MessageReplies(types::MessageReplies {
            replies: 5,
            replies_pts: 0,
        })),
        edit_date: Some(1800),
        grouped_id: Some(77),
    }
}

#[test]
fn getters_of_a_message() {
    let m = IncomingMessage::from_raw(enums::Message::Message(message(42, "hi")));
    assert_eq!(m.text(), Some("hi"));
    assert_eq!(m.id(), 42);
    assert_eq!(m.peer_id(), Some(&enums::Peer::Chat(types::PeerChat { chat_id: 9 })));
    assert_eq!(m.sender_id(), Some(&peer_user(7)));
    assert!(m.outgoing());
    assert_eq!(m.date(), 1700);
    assert_eq!(m.edit_date(), Some(1800));
    assert!(!m.mentioned());
    assert!(m.silent());
    assert!(!m.post());
    assert!(m.pinned());
    assert_eq!(m.forward_count(), None);
    assert_eq!(m.view_count(), Some(3));
    assert_eq!(m.reply_count(), Some(5));
    assert_eq!(m.reply_to_message_id(), Some(41));
    assert_eq!(m.media(), None);
    assert_eq!(m.entities().map(|e| e.len()), Some(1));
    assert_eq!(m.grouped_id(), Some(77));
    assert_eq!(m.reply_markup(), None);
    assert_eq!(m.forward_header(), None);
    assert!(!m.noforwards());
    assert_eq!(m.download_location(), None);
    let empty_text = IncomingMessage::from_raw(enums::Message::Message(message(1, "")));
    assert_eq!(empty_text.text(), None);
}

#[test]
fn getters_of_other_messages() {
    let empty = IncomingMessage::from_raw(enums::Message::Empty(types::MessageEmpty { id: 5 }));
    assert_eq!(empty.id(), 5);
    assert_eq!(empty.text(), None);
    assert_eq!(empty.peer_id(), None);
    assert_eq!(empty.sender_id(), None);
    assert_eq!(empty.date(), 0);
    assert!(!empty.outgoing());
    assert_eq!(empty.reply_to_message_id(), None);
    let service = IncomingMessage::from_raw(enums::Message::Service(types::MessageService {
        out: false,
        mentioned: true,
        silent: false,
        id: 6,
        from_id: None,
        peer_id: peer_user(3),
        date: 99,
    }));
    assert_eq!(service.id(), 6);
    assert_eq!(service.peer_id(), Some(&peer_user(3)));
    assert_eq!(service.sender_id(), None);
    assert!(service.mentioned());
    assert_eq!(service.date(), 99);
    assert!(!service.pinned());
    assert_eq!(service.view_count(), None);
    let story = {
        let mut m = message(1, "x");
        m.reply_to = Some(enums::MessageReplyHeader::MessageReplyStoryHeader(
            types::MessageReplyStoryHeader { story_id: 4 },
        ));
        IncomingMessage::from_raw(enums::Message::Message(m))
    };
    assert_eq!(story.reply_to_message_id(), None);
}

#[test]
fn updates_become_events() {
    let msg = enums::Message::Message(message(1, "a"));
    let new = |m: &enums::Message| types::UpdateNewMessage { message: m.clone(), pts: 1, pts_count: 1 };
    assert_eq!(
        from_single_update(enums::Update::NewMessage(new(&msg))),
        vec![Update::NewMessage(IncomingMessage { raw: msg.clone() })]
    );
    assert_eq!(
        from_single_update(enums::Update::NewChannelMessage(new(&msg))),
        vec![Update::NewMessage(IncomingMessage { raw: msg.clone() })]
    );
    assert_eq!(
        from_single_update(enums::Update::EditMessage(new(&msg))),
        vec![Update::MessageEdited(IncomingMessage { raw: msg.clone() })]
    );
    assert_eq!(
        from_single_update_pub(enums::Update::EditChannelMessage(new(&msg))),
        vec![Update::MessageEdited(IncomingMessage { raw: msg.clone() })]
    );
    assert_eq!(
        from_single_update(enums::Update::DeleteMessages(types::UpdateDeleteMessages {
            messages: vec![1, 2],
            pts: 5,
            pts_count: 2,
        })),
        vec![Update::MessageDeleted(MessageDeletion { message_ids: vec![1, 2], channel_id: None })]
    );
    assert_eq!(
        from_single_update(enums::Update::DeleteChannelMessages(
            types::UpdateDeleteChannelMessages { channel_id: 8, messages: vec![3], pts: 5, pts_count: 1 }
        )),
        vec![Update::MessageDeleted(MessageDeletion { message_ids: vec![3], channel_id: Some(8) })]
    );
    assert_eq!(
        from_single_update(enums::Update::BotCallbackQuery(types::UpdateBotCallbackQuery {
            query_id: 1,
            user_id: 2,
            peer: peer_user(2),
            msg_id: 3,
            chat_instance: 4,
            data: Some(b"go".to_vec()),
            game_short_name: None,
        })),
        vec![Update::CallbackQuery(CallbackQuery {
            query_id: 1,
            user_id: 2,
            message_id: Some(3),
            chat_instance: 4,
            data_raw: Some(b"go".to_vec()),
            game_short_name: None,
        })]
    );
    assert_eq!(
        from_single_update(enums::Update::BotInlineQuery(types::UpdateBotInlineQuery {
            query_id: 1,
            user_id: 2,
            query: "q".to_owned(),
            offset: "o".to_owned(),
        })),
        vec![Update::InlineQuery(InlineQuery {
            query_id: 1,
            user_id: 2,
            query: "q".to_owned(),
            offset: "o".to_owned(),
            peer: None,
        })]
    );
    assert_eq!(
        from_single_update(enums::Update::Other(enums::UpdateKind::UserTyping)),
        vec![Update::Raw(RawUpdate { constructor_id: 0x2a17bf5c })]
    );
    // scheduled messages keep a form of their own
    assert_eq!(
        from_single_update(enums::Update::Other(enums::UpdateKind::NewScheduledMessage)),
        vec![Update::Raw(RawUpdate {
            constructor_id: enums::UpdateKind::NewScheduledMessage.constructor_id()
        })]
    );
}

#[test]
fn lists_of_updates_keep_their_order() {
    let list = vec![
        enums::Update::Other(enums::UpdateKind::UserTyping),
        enums::Update::DeleteMessages(types::UpdateDeleteMessages {
            messages: vec![1],
            pts: 1,
            pts_count: 1,
        }),
        enums::Update::Other(enums::UpdateKind::WebPage),
    ];
    let events = parse_updates(list);
    assert_eq!(events.len(), 3);
    assert_eq!(events[0], Update::Raw(RawUpdate { constructor_id: 0x2a17bf5c }));
    assert!(matches!(events[1], Update::MessageDeleted(_)));
    assert_eq!(events[2], Update::Raw(RawUpdate { constructor_id: 0x7f891213 }));
    assert!(parse_updates(vec![]).is_empty());
}

#[test]
fn constructor_ids_of_updates() {
    let msg = enums::Message::Empty(types::MessageEmpty { id: 1 });
    let new = types::UpdateNewMessage { message: msg, pts: 1, pts_count: 1 };
    assert_eq!(tl_constructor_id(&enums::Update::NewMessage(new.clone())), 0x1f2b0afd);
    assert_eq!(tl_constructor_id(&enums::Update::NewChannelMessage(new)), 0x62ba04d9);
    assert_eq!(tl_constructor_id(&enums::Update::Other(enums::UpdateKind::AttachMenuBots)), 0x17b7a20b);
    assert_eq!(tl_constructor_id(&enums::Update::Other(enums::UpdateKind::UserStatus)), 0xe5bdf8de);
    assert_eq!(enums::UpdateKind::WebViewResultSent.constructor_id(), 0x1592b79d);
}

#[test]
fn kinds_of_update_bodies() {
    let kind = |id: u32| container_kind(&id.to_le_bytes());
    assert_eq!(kind(0xe317af7e), ContainerKind::TooLong);
    assert_eq!(kind(0x313bc7f8), ContainerKind::ShortMessage);
    assert_eq!(kind(0x4d6deea5), ContainerKind::ShortChatMessage);
    assert_eq!(kind(0x78d4dec1), ContainerKind::Short);
    assert_eq!(kind(0x74ae4240), ContainerKind::Updates);
    assert_eq!(kind(0x725b04c3), ContainerKind::Combined);
    assert_eq!(kind(0x997275b5), ContainerKind::NotUpdates);
    assert_eq!(container_kind(&[1, 2, 3]), ContainerKind::NotUpdates);
}

#[test]
fn compact_messages_are_inflated() {
    let dm = make_short_dm(types::UpdateShortMessage {
        out: false,
        mentioned: true,
        media_unread: false,
        silent: false,
        id: 11,
        user_id: 22,
        message: "hey".to_owned(),
        pts: 1,
        pts_count: 1,
        date: 33,
        fwd_from: None,
        via_bot_id: Some(44),
        reply_to: None,
        entities: None,
    });
    assert_eq!(dm.id(), 11);
    assert_eq!(dm.text(), Some("hey"));
    assert_eq!(dm.peer_id(), Some(&peer_user(22)));
    assert_eq!(dm.sender_id(), Some(&peer_user(22)));
    assert!(dm.mentioned());
    assert_eq!(dm.date(), 33);
    assert!(!dm.post() && !dm.pinned() && !dm.noforwards());
    assert_eq!(dm.edit_date(), None);
    match &dm.raw {
        enums::Message::Message(m) => assert_eq!(m.via_bot_id, Some(44)),
        other => panic!("{other:?}"),
    }
    let chat = make_short_chat(types::UpdateShortChatMessage {
        out: true,
        mentioned: false,
        media_unread: false,
        silent: true,
        id: 12,
        from_id: 22,
        chat_id: 55,
        message: "yo".to_owned(),
        pts: 1,
        pts_count: 1,
        date: 34,
        fwd_from: None,
        via_bot_id: None,
        reply_to: None,
        entities: None,
    });
    assert_eq!(chat.peer_id(), Some(&enums::Peer::Chat(types::PeerChat { chat_id: 55 })));
    assert_eq!(chat.sender_id(), Some(&peer_user(22)));
    assert!(chat.outgoing() && chat.silent());
}

#[test]
fn callback_data_as_text() {
    let q = |d: Option<Vec<u8>>| CallbackQuery {
        query_id: 1,
        user_id: 2,
        message_id: None,
        chat_instance: 3,
        data_raw: d,
        game_short_name: None,
    };
    assert_eq!(q(Some(b"go".to_vec())).data(), Some("go"));
    assert_eq!(q(Some(vec![0xff])).data(), None);
    assert_eq!(q(None).data(), None);
    let i = InlineQuery { query_id: 1, user_id: 2, query: "cats".to_owned(), offset: String::new(), peer: None };
    assert_eq!(i.query(), "cats");
}

#[test]
fn building_a_message() {
    let m = InputMessage::text("Hello")
        .silent(true)
        .reply_to(Some(42))
        .background(true)
        .clear_draft(true)
        .no_webpage(true)
        .schedule_date(Some(9))
        .entities(vec![])
        .reply_markup(enums::ReplyMarkup::ReplyKeyboardHide);
    assert_eq!(m.text, "Hello");
    assert_eq!(m.reply_to, Some(42));
    assert!(m.silent && m.background && m.clear_draft && m.no_webpage);
    assert_eq!(m.schedule_date, Some(9));
    assert_eq!(m.entities, Some(vec![]));
    assert_eq!(m.reply_markup, Some(enums::ReplyMarkup::ReplyKeyboardHide));
    assert_eq!(
        m.reply_header(),
        Some(enums::InputReplyTo::Message(types::InputReplyToMessage {
            reply_to_msg_id: 42,
            top_msg_id: None
        }))
    );
    let plain = InputMessage::text("x");
    assert_eq!(plain.reply_header(), None);
    assert!(!plain.silent && plain.entities.is_none());
    assert_eq!(plain.set_text("y").text, "y");
}

fn user(id: i64, first: Option<&str>, last: Option<&str>, hash: Option<i64>) -> enums::User {
    enums::User::User(types::User {
        id,
        access_hash: hash,
        first_name: first.map(str::to_owned),
        last_name: last.map(str::to_owned),
        username: None,
        bot: false,
    })
}

#[test]
fn titles_of_dialogs() {
    let raw = enums::Dialog::Dialog(types::Dialog { peer: peer_user(1), top_message: 10, unread_count: 2 });
    let d = |entity: Option<enums::User>, chat: Option<enums::Chat>| Dialog {
        raw: raw.clone(),
        message: None,
        entity,
        chat,
    };
    assert_eq!(d(Some(user(1, Some("Ada"), Some("L."), None)), None).title(), "Ada L.");
    assert_eq!(d(Some(user(1, Some("Ada"), None, None)), None).title(), "Ada");
    assert_eq!(d(Some(user(1, None, Some("L."), None)), None).title(), "L.");
    assert_eq!(d(Some(user(1, None, None, None)), None).title(), "(Unknown)");
    let chat = enums::Chat::Chat(types::Chat { id: 3, title: "Group".to_owned() });
    assert_eq!(d(Some(user(1, None, None, None)), Some(chat.clone())).title(), "Group");
    assert_eq!(d(None, Some(chat)).title(), "Group");
    assert_eq!(d(None, Some(enums::Chat::Empty(types::ChatEmpty { id: 3 }))).title(), "(empty)");
    assert_eq!(d(None, None).title(), "(Unknown)");
    let one = d(None, None);
    assert_eq!(one.peer(), Some(&peer_user(1)));
    assert_eq!(one.unread_count(), 2);
    assert_eq!(one.top_message(), 10);
    let folder = Dialog {
        raw: enums::Dialog::Folder(types::DialogFolder { folder_id: 1, top_message: 5 }),
        message: None,
        entity: None,
        chat: None,
    };
    assert_eq!(folder.peer(), None);
    assert_eq!(folder.unread_count(), 0);
    assert_eq!(folder.top_message(), 0);
    assert_eq!(extract_user_name(&user(1, Some("Ada"), Some("L."), None)), "Ada L.");
    assert_eq!(extract_user_name(&enums::User::Empty(types::UserEmpty { id: 1 })), "(unknown)");
}

#[test]
fn dialogs_are_linked_to_what_came_along() {
    let dialogs = vec![
        enums::Dialog::Dialog(types::Dialog { peer: peer_user(2), top_message: 20, unread_count: 0 }),
        enums::Dialog::Dialog(types::Dialog {
            peer: enums::Peer::Channel(types::PeerChannel { channel_id: 5 }),
            top_message: 21,
            unread_count: 0,
        }),
        enums::Dialog::Folder(types::DialogFolder { folder_id: 1, top_message: 20 }),
        enums::Dialog::Dialog(types::Dialog { peer: peer_user(9), top_message: 99, unread_count: 0 }),
    ];
    let messages = vec![
        enums::Message::Empty(types::MessageEmpty { id: 20 }),
        enums::Message::Empty(types::MessageEmpty { id: 21 }),
        enums::Message::Empty(types::MessageEmpty { id: 20 }),
        enums::Message::Empty(types::MessageEmpty { id: 0 }),
    ];
    let users = vec![
        user(2, None, None, None),
        enums::User::Empty(types::UserEmpty { id: 9 }),
    ];
    let chats = vec![enums::Chat::Channel(types::Channel { id: 5, access_hash: None, title: "c".to_owned() })];
    let links = link_dialogs(&dialogs, &messages, &users, &chats);
    assert_eq!(
        links,
        vec![
            DialogLinks { message: Some(2), entity: Some(0), chat: None },
            DialogLinks { message: Some(1), entity: None, chat: Some(0) },
            DialogLinks { message: Some(3), entity: None, chat: None },
            DialogLinks { message: None, entity: None, chat: None },
        ]
    );
}

#[test]
fn peers_need_a_known_hash() {
    let mut cache = PeerCache::new();
    assert_eq!(cache.user_input_peer(0), Ok(enums::InputPeer::PeerSelf));
    assert_eq!(cache.user_input_peer(5), Err(PeerError::UnknownUser { user_id: 5 }));
    assert_eq!(cache.channel_input_peer(6), Err(PeerError::UnknownChannel { channel_id: 6 }));
    cache.cache_users(&[
        user(5, None, None, Some(55)),
        user(7, None, None, None),
        enums::User::Empty(types::UserEmpty { id: 8 }),
        user(5, None, None, Some(56)),
    ]);
    cache.cache_chats(&[
        enums::Chat::Channel(types::Channel { id: 6, access_hash: Some(66), title: String::new() }),
        enums::Chat::Channel(types::Channel { id: 9, access_hash: None, title: String::new() }),
        enums::Chat::ChannelForbidden(types::ChannelForbidden { id: 10, access_hash: 100, title: String::new() }),
        enums::Chat::Chat(types::Chat { id: 11, title: String::new() }),
    ]);
    assert_eq!(
        cache.user_input_peer(5),
        Ok(enums::InputPeer::User(types::InputPeerUser { user_id: 5, access_hash: 56 }))
    );
    assert_eq!(cache.user_input_peer(7), Err(PeerError::UnknownUser { user_id: 7 }));
    assert_eq!(
        cache.peer_to_input(&enums::Peer::Channel(types::PeerChannel { channel_id: 6 })),
        Ok(enums::InputPeer::Channel(types::InputPeerChannel { channel_id: 6, access_hash: 66 }))
    );
    assert_eq!(
        cache.peer_to_input(&enums::Peer::Channel(types::PeerChannel { channel_id: 10 })),
        Ok(enums::InputPeer::Channel(types::InputPeerChannel { channel_id: 10, access_hash: 100 }))
    );
    assert_eq!(
        cache.peer_to_input(&enums::Peer::Channel(types::PeerChannel { channel_id: 9 })),
        Err(PeerError::UnknownChannel { channel_id: 9 })
    );
    assert_eq!(
        cache.peer_to_input(&enums::Peer::Chat(types::PeerChat { chat_id: 11 })),
        Ok(enums::InputPeer::Chat(types::InputPeerChat { chat_id: 11 }))
    );
    assert_eq!(cache.peer_to_input(&peer_user(0)), Ok(enums::InputPeer::PeerSelf));
    assert_eq!(
        PeerError::UnknownUser { user_id: 5 }.to_string(),
        "no access hash known for user 5"
    );
}

#[test]
fn uploaded_files_and_media_locations() {
    let f = UploadedFile::new(
        types::InputFile { id: 1, parts: 2, name: "a.txt".to_owned(), big: false },
        "text/plain",
        "a.txt",
    );
    assert_eq!(f.mime_type(), "text/plain");
    assert_eq!(f.name(), "a.txt");
    match f.as_document_media() {
        enums::InputMedia::UploadedDocument(d) => {
            assert_eq!(d.mime_type, "text/plain");
            assert_eq!(d.file.id, 1);
            assert_eq!(
                d.attributes,
                vec![enums::DocumentAttribute::Filename(types::DocumentAttributeFilename {
                    file_name: "a.txt".to_owned()
                })]
            );
            assert!(!d.force_file && !d.spoiler && !d.nosound_video);
        }
        other => panic!("{other:?}"),
    }
    assert!(matches!(f.as_photo_media(), enums::InputMedia::UploadedPhoto(p) if p.file.parts == 2));
    assert_eq!(upload_plan(0), (0, false));
    assert_eq!(upload_plan(1), (1, false));
    assert_eq!(upload_plan(524288), (1, false));
    assert_eq!(upload_plan(524289), (2, false));
    assert_eq!(upload_plan(10 * 1024 * 1024), (20, true));

    let size = |k: &str| enums::PhotoSize::PhotoSize(types::PhotoSize { kind: k.to_owned(), w: 1, h: 1, size: 1 });
    assert_eq!(largest_thumb(&vec![]), "s");
    assert_eq!(largest_thumb(&vec![size("m"), size("x"), enums::PhotoSize::Other]), "x");
    let mut m = message(1, "");
    m.media = Some(enums::MessageMedia::Photo(types::MessageMediaPhoto {
        photo: Some(enums::Photo::Photo(types::Photo {
            id: 3,
            access_hash: 4,
            file_reference: vec![5],
            sizes: vec![size("m"), size("y")],
        })),
    }));
    assert_eq!(
        IncomingMessage::from_raw(enums::Message::Message(m.clone())).download_location(),
        Some(enums::InputFileLocation::InputPhotoFileLocation(types::InputPhotoFileLocation {
            id: 3,
            access_hash: 4,
            file_reference: vec![5],
            thumb_size: "y".to_owned(),
        }))
    );
    m.media = Some(enums::MessageMedia::Document(types::MessageMediaDocument {
        document: Some(enums::Document::Document(types::Document {
            id: 6,
            access_hash: 7,
            file_reference: vec![8, 9],
            mime_type: "x".to_owned(),
            size: 1,
        })),
    }));
    assert_eq!(
        IncomingMessage::from_raw(enums::Message::Message(m.clone())).download_location(),
        Some(enums::InputFileLocation::InputDocumentFileLocation(types::InputDocumentFileLocation {
            id: 6,
            access_hash: 7,
            file_reference: vec![8, 9],
            thumb_size: String::new(),
        }))
    );
    m.media = Some(enums::MessageMedia::Photo(types::MessageMediaPhoto { photo: Some(enums::Photo::Empty) }));
    assert_eq!(IncomingMessage::from_raw(enums::Message::Message(m)).download_location(), None);
}

#[test]
fn names_are_trimmed_of_white_space_of_any_script() {
    let user = |first: Option<&str>, last: Option<&str>| {
        enums::User::User(types::User {
            id: 1,
            access_hash: None,
            first_name: first.map(|s| s.to_owned()),
            last_name: last.map(|s| s.to_owned()),
            username: None,
            bot: false,
        })
    };
    assert_eq!(extract_user_name(&user(Some("\u{a0}A"), None)), "A");
    assert_eq!(extract_user_name(&user(Some(" \u{2003}Ann"), Some("Lee\u{3000}\t"))), "Ann Lee");
    assert_eq!(extract_user_name(&user(Some("A\u{a0}B"), None)), "A\u{a0}B");
    assert_eq!(extract_user_name(&user(None, None)), "");
    let dialog = Dialog {
        raw: enums::Dialog::Folder(types::DialogFolder { folder_id: 1, top_message: 0 }),
        message: None,
        entity: Some(user(Some("\u{a0}A"), None)),
        chat: None,
    };
    assert_eq!(dialog.title(), "A");
    let blank = Dialog {
        raw: enums::Dialog::Folder(types::DialogFolder { folder_id: 1, top_message: 0 }),
        message: None,
        entity: Some(user(Some("\u{2028}"), Some("\u{85}"))),
        chat: None,
    };
    assert_eq!(blank.title(), "(Unknown)");
}
