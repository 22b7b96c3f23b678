//! The updates that the server pushes, in the form in which the client
//! hands them on.

use vstd::prelude::*;
use vstd::string::StringSliceAdditionalSpecFns;
use vstd::utf8::valid_utf8;
use crate::client::api::enums;
use crate::client::api::types;
use crate::client::envelope::{
    ID_UPDATES, ID_UPDATES_COMBINED, ID_UPDATES_TOO_LONG, ID_UPDATE_SHORT,
    ID_UPDATE_SHORT_CHAT_MSG, ID_UPDATE_SHORT_MSG,
};
use crate::tl::wire::{from_le32, read_le32};

verus! {

/// A new or edited message.
#[derive(Clone, Debug, PartialEq, Eq)]
pub struct IncomingMessage {
    /// The message as the server sent it.
    pub raw: enums::Message,
}

/// `str::from_utf8` of the standard library: `bytes` as text, or nothing
/// where they are not UTF-8.
#[verifier::external_body]
pub(crate) fn str_from_utf8(bytes: &[u8]) -> (r: Option<&str>)
    ensures
        r is Some <==> valid_utf8(bytes@),
        r is Some ==> r->Some_0.spec_bytes() == bytes@,
{
    match std::str::from_utf8(bytes) {
        Ok(s) => Some(s),
        Err(_) => None,
    }
}

impl IncomingMessage {
    /// Wraps a message.
    pub fn from_raw(raw: enums::Message) -> (m: Self)
        ensures
            m.raw == raw,
    {
        Self { raw }
    }

    /// The text of the message; none where it is empty or the message has
    /// no text.
    pub open spec fn spec_text(&self) -> Option<Seq<char>> {
        match self.raw {
            enums::Message::Message(m) => if m.message@.len() == 0 {
                None
            } else {
                Some(m.message@)
            },
            _ => None,
        }
    }

    /// The text of the message, or the caption of its media.
    pub fn text(&self) -> (r: Option<&str>)
        ensures
            match self.spec_text() {
                Some(t) => r is Some && r->Some_0@ == t,
                None => r is None,
            },
    {
        match &self.raw {
            enums::Message::Message(m) => {
                if m.message.as_str().is_empty() {
                    None
                } else {
                    Some(m.message.as_str())
                }
            },
            _ => None,
        }
    }

    /// The message's number in its chat.
    pub fn id(&self) -> (r: i32)
        ensures
            r == match self.raw {
                enums::Message::Message(m) => m.id,
                enums::Message::Service(m) => m.id,
                enums::Message::Empty(m) => m.id,
            },
    {
        match &self.raw {
            enums::Message::Message(m) => m.id,
            enums::Message::Service(m) => m.id,
            enums::Message::Empty(m) => m.id,
        }
    }

    /// The chat that the message belongs to.
    pub fn peer_id(&self) -> (r: Option<&enums::Peer>)
        ensures
            r == match self.raw {
                enums::Message::Message(m) => Some(&m.peer_id),
                enums::Message::Service(m) => Some(&m.peer_id),
                _ => None,
            },
    {
        match &self.raw {
            enums::Message::Message(m) => Some(&m.peer_id),
            enums::Message::Service(m) => Some(&m.peer_id),
            _ => None,
        }
    }

    /// The sender, if the message names one.
    pub fn sender_id(&self) -> (r: Option<&enums::Peer>)
        ensures
            match self.raw {
                enums::Message::Message(m) => match m.from_id {
                    Some(p) => r == Some(&p),
                    None => r is None,
                },
                enums::Message::Service(m) => match m.from_id {
                    Some(p) => r == Some(&p),
                    None => r is None,
                },
                _ => r is None,
            },
    {
        match &self.raw {
            enums::Message::Message(m) => m.from_id.as_ref(),
            enums::Message::Service(m) => m.from_id.as_ref(),
            _ => None,
        }
    }

    /// Whether we sent the message.
    pub fn outgoing(&self) -> (r: bool)
        ensures
            r == match self.raw {
                enums::Message::Message(m) => m.out,
                enums::Message::Service(m) => m.out,
                _ => false,
            },
    {
        match &self.raw {
            enums::Message::Message(m) => m.out,
            enums::Message::Service(m) => m.out,
            _ => false,
        }
    }

    /// When the message was sent, in Unix time; zero where it has no date.
    pub fn date(&self) -> (r: i32)
        ensures
            r == match self.raw {
                enums::Message::Message(m) => m.date,
                enums::Message::Service(m) => m.date,
                _ => 0,
            },
    {
        match &self.raw {
            enums::Message::Message(m) => m.date,
            enums::Message::Service(m) => m.date,
            _ => 0,
        }
    }

    /// When the message was last edited.
    pub fn edit_date(&self) -> (r: Option<i32>)
        ensures
            r == match self.raw {
                enums::Message::Message(m) => m.edit_date,
                _ => None,
            },
    {
        match &self.raw {
            enums::Message::Message(m) => m.edit_date,
            _ => None,
        }
    }

    /// Whether the message mentions us.
    pub fn mentioned(&self) -> (r: bool)
        ensures
            r == match self.raw {
                enums::Message::Message(m) => m.mentioned,
                enums::Message::Service(m) => m.mentioned,
                _ => false,
            },
    {
        match &self.raw {
            enums::Message::Message(m) => m.mentioned,
            enums::Message::Service(m) => m.mentioned,
            _ => false,
        }
    }

    /// Whether the message came without a notification.
    pub fn silent(&self) -> (r: bool)
        ensures
            r == match self.raw {
                enums::Message::Message(m) => m.silent,
                enums::Message::Service(m) => m.silent,
                _ => false,
            },
    {
        match &self.raw {
            enums::Message::Message(m) => m.silent,
            enums::Message::Service(m) => m.silent,
            _ => false,
        }
    }

    /// Whether the message is a channel post.
    pub fn post(&self) -> (r: bool)
        ensures
            r == match self.raw {
                enums::Message::Message(m) => m.post,
                _ => false,
            },
    {
        match &self.raw {
            enums::Message::Message(m) => m.post,
            _ => false,
        }
    }

    /// Whether the message is pinned.
    pub fn pinned(&self) -> (r: bool)
        ensures
            r == match self.raw {
                enums::Message::Message(m) => m.pinned,
                _ => false,
            },
    {
        match &self.raw {
            enums::Message::Message(m) => m.pinned,
            _ => false,
        }
    }

    /// How often the message was forwarded.
    pub fn forward_count(&self) -> (r: Option<i32>)
        ensures
            r == match self.raw {
                enums::Message::Message(m) => m.forwards,
                _ => None,
            },
    {
        match &self.raw {
            enums::Message::Message(m) => m.forwards,
            _ => None,
        }
    }

    /// How often the message was viewed.
    pub fn view_count(&self) -> (r: Option<i32>)
        ensures
            r == match self.raw {
                enums::Message::Message(m) => m.views,
                _ => None,
            },
    {
        match &self.raw {
            enums::Message::Message(m) => m.views,
            _ => None,
        }
    }

    /// How many replies the message has.
    pub fn reply_count(&self) -> (r: Option<i32>)
        ensures
            r == match self.raw {
                enums::Message::Message(m) => match m.replies {
                    Some(enums::MessageReplies::MessageReplies(x)) => Some(x.replies),
                    None => None,
                },
                _ => None,
            },
    {
        match &self.raw {
            enums::Message::Message(m) => match &m.replies {
                Some(enums::MessageReplies::MessageReplies(x)) => Some(x.replies),
                None => None,
            },
            _ => None,
        }
    }

    /// The number of the message that this one answers.
    pub fn reply_to_message_id(&self) -> (r: Option<i32>)
        ensures
            r == match self.raw {
                enums::Message::Message(m) => match m.reply_to {
                    Some(enums::MessageReplyHeader::MessageReplyHeader(h)) => h.reply_to_msg_id,
                    _ => None,
                },
                _ => None,
            },
    {
        match &self.raw {
            enums::Message::Message(m) => match &m.reply_to {
                Some(enums::MessageReplyHeader::MessageReplyHeader(h)) => h.reply_to_msg_id,
                _ => None,
            },
            _ => None,
        }
    }

    /// The media attached to the message.
    pub fn media(&self) -> (r: Option<&enums::MessageMedia>)
        ensures
            match self.raw {
                enums::Message::Message(m) => match m.media {
                    Some(v) => r == Some(&v),
                    None => r is None,
                },
                _ => r is None,
            },
    {
        match &self.raw {
            enums::Message::Message(m) => m.media.as_ref(),
            _ => None,
        }
    }

    /// The formatting of the text.
    pub fn entities(&self) -> (r: Option<&Vec<enums::MessageEntity>>)
        ensures
            match self.raw {
                enums::Message::Message(m) => match m.entities {
                    Some(v) => r == Some(&v),
                    None => r is None,
                },
                _ => r is None,
            },
    {
        match &self.raw {
            enums::Message::Message(m) => m.entities.as_ref(),
            _ => None,
        }
    }

    /// The album that the message belongs to.
    pub fn grouped_id(&self) -> (r: Option<i64>)
        ensures
            r == match self.raw {
                enums::Message::Message(m) => m.grouped_id,
                _ => None,
            },
    {
        match &self.raw {
            enums::Message::Message(m) => m.grouped_id,
            _ => None,
        }
    }

    /// The keyboard under the message.
    pub fn reply_markup(&self) -> (r: Option<&enums::ReplyMarkup>)
        ensures
            match self.raw {
                enums::Message::Message(m) => match m.reply_markup {
                    Some(v) => r == Some(&v),
                    None => r is None,
                },
                _ => r is None,
            },
    {
        match &self.raw {
            enums::Message::Message(m) => m.reply_markup.as_ref(),
            _ => None,
        }
    }

    /// Where the message was forwarded from.
    pub fn forward_header(&self) -> (r: Option<&enums::MessageFwdHeader>)
        ensures
            match self.raw {
                enums::Message::Message(m) => match m.fwd_from {
                    Some(v) => r == Some(&v),
                    None => r is None,
                },
                _ => r is None,
            },
    {
        match &self.raw {
            enums::Message::Message(m) => m.fwd_from.as_ref(),
            _ => None,
        }
    }

    /// Whether the message may not be forwarded.
    pub fn noforwards(&self) -> (r: bool)
        ensures
            r == match self.raw {
                enums::Message::Message(m) => m.noforwards,
                _ => false,
            },
    {
        match &self.raw {
            enums::Message::Message(m) => m.noforwards,
            _ => false,
        }
    }
}

/// One or more messages were deleted.
#[derive(Clone, Debug, PartialEq, Eq)]
pub struct MessageDeletion {
    /// The numbers of the deleted messages.
    pub message_ids: Vec<i32>,
    /// The channel, where the messages were in one.
    pub channel_id: Option<i64>,
}

/// Somebody pressed a button under a message of a bot.
#[derive(Clone, Debug, PartialEq, Eq)]
pub struct CallbackQuery {
    pub query_id: i64,
    pub user_id: i64,
    pub message_id: Option<i32>,
    pub chat_instance: i64,
    /// The bytes that the button carries.
    pub data_raw: Option<Vec<u8>>,
    /// The short name of the game, for a game button.
    pub game_short_name: Option<String>,
}

impl CallbackQuery {
    /// The button's data as text, where it is UTF-8.
    pub fn data(&self) -> (r: Option<&str>)
        ensures
            match self.data_raw {
                Some(d) => (r is Some <==> valid_utf8(d@)) && (r is Some ==> r->Some_0.spec_bytes()
                    == d@),
                None => r is None,
            },
    {
        match &self.data_raw {
            Some(d) => str_from_utf8(d.as_slice()),
            None => None,
        }
    }
}

/// Somebody types an inline query for the bot.
#[derive(Clone, Debug, PartialEq, Eq)]
pub struct InlineQuery {
    pub query_id: i64,
    pub user_id: i64,
    pub query: String,
    pub offset: String,
    /// The chat that the query comes from, where the server says so.
    pub peer: Option<enums::Peer>,
}

impl InlineQuery {
    /// What the user typed behind the bot's name.
    pub fn query(&self) -> (q: &str)
        ensures
            q@ == self.query@,
    {
        self.query.as_str()
    }
}

/// Somebody chose an inline result and sent it.
#[derive(Clone, Debug, PartialEq, Eq)]
pub struct InlineSend {
    pub user_id: i64,
    pub query: String,
    pub id: String,
    /// The message that was sent, where the server says so.
    pub msg_id: Option<types::InlineMessageId>,
}

/// An update of a kind that has no form of its own here.
#[derive(Clone, Copy, Debug, PartialEq, Eq, Structural)]
pub struct RawUpdate {
    /// The constructor ID of the update.
    pub constructor_id: u32,
}

/// An event, as the client hands it on.
#[derive(Clone, Debug, PartialEq, Eq)]
#[non_exhaustive]
pub enum Update {
    /// A new message.
    NewMessage(IncomingMessage),
    /// A message was edited.
    MessageEdited(IncomingMessage),
    /// Messages were deleted.
    MessageDeleted(MessageDeletion),
    /// A button under a message of a bot was pressed.
    CallbackQuery(CallbackQuery),
    /// An inline query was typed.
    InlineQuery(InlineQuery),
    /// An inline result was sent.
    InlineSend(InlineSend),
    /// Any other update.
    Raw(RawUpdate),
}

/// The constructor ID of an update.
pub fn tl_constructor_id(upd: &enums::Update) -> (id: u32)
    ensures
        id == upd.spec_constructor_id(),
{
    match upd {
        enums::Update::NewMessage(_) => 0x1f2b0afd,
        enums::Update::NewChannelMessage(_) => 0x62ba04d9,
        enums::Update::EditMessage(_) => 0xe40370a3,
        enums::Update::EditChannelMessage(_) => 0x1b3f4df7,
        enums::Update::DeleteMessages(_) => 0xa20db0e5,
        enums::Update::DeleteChannelMessages(_) => 0xc32d5b12,
        enums::Update::BotCallbackQuery(_) => 0xb9cfc48d,
        enums::Update::InlineBotCallbackQuery(_) => 0x691e9052,
        enums::Update::BotInlineQuery(_) => 0x496f379c,
        enums::Update::BotInlineSend(_) => 0x12f12a07,
        enums::Update::Other(kind) => kind.constructor_id(),
    }
}

/// The event that the update `upd` is. New messages, in chats and in
/// channels alike, become `NewMessage`; edits become `MessageEdited`;
/// deletions `MessageDeleted`, of a channel where the update names one;
/// button presses `CallbackQuery`, with the message's number where the
/// update has one; inline queries and sent inline results their own events;
/// everything else becomes `Raw` with the update's constructor ID.
pub open spec fn spec_classify(upd: enums::Update) -> Update {
    match upd {
        enums::Update::NewMessage(u) => Update::NewMessage(IncomingMessage { raw: u.message }),
        enums::Update::NewChannelMessage(u) => Update::NewMessage(
            IncomingMessage { raw: u.message },
        ),
        enums::Update::EditMessage(u) => Update::MessageEdited(IncomingMessage { raw: u.message }),
        enums::Update::EditChannelMessage(u) => Update::MessageEdited(
            IncomingMessage { raw: u.message },
        ),
        enums::Update::DeleteMessages(u) => Update::MessageDeleted(
            MessageDeletion { message_ids: u.messages, channel_id: None },
        ),
        enums::Update::DeleteChannelMessages(u) => Update::MessageDeleted(
            MessageDeletion { message_ids: u.messages, channel_id: Some(u.channel_id) },
        ),
        enums::Update::BotCallbackQuery(u) => Update::CallbackQuery(
            CallbackQuery {
                query_id: u.query_id,
                user_id: u.user_id,
                message_id: Some(u.msg_id),
                chat_instance: u.chat_instance,
                data_raw: u.data,
                game_short_name: u.game_short_name,
            },
        ),
        enums::Update::InlineBotCallbackQuery(u) => Update::CallbackQuery(
            CallbackQuery {
                query_id: u.query_id,
                user_id: u.user_id,
                message_id: None,
                chat_instance: u.chat_instance,
                data_raw: u.data,
                game_short_name: u.game_short_name,
            },
        ),
        enums::Update::BotInlineQuery(u) => Update::InlineQuery(
            InlineQuery {
                query_id: u.query_id,
                user_id: u.user_id,
                query: u.query,
                offset: u.offset,
                peer: None,
            },
        ),
        enums::Update::BotInlineSend(u) => Update::InlineSend(
            InlineSend { user_id: u.user_id, query: u.query, id: u.id, msg_id: u.msg_id },
        ),
        enums::Update::Other(kind) => Update::Raw(
            RawUpdate { constructor_id: kind.spec_constructor_id() },
        ),
    }
}

/// The events that the update `upd` gives: always exactly one.
pub fn from_single_update(upd: enums::Update) -> (out: Vec<Update>)
    ensures
        out@ == seq![spec_classify(upd)],
{
    let event = match upd {
        enums::Update::NewMessage(u) => Update::NewMessage(IncomingMessage::from_raw(u.message)),
        enums::Update::NewChannelMessage(u) => Update::NewMessage(
            IncomingMessage::from_raw(u.message),
        ),
        enums::Update::EditMessage(u) => Update::MessageEdited(
            IncomingMessage::from_raw(u.message),
        ),
        enums::Update::EditChannelMessage(u) => Update::MessageEdited(
            IncomingMessage::from_raw(u.message),
        ),
        enums::Update::DeleteMessages(u) => Update::MessageDeleted(
            MessageDeletion { message_ids: u.messages, channel_id: None },
        ),
        enums::Update::DeleteChannelMessages(u) => Update::MessageDeleted(
            MessageDeletion { message_ids: u.messages, channel_id: Some(u.channel_id) },
        ),
        enums::Update::BotCallbackQuery(u) => Update::CallbackQuery(
            CallbackQuery {
                query_id: u.query_id,
                user_id: u.user_id,
                message_id: Some(u.msg_id),
                chat_instance: u.chat_instance,
                data_raw: u.data,
                game_short_name: u.game_short_name,
            },
        ),
        enums::Update::InlineBotCallbackQuery(u) => Update::CallbackQuery(
            CallbackQuery {
                query_id: u.query_id,
                user_id: u.user_id,
                message_id: None,
                chat_instance: u.chat_instance,
                data_raw: u.data,
                game_short_name: u.game_short_name,
            },
        ),
        enums::Update::BotInlineQuery(u) => Update::InlineQuery(
            InlineQuery {
                query_id: u.query_id,
                user_id: u.user_id,
                query: u.query,
                offset: u.offset,
                peer: None,
            },
        ),
        enums::Update::BotInlineSend(u) => Update::InlineSend(
            InlineSend { user_id: u.user_id, query: u.query, id: u.id, msg_id: u.msg_id },
        ),
        enums::Update::Other(kind) => Update::Raw(
            RawUpdate { constructor_id: kind.constructor_id() },
        ),
    };
    let mut out: Vec<Update> = Vec::new();
    out.push(event);
    assert(out@ =~= seq![spec_classify(upd)]);
    out
}

/// The events that the update `upd` gives.
pub fn from_single_update_pub(upd: enums::Update) -> (out: Vec<Update>)
    ensures
        out@ == seq![spec_classify(upd)],
{
    from_single_update(upd)
}

/// The message that a compact message stands for, with the sender `from`
/// in the chat `peer`: what the compact form carries is taken over, and
/// everything else is absent or false.
pub open spec fn spec_inflate(
    out: bool,
    mentioned: bool,
    media_unread: bool,
    silent: bool,
    id: i32,
    from: i64,
    peer: enums::Peer,
    message: String,
    date: i32,
    fwd_from: Option<enums::MessageFwdHeader>,
    via_bot_id: Option<i64>,
    reply_to: Option<enums::MessageReplyHeader>,
    entities: Option<Vec<enums::MessageEntity>>,
) -> types::Message {
    types::Message {
        out,
        mentioned,
        media_unread,
        silent,
        post: false,
        pinned: false,
        noforwards: false,
        id,
        from_id: Some(enums::Peer::User(types::PeerUser { user_id: from })),
        peer_id: peer,
        fwd_from,
        via_bot_id,
        reply_to,
        date,
        message,
        media: None,
        reply_markup: None,
        entities,
        views: None,
        forwards: None,
        replies: None,
        edit_date: None,
        grouped_id: None,
    }
}

/// The message that a compact direct message stands for: the other user
/// is both the sender and the chat.
pub fn make_short_dm(m: types::UpdateShortMessage) -> (r: IncomingMessage)
    ensures
        r.raw == enums::Message::Message(
            spec_inflate(
                m.out,
                m.mentioned,
                m.media_unread,
                m.silent,
                m.id,
                m.user_id,
                enums::Peer::User(types::PeerUser { user_id: m.user_id }),
                m.message,
                m.date,
                m.fwd_from,
                m.via_bot_id,
                m.reply_to,
                m.entities,
            ),
        ),
{
    let msg = types::Message {
        out: m.out,
        mentioned: m.mentioned,
        media_unread: m.media_unread,
        silent: m.silent,
        post: false,
        pinned: false,
        noforwards: false,
        id: m.id,
        from_id: Some(enums::Peer::User(types::PeerUser { user_id: m.user_id })),
        peer_id: enums::Peer::User(types::PeerUser { user_id: m.user_id }),
        fwd_from: m.fwd_from,
        via_bot_id: m.via_bot_id,
        reply_to: m.reply_to,
        date: m.date,
        message: m.message,
        media: None,
        reply_markup: None,
        entities: m.entities,
        views: None,
        forwards: None,
        replies: None,
        edit_date: None,
        grouped_id: None,
    };
    IncomingMessage { raw: enums::Message::Message(msg) }
}

/// The message that a compact group message stands for: the sender is the
/// user, the chat is the group.
pub fn make_short_chat(m: types::UpdateShortChatMessage) -> (r: IncomingMessage)
    ensures
        r.raw == enums::Message::Message(
            spec_inflate(
                m.out,
                m.mentioned,
                m.media_unread,
                m.silent,
                m.id,
                m.from_id,
                enums::Peer::Chat(types::PeerChat { chat_id: m.chat_id }),
                m.message,
                m.date,
                m.fwd_from,
                m.via_bot_id,
                m.reply_to,
                m.entities,
            ),
        ),
{
    let msg = types::Message {
        out: m.out,
        mentioned: m.mentioned,
        media_unread: m.media_unread,
        silent: m.silent,
        post: false,
        pinned: false,
        noforwards: false,
        id: m.id,
        from_id: Some(enums::Peer::User(types::PeerUser { user_id: m.from_id })),
        peer_id: enums::Peer::Chat(types::PeerChat { chat_id: m.chat_id }),
        fwd_from: m.fwd_from,
        via_bot_id: m.via_bot_id,
        reply_to: m.reply_to,
        date: m.date,
        message: m.message,
        media: None,
        reply_markup: None,
        entities: m.entities,
        views: None,
        forwards: None,
        replies: None,
        edit_date: None,
        grouped_id: None,
    };
    IncomingMessage { raw: enums::Message::Message(msg) }
}

/// What an update body is, by its constructor ID.
#[derive(Clone, Copy, Debug, PartialEq, Eq, Structural)]
pub enum ContainerKind {
    /// Too many updates were missed: the state must be synchronised anew.
    TooLong,
    /// A direct message in compact form.
    ShortMessage,
    /// A group message in compact form.
    ShortChatMessage,
    /// One update.
    Short,
    /// A list of updates.
    Updates,
    /// A list of updates with a range of sequence numbers.
    Combined,
    /// Nothing that carries updates.
    NotUpdates,
}

/// What the update body `bytes` is.
pub open spec fn spec_container_kind(bytes: Seq<u8>) -> ContainerKind {
    if bytes.len() < 4 {
        ContainerKind::NotUpdates
    } else {
        let id = from_le32(bytes);
        if id == ID_UPDATES_TOO_LONG {
            ContainerKind::TooLong
        } else if id == ID_UPDATE_SHORT_MSG {
            ContainerKind::ShortMessage
        } else if id == ID_UPDATE_SHORT_CHAT_MSG {
            ContainerKind::ShortChatMessage
        } else if id == ID_UPDATE_SHORT {
            ContainerKind::Short
        } else if id == ID_UPDATES {
            ContainerKind::Updates
        } else if id == ID_UPDATES_COMBINED {
            ContainerKind::Combined
        } else {
            ContainerKind::NotUpdates
        }
    }
}

/// Says what the update body `bytes` is, so that it can be decoded as
/// that.
pub fn container_kind(bytes: &[u8]) -> (k: ContainerKind)
    ensures
        k == spec_container_kind(bytes@),
{
    if bytes.len() < 4 {
        return ContainerKind::NotUpdates;
    }
    let id = read_le32(bytes, 0);
    assert(bytes@.skip(0) =~= bytes@);
    if id == ID_UPDATES_TOO_LONG {
        ContainerKind::TooLong
    } else if id == ID_UPDATE_SHORT_MSG {
        ContainerKind::ShortMessage
    } else if id == ID_UPDATE_SHORT_CHAT_MSG {
        ContainerKind::ShortChatMessage
    } else if id == ID_UPDATE_SHORT {
        ContainerKind::Short
    } else if id == ID_UPDATES {
        ContainerKind::Updates
    } else if id == ID_UPDATES_COMBINED {
        ContainerKind::Combined
    } else {
        ContainerKind::NotUpdates
    }
}

/// The events of a list of updates, in order.
pub open spec fn spec_classify_all(updates: Seq<enums::Update>) -> Seq<Update> {
    Seq::new(updates.len(), |i: int| spec_classify(updates[i]))
}

/// The events of a decoded list of updates, in order.
pub fn parse_updates(updates: Vec<enums::Update>) -> (out: Vec<Update>)
    ensures
        out@ == spec_classify_all(updates@),
{
    let mut out: Vec<Update> = Vec::new();
    let mut rest = updates;
    let ghost all = rest@;
    let mut reversed: Vec<enums::Update> = Vec::new();
    while rest.len() > 0
        invariant
            reversed@.len() + rest@.len() == all.len(),
            forall|k: int| 0 <= k < rest@.len() ==> rest@[k] == all[k],
            forall|k: int|
                0 <= k < reversed@.len() ==> reversed@[k] == all[all.len() - 1 - k],
        decreases rest@.len(),
    {
        match rest.pop() {
            Some(u) => {
                reversed.push(u);
            },
            None => {},
        }
    }
    while reversed.len() > 0
        invariant
            out@.len() + reversed@.len() == all.len(),
            forall|k: int|
                0 <= k < reversed@.len() ==> reversed@[k] == all[all.len() - 1 - k],
            forall|k: int| 0 <= k < out@.len() ==> out@[k] == spec_classify(all[k]),
        decreases reversed@.len(),
    {
        match reversed.pop() {
            Some(u) => {
                let mut one = from_single_update(u);
                let ghost before = out@;
                out.append(&mut one);
                assert(out@ =~= before.push(spec_classify(u)));
            },
            None => {},
        }
    }
    assert(out@ =~= spec_classify_all(all));
    out
}

} // verus!
