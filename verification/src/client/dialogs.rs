//! Putting the chat list together from what the server sends: the list
//! itself, and the messages, users and chats that it refers to.

use vstd::prelude::*;
use crate::client::api::enums;
use crate::client::input_message::Dialog;

verus! {

/// The identifier of a message.
pub open spec fn message_id(m: enums::Message) -> i32 {
    match m {
        enums::Message::Message(x) => x.id,
        enums::Message::Service(x) => x.id,
        enums::Message::Empty(x) => x.id,
    }
}

/// The identifier of a chat.
pub open spec fn chat_id(c: enums::Chat) -> i64 {
    match c {
        enums::Chat::Chat(x) => x.id,
        enums::Chat::Forbidden(x) => x.id,
        enums::Chat::Channel(x) => x.id,
        enums::Chat::ChannelForbidden(x) => x.id,
        enums::Chat::Empty(x) => x.id,
    }
}

/// The place of the last message of `messages` with the identifier `id`.
pub open spec fn find_message(messages: Seq<enums::Message>, id: i32) -> Option<int>
    decreases messages.len(),
{
    if messages.len() == 0 {
        None
    } else if message_id(messages.last()) == id {
        Some(messages.len() - 1)
    } else {
        find_message(messages.drop_last(), id)
    }
}

/// The place of the last proper user of `users` with the identifier `id`.
pub open spec fn find_user(users: Seq<enums::User>, id: i64) -> Option<int>
    decreases users.len(),
{
    if users.len() == 0 {
        None
    } else {
        match users.last() {
            enums::User::User(u) => if u.id == id {
                Some(users.len() - 1)
            } else {
                find_user(users.drop_last(), id)
            },
            _ => find_user(users.drop_last(), id),
        }
    }
}

/// The place of the last chat of `chats` with the identifier `id`.
pub open spec fn find_chat(chats: Seq<enums::Chat>, id: i64) -> Option<int>
    decreases chats.len(),
{
    if chats.len() == 0 {
        None
    } else if chat_id(chats.last()) == id {
        Some(chats.len() - 1)
    } else {
        find_chat(chats.drop_last(), id)
    }
}

/// Where, in the lists that came with the chat list, what belongs to one
/// of its entries stands.
#[derive(Clone, Copy, Debug, PartialEq, Eq, Structural)]
pub struct DialogLinks {
    /// The newest message.
    pub message: Option<usize>,
    /// The user, for a chat with a user.
    pub entity: Option<usize>,
    /// The chat, for a group or a channel.
    pub chat: Option<usize>,
}

/// A place as a machine index.
pub open spec fn as_index(i: Option<int>) -> Option<usize> {
    match i {
        Some(k) => Some(k as usize),
        None => None,
    }
}

/// What belongs to the entry `d`: its newest message, and the user or the
/// chat that it is with, as far as the server sent them along. Where the
/// server sent an object more than once, the last one counts.
pub open spec fn spec_links(
    d: enums::Dialog,
    messages: Seq<enums::Message>,
    users: Seq<enums::User>,
    chats: Seq<enums::Chat>,
) -> DialogLinks {
    let top = match d {
        enums::Dialog::Dialog(x) => x.top_message,
        _ => 0,
    };
    DialogLinks {
        message: as_index(find_message(messages, top)),
        entity: match d {
            enums::Dialog::Dialog(x) => match x.peer {
                enums::Peer::User(u) => as_index(find_user(users, u.user_id)),
                _ => None,
            },
            _ => None,
        },
        chat: match d {
            enums::Dialog::Dialog(x) => match x.peer {
                enums::Peer::Chat(c) => as_index(find_chat(chats, c.chat_id)),
                enums::Peer::Channel(c) => as_index(find_chat(chats, c.channel_id)),
                _ => None,
            },
            _ => None,
        },
    }
}

/// Finds the last message with the identifier `id`.
fn lookup_message(messages: &[enums::Message], id: i32) -> (r: Option<usize>)
    ensures
        r == as_index(find_message(messages@, id)),
        r is Some ==> r->Some_0 < messages@.len(),
{
    let mut i: usize = messages.len();
    assert(messages@.take(i as int) =~= messages@);
    while i > 0
        invariant
            i <= messages@.len(),
            find_message(messages@, id) == find_message(messages@.take(i as int), id),
        decreases i,
    {
        i -= 1;
        assert(messages@.take(i as int + 1).last() == messages@[i as int]);
        let mid = match &messages[i] {
            enums::Message::Message(x) => x.id,
            enums::Message::Service(x) => x.id,
            enums::Message::Empty(x) => x.id,
        };
        if mid == id {
            return Some(i);
        }
        assert(messages@.take(i as int + 1).drop_last() =~= messages@.take(i as int));
    }
    None
}

/// Finds the last proper user with the identifier `id`.
fn lookup_user(users: &[enums::User], id: i64) -> (r: Option<usize>)
    ensures
        r == as_index(find_user(users@, id)),
        r is Some ==> r->Some_0 < users@.len(),
{
    let mut i: usize = users.len();
    assert(users@.take(i as int) =~= users@);
    while i > 0
        invariant
            i <= users@.len(),
            find_user(users@, id) == find_user(users@.take(i as int), id),
        decreases i,
    {
        i -= 1;
        assert(users@.take(i as int + 1).last() == users@[i as int]);
        match &users[i] {
            enums::User::User(u) => {
                if u.id == id {
                    return Some(i);
                }
            },
            _ => {},
        }
        assert(users@.take(i as int + 1).drop_last() =~= users@.take(i as int));
    }
    None
}

/// Finds the last chat with the identifier `id`.
fn lookup_chat(chats: &[enums::Chat], id: i64) -> (r: Option<usize>)
    ensures
        r == as_index(find_chat(chats@, id)),
        r is Some ==> r->Some_0 < chats@.len(),
{
    let mut i: usize = chats.len();
    assert(chats@.take(i as int) =~= chats@);
    while i > 0
        invariant
            i <= chats@.len(),
            find_chat(chats@, id) == find_chat(chats@.take(i as int), id),
        decreases i,
    {
        i -= 1;
        assert(chats@.take(i as int + 1).last() == chats@[i as int]);
        let cid = match &chats[i] {
            enums::Chat::Chat(x) => x.id,
            enums::Chat::Forbidden(x) => x.id,
            enums::Chat::Channel(x) => x.id,
            enums::Chat::ChannelForbidden(x) => x.id,
            enums::Chat::Empty(x) => x.id,
        };
        if cid == id {
            return Some(i);
        }
        assert(chats@.take(i as int + 1).drop_last() =~= chats@.take(i as int));
    }
    None
}

/// For each entry of the chat list, in order, where what belongs to it
/// stands in the lists that came along.
pub fn link_dialogs(
    dialogs: &[enums::Dialog],
    messages: &[enums::Message],
    users: &[enums::User],
    chats: &[enums::Chat],
) -> (out: Vec<DialogLinks>)
    ensures
        out@.len() == dialogs@.len(),
        forall|k: int|
            0 <= k < dialogs@.len() ==> #[trigger] out@[k] == spec_links(
                dialogs@[k],
                messages@,
                users@,
                chats@,
            ),
        forall|k: int|
            0 <= k < out@.len() ==> {
                &&& (#[trigger] out@[k]).message is Some ==> out@[k].message->Some_0
                    < messages@.len()
                &&& out@[k].entity is Some ==> out@[k].entity->Some_0 < users@.len()
                &&& out@[k].chat is Some ==> out@[k].chat->Some_0 < chats@.len()
            },
{
    let mut out: Vec<DialogLinks> = Vec::new();
    let mut i: usize = 0;
    while i < dialogs.len()
        invariant
            i <= dialogs@.len(),
            out@.len() == i,
            forall|k: int|
                0 <= k < i ==> #[trigger] out@[k] == spec_links(
                    dialogs@[k],
                    messages@,
                    users@,
                    chats@,
                ),
            forall|k: int|
                0 <= k < i ==> {
                    &&& (#[trigger] out@[k]).message is Some ==> out@[k].message->Some_0
                        < messages@.len()
                    &&& out@[k].entity is Some ==> out@[k].entity->Some_0 < users@.len()
                    &&& out@[k].chat is Some ==> out@[k].chat->Some_0 < chats@.len()
                },
        decreases dialogs@.len() - i,
    {
        let d = &dialogs[i];
        let top = match d {
            enums::Dialog::Dialog(x) => x.top_message,
            _ => 0,
        };
        let message = lookup_message(messages, top);
        let entity = match d {
            enums::Dialog::Dialog(x) => match x.peer {
                enums::Peer::User(u) => lookup_user(users, u.user_id),
                _ => None,
            },
            _ => None,
        };
        let chat = match d {
            enums::Dialog::Dialog(x) => match x.peer {
                enums::Peer::Chat(c) => lookup_chat(chats, c.chat_id),
                enums::Peer::Channel(c) => lookup_chat(chats, c.channel_id),
                _ => None,
            },
            _ => None,
        };
        out.push(DialogLinks { message, entity, chat });
        i += 1;
    }
    out
}

} // verus!
