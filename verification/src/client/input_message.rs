//! Outgoing messages and the entries of the chat list.

use vstd::prelude::*;
use vstd::utf8::encode_utf8;
use crate::client::api::enums;
use crate::client::api::types;
use crate::client::session::{lenient_text, spec_lenient_text};
use crate::text::{str_copy, trim, trimmed};
use crate::tl::wire::push_all;

verus! {

/// A message to send. Made with `text` and the builder functions:
///
/// ```text
/// InputMessage::text("Hello").silent(true).reply_to(Some(42))
/// ```
#[derive(Clone, Debug, PartialEq, Eq)]
pub struct InputMessage {
    pub text: String,
    pub reply_to: Option<i32>,
    pub silent: bool,
    pub background: bool,
    pub clear_draft: bool,
    pub no_webpage: bool,
    pub entities: Option<Vec<enums::MessageEntity>>,
    pub reply_markup: Option<enums::ReplyMarkup>,
    pub schedule_date: Option<i32>,
}

impl InputMessage {
    /// A message with the text `text` and nothing else set.
    pub fn text(text: &str) -> (m: Self)
        ensures
            m.text@ == text@,
            m.reply_to is None,
            !m.silent,
            !m.background,
            !m.clear_draft,
            !m.no_webpage,
            m.entities is None,
            m.reply_markup is None,
            m.schedule_date is None,
    {
        Self {
            text: str_copy(text),
            reply_to: None,
            silent: false,
            background: false,
            clear_draft: false,
            no_webpage: false,
            entities: None,
            reply_markup: None,
            schedule_date: None,
        }
    }

    /// The message with the text `text`.
    pub fn set_text(self, text: &str) -> (m: Self)
        ensures
            m.text@ == text@,
            m == (InputMessage { text: m.text, ..self }),
    {
        let mut m = self;
        m.text = str_copy(text);
        m
    }

    /// The message as an answer to the message `id`, or to none.
    pub fn reply_to(self, id: Option<i32>) -> (m: Self)
        ensures
            m == (InputMessage { reply_to: id, ..self }),
    {
        let mut m = self;
        m.reply_to = id;
        m
    }

    /// The message with or without a notification.
    pub fn silent(self, v: bool) -> (m: Self)
        ensures
            m == (InputMessage { silent: v, ..self }),
    {
        let mut m = self;
        m.silent = v;
        m
    }

    /// The message sent in the background or not.
    pub fn background(self, v: bool) -> (m: Self)
        ensures
            m == (InputMessage { background: v, ..self }),
    {
        let mut m = self;
        m.background = v;
        m
    }

    /// Whether sending clears the draft.
    pub fn clear_draft(self, v: bool) -> (m: Self)
        ensures
            m == (InputMessage { clear_draft: v, ..self }),
    {
        let mut m = self;
        m.clear_draft = v;
        m
    }

    /// Whether links get no preview.
    pub fn no_webpage(self, v: bool) -> (m: Self)
        ensures
            m == (InputMessage { no_webpage: v, ..self }),
    {
        let mut m = self;
        m.no_webpage = v;
        m
    }

    /// The message with the formatting `e`.
    pub fn entities(self, e: Vec<enums::MessageEntity>) -> (m: Self)
        ensures
            m == (InputMessage { entities: Some(e), ..self }),
    {
        let mut m = self;
        m.entities = Some(e);
        m
    }

    /// The message with the keyboard `rm`.
    pub fn reply_markup(self, rm: enums::ReplyMarkup) -> (m: Self)
        ensures
            m == (InputMessage { reply_markup: Some(rm), ..self }),
    {
        let mut m = self;
        m.reply_markup = Some(rm);
        m
    }

    /// The message to be sent at `ts`, or at once.
    pub fn schedule_date(self, ts: Option<i32>) -> (m: Self)
        ensures
            m == (InputMessage { schedule_date: ts, ..self }),
    {
        let mut m = self;
        m.schedule_date = ts;
        m
    }

    /// What the request says of the message that this one answers.
    pub fn reply_header(&self) -> (r: Option<enums::InputReplyTo>)
        ensures
            r == match self.reply_to {
                Some(id) => Some(
                    enums::InputReplyTo::Message(
                        types::InputReplyToMessage { reply_to_msg_id: id, top_msg_id: None },
                    ),
                ),
                None => None,
            },
    {
        match self.reply_to {
            Some(id) => Some(
                enums::InputReplyTo::Message(
                    types::InputReplyToMessage { reply_to_msg_id: id, top_msg_id: None },
                ),
            ),
            None => None,
        }
    }
}

/// An entry of the chat list, with what the server sent along for it.
#[derive(Clone, Debug, PartialEq, Eq)]
pub struct Dialog {
    pub raw: enums::Dialog,
    pub message: Option<enums::Message>,
    pub entity: Option<enums::User>,
    pub chat: Option<enums::Chat>,
}

/// The text of an optional string; empty where there is none.
pub open spec fn text_or_empty(s: Option<String>) -> Seq<char> {
    match s {
        Some(t) => t@,
        None => Seq::empty(),
    }
}

/// First and last name with a space between them, without white space
/// at the ends.
pub open spec fn spec_full_name(first: Option<String>, last: Option<String>) -> Seq<char> {
    crate::text::trim_text(text_or_empty(first) + seq![' '] + text_or_empty(last))
}

/// First and last name with a space between them, without white space at
/// the ends.
pub fn full_name(first: &Option<String>, last: &Option<String>) -> (name: String)
    ensures
        name@ == spec_full_name(*first, *last),
{
    let mut joined = match first {
        Some(f) => str_copy(f.as_str()),
        None => String::new(),
    };
    proof {
        reveal_strlit(" ");
    }
    joined.append(" ");
    match last {
        Some(l) => {
            joined.append(l.as_str());
        },
        None => {
            assert(joined@ =~= joined@ + Seq::<char>::empty());
        },
    }
    assert(joined@ =~= text_or_empty(*first) + seq![' '] + text_or_empty(*last));
    str_copy(crate::text::trim_str(joined.as_str()))
}

impl Dialog {
    /// The title of the entry: the user's name where there is a user with
    /// a name, else the chat's title, else `(Unknown)`.
    pub open spec fn spec_title(&self) -> Seq<char> {
        let name = match self.entity {
            Some(enums::User::User(u)) => spec_full_name(u.first_name, u.last_name),
            _ => Seq::empty(),
        };
        if name.len() > 0 {
            name
        } else {
            match self.chat {
                Some(enums::Chat::Chat(c)) => c.title@,
                Some(enums::Chat::Forbidden(c)) => c.title@,
                Some(enums::Chat::Channel(c)) => c.title@,
                Some(enums::Chat::ChannelForbidden(c)) => c.title@,
                Some(enums::Chat::Empty(_)) => "(empty)"@,
                None => "(Unknown)"@,
            }
        }
    }

    /// The title of the entry.
    pub fn title(&self) -> (t: String)
        ensures
            t@ == self.spec_title(),
    {
        match &self.entity {
            Some(enums::User::User(u)) => {
                let name = full_name(&u.first_name, &u.last_name);
                if name.as_str().unicode_len() > 0 {
                    return name;
                }
            },
            _ => {},
        }
        match &self.chat {
            Some(enums::Chat::Chat(c)) => str_copy(c.title.as_str()),
            Some(enums::Chat::Forbidden(c)) => str_copy(c.title.as_str()),
            Some(enums::Chat::Channel(c)) => str_copy(c.title.as_str()),
            Some(enums::Chat::ChannelForbidden(c)) => str_copy(c.title.as_str()),
            Some(enums::Chat::Empty(_)) => str_copy("(empty)"),
            None => str_copy("(Unknown)"),
        }
    }

    /// The chat of the entry; none for a folder.
    pub fn peer(&self) -> (r: Option<&enums::Peer>)
        ensures
            r == match self.raw {
                enums::Dialog::Dialog(d) => Some(&d.peer),
                enums::Dialog::Folder(_) => None,
            },
    {
        match &self.raw {
            enums::Dialog::Dialog(d) => Some(&d.peer),
            enums::Dialog::Folder(_) => None,
        }
    }

    /// Number of unread messages; zero for a folder.
    pub fn unread_count(&self) -> (n: i32)
        ensures
            n == match self.raw {
                enums::Dialog::Dialog(d) => d.unread_count,
                _ => 0,
            },
    {
        match &self.raw {
            enums::Dialog::Dialog(d) => d.unread_count,
            _ => 0,
        }
    }

    /// The number of the newest message; zero for a folder.
    pub fn top_message(&self) -> (n: i32)
        ensures
            n == match self.raw {
                enums::Dialog::Dialog(d) => d.top_message,
                _ => 0,
            },
    {
        match &self.raw {
            enums::Dialog::Dialog(d) => d.top_message,
            _ => 0,
        }
    }
}

/// The display name of a user: first and last name, or `(unknown)` for an
/// empty user.
pub fn extract_user_name(user: &enums::User) -> (name: String)
    ensures
        name@ == match *user {
            enums::User::User(u) => spec_full_name(u.first_name, u.last_name),
            enums::User::Empty(_) => "(unknown)"@,
        },
{
    match user {
        enums::User::User(u) => {
            full_name(&u.first_name, &u.last_name)
        },
        enums::User::Empty(_) => str_copy("(unknown)"),
    }
}

} // verus!
