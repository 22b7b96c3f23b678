//! Going through the chat list and through a chat's history page by page.

use vstd::prelude::*;
use crate::client::api::enums;
use crate::client::input_message::Dialog;
use crate::client::update::IncomingMessage;

verus! {

/// How many entries a page asks for.
pub const PAGE_SIZE: i32 = 100;

/// Where the next page of the chat list starts.
#[derive(Clone, Copy, Debug, PartialEq, Eq, Structural)]
pub struct DialogPage {
    pub offset_date: i32,
    pub offset_id: i32,
    pub offset_peer: enums::InputPeer,
    pub limit: i32,
}

/// What a cursor gives when asked for the next item.
#[derive(Debug, PartialEq, Eq)]
pub enum Pull<T, P> {
    /// The next item.
    Item(T),
    /// The items at hand are used up: this page must be fetched and handed
    /// in.
    Fetch(P),
    /// There is nothing more.
    Done,
}

/// A cursor over the chat list.
#[derive(Debug)]
pub struct DialogIter {
    offset_date: i32,
    offset_id: i32,
    offset_peer: enums::InputPeer,
    done: bool,
    buffer: Vec<Dialog>,
}

/// The date of a message; zero where it has none.
pub open spec fn spec_message_date(m: Option<enums::Message>) -> i32 {
    match m {
        Some(enums::Message::Message(x)) => x.date,
        Some(enums::Message::Service(x)) => x.date,
        _ => 0,
    }
}

impl DialogIter {
    /// The entries at hand, next first.
    pub closed spec fn buffered(self) -> Seq<Dialog> {
        self.buffer@
    }

    /// Whether the last page has been seen.
    pub closed spec fn finished(self) -> bool {
        self.done
    }

    /// Where the next page starts.
    pub closed spec fn position(self) -> DialogPage {
        DialogPage {
            offset_date: self.offset_date,
            offset_id: self.offset_id,
            offset_peer: self.offset_peer,
            limit: PAGE_SIZE,
        }
    }

    /// A cursor at the start of the chat list.
    pub fn new() -> (it: Self)
        ensures
            it.buffered() == Seq::<Dialog>::empty(),
            !it.finished(),
            it.position() == (DialogPage {
                offset_date: 0,
                offset_id: 0,
                offset_peer: enums::InputPeer::Empty,
                limit: PAGE_SIZE,
            }),
    {
        DialogIter {
            offset_date: 0,
            offset_id: 0,
            offset_peer: enums::InputPeer::Empty,
            done: false,
            buffer: Vec::new(),
        }
    }

    /// The next entry at hand; else the page to fetch; else the end.
    pub fn next(&mut self) -> (r: Pull<Dialog, DialogPage>)
        ensures
            final(self).finished() == old(self).finished(),
            final(self).position() == old(self).position(),
            old(self).buffered().len() > 0 ==> r == Pull::<Dialog, DialogPage>::Item(
                old(self).buffered()[0],
            ) && final(self).buffered() == old(self).buffered().skip(1),
            old(self).buffered().len() == 0 ==> final(self).buffered() == old(self).buffered()
                && r == if old(self).finished() {
                Pull::<Dialog, DialogPage>::Done
            } else {
                Pull::Fetch(old(self).position())
            },
    {
        if self.buffer.len() > 0 {
            let d = self.buffer.remove(0);
            assert(self.buffer@ =~= old(self).buffer@.skip(1));
            return Pull::Item(d);
        }
        if self.done {
            return Pull::Done;
        }
        Pull::Fetch(
            DialogPage {
                offset_date: self.offset_date,
                offset_id: self.offset_id,
                offset_peer: self.offset_peer,
                limit: PAGE_SIZE,
            },
        )
    }

    /// Takes a fetched page in. A page shorter than asked for is the last
    /// one. The next page starts behind the last entry of this one: at its
    /// message's date and number, and at its peer, where `next_peer` could be
    /// told for it.
    pub fn on_page(&mut self, dialogs: Vec<Dialog>, next_peer: Option<enums::InputPeer>)
        ensures
            final(self).buffered() == old(self).buffered() + dialogs@,
            final(self).finished() == (old(self).finished() || dialogs@.len() < PAGE_SIZE),
            dialogs@.len() == 0 ==> final(self).position() == old(self).position(),
            dialogs@.len() > 0 ==> final(self).position() == (DialogPage {
                offset_date: spec_message_date(dialogs@.last().message),
                offset_id: match dialogs@.last().raw {
                    enums::Dialog::Dialog(d) => d.top_message,
                    _ => 0,
                },
                offset_peer: match next_peer {
                    Some(p) => p,
                    None => old(self).position().offset_peer,
                },
                limit: PAGE_SIZE,
            }),
    {
        if dialogs.len() < PAGE_SIZE as usize {
            self.done = true;
        }
        if dialogs.len() > 0 {
            let last = &dialogs[dialogs.len() - 1];
            self.offset_date = match &last.message {
                Some(enums::Message::Message(x)) => x.date,
                Some(enums::Message::Service(x)) => x.date,
                _ => 0,
            };
            self.offset_id = last.top_message();
            match next_peer {
                Some(p) => {
                    self.offset_peer = p;
                },
                None => {},
            }
        }
        let mut page = dialogs;
        self.buffer.append(&mut page);
    }
}

/// Where the next page of a history starts.
#[derive(Clone, Copy, Debug, PartialEq, Eq, Structural)]
pub struct MessagePage {
    pub peer: enums::Peer,
    pub offset_id: i32,
    pub limit: i32,
}

/// A cursor over the history of a chat, newest message first.
#[derive(Debug)]
pub struct MessageIter {
    peer: enums::Peer,
    offset_id: i32,
    done: bool,
    buffer: Vec<IncomingMessage>,
}

/// The number of a message.
pub open spec fn spec_id(m: IncomingMessage) -> i32 {
    match m.raw {
        enums::Message::Message(x) => x.id,
        enums::Message::Service(x) => x.id,
        enums::Message::Empty(x) => x.id,
    }
}

impl MessageIter {
    /// The messages at hand, next first.
    pub closed spec fn buffered(self) -> Seq<IncomingMessage> {
        self.buffer@
    }

    /// Whether the last page has been seen.
    pub closed spec fn finished(self) -> bool {
        self.done
    }

    /// Where the next page starts.
    pub closed spec fn position(self) -> MessagePage {
        MessagePage { peer: self.peer, offset_id: self.offset_id, limit: PAGE_SIZE }
    }

    /// A cursor at the newest message of `peer`.
    pub fn new(peer: enums::Peer) -> (it: Self)
        ensures
            it.buffered() == Seq::<IncomingMessage>::empty(),
            !it.finished(),
            it.position() == (MessagePage { peer, offset_id: 0, limit: PAGE_SIZE }),
    {
        MessageIter { peer, offset_id: 0, done: false, buffer: Vec::new() }
    }

    /// The next message at hand; else the page to fetch; else the end.
    pub fn next(&mut self) -> (r: Pull<IncomingMessage, MessagePage>)
        ensures
            final(self).finished() == old(self).finished(),
            final(self).position() == old(self).position(),
            old(self).buffered().len() > 0 ==> r == Pull::<IncomingMessage, MessagePage>::Item(
                old(self).buffered()[0],
            ) && final(self).buffered() == old(self).buffered().skip(1),
            old(self).buffered().len() == 0 ==> final(self).buffered() == old(self).buffered()
                && r == if old(self).finished() {
                Pull::<IncomingMessage, MessagePage>::Done
            } else {
                Pull::Fetch(old(self).position())
            },
    {
        if self.buffer.len() > 0 {
            let m = self.buffer.remove(0);
            assert(self.buffer@ =~= old(self).buffer@.skip(1));
            return Pull::Item(m);
        }
        if self.done {
            return Pull::Done;
        }
        Pull::Fetch(MessagePage { peer: self.peer, offset_id: self.offset_id, limit: PAGE_SIZE })
    }

    /// Takes a fetched page in. A page shorter than asked for is the last
    /// one; the next page starts behind the last message of this one.
    pub fn on_page(&mut self, page: Vec<IncomingMessage>)
        ensures
            final(self).buffered() == old(self).buffered() + page@,
            final(self).finished() == (old(self).finished() || page@.len() < PAGE_SIZE),
            final(self).position() == (MessagePage {
                offset_id: if page@.len() > 0 {
                    spec_id(page@.last())
                } else {
                    old(self).position().offset_id
                },
                ..old(self).position()
            }),
    {
        if page.len() < PAGE_SIZE as usize {
            self.done = true;
        }
        if page.len() > 0 {
            self.offset_id = page[page.len() - 1].id();
        }
        let mut page = page;
        self.buffer.append(&mut page);
    }
}

} // verus!
