//! The counters of a session before a key exists.

use vstd::prelude::*;
use crate::mtproto::message::{spec_message_id, unix_time, Message, MessageId};
use crate::tl::{RemoteCall, Serializable};

verus! {

/// The message counter and the sequence number of a connection.
#[derive(Debug)]
pub struct Session {
    msg_counter: u32,
    seq_no: i32,
    last_msg_id: u64,
}

/// The identifier to hand out after `last` when the clock and the counter
/// give `fresh`: `fresh` where that is greater, else four more than `last`.
pub open spec fn spec_next_plain_id(last: u64, fresh: u64) -> u64 {
    if fresh > last {
        fresh
    } else {
        last.wrapping_add(4)
    }
}

impl Session {
    /// Number of identifiers handed out, modulo 2³².
    pub closed spec fn counter(self) -> u32 {
        self.msg_counter
    }

    /// Twice the number of content-related messages so far, modulo 2³².
    pub closed spec fn sequence(self) -> i32 {
        self.seq_no
    }

    /// The identifier handed out last; zero before the first.
    pub closed spec fn last_id(self) -> u64 {
        self.last_msg_id
    }

    /// A fresh session: both counters at zero, no identifier handed out.
    pub fn new() -> (s: Self)
        ensures
            s.counter() == 0,
            s.sequence() == 0,
            s.last_id() == 0,
    {
        Self { msg_counter: 0, seq_no: 0, last_msg_id: 0 }
    }

    /// Advances the message counter and hands out the identifier for the
    /// time `unix_secs`: the one that the time and the counter give, or four
    /// more than the last one where that would not be greater. So the
    /// identifiers of a session grow, also where the clock steps back.
    pub fn next_msg_id_at(&mut self, unix_secs: u64) -> (id: MessageId)
        ensures
            final(self).counter() == old(self).counter().wrapping_add(1),
            final(self).sequence() == old(self).sequence(),
            id.0 == spec_next_plain_id(
                old(self).last_id(),
                spec_message_id(unix_secs, final(self).counter()),
            ),
            final(self).last_id() == id.0,
            old(self).last_id() <= u64::MAX - 4 ==> id.0 > old(self).last_id(),
            old(self).last_id() % 4 == 0 && final(self).counter() <= 0x3fff_ffff ==> id.0 % 4 == 0,
    {
        self.msg_counter = self.msg_counter.wrapping_add(1);
        let fresh = MessageId::at(unix_secs, self.msg_counter);
        let last = self.last_msg_id;
        let id = if fresh.0 > last {
            fresh.0
        } else {
            last.wrapping_add(4)
        };
        proof {
            let f: u64 = fresh.0;
            assert(f & 3 == 0 ==> f % 4 == 0) by (bit_vector);
        }
        self.last_msg_id = id;
        MessageId(id)
    }

    /// Advances the message counter and hands out the identifier for now.
    pub fn next_msg_id(&mut self) -> (id: MessageId)
        ensures
            final(self).counter() == old(self).counter().wrapping_add(1),
            final(self).sequence() == old(self).sequence(),
            exists|secs: u64|
                id.0 == spec_next_plain_id(
                    old(self).last_id(),
                    #[trigger] spec_message_id(secs, final(self).counter()),
                ),
            final(self).last_id() == id.0,
            old(self).last_id() <= u64::MAX - 4 ==> id.0 > old(self).last_id(),
            old(self).last_id() % 4 == 0 && final(self).counter() <= 0x3fff_ffff ==> id.0 % 4 == 0,
    {
        let (secs, _) = unix_time();
        self.next_msg_id_at(secs)
    }

    /// The sequence number of the next content-related message, which is
    /// odd; the counter moves on by two.
    pub fn next_seq_no(&mut self) -> (n: i32)
        ensures
            n == old(self).sequence() | 1,
            n & 1 == 1,
            final(self).sequence() == old(self).sequence().wrapping_add(2),
            final(self).counter() == old(self).counter(),
            final(self).last_id() == old(self).last_id(),
    {
        let n = self.seq_no;
        self.seq_no = self.seq_no.wrapping_add(2);
        assert((n | 1) & 1 == 1) by (bit_vector);
        n | 1
    }

    /// The sequence number of a message that is not content-related, which
    /// is even; the counter stays.
    pub fn next_seq_no_unrelated(&mut self) -> (n: i32)
        ensures
            n == old(self).sequence() & !1,
            n & 1 == 0,
            *final(self) == *old(self),
    {
        let n = self.seq_no;
        assert((n & !1) & 1 == 0) by (bit_vector);
        n & !1
    }

    /// Makes the message that carries the request `call`.
    pub fn pack<R: RemoteCall>(&mut self, call: &R) -> (m: Message)
        ensures
            m.body@ == R::ser(call.deep_view()),
            m.seq_no == old(self).sequence() | 1,
            final(self).sequence() == old(self).sequence().wrapping_add(2),
            final(self).counter() == old(self).counter().wrapping_add(1),
            exists|secs: u64|
                m.id.0 == spec_next_plain_id(
                    old(self).last_id(),
                    #[trigger] spec_message_id(secs, final(self).counter()),
                ),
            final(self).last_id() == m.id.0,
            old(self).last_id() <= u64::MAX - 4 ==> m.id.0 > old(self).last_id(),
    {
        let id = self.next_msg_id();
        let seq_no = self.next_seq_no();
        let body = call.to_bytes();
        Message::plaintext(id, seq_no, body)
    }
}

impl Default for Session {
    fn default() -> (s: Self)
        ensures
            s.counter() == 0,
            s.sequence() == 0,
            s.last_id() == 0,
    {
        Self::new()
    }
}

} // verus!
