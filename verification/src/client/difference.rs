//! Taking in what `updates.getDifference` brings.

use vstd::prelude::*;
use crate::client::api::enums;
use crate::client::peer_cache::{with_chats, with_users, PeerCache};
use crate::client::pts::{GapAction, PtsState, State};
use crate::client::update::{
    from_single_update, spec_classify, spec_classify_all, IncomingMessage, Update,
};

verus! {

/// What the server answers to `updates.getDifference`.
#[derive(Clone, Debug, PartialEq, Eq)]
pub enum Difference {
    /// Nothing was missed.
    Empty { date: i32, seq: i32 },
    /// All that was missed.
    Difference {
        new_messages: Vec<enums::Message>,
        other_updates: Vec<enums::Update>,
        users: Vec<enums::User>,
        chats: Vec<enums::Chat>,
        state: State,
    },
    /// A part of what was missed; more is to be fetched from the state
    /// given.
    Slice {
        new_messages: Vec<enums::Message>,
        other_updates: Vec<enums::Update>,
        users: Vec<enums::User>,
        chats: Vec<enums::Chat>,
        intermediate_state: State,
    },
    /// Too much was missed to send it.
    TooLong { pts: i32 },
}

/// The events for new messages, in order.
pub open spec fn spec_new_messages(messages: Seq<enums::Message>) -> Seq<Update> {
    Seq::new(messages.len(), |i: int| Update::NewMessage(IncomingMessage { raw: messages[i] }))
}

/// The events that a difference brings: first its new messages, then its
/// other updates, each in order.
pub open spec fn spec_events(diff: Difference) -> Seq<Update> {
    match diff {
        Difference::Difference { new_messages, other_updates, .. } => spec_new_messages(
            new_messages@,
        ) + spec_classify_all(other_updates@),
        Difference::Slice { new_messages, other_updates, .. } => spec_new_messages(new_messages@)
            + spec_classify_all(other_updates@),
        _ => Seq::empty(),
    }
}

/// The counters after a difference: date and sequence move on after an
/// empty one; a full one and a slice bring the counters of their state; one
/// that was too long lets the main counter jump.
pub open spec fn spec_state_after(state: PtsState, diff: Difference) -> PtsState {
    match diff {
        Difference::Empty { date, seq } => PtsState { date, seq, ..state },
        Difference::Difference { state: s, .. } => PtsState {
            pts: s.pts,
            qts: s.qts,
            date: s.date,
            seq: s.seq,
        },
        Difference::Slice { intermediate_state: s, .. } => PtsState {
            pts: s.pts,
            qts: s.qts,
            date: s.date,
            seq: s.seq,
        },
        Difference::TooLong { pts } => PtsState { pts, ..state },
    }
}

/// What is to be done after a difference: after a slice the next slice
/// is fetched; after one that was too long the server's state is asked for;
/// otherwise nothing.
pub open spec fn spec_follow_up(state: PtsState, diff: Difference) -> Option<GapAction> {
    match diff {
        Difference::Slice { intermediate_state: s, .. } => Some(
            GapAction::FetchDifference { pts: s.pts, qts: s.qts, date: s.date },
        ),
        Difference::TooLong { .. } => Some(GapAction::SyncState),
        _ => None,
    }
}

/// The events for the messages and the updates of a difference.
fn events_of(new_messages: Vec<enums::Message>, other_updates: Vec<enums::Update>) -> (out: Vec<
    Update,
>)
    ensures
        out@ == spec_new_messages(new_messages@) + spec_classify_all(other_updates@),
{
    let mut out: Vec<Update> = Vec::new();
    let ghost messages = new_messages@;
    let mut rest = new_messages;
    let mut reversed: Vec<enums::Message> = Vec::new();
    while rest.len() > 0
        invariant
            reversed@.len() + rest@.len() == messages.len(),
            forall|k: int| 0 <= k < rest@.len() ==> rest@[k] == messages[k],
            forall|k: int|
                0 <= k < reversed@.len() ==> reversed@[k] == messages[messages.len() - 1 - k],
        decreases rest@.len(),
    {
        match rest.pop() {
            Some(m) => {
                reversed.push(m);
            },
            None => {},
        }
    }
    while reversed.len() > 0
        invariant
            out@.len() + reversed@.len() == messages.len(),
            forall|k: int|
                0 <= k < reversed@.len() ==> reversed@[k] == messages[messages.len() - 1 - k],
            forall|k: int|
                0 <= k < out@.len() ==> out@[k] == Update::NewMessage(
                    IncomingMessage { raw: messages[k] },
                ),
        decreases reversed@.len(),
    {
        match reversed.pop() {
            Some(m) => {
                out.push(Update::NewMessage(IncomingMessage::from_raw(m)));
            },
            None => {},
        }
    }
    assert(out@ =~= spec_new_messages(messages));
    let mut others = crate::client::update::parse_updates(other_updates);
    out.append(&mut others);
    out
}

/// The users that a difference brings along.
pub open spec fn spec_users(diff: Difference) -> Seq<enums::User> {
    match diff {
        Difference::Difference { users, .. } => users@,
        Difference::Slice { users, .. } => users@,
        _ => Seq::empty(),
    }
}

/// The chats that a difference brings along.
pub open spec fn spec_chats(diff: Difference) -> Seq<enums::Chat> {
    match diff {
        Difference::Difference { chats, .. } => chats@,
        Difference::Slice { chats, .. } => chats@,
        _ => Seq::empty(),
    }
}

/// Takes a difference in: the counters move as the difference says, the
/// access hashes of the users and chats that came along are remembered, and
/// the events that it brings are handed out together with what is to be done
/// next.
pub fn apply_difference(state: &mut PtsState, cache: &mut PeerCache, diff: Difference) -> (r: (
    Vec<Update>,
    Option<GapAction>,
))
    ensures
        r.0@ == spec_events(diff),
        r.1 == spec_follow_up(*old(state), diff),
        *final(state) == spec_state_after(*old(state), diff),
        final(cache).users@ == with_users(old(cache).users@, spec_users(diff)),
        final(cache).channels@ == with_chats(old(cache).channels@, spec_chats(diff)),
{
    match diff {
        Difference::Empty { date, seq } => {
            state.on_difference_empty(date, seq);
            (Vec::new(), None)
        },
        Difference::Difference { new_messages, other_updates, users, chats, state: s } => {
            cache.cache_users(users.as_slice());
            cache.cache_chats(chats.as_slice());
            let events = events_of(new_messages, other_updates);
            *state = PtsState::from_server_state(&s);
            (events, None)
        },
        Difference::Slice { new_messages, other_updates, users, chats, intermediate_state: s } => {
            cache.cache_users(users.as_slice());
            cache.cache_chats(chats.as_slice());
            let events = events_of(new_messages, other_updates);
            *state = PtsState::from_server_state(&s);
            (events, Some(GapAction::FetchDifference { pts: s.pts, qts: s.qts, date: s.date }))
        },
        Difference::TooLong { pts } => {
            let action = state.on_difference_too_long(pts);
            (Vec::new(), Some(action))
        },
    }
}

} // verus!
