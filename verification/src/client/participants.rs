//! The members of a chat.

use vstd::prelude::*;
use crate::client::api::enums;
use crate::client::api::types;

verus! {

/// A member of a chat or a channel.
#[derive(Clone, Debug, PartialEq, Eq)]
pub struct Participant {
    pub user: types::User,
    pub status: ParticipantStatus,
}

/// The standing of a member.
#[derive(Clone, Copy, Debug, PartialEq, Eq, Structural)]
pub enum ParticipantStatus {
    Member,
    Creator,
    Admin,
    Restricted,
    Left,
    Banned,
}

/// A member of a channel, as the server lists it.
#[derive(Clone, Copy, Debug, PartialEq, Eq, Structural)]
pub enum ChannelParticipant {
    ChannelParticipant { user_id: i64 },
    ParticipantSelf { user_id: i64 },
    Creator { user_id: i64 },
    Admin { user_id: i64 },
    Banned { peer: enums::Peer },
    Left { peer: enums::Peer },
}

/// A member of a group, as the server lists it.
#[derive(Clone, Copy, Debug, PartialEq, Eq, Structural)]
pub enum ChatParticipant {
    ChatParticipant { user_id: i64 },
    Creator { user_id: i64 },
    Admin { user_id: i64 },
}

/// The user that a peer is; zero for a peer that is no user.
pub open spec fn user_id_or_zero(peer: enums::Peer) -> i64 {
    match peer {
        enums::Peer::User(u) => u.user_id,
        _ => 0,
    }
}

/// The user and the standing of a member of a channel.
pub open spec fn spec_channel_member(p: ChannelParticipant) -> (i64, ParticipantStatus) {
    match p {
        ChannelParticipant::ChannelParticipant { user_id } => (user_id, ParticipantStatus::Member),
        ChannelParticipant::ParticipantSelf { user_id } => (user_id, ParticipantStatus::Member),
        ChannelParticipant::Creator { user_id } => (user_id, ParticipantStatus::Creator),
        ChannelParticipant::Admin { user_id } => (user_id, ParticipantStatus::Admin),
        ChannelParticipant::Banned { peer } => (user_id_or_zero(peer), ParticipantStatus::Banned),
        ChannelParticipant::Left { peer } => (user_id_or_zero(peer), ParticipantStatus::Left),
    }
}

/// The user and the standing of a member of a channel.
pub fn channel_member(p: &ChannelParticipant) -> (r: (i64, ParticipantStatus))
    ensures
        r == spec_channel_member(*p),
{
    match p {
        ChannelParticipant::ChannelParticipant { user_id } => (*user_id, ParticipantStatus::Member),
        ChannelParticipant::ParticipantSelf { user_id } => (*user_id, ParticipantStatus::Member),
        ChannelParticipant::Creator { user_id } => (*user_id, ParticipantStatus::Creator),
        ChannelParticipant::Admin { user_id } => (*user_id, ParticipantStatus::Admin),
        ChannelParticipant::Banned { peer } => (
            match peer {
                enums::Peer::User(u) => u.user_id,
                _ => 0,
            },
            ParticipantStatus::Banned,
        ),
        ChannelParticipant::Left { peer } => (
            match peer {
                enums::Peer::User(u) => u.user_id,
                _ => 0,
            },
            ParticipantStatus::Left,
        ),
    }
}

/// The user and the standing of a member of a group.
pub fn chat_member(p: &ChatParticipant) -> (r: (i64, ParticipantStatus))
    ensures
        r == match *p {
            ChatParticipant::ChatParticipant { user_id } => (user_id, ParticipantStatus::Member),
            ChatParticipant::Creator { user_id } => (user_id, ParticipantStatus::Creator),
            ChatParticipant::Admin { user_id } => (user_id, ParticipantStatus::Admin),
        },
{
    match p {
        ChatParticipant::ChatParticipant { user_id } => (*user_id, ParticipantStatus::Member),
        ChatParticipant::Creator { user_id } => (*user_id, ParticipantStatus::Creator),
        ChatParticipant::Admin { user_id } => (*user_id, ParticipantStatus::Admin),
    }
}

/// How many members a request asks for: the limit, or 200 where the limit
/// is not positive.
pub fn effective_limit(limit: i32) -> (r: i32)
    ensures
        r == if limit <= 0 {
            200
        } else {
            limit
        },
{
    if limit <= 0 {
        200
    } else {
        limit
    }
}

/// A member by its place in the list of users that came along.
#[derive(Clone, Copy, Debug, PartialEq, Eq, Structural)]
pub struct MemberLink {
    pub user: usize,
    pub status: ParticipantStatus,
}

/// The members `members`, in order, each with the place of its user in
/// `users`; members whose user did not come along are left out.
pub open spec fn spec_link_members(
    members: Seq<(i64, ParticipantStatus)>,
    users: Seq<enums::User>,
) -> Seq<MemberLink>
    decreases members.len(),
{
    if members.len() == 0 {
        Seq::empty()
    } else {
        let before = spec_link_members(members.drop_last(), users);
        match crate::client::dialogs::find_user(users, members.last().0) {
            Some(i) => before.push(MemberLink { user: i as usize, status: members.last().1 }),
            None => before,
        }
    }
}

/// Finds the last proper user with the identifier `id`.
fn lookup_user(users: &[enums::User], id: i64) -> (r: Option<usize>)
    ensures
        r == crate::client::dialogs::as_index(crate::client::dialogs::find_user(users@, id)),
        r is Some ==> r->Some_0 < users@.len(),
{
    let mut i: usize = users.len();
    assert(users@.take(i as int) =~= users@);
    while i > 0
        invariant
            i <= users@.len(),
            crate::client::dialogs::find_user(users@, id) == crate::client::dialogs::find_user(
                users@.take(i as int),
                id,
            ),
        decreases i,
    {
        i -= 1;
        assert(users@.take(i as int + 1).last() == users@[i as int]);
        match &users[i] {
            enums::User::User(u) => {
                if u.id == id {
                    return Some(i);
                }
            },
            _ => {},
        }
        assert(users@.take(i as int + 1).drop_last() =~= users@.take(i as int));
    }
    None
}

/// Joins the members with the users that came along.
pub fn link_members(members: &[(i64, ParticipantStatus)], users: &[enums::User]) -> (out: Vec<
    MemberLink,
>)
    ensures
        out@ == spec_link_members(members@, users@),
        forall|k: int| 0 <= k < out@.len() ==> (#[trigger] out@[k]).user < users@.len(),
{
    let mut out: Vec<MemberLink> = Vec::new();
    let mut i: usize = 0;
    assert(members@.take(0) =~= Seq::<(i64, ParticipantStatus)>::empty());
    while i < members.len()
        invariant
            i <= members@.len(),
            out@ == spec_link_members(members@.take(i as int), users@),
            forall|k: int| 0 <= k < out@.len() ==> (#[trigger] out@[k]).user < users@.len(),
        decreases members@.len() - i,
    {
        proof {
            assert(members@.take(i as int + 1).drop_last() =~= members@.take(i as int));
            assert(members@.take(i as int + 1).last() == members@[i as int]);
        }
        let (user_id, status) = members[i];
        match lookup_user(users, user_id) {
            Some(at) => {
                out.push(MemberLink { user: at, status });
            },
            None => {},
        }
        i += 1;
    }
    assert(members@.take(members@.len() as int) =~= members@);
    out
}

/// The rights of a member who is made an administrator: everything about
/// messages, members and calls, but neither naming administrators nor acting
/// unnamed, and nothing about topics and stories. A member who is no
/// administrator any more keeps none.
pub open spec fn spec_admin_rights(promote: bool) -> types::ChatAdminRights {
    types::ChatAdminRights {
        change_info: promote,
        post_messages: promote,
        edit_messages: promote,
        delete_messages: promote,
        ban_users: promote,
        invite_users: promote,
        pin_messages: promote,
        add_admins: false,
        anonymous: false,
        manage_call: promote,
        other: false,
        manage_topics: false,
        post_stories: false,
        edit_stories: false,
        delete_stories: false,
        manage_direct_messages: false,
    }
}

/// The rights to give a member who is made an administrator, or who is
/// none any more.
pub fn admin_rights(promote: bool) -> (r: types::ChatAdminRights)
    ensures
        r == spec_admin_rights(promote),
{
    types::ChatAdminRights {
        change_info: promote,
        post_messages: promote,
        edit_messages: promote,
        delete_messages: promote,
        ban_users: promote,
        invite_users: promote,
        pin_messages: promote,
        add_admins: false,
        anonymous: false,
        manage_call: promote,
        other: false,
        manage_topics: false,
        post_stories: false,
        edit_stories: false,
        delete_stories: false,
        manage_direct_messages: false,
    }
}

/// What a banned member is kept from until `until_date` (for ever where it
/// is zero): reading, sending of any kind that has a right of long
/// standing, and changing the channel.
pub open spec fn spec_banned_rights(until_date: i32) -> types::ChatBannedRights {
    types::ChatBannedRights {
        view_messages: true,
        send_messages: true,
        send_media: true,
        send_stickers: true,
        send_gifs: true,
        send_games: true,
        send_inline: true,
        embed_links: true,
        send_polls: true,
        change_info: true,
        invite_users: true,
        pin_messages: true,
        manage_topics: false,
        send_photos: false,
        send_videos: false,
        send_roundvideos: false,
        send_audios: false,
        send_voices: false,
        send_docs: false,
        send_plain: false,
        until_date,
    }
}

/// What a member who is banned until `until_date` is kept from.
pub fn banned_rights(until_date: i32) -> (r: types::ChatBannedRights)
    ensures
        r == spec_banned_rights(until_date),
{
    types::ChatBannedRights {
        view_messages: true,
        send_messages: true,
        send_media: true,
        send_stickers: true,
        send_gifs: true,
        send_games: true,
        send_inline: true,
        embed_links: true,
        send_polls: true,
        change_info: true,
        invite_users: true,
        pin_messages: true,
        manage_topics: false,
        send_photos: false,
        send_videos: false,
        send_roundvideos: false,
        send_audios: false,
        send_voices: false,
        send_docs: false,
        send_plain: false,
        until_date,
    }
}

/// The channel that `peer` is, for a request that only a channel takes.
pub fn channel_of(peer: &enums::Peer) -> (r: Option<i64>)
    ensures
        r == match *peer {
            enums::Peer::Channel(c) => Some(c.channel_id),
            _ => None::<i64>,
        },
{
    match peer {
        enums::Peer::Channel(c) => Some(c.channel_id),
        _ => None,
    }
}

} // verus!
