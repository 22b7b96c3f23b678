//! The access hashes of the users and channels that the client has seen.

use vstd::prelude::*;
use std::collections::HashMap;
use crate::client::api::enums;
use crate::client::api::types;

verus! {

broadcast use vstd::std_specs::hash::group_hash_axioms;

/// The access hashes by user and by channel.
#[derive(Debug)]
pub struct PeerCache {
    pub users: HashMap<i64, i64>,
    pub channels: HashMap<i64, i64>,
}

/// A peer whose access hash is not known.
#[derive(Clone, Copy, Debug, PartialEq, Eq, Structural)]
pub enum PeerError {
    UnknownUser { user_id: i64 },
    UnknownChannel { channel_id: i64 },
}

impl PeerError {
    /// The error in words.
    pub open spec fn text(self) -> Seq<char> {
        match self {
            PeerError::UnknownUser { user_id } => "no access hash known for user "@
                + crate::text::spec_decimal_text(user_id as int),
            PeerError::UnknownChannel { channel_id } => "no access hash known for channel "@
                + crate::text::spec_decimal_text(channel_id as int),
        }
    }

    /// The error in words.
    pub fn to_string(&self) -> (s: String)
        ensures
            s@ == self.text(),
    {
        match self {
            PeerError::UnknownUser { user_id } => crate::text::text_of(
                "no access hash known for user ",
            ).concat(crate::text::decimal_string(*user_id).as_str()),
            PeerError::UnknownChannel { channel_id } => crate::text::text_of(
                "no access hash known for channel ",
            ).concat(crate::text::decimal_string(*channel_id).as_str()),
        }
    }
}

/// The users with the hash of `user` added, where `user` carries one.
pub open spec fn with_user(users: Map<i64, i64>, user: enums::User) -> Map<i64, i64> {
    match user {
        enums::User::User(u) => match u.access_hash {
            Some(h) => users.insert(u.id, h),
            None => users,
        },
        _ => users,
    }
}

/// The channels with the hash of `chat` added, where `chat` is a channel
/// that carries one.
pub open spec fn with_chat(channels: Map<i64, i64>, chat: enums::Chat) -> Map<i64, i64> {
    match chat {
        enums::Chat::Channel(c) => match c.access_hash {
            Some(h) => channels.insert(c.id, h),
            None => channels,
        },
        enums::Chat::ChannelForbidden(c) => channels.insert(c.id, c.access_hash),
        _ => channels,
    }
}

/// The users with the hashes of `list` added, in order.
pub open spec fn with_users(users: Map<i64, i64>, list: Seq<enums::User>) -> Map<i64, i64>
    decreases list.len(),
{
    if list.len() == 0 {
        users
    } else {
        with_user(with_users(users, list.drop_last()), list.last())
    }
}

/// The channels with the hashes of `list` added, in order.
pub open spec fn with_chats(channels: Map<i64, i64>, list: Seq<enums::Chat>) -> Map<i64, i64>
    decreases list.len(),
{
    if list.len() == 0 {
        channels
    } else {
        with_chat(with_chats(channels, list.drop_last()), list.last())
    }
}

impl PeerCache {
    /// A cache that knows nobody.
    pub fn new() -> (c: Self)
        ensures
            c.users@ == Map::<i64, i64>::empty(),
            c.channels@ == Map::<i64, i64>::empty(),
    {
        PeerCache { users: HashMap::new(), channels: HashMap::new() }
    }

    /// Remembers the access hash of `user`, where it carries one.
    pub fn cache_user(&mut self, user: &enums::User)
        ensures
            final(self).users@ == with_user(old(self).users@, *user),
            final(self).channels@ == old(self).channels@,
    {
        match user {
            enums::User::User(u) => match u.access_hash {
                Some(hash) => {
                    self.users.insert(u.id, hash);
                },
                None => {},
            },
            _ => {},
        }
    }

    /// Remembers the access hash of `chat`, where it is a channel that
    /// carries one.
    pub fn cache_chat(&mut self, chat: &enums::Chat)
        ensures
            final(self).channels@ == with_chat(old(self).channels@, *chat),
            final(self).users@ == old(self).users@,
    {
        match chat {
            enums::Chat::Channel(c) => match c.access_hash {
                Some(hash) => {
                    self.channels.insert(c.id, hash);
                },
                None => {},
            },
            enums::Chat::ChannelForbidden(c) => {
                self.channels.insert(c.id, c.access_hash);
            },
            _ => {},
        }
    }

    /// Remembers the access hashes of `users`.
    pub fn cache_users(&mut self, users: &[enums::User])
        ensures
            final(self).users@ == with_users(old(self).users@, users@),
            final(self).channels@ == old(self).channels@,
    {
        let mut i: usize = 0;
        assert(users@.take(0) =~= Seq::<enums::User>::empty());
        while i < users.len()
            invariant
                i <= users@.len(),
                self.users@ == with_users(old(self).users@, users@.take(i as int)),
                self.channels@ == old(self).channels@,
            decreases users@.len() - i,
        {
            proof {
                assert(users@.take(i as int + 1).drop_last() =~= users@.take(i as int));
                assert(users@.take(i as int + 1).last() == users@[i as int]);
            }
            self.cache_user(&users[i]);
            i += 1;
        }
        assert(users@.take(users@.len() as int) =~= users@);
    }

    /// Remembers the access hashes of `chats`.
    pub fn cache_chats(&mut self, chats: &[enums::Chat])
        ensures
            final(self).channels@ == with_chats(old(self).channels@, chats@),
            final(self).users@ == old(self).users@,
    {
        let mut i: usize = 0;
        assert(chats@.take(0) =~= Seq::<enums::Chat>::empty());
        while i < chats.len()
            invariant
                i <= chats@.len(),
                self.channels@ == with_chats(old(self).channels@, chats@.take(i as int)),
                self.users@ == old(self).users@,
            decreases chats@.len() - i,
        {
            proof {
                assert(chats@.take(i as int + 1).drop_last() =~= chats@.take(i as int));
                assert(chats@.take(i as int + 1).last() == chats@[i as int]);
            }
            self.cache_chat(&chats[i]);
            i += 1;
        }
        assert(chats@.take(chats@.len() as int) =~= chats@);
    }

    /// The user `user_id` as the target of a request: ourselves for zero,
    /// else the user with the access hash that the cache holds. A user whose
    /// hash is not known is an error.
    pub fn user_input_peer(&self, user_id: i64) -> (r: Result<enums::InputPeer, PeerError>)
        ensures
            r == if user_id == 0 {
                Ok::<enums::InputPeer, PeerError>(enums::InputPeer::PeerSelf)
            } else if self.users@.contains_key(user_id) {
                Ok(
                    enums::InputPeer::User(
                        types::InputPeerUser { user_id, access_hash: self.users@[user_id] },
                    ),
                )
            } else {
                Err(PeerError::UnknownUser { user_id })
            },
    {
        if user_id == 0 {
            return Ok(enums::InputPeer::PeerSelf);
        }
        match self.users.get(&user_id) {
            Some(hash) => Ok(
                enums::InputPeer::User(types::InputPeerUser { user_id, access_hash: *hash }),
            ),
            None => Err(PeerError::UnknownUser { user_id }),
        }
    }

    /// The channel `channel_id` as the target of a request. A channel whose
    /// hash is not known is an error.
    pub fn channel_input_peer(&self, channel_id: i64) -> (r: Result<enums::InputPeer, PeerError>)
        ensures
            r == if self.channels@.contains_key(channel_id) {
                Ok::<enums::InputPeer, PeerError>(
                    enums::InputPeer::Channel(
                        types::InputPeerChannel {
                            channel_id,
                            access_hash: self.channels@[channel_id],
                        },
                    ),
                )
            } else {
                Err(PeerError::UnknownChannel { channel_id })
            },
    {
        match self.channels.get(&channel_id) {
            Some(hash) => Ok(
                enums::InputPeer::Channel(
                    types::InputPeerChannel { channel_id, access_hash: *hash },
                ),
            ),
            None => Err(PeerError::UnknownChannel { channel_id }),
        }
    }

    /// The peer `peer` as the target of a request.
    pub fn peer_to_input(&self, peer: &enums::Peer) -> (r: Result<enums::InputPeer, PeerError>)
        ensures
            r == match *peer {
                enums::Peer::User(u) => if u.user_id == 0 {
                    Ok::<enums::InputPeer, PeerError>(enums::InputPeer::PeerSelf)
                } else if self.users@.contains_key(u.user_id) {
                    Ok(
                        enums::InputPeer::User(
                            types::InputPeerUser {
                                user_id: u.user_id,
                                access_hash: self.users@[u.user_id],
                            },
                        ),
                    )
                } else {
                    Err(PeerError::UnknownUser { user_id: u.user_id })
                },
                enums::Peer::Chat(c) => Ok(
                    enums::InputPeer::Chat(types::InputPeerChat { chat_id: c.chat_id }),
                ),
                enums::Peer::Channel(c) => if self.channels@.contains_key(c.channel_id) {
                    Ok(
                        enums::InputPeer::Channel(
                            types::InputPeerChannel {
                                channel_id: c.channel_id,
                                access_hash: self.channels@[c.channel_id],
                            },
                        ),
                    )
                } else {
                    Err(PeerError::UnknownChannel { channel_id: c.channel_id })
                },
            },
    {
        match peer {
            enums::Peer::User(u) => self.user_input_peer(u.user_id),
            enums::Peer::Chat(c) => Ok(
                enums::InputPeer::Chat(types::InputPeerChat { chat_id: c.chat_id }),
            ),
            enums::Peer::Channel(c) => self.channel_input_peer(c.channel_id),
        }
    }
}

} // verus!
