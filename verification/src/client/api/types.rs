//! Constructors of the messaging API.

use vstd::prelude::*;
use crate::client::api::enums;

verus! {

#[derive(Clone, Copy, Debug, PartialEq, Eq, Structural)]
pub struct PeerUser {
    pub user_id: i64,
}

#[derive(Clone, Copy, Debug, PartialEq, Eq, Structural)]
pub struct PeerChat {
    pub chat_id: i64,
}

#[derive(Clone, Copy, Debug, PartialEq, Eq, Structural)]
pub struct PeerChannel {
    pub channel_id: i64,
}

#[derive(Clone, Copy, Debug, PartialEq, Eq, Structural)]
pub struct InputPeerChat {
    pub chat_id: i64,
}

#[derive(Clone, Copy, Debug, PartialEq, Eq, Structural)]
pub struct InputPeerUser {
    pub user_id: i64,
    pub access_hash: i64,
}

#[derive(Clone, Copy, Debug, PartialEq, Eq, Structural)]
pub struct InputPeerChannel {
    pub channel_id: i64,
    pub access_hash: i64,
}

#[derive(Clone, Copy, Debug, PartialEq, Eq, Structural)]
pub struct UserEmpty {
    pub id: i64,
}

#[derive(Clone, Debug, PartialEq, Eq)]
pub struct User {
    pub id: i64,
    pub access_hash: Option<i64>,
    pub first_name: Option<String>,
    pub last_name: Option<String>,
    pub username: Option<String>,
    pub bot: bool,
}

#[derive(Clone, Copy, Debug, PartialEq, Eq, Structural)]
pub struct ChatEmpty {
    pub id: i64,
}

#[derive(Clone, Debug, PartialEq, Eq)]
pub struct Chat {
    pub id: i64,
    pub title: String,
}

#[derive(Clone, Debug, PartialEq, Eq)]
pub struct ChatForbidden {
    pub id: i64,
    pub title: String,
}

#[derive(Clone, Debug, PartialEq, Eq)]
pub struct Channel {
    pub id: i64,
    pub access_hash: Option<i64>,
    pub title: String,
}

#[derive(Clone, Debug, PartialEq, Eq)]
pub struct ChannelForbidden {
    pub id: i64,
    pub access_hash: i64,
    pub title: String,
}

#[derive(Clone, Copy, Debug, PartialEq, Eq, Structural)]
pub struct MessageReplies {
    pub replies: i32,
    pub replies_pts: i32,
}

#[derive(Clone, Copy, Debug, PartialEq, Eq, Structural)]
pub struct MessageReplyHeader {
    pub reply_to_msg_id: Option<i32>,
    pub reply_to_top_id: Option<i32>,
}

#[derive(Clone, Copy, Debug, PartialEq, Eq, Structural)]
pub struct MessageReplyStoryHeader {
    pub story_id: i32,
}

#[derive(Clone, Debug, PartialEq, Eq)]
pub struct MessageFwdHeader {
    pub from_id: Option<enums::Peer>,
    pub from_name: Option<String>,
    pub date: i32,
}

/// The place and the extent of a piece of formatting, in UTF-16 code units.
#[derive(Clone, Copy, Debug, PartialEq, Eq, Structural)]
pub struct Span {
    pub offset: i32,
    pub length: i32,
}

#[derive(Clone, Debug, PartialEq, Eq)]
pub struct PhotoSize {
    pub kind: String,
    pub w: i32,
    pub h: i32,
    pub size: i32,
}

#[derive(Clone, Debug, PartialEq, Eq)]
pub struct Photo {
    pub id: i64,
    pub access_hash: i64,
    pub file_reference: Vec<u8>,
    pub sizes: Vec<enums::PhotoSize>,
}

#[derive(Clone, Debug, PartialEq, Eq)]
pub struct Document {
    pub id: i64,
    pub access_hash: i64,
    pub file_reference: Vec<u8>,
    pub mime_type: String,
    pub size: i64,
}

#[derive(Clone, Debug, PartialEq, Eq)]
pub struct MessageMediaPhoto {
    pub photo: Option<enums::Photo>,
}

#[derive(Clone, Debug, PartialEq, Eq)]
pub struct MessageMediaDocument {
    pub document: Option<enums::Document>,
}

#[derive(Clone, Debug, PartialEq, Eq)]
pub struct InputPhotoFileLocation {
    pub id: i64,
    pub access_hash: i64,
    pub file_reference: Vec<u8>,
    pub thumb_size: String,
}

#[derive(Clone, Debug, PartialEq, Eq)]
pub struct InputDocumentFileLocation {
    pub id: i64,
    pub access_hash: i64,
    pub file_reference: Vec<u8>,
    pub thumb_size: String,
}

#[derive(Clone, Debug, PartialEq, Eq)]
pub struct KeyboardButton {
    pub text: String,
    pub data: Option<Vec<u8>>,
    pub url: Option<String>,
}

#[derive(Clone, Debug, PartialEq, Eq)]
pub struct ReplyInlineMarkup {
    pub rows: Vec<Vec<KeyboardButton>>,
}

#[derive(Clone, Copy, Debug, PartialEq, Eq, Structural)]
pub struct MessageEmpty {
    pub id: i32,
}

#[derive(Clone, Debug, PartialEq, Eq)]
pub struct MessageService {
    pub out: bool,
    pub mentioned: bool,
    pub silent: bool,
    pub id: i32,
    pub from_id: Option<enums::Peer>,
    pub peer_id: enums::Peer,
    pub date: i32,
}

#[derive(Clone, Debug, PartialEq, Eq)]
pub struct Message {
    pub out: bool,
    pub mentioned: bool,
    pub media_unread: bool,
    pub silent: bool,
    pub post: bool,
    pub pinned: bool,
    pub noforwards: bool,
    pub id: i32,
    pub from_id: Option<enums::Peer>,
    pub peer_id: enums::Peer,
    pub fwd_from: Option<enums::MessageFwdHeader>,
    pub via_bot_id: Option<i64>,
    pub reply_to: Option<enums::MessageReplyHeader>,
    pub date: i32,
    pub message: String,
    pub media: Option<enums::MessageMedia>,
    pub reply_markup: Option<enums::ReplyMarkup>,
    pub entities: Option<Vec<enums::MessageEntity>>,
    pub views: Option<i32>,
    pub forwards: Option<i32>,
    pub replies: Option<enums::MessageReplies>,
    pub edit_date: Option<i32>,
    pub grouped_id: Option<i64>,
}

/// A direct message in its compact form.
#[derive(Clone, Debug, PartialEq, Eq)]
pub struct UpdateShortMessage {
    pub out: bool,
    pub mentioned: bool,
    pub media_unread: bool,
    pub silent: bool,
    pub id: i32,
    pub user_id: i64,
    pub message: String,
    pub pts: i32,
    pub pts_count: i32,
    pub date: i32,
    pub fwd_from: Option<enums::MessageFwdHeader>,
    pub via_bot_id: Option<i64>,
    pub reply_to: Option<enums::MessageReplyHeader>,
    pub entities: Option<Vec<enums::MessageEntity>>,
}

/// A group message in its compact form.
#[derive(Clone, Debug, PartialEq, Eq)]
pub struct UpdateShortChatMessage {
    pub out: bool,
    pub mentioned: bool,
    pub media_unread: bool,
    pub silent: bool,
    pub id: i32,
    pub from_id: i64,
    pub chat_id: i64,
    pub message: String,
    pub pts: i32,
    pub pts_count: i32,
    pub date: i32,
    pub fwd_from: Option<enums::MessageFwdHeader>,
    pub via_bot_id: Option<i64>,
    pub reply_to: Option<enums::MessageReplyHeader>,
    pub entities: Option<Vec<enums::MessageEntity>>,
}

#[derive(Clone, Debug, PartialEq, Eq)]
pub struct UpdateNewMessage {
    pub message: enums::Message,
    pub pts: i32,
    pub pts_count: i32,
}

#[derive(Clone, Debug, PartialEq, Eq)]
pub struct UpdateDeleteMessages {
    pub messages: Vec<i32>,
    pub pts: i32,
    pub pts_count: i32,
}

#[derive(Clone, Debug, PartialEq, Eq)]
pub struct UpdateDeleteChannelMessages {
    pub channel_id: i64,
    pub messages: Vec<i32>,
    pub pts: i32,
    pub pts_count: i32,
}

#[derive(Clone, Debug, PartialEq, Eq)]
pub struct UpdateBotCallbackQuery {
    pub query_id: i64,
    pub user_id: i64,
    pub peer: enums::Peer,
    pub msg_id: i32,
    pub chat_instance: i64,
    pub data: Option<Vec<u8>>,
    pub game_short_name: Option<String>,
}

#[derive(Clone, Debug, PartialEq, Eq)]
pub struct UpdateInlineBotCallbackQuery {
    pub query_id: i64,
    pub user_id: i64,
    pub msg_id: InlineMessageId,
    pub chat_instance: i64,
    pub data: Option<Vec<u8>>,
    pub game_short_name: Option<String>,
}

/// The identifier of a message that was sent through an inline query.
#[derive(Clone, Copy, Debug, PartialEq, Eq, Structural)]
pub struct InlineMessageId {
    pub dc_id: i32,
    pub id: i64,
    pub access_hash: i64,
}

#[derive(Clone, Debug, PartialEq, Eq)]
pub struct UpdateBotInlineQuery {
    pub query_id: i64,
    pub user_id: i64,
    pub query: String,
    pub offset: String,
}

#[derive(Clone, Debug, PartialEq, Eq)]
pub struct UpdateBotInlineSend {
    pub user_id: i64,
    pub query: String,
    pub id: String,
    pub msg_id: Option<InlineMessageId>,
}

#[derive(Clone, Debug, PartialEq, Eq)]
pub struct Dialog {
    pub peer: enums::Peer,
    pub top_message: i32,
    pub unread_count: i32,
}

#[derive(Clone, Debug, PartialEq, Eq)]
pub struct DialogFolder {
    pub folder_id: i32,
    pub top_message: i32,
}

/// A datacenter address, as the server's configuration lists it.
#[derive(Clone, Debug, PartialEq, Eq)]
pub struct DcOption {
    pub ipv6: bool,
    pub media_only: bool,
    pub tcpo_only: bool,
    pub cdn: bool,
    pub id: i32,
    pub ip_address: String,
    pub port: i32,
}

#[derive(Clone, Debug, PartialEq, Eq)]
pub struct InputReplyToMessage {
    pub reply_to_msg_id: i32,
    pub top_msg_id: Option<i32>,
}

#[derive(Clone, Debug, PartialEq, Eq)]
pub struct InputFile {
    pub id: i64,
    pub parts: i32,
    pub name: String,
    pub big: bool,
}

#[derive(Clone, Debug, PartialEq, Eq)]
pub struct DocumentAttributeFilename {
    pub file_name: String,
}

#[derive(Clone, Debug, PartialEq, Eq)]
pub struct InputMediaUploadedDocument {
    pub nosound_video: bool,
    pub force_file: bool,
    pub spoiler: bool,
    pub file: InputFile,
    pub mime_type: String,
    pub attributes: Vec<enums::DocumentAttribute>,
}

#[derive(Clone, Debug, PartialEq, Eq)]
pub struct InputMediaUploadedPhoto {
    pub spoiler: bool,
    pub file: InputFile,
}

/// The parameters of the password check that the server asks for.
#[derive(Clone, Debug, PartialEq, Eq)]
pub struct PasswordKdfAlgoModPow {
    pub salt1: Vec<u8>,
    pub salt2: Vec<u8>,
    pub g: i32,
    pub p: Vec<u8>,
}

/// The password settings of an account.
#[derive(Clone, Debug, PartialEq, Eq)]
pub struct Password {
    pub has_password: bool,
    pub current_algo: Option<enums::PasswordKdfAlgo>,
    pub srp_b: Option<Vec<u8>>,
    pub srp_id: Option<i64>,
    pub hint: Option<String>,
    pub secure_random: Vec<u8>,
}

/// What an administrator of a channel may do.
#[derive(Clone, Copy, Debug, PartialEq, Eq, Structural)]
pub struct ChatAdminRights {
    pub change_info: bool,
    pub post_messages: bool,
    pub edit_messages: bool,
    pub delete_messages: bool,
    pub ban_users: bool,
    pub invite_users: bool,
    pub pin_messages: bool,
    pub add_admins: bool,
    pub anonymous: bool,
    pub manage_call: bool,
    pub other: bool,
    pub manage_topics: bool,
    pub post_stories: bool,
    pub edit_stories: bool,
    pub delete_stories: bool,
    pub manage_direct_messages: bool,
}

/// What a member of a channel is kept from, and until when.
#[derive(Clone, Copy, Debug, PartialEq, Eq, Structural)]
pub struct ChatBannedRights {
    pub view_messages: bool,
    pub send_messages: bool,
    pub send_media: bool,
    pub send_stickers: bool,
    pub send_gifs: bool,
    pub send_games: bool,
    pub send_inline: bool,
    pub embed_links: bool,
    pub send_polls: bool,
    pub change_info: bool,
    pub invite_users: bool,
    pub pin_messages: bool,
    pub manage_topics: bool,
    pub send_photos: bool,
    pub send_videos: bool,
    pub send_roundvideos: bool,
    pub send_audios: bool,
    pub send_voices: bool,
    pub send_docs: bool,
    pub send_plain: bool,
    pub until_date: i32,
}

} // verus!
