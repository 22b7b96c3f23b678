//! Boxed types of the messaging API.

use vstd::prelude::*;
use crate::client::api::types;

verus! {

#[derive(Clone, Copy, Debug, PartialEq, Eq, Structural)]
pub enum Peer {
    User(types::PeerUser),
    Chat(types::PeerChat),
    Channel(types::PeerChannel),
}

#[derive(Clone, Copy, Debug, PartialEq, Eq, Structural)]
pub enum InputPeer {
    Empty,
    PeerSelf,
    Chat(types::InputPeerChat),
    User(types::InputPeerUser),
    Channel(types::InputPeerChannel),
}

#[derive(Clone, Debug, PartialEq, Eq)]
pub enum User {
    Empty(types::UserEmpty),
    User(types::User),
}

#[derive(Clone, Debug, PartialEq, Eq)]
pub enum Chat {
    Empty(types::ChatEmpty),
    Chat(types::Chat),
    Forbidden(types::ChatForbidden),
    Channel(types::Channel),
    ChannelForbidden(types::ChannelForbidden),
}

#[derive(Clone, Copy, Debug, PartialEq, Eq, Structural)]
pub enum MessageReplies {
    MessageReplies(types::MessageReplies),
}

#[derive(Clone, Copy, Debug, PartialEq, Eq, Structural)]
pub enum MessageReplyHeader {
    MessageReplyHeader(types::MessageReplyHeader),
    MessageReplyStoryHeader(types::MessageReplyStoryHeader),
}

#[derive(Clone, Debug, PartialEq, Eq)]
pub enum MessageFwdHeader {
    MessageFwdHeader(types::MessageFwdHeader),
}

/// A piece of formatting of a message's text.
#[derive(Clone, Debug, PartialEq, Eq)]
pub enum MessageEntity {
    Unknown(types::Span),
    Mention(types::Span),
    Hashtag(types::Span),
    BotCommand(types::Span),
    Url(types::Span),
    Email(types::Span),
    Bold(types::Span),
    Italic(types::Span),
    Code(types::Span),
    Pre { span: types::Span, language: String },
    TextUrl { span: types::Span, url: String },
    MentionName { span: types::Span, user_id: i64 },
    Underline(types::Span),
    Strike(types::Span),
    Blockquote(types::Span),
    Spoiler(types::Span),
    CustomEmoji { span: types::Span, document_id: i64 },
}

#[derive(Clone, Debug, PartialEq, Eq)]
pub enum PhotoSize {
    Empty,
    PhotoSize(types::PhotoSize),
    Other,
}

#[derive(Clone, Debug, PartialEq, Eq)]
pub enum Photo {
    Empty,
    Photo(types::Photo),
}

#[derive(Clone, Debug, PartialEq, Eq)]
pub enum Document {
    Empty,
    Document(types::Document),
}

#[derive(Clone, Debug, PartialEq, Eq)]
pub enum MessageMedia {
    Empty,
    Photo(types::MessageMediaPhoto),
    Document(types::MessageMediaDocument),
    Other,
}

#[derive(Clone, Debug, PartialEq, Eq)]
pub enum InputFileLocation {
    InputPhotoFileLocation(types::InputPhotoFileLocation),
    InputDocumentFileLocation(types::InputDocumentFileLocation),
}

#[derive(Clone, Debug, PartialEq, Eq)]
pub enum ReplyMarkup {
    ReplyKeyboardHide,
    ReplyKeyboardForceReply,
    ReplyInlineMarkup(types::ReplyInlineMarkup),
}

#[derive(Clone, Debug, PartialEq, Eq)]
pub enum Message {
    Empty(types::MessageEmpty),
    Message(types::Message),
    Service(types::MessageService),
}

#[derive(Clone, Debug, PartialEq, Eq)]
pub enum Dialog {
    Dialog(types::Dialog),
    Folder(types::DialogFolder),
}

#[derive(Clone, Debug, PartialEq, Eq)]
pub enum DcOption {
    DcOption(types::DcOption),
}

#[derive(Clone, Debug, PartialEq, Eq)]
pub enum InputReplyTo {
    Message(types::InputReplyToMessage),
}

#[derive(Clone, Debug, PartialEq, Eq)]
pub enum DocumentAttribute {
    Filename(types::DocumentAttributeFilename),
}

#[derive(Clone, Debug, PartialEq, Eq)]
pub enum InputMedia {
    UploadedPhoto(types::InputMediaUploadedPhoto),
    UploadedDocument(types::InputMediaUploadedDocument),
}

#[derive(Clone, Debug, PartialEq, Eq)]
pub enum PasswordKdfAlgo {
    Unknown,
    Sha256Sha256Pbkdf2Hmacsha512iter100000Sha256ModPow(types::PasswordKdfAlgoModPow),
}

/// The updates that carry nothing that the client reads: of these only
/// the kind is kept.
#[derive(Clone, Copy, Debug, PartialEq, Eq, Structural)]
pub enum UpdateKind {
    AttachMenuBots,
    AutoSaveSettings,
    BotBusinessConnect,
    BotChatBoost,
    BotChatInviteRequester,
    BotCommands,
    BotDeleteBusinessMessage,
    BotEditBusinessMessage,
    BotMenuButton,
    BotMessageReaction,
    BotMessageReactions,
    BotNewBusinessMessage,
    BotPrecheckoutQuery,
    BotPurchasedPaidMedia,
    BotShippingQuery,
    BotStopped,
    BotWebhookJson,
    BotWebhookJsonquery,
    BusinessBotCallbackQuery,
    Channel,
    ChannelAvailableMessages,
    ChannelMessageForwards,
    ChannelMessageViews,
    ChannelParticipant,
    ChannelReadMessagesContents,
    ChannelTooLong,
    ChannelUserTyping,
    ChannelViewForumAsMessages,
    ChannelWebPage,
    Chat,
    ChatDefaultBannedRights,
    ChatParticipant,
    ChatParticipantAdd,
    ChatParticipantAdmin,
    ChatParticipantDelete,
    ChatParticipants,
    ChatUserTyping,
    Config,
    ContactsReset,
    DcOptions,
    DeleteGroupCallMessages,
    DeleteQuickReply,
    DeleteQuickReplyMessages,
    DeleteScheduledMessages,
    DialogFilter,
    DialogFilterOrder,
    DialogFilters,
    DialogPinned,
    DialogUnreadMark,
    DraftMessage,
    EmojiGameInfo,
    EncryptedChatTyping,
    EncryptedMessagesRead,
    Encryption,
    FavedStickers,
    FolderPeers,
    GeoLiveViewed,
    GroupCall,
    GroupCallChainBlocks,
    GroupCallConnection,
    GroupCallEncryptedMessage,
    GroupCallMessage,
    GroupCallParticipants,
    LangPack,
    LangPackTooLong,
    LoginToken,
    MessageExtendedMedia,
    MessageId,
    MessagePoll,
    MessagePollVote,
    MessageReactions,
    MonoForumNoPaidException,
    MoveStickerSetToTop,
    NewAuthorization,
    NewEncryptedMessage,
    NewQuickReply,
    NewScheduledMessage,
    NewStickerSet,
    NewStoryReaction,
    NotifySettings,
    PaidReactionPrivacy,
    PeerBlocked,
    PeerHistoryTtl,
    PeerLocated,
    PeerSettings,
    PeerWallpaper,
    PendingJoinRequests,
    PhoneCall,
    PhoneCallSignalingData,
    PinnedChannelMessages,
    PinnedDialogs,
    PinnedForumTopic,
    PinnedForumTopics,
    PinnedMessages,
    PinnedSavedDialogs,
    Privacy,
    PtsChanged,
    QuickReplies,
    QuickReplyMessage,
    ReadChannelDiscussionInbox,
    ReadChannelDiscussionOutbox,
    ReadChannelInbox,
    ReadChannelOutbox,
    ReadFeaturedEmojiStickers,
    ReadFeaturedStickers,
    ReadHistoryInbox,
    ReadHistoryOutbox,
    ReadMessagesContents,
    ReadMonoForumInbox,
    ReadMonoForumOutbox,
    ReadStories,
    RecentEmojiStatuses,
    RecentReactions,
    RecentStickers,
    SavedDialogPinned,
    SavedGifs,
    SavedReactionTags,
    SavedRingtones,
    SentPhoneCode,
    SentStoryReaction,
    ServiceNotification,
    SmsJob,
    StarGiftAuctionState,
    StarGiftAuctionUserState,
    StarGiftCraftFail,
    StarsBalance,
    StarsRevenueStatus,
    StickerSets,
    StickerSetsOrder,
    StoriesStealthMode,
    Story,
    StoryId,
    Theme,
    TranscribedAudio,
    User,
    UserEmojiStatus,
    UserName,
    UserPhone,
    UserStatus,
    UserTyping,
    WebPage,
    WebViewResultSent,
}

/// An update.
#[derive(Clone, Debug, PartialEq, Eq)]
pub enum Update {
    BotCallbackQuery(types::UpdateBotCallbackQuery),
    BotInlineQuery(types::UpdateBotInlineQuery),
    BotInlineSend(types::UpdateBotInlineSend),
    DeleteChannelMessages(types::UpdateDeleteChannelMessages),
    DeleteMessages(types::UpdateDeleteMessages),
    EditChannelMessage(types::UpdateNewMessage),
    EditMessage(types::UpdateNewMessage),
    InlineBotCallbackQuery(types::UpdateInlineBotCallbackQuery),
    NewChannelMessage(types::UpdateNewMessage),
    NewMessage(types::UpdateNewMessage),
    Other(UpdateKind),
}

impl UpdateKind {
    /// The constructor ID of the updates of this kind.
    pub open spec fn spec_constructor_id(self) -> u32 {
        match self {
            UpdateKind::AttachMenuBots => 0x17b7a20b,
            UpdateKind::AutoSaveSettings => 0xec05b097,
            UpdateKind::BotBusinessConnect => 0x8ae5c97a,
            UpdateKind::BotChatBoost => 0x904dd49c,
            UpdateKind::BotChatInviteRequester => 0x11dfa986,
            UpdateKind::BotCommands => 0x4d712f2e,
            UpdateKind::BotDeleteBusinessMessage => 0xa02a982e,
            UpdateKind::BotEditBusinessMessage => 0x07df587c,
            UpdateKind::BotMenuButton => 0x14b85813,
            UpdateKind::BotMessageReaction => 0xac21d3ce,
            UpdateKind::BotMessageReactions => 0x09cb7759,
            UpdateKind::BotNewBusinessMessage => 0x9ddb347c,
            UpdateKind::BotPrecheckoutQuery => 0x8caa9a96,
            UpdateKind::BotPurchasedPaidMedia => 0x283bd312,
            UpdateKind::BotShippingQuery => 0xb5aefd7d,
            UpdateKind::BotStopped => 0xc4870a49,
            UpdateKind::BotWebhookJson => 0x8317c0c3,
            UpdateKind::BotWebhookJsonquery => 0x9b9240a6,
            UpdateKind::BusinessBotCallbackQuery => 0x1ea2fda7,
            UpdateKind::Channel => 0x635b4c09,
            UpdateKind::ChannelAvailableMessages => 0xb23fc698,
            UpdateKind::ChannelMessageForwards => 0xd29a27f4,
            UpdateKind::ChannelMessageViews => 0xf226ac08,
            UpdateKind::ChannelParticipant => 0x985d3abb,
            UpdateKind::ChannelReadMessagesContents => 0x25f324f7,
            UpdateKind::ChannelTooLong => 0x108d941f,
            UpdateKind::ChannelUserTyping => 0x8c88c923,
            UpdateKind::ChannelViewForumAsMessages => 0x07b68920,
            UpdateKind::ChannelWebPage => 0x2f2ba99f,
            UpdateKind::Chat => 0xf89a6a4e,
            UpdateKind::ChatDefaultBannedRights => 0x54c01850,
            UpdateKind::ChatParticipant => 0xd087663a,
            UpdateKind::ChatParticipantAdd => 0x3dda5451,
            UpdateKind::ChatParticipantAdmin => 0xd7ca61a2,
            UpdateKind::ChatParticipantDelete => 0xe32f3d77,
            UpdateKind::ChatParticipants => 0x07761198,
            UpdateKind::ChatUserTyping => 0x83487af0,
            UpdateKind::Config => 0xa229dd06,
            UpdateKind::ContactsReset => 0x7084a7be,
            UpdateKind::DcOptions => 0x8e5e9873,
            UpdateKind::DeleteGroupCallMessages => 0x3e85e92c,
            UpdateKind::DeleteQuickReply => 0x53e6f1ec,
            UpdateKind::DeleteQuickReplyMessages => 0x566fe7cd,
            UpdateKind::DeleteScheduledMessages => 0xf2a71983,
            UpdateKind::DialogFilter => 0x26ffde7d,
            UpdateKind::DialogFilterOrder => 0xa5d72105,
            UpdateKind::DialogFilters => 0x3504914f,
            UpdateKind::DialogPinned => 0x6e6fe51c,
            UpdateKind::DialogUnreadMark => 0xb658f23e,
            UpdateKind::DraftMessage => 0xedfc111e,
            UpdateKind::EmojiGameInfo => 0xfb9c547a,
            UpdateKind::EncryptedChatTyping => 0x1710f156,
            UpdateKind::EncryptedMessagesRead => 0x38fe25b7,
            UpdateKind::Encryption => 0xb4a2e88d,
            UpdateKind::FavedStickers => 0xe511996d,
            UpdateKind::FolderPeers => 0x19360dc0,
            UpdateKind::GeoLiveViewed => 0x871fb939,
            UpdateKind::GroupCall => 0x9d2216e0,
            UpdateKind::GroupCallChainBlocks => 0xa477288f,
            UpdateKind::GroupCallConnection => 0x0b783982,
            UpdateKind::GroupCallEncryptedMessage => 0xc957a766,
            UpdateKind::GroupCallMessage => 0xd8326f0d,
            UpdateKind::GroupCallParticipants => 0xf2ebdb4e,
            UpdateKind::LangPack => 0x56022f4d,
            UpdateKind::LangPackTooLong => 0x46560264,
            UpdateKind::LoginToken => 0x564fe691,
            UpdateKind::MessageExtendedMedia => 0xd5a41724,
            UpdateKind::MessageId => 0x4e90bfd6,
            UpdateKind::MessagePoll => 0xaca1657b,
            UpdateKind::MessagePollVote => 0x24f40e77,
            UpdateKind::MessageReactions => 0x1e297bfa,
            UpdateKind::MonoForumNoPaidException => 0x9f812b08,
            UpdateKind::MoveStickerSetToTop => 0x86fccf85,
            UpdateKind::NewAuthorization => 0x8951abef,
            UpdateKind::NewEncryptedMessage => 0x12bcbd9a,
            UpdateKind::NewQuickReply => 0xf53da717,
            UpdateKind::NewScheduledMessage => 0x39a51dfb,
            UpdateKind::NewStickerSet => 0x688a30aa,
            UpdateKind::NewStoryReaction => 0x1824e40b,
            UpdateKind::NotifySettings => 0xbec268ef,
            UpdateKind::PaidReactionPrivacy => 0x8b725fce,
            UpdateKind::PeerBlocked => 0xebe07752,
            UpdateKind::PeerHistoryTtl => 0xbb9bb9a5,
            UpdateKind::PeerLocated => 0xb4afcfb0,
            UpdateKind::PeerSettings => 0x6a7e7366,
            UpdateKind::PeerWallpaper => 0xae3f101d,
            UpdateKind::PendingJoinRequests => 0x7063c3db,
            UpdateKind::PhoneCall => 0xab0f6b1e,
            UpdateKind::PhoneCallSignalingData => 0x2661bf09,
            UpdateKind::PinnedChannelMessages => 0x5bb98608,
            UpdateKind::PinnedDialogs => 0xfa0f3ca2,
            UpdateKind::PinnedForumTopic => 0x683b2c52,
            UpdateKind::PinnedForumTopics => 0xdef143d0,
            UpdateKind::PinnedMessages => 0xed85eab5,
            UpdateKind::PinnedSavedDialogs => 0x686c85a6,
            UpdateKind::Privacy => 0xee3b272a,
            UpdateKind::PtsChanged => 0x3354678f,
            UpdateKind::QuickReplies => 0xf9470ab2,
            UpdateKind::QuickReplyMessage => 0x3e050d0f,
            UpdateKind::ReadChannelDiscussionInbox => 0xd6b19546,
            UpdateKind::ReadChannelDiscussionOutbox => 0x695c9e7c,
            UpdateKind::ReadChannelInbox => 0x922e6e10,
            UpdateKind::ReadChannelOutbox => 0xb75f99a9,
            UpdateKind::ReadFeaturedEmojiStickers => 0xfb4c496c,
            UpdateKind::ReadFeaturedStickers => 0x571d2742,
            UpdateKind::ReadHistoryInbox => 0x9e84bc99,
            UpdateKind::ReadHistoryOutbox => 0x2f2f21bf,
            UpdateKind::ReadMessagesContents => 0xf8227181,
            UpdateKind::ReadMonoForumInbox => 0x77b0e372,
            UpdateKind::ReadMonoForumOutbox => 0xa4a79376,
            UpdateKind::ReadStories => 0xf74e932b,
            UpdateKind::RecentEmojiStatuses => 0x30f443db,
            UpdateKind::RecentReactions => 0x6f7863f4,
            UpdateKind::RecentStickers => 0x9a422c20,
            UpdateKind::SavedDialogPinned => 0xaeaf9e74,
            UpdateKind::SavedGifs => 0x9375341e,
            UpdateKind::SavedReactionTags => 0x39c67432,
            UpdateKind::SavedRingtones => 0x74d8be99,
            UpdateKind::SentPhoneCode => 0x504aa18f,
            UpdateKind::SentStoryReaction => 0x7d627683,
            UpdateKind::ServiceNotification => 0xebe46819,
            UpdateKind::SmsJob => 0xf16269d4,
            UpdateKind::StarGiftAuctionState => 0x48e246c2,
            UpdateKind::StarGiftAuctionUserState => 0xdc58f31e,
            UpdateKind::StarGiftCraftFail => 0xac072444,
            UpdateKind::StarsBalance => 0x4e80a379,
            UpdateKind::StarsRevenueStatus => 0xa584b019,
            UpdateKind::StickerSets => 0x31c24808,
            UpdateKind::StickerSetsOrder => 0x0bb2d201,
            UpdateKind::StoriesStealthMode => 0x2c084dc1,
            UpdateKind::Story => 0x75b3b798,
            UpdateKind::StoryId => 0x1bf335b9,
            UpdateKind::Theme => 0x8216fba3,
            UpdateKind::TranscribedAudio => 0x0084cd5a,
            UpdateKind::User => 0x20529438,
            UpdateKind::UserEmojiStatus => 0x28373599,
            UpdateKind::UserName => 0xa7848924,
            UpdateKind::UserPhone => 0x05492a13,
            UpdateKind::UserStatus => 0xe5bdf8de,
            UpdateKind::UserTyping => 0x2a17bf5c,
            UpdateKind::WebPage => 0x7f891213,
            UpdateKind::WebViewResultSent => 0x1592b79d,
        }
    }

    /// The constructor ID of the updates of this kind.
    pub fn constructor_id(&self) -> (id: u32)
        ensures
            id == self.spec_constructor_id(),
    {
        match self {
            UpdateKind::AttachMenuBots => 0x17b7a20b,
            UpdateKind::AutoSaveSettings => 0xec05b097,
            UpdateKind::BotBusinessConnect => 0x8ae5c97a,
            UpdateKind::BotChatBoost => 0x904dd49c,
            UpdateKind::BotChatInviteRequester => 0x11dfa986,
            UpdateKind::BotCommands => 0x4d712f2e,
            UpdateKind::BotDeleteBusinessMessage => 0xa02a982e,
            UpdateKind::BotEditBusinessMessage => 0x07df587c,
            UpdateKind::BotMenuButton => 0x14b85813,
            UpdateKind::BotMessageReaction => 0xac21d3ce,
            UpdateKind::BotMessageReactions => 0x09cb7759,
            UpdateKind::BotNewBusinessMessage => 0x9ddb347c,
            UpdateKind::BotPrecheckoutQuery => 0x8caa9a96,
            UpdateKind::BotPurchasedPaidMedia => 0x283bd312,
            UpdateKind::BotShippingQuery => 0xb5aefd7d,
            UpdateKind::BotStopped => 0xc4870a49,
            UpdateKind::BotWebhookJson => 0x8317c0c3,
            UpdateKind::BotWebhookJsonquery => 0x9b9240a6,
            UpdateKind::BusinessBotCallbackQuery => 0x1ea2fda7,
            UpdateKind::Channel => 0x635b4c09,
            UpdateKind::ChannelAvailableMessages => 0xb23fc698,
            UpdateKind::ChannelMessageForwards => 0xd29a27f4,
            UpdateKind::ChannelMessageViews => 0xf226ac08,
            UpdateKind::ChannelParticipant => 0x985d3abb,
            UpdateKind::ChannelReadMessagesContents => 0x25f324f7,
            UpdateKind::ChannelTooLong => 0x108d941f,
            UpdateKind::ChannelUserTyping => 0x8c88c923,
            UpdateKind::ChannelViewForumAsMessages => 0x07b68920,
            UpdateKind::ChannelWebPage => 0x2f2ba99f,
            UpdateKind::Chat => 0xf89a6a4e,
            UpdateKind::ChatDefaultBannedRights => 0x54c01850,
            UpdateKind::ChatParticipant => 0xd087663a,
            UpdateKind::ChatParticipantAdd => 0x3dda5451,
            UpdateKind::ChatParticipantAdmin => 0xd7ca61a2,
            UpdateKind::ChatParticipantDelete => 0xe32f3d77,
            UpdateKind::ChatParticipants => 0x07761198,
            UpdateKind::ChatUserTyping => 0x83487af0,
            UpdateKind::Config => 0xa229dd06,
            UpdateKind::ContactsReset => 0x7084a7be,
            UpdateKind::DcOptions => 0x8e5e9873,
            UpdateKind::DeleteGroupCallMessages => 0x3e85e92c,
            UpdateKind::DeleteQuickReply => 0x53e6f1ec,
            UpdateKind::DeleteQuickReplyMessages => 0x566fe7cd,
            UpdateKind::DeleteScheduledMessages => 0xf2a71983,
            UpdateKind::DialogFilter => 0x26ffde7d,
            UpdateKind::DialogFilterOrder => 0xa5d72105,
            UpdateKind::DialogFilters => 0x3504914f,
            UpdateKind::DialogPinned => 0x6e6fe51c,
            UpdateKind::DialogUnreadMark => 0xb658f23e,
            UpdateKind::DraftMessage => 0xedfc111e,
            UpdateKind::EmojiGameInfo => 0xfb9c547a,
            UpdateKind::EncryptedChatTyping => 0x1710f156,
            UpdateKind::EncryptedMessagesRead => 0x38fe25b7,
            UpdateKind::Encryption => 0xb4a2e88d,
            UpdateKind::FavedStickers => 0xe511996d,
            UpdateKind::FolderPeers => 0x19360dc0,
            UpdateKind::GeoLiveViewed => 0x871fb939,
            UpdateKind::GroupCall => 0x9d2216e0,
            UpdateKind::GroupCallChainBlocks => 0xa477288f,
            UpdateKind::GroupCallConnection => 0x0b783982,
            UpdateKind::GroupCallEncryptedMessage => 0xc957a766,
            UpdateKind::GroupCallMessage => 0xd8326f0d,
            UpdateKind::GroupCallParticipants => 0xf2ebdb4e,
            UpdateKind::LangPack => 0x56022f4d,
            UpdateKind::LangPackTooLong => 0x46560264,
            UpdateKind::LoginToken => 0x564fe691,
            UpdateKind::MessageExtendedMedia => 0xd5a41724,
            UpdateKind::MessageId => 0x4e90bfd6,
            UpdateKind::MessagePoll => 0xaca1657b,
            UpdateKind::MessagePollVote => 0x24f40e77,
            UpdateKind::MessageReactions => 0x1e297bfa,
            UpdateKind::MonoForumNoPaidException => 0x9f812b08,
            UpdateKind::MoveStickerSetToTop => 0x86fccf85,
            UpdateKind::NewAuthorization => 0x8951abef,
            UpdateKind::NewEncryptedMessage => 0x12bcbd9a,
            UpdateKind::NewQuickReply => 0xf53da717,
            UpdateKind::NewScheduledMessage => 0x39a51dfb,
            UpdateKind::NewStickerSet => 0x688a30aa,
            UpdateKind::NewStoryReaction => 0x1824e40b,
            UpdateKind::NotifySettings => 0xbec268ef,
            UpdateKind::PaidReactionPrivacy => 0x8b725fce,
            UpdateKind::PeerBlocked => 0xebe07752,
            UpdateKind::PeerHistoryTtl => 0xbb9bb9a5,
            UpdateKind::PeerLocated => 0xb4afcfb0,
            UpdateKind::PeerSettings => 0x6a7e7366,
            UpdateKind::PeerWallpaper => 0xae3f101d,
            UpdateKind::PendingJoinRequests => 0x7063c3db,
            UpdateKind::PhoneCall => 0xab0f6b1e,
            UpdateKind::PhoneCallSignalingData => 0x2661bf09,
            UpdateKind::PinnedChannelMessages => 0x5bb98608,
            UpdateKind::PinnedDialogs => 0xfa0f3ca2,
            UpdateKind::PinnedForumTopic => 0x683b2c52,
            UpdateKind::PinnedForumTopics => 0xdef143d0,
            UpdateKind::PinnedMessages => 0xed85eab5,
            UpdateKind::PinnedSavedDialogs => 0x686c85a6,
            UpdateKind::Privacy => 0xee3b272a,
            UpdateKind::PtsChanged => 0x3354678f,
            UpdateKind::QuickReplies => 0xf9470ab2,
            UpdateKind::QuickReplyMessage => 0x3e050d0f,
            UpdateKind::ReadChannelDiscussionInbox => 0xd6b19546,
            UpdateKind::ReadChannelDiscussionOutbox => 0x695c9e7c,
            UpdateKind::ReadChannelInbox => 0x922e6e10,
            UpdateKind::ReadChannelOutbox => 0xb75f99a9,
            UpdateKind::ReadFeaturedEmojiStickers => 0xfb4c496c,
            UpdateKind::ReadFeaturedStickers => 0x571d2742,
            UpdateKind::ReadHistoryInbox => 0x9e84bc99,
            UpdateKind::ReadHistoryOutbox => 0x2f2f21bf,
            UpdateKind::ReadMessagesContents => 0xf8227181,
            UpdateKind::ReadMonoForumInbox => 0x77b0e372,
            UpdateKind::ReadMonoForumOutbox => 0xa4a79376,
            UpdateKind::ReadStories => 0xf74e932b,
            UpdateKind::RecentEmojiStatuses => 0x30f443db,
            UpdateKind::RecentReactions => 0x6f7863f4,
            UpdateKind::RecentStickers => 0x9a422c20,
            UpdateKind::SavedDialogPinned => 0xaeaf9e74,
            UpdateKind::SavedGifs => 0x9375341e,
            UpdateKind::SavedReactionTags => 0x39c67432,
            UpdateKind::SavedRingtones => 0x74d8be99,
            UpdateKind::SentPhoneCode => 0x504aa18f,
            UpdateKind::SentStoryReaction => 0x7d627683,
            UpdateKind::ServiceNotification => 0xebe46819,
            UpdateKind::SmsJob => 0xf16269d4,
            UpdateKind::StarGiftAuctionState => 0x48e246c2,
            UpdateKind::StarGiftAuctionUserState => 0xdc58f31e,
            UpdateKind::StarGiftCraftFail => 0xac072444,
            UpdateKind::StarsBalance => 0x4e80a379,
            UpdateKind::StarsRevenueStatus => 0xa584b019,
            UpdateKind::StickerSets => 0x31c24808,
            UpdateKind::StickerSetsOrder => 0x0bb2d201,
            UpdateKind::StoriesStealthMode => 0x2c084dc1,
            UpdateKind::Story => 0x75b3b798,
            UpdateKind::StoryId => 0x1bf335b9,
            UpdateKind::Theme => 0x8216fba3,
            UpdateKind::TranscribedAudio => 0x0084cd5a,
            UpdateKind::User => 0x20529438,
            UpdateKind::UserEmojiStatus => 0x28373599,
            UpdateKind::UserName => 0xa7848924,
            UpdateKind::UserPhone => 0x05492a13,
            UpdateKind::UserStatus => 0xe5bdf8de,
            UpdateKind::UserTyping => 0x2a17bf5c,
            UpdateKind::WebPage => 0x7f891213,
            UpdateKind::WebViewResultSent => 0x1592b79d,
        }
    }
}

impl Update {
    /// The constructor ID of the update.
    pub open spec fn spec_constructor_id(self) -> u32 {
        match self {
            Update::BotCallbackQuery(_) => 0xb9cfc48d,
            Update::BotInlineQuery(_) => 0x496f379c,
            Update::BotInlineSend(_) => 0x12f12a07,
            Update::DeleteChannelMessages(_) => 0xc32d5b12,
            Update::DeleteMessages(_) => 0xa20db0e5,
            Update::EditChannelMessage(_) => 0x1b3f4df7,
            Update::EditMessage(_) => 0xe40370a3,
            Update::InlineBotCallbackQuery(_) => 0x691e9052,
            Update::NewChannelMessage(_) => 0x62ba04d9,
            Update::NewMessage(_) => 0x1f2b0afd,
            Update::Other(kind) => kind.spec_constructor_id(),
        }
    }
}

} // verus!
