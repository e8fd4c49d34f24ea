use vstd::prelude::*;

use crate::app::folder_reconciliation::{FolderOperationResult, FolderReconciliation};
use crate::ids::{AvatarId, ChatId, MessageId};
use crate::view::{TextEntity, Action, AttachmentView, ChatView, ComposerMovement, ConnectionState, DownloadView, FolderView, MediaPreviewView, MessageView};

verus! {

/// A draft stored for a history.
#[derive(Debug)]
pub struct DraftView {
    pub chat: ChatId,
    pub thread_root: Option<MessageId>,
    pub text: String,
    pub reply_to: Option<MessageId>,
}

/// The stored messages of a history.
#[derive(Debug)]
pub struct HistoryView {
    pub chat: ChatId,
    pub thread_root: Option<MessageId>,
    pub messages: Vec<MessageView>,
}

/// Everything the account holds when the application starts or reconnects.
#[derive(Debug)]
pub struct Bootstrap {
    pub connection: ConnectionState,
    pub account_name: String,
    pub folders: Vec<FolderView>,
    pub chats: Vec<ChatView>,
    pub drafts: Vec<DraftView>,
    pub histories: Vec<HistoryView>,
    /// The history of the chat that opens first.
    pub messages: Vec<MessageView>,
}

/// What the Telegram side reports to the application.
pub enum AdapterEvent {
    Bootstrap(Bootstrap),
    ConnectionRestored(Bootstrap),
    ConnectionChanged(ConnectionState),
    ConnectionFailed(String),
    OperationFailed(String),
    OperationCompleted(String),
    ChatDiscovered { chat: ChatView },
    MessageAdded { chat: ChatId, message: Box<MessageView> },
    MessageUpdated { chat: ChatId, message: Box<MessageView> },
    AvatarChanged { peer: ChatId, id: Option<AvatarId> },
    MessageEditFailed {
        chat: ChatId,
        message: MessageId,
        text: String,
        attachments: Vec<AttachmentView>,
        reason: String,
    },
    MessagesDeleted { chat: Option<ChatId>, ids: Vec<MessageId> },
    HistoryRead { chat: ChatId, max_id: MessageId, outgoing: bool, unread: Option<u32> },
    ChatArchiveChanged { chat: ChatId, archived: bool },
    FolderMembershipChanged { chat: ChatId, folder: i32, included: bool },
    HistoryLoadFailed { chat: ChatId, thread_root: Option<MessageId>, reason: String },
    AttachmentPathRequired { chat: ChatId, thread_root: Option<MessageId> },
    TelegramLinkResolved { chat: ChatView },
    DownloadReady { chat: ChatId, download: DownloadView },
    MediaPreviewReady(MediaPreviewView),
    MediaPreviewFailed { chat: ChatId, message: MessageId },
    ChatMuteChanged { chat: ChatId, muted: bool },
    /// The Markdown rendering of the draft text that a `FormatDraft` effect asked for.
    DraftFormatted { formatted: String, entities: Vec<TextEntity> },
    FolderOperationCompleted {
        result: FolderOperationResult,
        reconciliation: Option<Box<FolderReconciliation>>,
    },
    FolderOperationFailed(String),
    ClipboardReady {
        chat: ChatId,
        thread_root: Option<MessageId>,
        text: Option<String>,
        attachments: Vec<AttachmentView>,
    },
    MessageAcknowledged { chat: ChatId, local_id: MessageId },
    MessageFailed {
        chat: ChatId,
        local_id: MessageId,
        thread_root: Option<MessageId>,
        saved_peer: Option<ChatId>,
        text: String,
        reason: String,
    },
}

/// What the user asks of the application.
pub enum Intent {
    Insert(String),
    Backspace,
    MoveComposerCursor(ComposerMovement),
    Action(Action),
}

pub enum Input {
    Adapter(AdapterEvent),
    Intent(Intent),
}

/// The event that a completed send reports: the message as the server stored it.
pub fn successful_send_event(chat: ChatId, message: MessageView) -> (event: AdapterEvent)
    ensures
        event matches AdapterEvent::MessageAdded { chat: c, message: m } && c == chat
            && *m == message,
{
    AdapterEvent::MessageAdded { chat, message: Box::new(message) }
}

} // verus!
