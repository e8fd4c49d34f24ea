use vstd::prelude::*;

use crate::folder_arguments::FolderRules;
use crate::ids::{AvatarRef, ChatId, MessageId, PreviewKey};

verus! {

/// Which pane receives keyboard input.
#[derive(Clone, Copy, Debug, PartialEq, Eq, Structural)]
pub enum Focus {
    Chats,
    Transcript,
    Composer,
    Search,
}

#[derive(Clone, Copy, Debug, PartialEq, Eq, Structural)]
pub enum ConnectionState {
    Connecting,
    Connected,
    ReconnectCooldown,
}

#[derive(Clone, Copy, Debug, PartialEq, Eq, Structural)]
pub enum MessageDirection {
    Incoming,
    Outgoing,
}

#[derive(Clone, Copy, Debug, PartialEq, Eq, Structural)]
pub enum DeliveryState {
    Pending,
    Sent,
    Failed,
    Read,
}

#[derive(Clone, Copy, Debug, PartialEq, Eq, Structural)]
pub enum ChatLoadingState {
    Idle,
    Fresh,
    Updating,
}

#[derive(Clone, Copy, Debug, PartialEq, Eq, Structural)]
pub enum ScrollDirection {
    Up,
    Down,
}

#[derive(Clone, Copy, Debug, PartialEq, Eq, Structural)]
pub enum ScrollTarget {
    Chats,
    Transcript,
}

#[derive(Clone, Copy, Debug, PartialEq, Eq, Structural)]
pub enum ComposerMovement {
    Left,
    Right,
    Up,
    Down,
}

#[derive(Clone, Copy, Debug, PartialEq, Eq, Structural)]
pub enum SearchScope {
    Account,
    Chat,
}

#[derive(Clone, Copy, Debug, PartialEq, Eq, Structural)]
pub enum MediaKind {
    Photo,
    Animation,
    Sticker,
    Video,
    Audio,
    Document,
}

/// Everything the user can ask for.
#[derive(Clone, Copy, Debug, PartialEq, Eq, Structural)]
pub enum Action {
    Quit,
    Help,
    Cancel,
    Reconnect,
    MoveUp,
    MoveDown,
    PreviousFolder,
    NextFolder,
    ManageFolders,
    ManageFolderLifecycle,
    ManageAccounts,
    Open,
    OpenActions,
    ChooseAction,
    NavigatePinned,
    Search,
    Compose,
    Reply,
    Edit,
    EditPrevious,
    Delete,
    ConfirmDelete,
    Forward,
    ConfirmForward,
    React,
    ConfirmReaction,
    VotePoll,
    OpenLink,
    ConfirmOpenLink,
    DownloadMedia,
    SaveAs,
    ConfirmSaveAs,
    OpenDownload,
    SaveEdit,
    OpenThread,
    TogglePin,
    ToggleMessageSelection,
    Paste,
    Attach,
    ConfirmAttachment,
    OpenRichMedia,
    OpenScheduled,
    CreatePoll,
    SendPoll,
    ToggleFolderMembership,
    ToggleKeepMediaOffline,
    TargetPreviousMessage,
    TargetNextMessage,
    JumpEarliest,
    JumpLatest,
    Send,
    Newline,
    CreateFolder,
    EditFolder,
    SaveFolder,
    ReorderFolderUp,
    ReorderFolderDown,
    ShareFolder,
    DeleteFolder,
    ConfirmDeleteFolder,
    ToggleFolderRule,
}

#[derive(Clone, Copy, Debug, PartialEq, Eq, Structural)]
pub enum ActivationTarget {
    Folder(i32),
    Chat(ChatId),
    Message(MessageId),
    Composer,
}

#[derive(Debug)]
pub struct FolderView {
    pub id: i32,
    pub title: String,
    pub unread: u32,
}

/// What the folder manager shows of a folder: its rules, when Telegram gave them, and
/// whether it can be shared.
#[derive(Debug)]
pub struct FolderDetailsView {
    pub id: i32,
    pub rules: Option<FolderRules>,
    pub shareable: bool,
}

/// A folder being written in the folder manager.
#[derive(Debug)]
pub struct FolderEditorView {
    pub title: String,
    pub rules: Option<FolderRules>,
    pub selected: usize,
}

/// The folder manager: its selection, an open editor, a deletion waiting for confirmation,
/// and whether an operation is under way.
#[derive(Debug)]
pub struct FolderManagerView {
    pub selected: usize,
    pub editor: Option<FolderEditorView>,
    pub delete_confirmation: Option<i32>,
    pub pending: bool,
}

#[derive(Debug)]
pub struct ChatView {
    pub id: ChatId,
    pub title: String,
    pub folders: Vec<i32>,
    pub unread: u32,
    pub status: String,
    pub preview: String,
    pub preview_sender: Option<String>,
    pub preview_sender_peer: Option<ChatId>,
    pub preview_timestamp: String,
    pub can_pin_messages: bool,
}

#[derive(Debug)]
pub struct PollView {
    pub closed: bool,
}

/// The media a message carries. `fallback_body` says whether the message's body is only the
/// text that stands in for the media (what the Telegram adapter's `is_fallback_body` decides
/// when it builds the card), so that it is no text the user wrote.
#[derive(Debug)]
pub struct MediaCard {
    pub kind: MediaKind,
    pub title: String,
    pub remote_id: Option<i64>,
    pub poll: Option<PollView>,
    pub fallback_body: bool,
}

#[derive(Debug)]
pub struct ReactionView {
    pub label: String,
    pub count: u32,
    pub chosen: bool,
}

/// A link found in a message; a suspicious one is opened only after the user confirms it.
#[derive(Debug)]
pub struct LinkTarget {
    pub url: String,
    pub telegram_username: Option<String>,
    pub suspicious: bool,
}

/// What a message carries beyond its text. `link` is the link that opening the message
/// follows, as the Telegram adapter finds it in the message (its `active_link`).
#[derive(Debug)]
pub struct MessageDetails {
    pub thread_root: Option<MessageId>,
    pub sender_peer: Option<ChatId>,
    pub pinned: bool,
    pub edited: bool,
    pub media: Option<MediaCard>,
    pub reactions: Vec<ReactionView>,
    pub link: Option<LinkTarget>,
    pub entities: Vec<TextEntity>,
}

#[derive(Debug)]
pub struct MessageView {
    pub id: MessageId,
    pub sender: String,
    pub body: String,
    pub timestamp: String,
    pub direction: MessageDirection,
    pub delivery: DeliveryState,
    pub reply_to: Option<MessageId>,
    pub details: MessageDetails,
}

/// A formatting run of a message's text, as the Markdown renderer or Telegram describes it: its
/// kind by name and the place it covers. The library carries entities without reading them.
#[derive(Debug)]
pub struct TextEntity {
    pub kind: String,
    pub offset: u32,
    pub length: u32,
}

#[derive(Debug)]
pub struct AttachmentView {
    pub id: i64,
    pub name: String,
}

/// The text being written, with its cursor as a byte offset into `text`.
#[derive(Debug)]
pub struct ComposerView {
    pub text: String,
    pub cursor: usize,
    pub reply_to: Option<MessageId>,
    pub editing: Option<MessageId>,
    pub attachments: Vec<AttachmentView>,
}

#[derive(Debug)]
pub struct SearchView {
    pub scope: SearchScope,
    pub query: String,
}

#[derive(Debug)]
pub struct ReactionPickerView {
    pub selected: usize,
    pub options: Vec<String>,
}

#[derive(Debug)]
pub struct ActionMenuItemView {
    pub action: Action,
    pub label: String,
}

#[derive(Debug)]
pub struct ActionMenuView {
    pub title: String,
    pub selected: usize,
    pub items: Vec<ActionMenuItemView>,
}

#[derive(Debug)]
pub struct DownloadView {
    pub id: i64,
    pub chat: ChatId,
    pub message: MessageId,
    pub path: String,
    pub reveal_only: bool,
    pub has_preview: bool,
}

#[derive(Debug)]
pub struct MediaPreviewView {
    pub chat: ChatId,
    pub message: MessageId,
}

#[derive(Debug)]
pub struct AvatarView {
    pub avatar: AvatarRef,
}

#[derive(Debug)]
pub struct SavedDialogView {
    pub peer: ChatId,
}

#[derive(Debug)]
pub struct SaveAsView {
    pub destination: String,
}

#[derive(Debug)]
pub struct AttachmentPathView {
    pub path: String,
}

#[derive(Clone, Copy, Debug, PartialEq, Eq, Structural)]
pub struct SelectionView {
    pub folder: i32,
    pub chat: Option<ChatId>,
    pub message: Option<MessageId>,
}

/// Everything the terminal renders.
#[derive(Debug)]
pub struct Screen {
    pub connection: ConnectionState,
    pub account_name: String,
    pub folders: Vec<FolderView>,
    pub folder_details: Vec<FolderDetailsView>,
    pub folder_manager: Option<FolderManagerView>,
    pub active_folder: usize,
    pub chats: Vec<ChatView>,
    pub active_chat: Option<usize>,
    pub chat_scroll_direction: ScrollDirection,
    pub chat_loading: ChatLoadingState,
    pub messages: Vec<MessageView>,
    pub active_message: Option<usize>,
    pub active_thread: Option<MessageId>,
    pub transcript_anchor: Option<usize>,
    pub unread_boundary: Option<MessageId>,
    pub pinned_messages: Vec<MessageView>,
    /// The messages the user selected for deletion or forwarding, by id.
    pub selected_messages: Vec<MessageId>,
    pub focus: Focus,
    pub composer: ComposerView,
    pub poll_composer: bool,
    pub search: Option<SearchView>,
    pub has_newer_messages: bool,
    pub help_open: bool,
    pub folder_picker: Option<usize>,
    pub delete_confirmation: Option<Vec<MessageId>>,
    pub forward_picker: Option<usize>,
    pub reaction_picker: Option<ReactionPickerView>,
    pub link_confirmation: Option<LinkTarget>,
    pub save_as: Option<SaveAsView>,
    pub attachment_path: Option<AttachmentPathView>,
    pub action_menu: Option<ActionMenuView>,
    pub downloads: Vec<DownloadView>,
    pub media_previews: Vec<MediaPreviewView>,
    pub avatars: Vec<AvatarView>,
    pub saved_dialogs: Vec<SavedDialogView>,
    pub notification_identity: String,
    pub notice: Option<String>,
    pub actions: Vec<Action>,
}

/// Work that the application asks its runtime to perform.
#[derive(Debug)]
#[allow(inconsistent_fields)]
pub enum Effect {
    Quit,
    Reconnect,
    SaveSelection { folder: i32, chat: Option<ChatId>, message: Option<MessageId> },
    SaveDraft { chat: ChatId, thread_root: Option<MessageId>, text: String, reply_to: Option<MessageId> },
    LoadChat { chat: ChatId, selection: Option<SelectionView> },
    LoadThread { chat: ChatId, root: MessageId },
    ReadHistory { chat: ChatId, max_id: MessageId },
    ReadThread { chat: ChatId, root: MessageId, max_id: MessageId },
    LoadAvatar { avatar: AvatarRef },
    LoadMediaPreview { chat: ChatId, message: MessageId },
    ReadClipboard { chat: ChatId, thread_root: Option<MessageId> },
    PickAttachment { chat: ChatId, thread_root: Option<MessageId> },
    SelectAttachment { chat: ChatId, thread_root: Option<MessageId>, path: String },
    SetChatFolder { chat: ChatId, folder: i32, included: bool },
    ForwardMessages { source: ChatId, destination: ChatId, messages: Vec<MessageId> },
    DeleteMessages { chat: ChatId, messages: Vec<MessageId> },
    ReactMessage { chat: ChatId, message: Box<MessageView>, reaction: String },
    SetMessagePinned { chat: ChatId, message: Box<MessageView>, pinned: bool },
    DownloadMedia { chat: ChatId, message: MessageId, destination: Option<String> },
    OpenDownload { download: i64, reveal: bool },
    OpenExternalLink { url: String },
    ResolveTelegramUsername { username: String },
    Notify { identity: String, chat: ChatId },
    /// Render the draft text as Markdown and hand the result back as a `DraftFormatted` event.
    FormatDraft { text: String },
    SendMessage {
        chat: ChatId,
        text: String,
        entities: Vec<TextEntity>,
        link_preview: bool,
        reply_to: Option<MessageId>,
        thread_root: Option<MessageId>,
        saved_peer: Option<ChatId>,
        attachments: Vec<i64>,
        local_id: MessageId,
    },
    EditMessage {
        chat: ChatId,
        message: Box<MessageView>,
        draft_text: String,
        attachments: Vec<i64>,
        draft_attachments: Vec<AttachmentView>,
    },
}

// Spec-level models of the view types: strings become `Seq<char>`, vectors `Seq` of models.

impl DeepView for ChatId {
    type V = ChatId;

    open spec fn deep_view(&self) -> ChatId {
        *self
    }
}

impl DeepView for MessageId {
    type V = MessageId;

    open spec fn deep_view(&self) -> MessageId {
        *self
    }
}

impl DeepView for Action {
    type V = Action;

    open spec fn deep_view(&self) -> Action {
        *self
    }
}

pub struct FolderModel {
    pub id: i32,
    pub title: Seq<char>,
    pub unread: u32,
}

impl DeepView for FolderView {
    type V = FolderModel;

    open spec fn deep_view(&self) -> FolderModel {
        FolderModel { id: self.id, title: self.title@, unread: self.unread }
    }
}

pub struct FolderDetailsModel {
    pub id: i32,
    pub rules: Option<FolderRules>,
    pub shareable: bool,
}

impl DeepView for FolderDetailsView {
    type V = FolderDetailsModel;

    open spec fn deep_view(&self) -> FolderDetailsModel {
        FolderDetailsModel { id: self.id, rules: self.rules, shareable: self.shareable }
    }
}

pub struct FolderEditorModel {
    pub title: Seq<char>,
    pub rules: Option<FolderRules>,
    pub selected: usize,
}

impl DeepView for FolderEditorView {
    type V = FolderEditorModel;

    open spec fn deep_view(&self) -> FolderEditorModel {
        FolderEditorModel { title: self.title@, rules: self.rules, selected: self.selected }
    }
}

pub struct FolderManagerModel {
    pub selected: usize,
    pub editor: Option<FolderEditorModel>,
    pub delete_confirmation: Option<i32>,
    pub pending: bool,
}

impl DeepView for FolderManagerView {
    type V = FolderManagerModel;

    open spec fn deep_view(&self) -> FolderManagerModel {
        FolderManagerModel {
            selected: self.selected,
            editor: self.editor.deep_view(),
            delete_confirmation: self.delete_confirmation,
            pending: self.pending,
        }
    }
}

pub struct ChatModel {
    pub id: ChatId,
    pub title: Seq<char>,
    pub folders: Seq<i32>,
    pub unread: u32,
    pub status: Seq<char>,
    pub preview: Seq<char>,
    pub preview_sender: Option<Seq<char>>,
    pub preview_sender_peer: Option<ChatId>,
    pub preview_timestamp: Seq<char>,
    pub can_pin_messages: bool,
}

impl DeepView for ChatView {
    type V = ChatModel;

    open spec fn deep_view(&self) -> ChatModel {
        ChatModel {
            id: self.id,
            title: self.title@,
            folders: self.folders@,
            unread: self.unread,
            status: self.status@,
            preview: self.preview@,
            preview_sender: self.preview_sender.deep_view(),
            preview_sender_peer: self.preview_sender_peer,
            preview_timestamp: self.preview_timestamp@,
            can_pin_messages: self.can_pin_messages,
        }
    }
}

pub struct MediaModel {
    pub kind: MediaKind,
    pub title: Seq<char>,
    pub remote_id: Option<i64>,
    pub poll_closed: Option<bool>,
    pub fallback_body: bool,
}

impl DeepView for MediaCard {
    type V = MediaModel;

    open spec fn deep_view(&self) -> MediaModel {
        MediaModel {
            kind: self.kind,
            title: self.title@,
            remote_id: self.remote_id,
            poll_closed: match self.poll {
                Some(p) => Some(p.closed),
                None => None,
            },
            fallback_body: self.fallback_body,
        }
    }
}

pub struct ReactionModel {
    pub label: Seq<char>,
    pub count: u32,
    pub chosen: bool,
}

impl DeepView for ReactionView {
    type V = ReactionModel;

    open spec fn deep_view(&self) -> ReactionModel {
        ReactionModel { label: self.label@, count: self.count, chosen: self.chosen }
    }
}

pub struct LinkModel {
    pub url: Seq<char>,
    pub telegram_username: Option<Seq<char>>,
    pub suspicious: bool,
}

impl DeepView for LinkTarget {
    type V = LinkModel;

    open spec fn deep_view(&self) -> LinkModel {
        LinkModel {
            url: self.url@,
            telegram_username: self.telegram_username.deep_view(),
            suspicious: self.suspicious,
        }
    }
}

pub struct MessageModel {
    pub id: MessageId,
    pub sender: Seq<char>,
    pub body: Seq<char>,
    pub timestamp: Seq<char>,
    pub direction: MessageDirection,
    pub delivery: DeliveryState,
    pub reply_to: Option<MessageId>,
    pub thread_root: Option<MessageId>,
    pub sender_peer: Option<ChatId>,
    pub pinned: bool,
    pub edited: bool,
    pub media: Option<MediaModel>,
    pub reactions: Seq<ReactionModel>,
    pub link: Option<LinkModel>,
    pub entities: Seq<TextEntityModel>,
}

impl DeepView for MessageView {
    type V = MessageModel;

    open spec fn deep_view(&self) -> MessageModel {
        MessageModel {
            id: self.id,
            sender: self.sender@,
            body: self.body@,
            timestamp: self.timestamp@,
            direction: self.direction,
            delivery: self.delivery,
            reply_to: self.reply_to,
            thread_root: self.details.thread_root,
            sender_peer: self.details.sender_peer,
            pinned: self.details.pinned,
            edited: self.details.edited,
            media: self.details.media.deep_view(),
            reactions: self.details.reactions.deep_view(),
            link: self.details.link.deep_view(),
            entities: self.details.entities.deep_view(),
        }
    }
}

pub struct TextEntityModel {
    pub kind: Seq<char>,
    pub offset: u32,
    pub length: u32,
}

impl DeepView for TextEntity {
    type V = TextEntityModel;

    open spec fn deep_view(&self) -> TextEntityModel {
        TextEntityModel { kind: self.kind@, offset: self.offset, length: self.length }
    }
}

pub struct AttachmentModel {
    pub id: i64,
    pub name: Seq<char>,
}

impl DeepView for AttachmentView {
    type V = AttachmentModel;

    open spec fn deep_view(&self) -> AttachmentModel {
        AttachmentModel { id: self.id, name: self.name@ }
    }
}

pub struct ComposerModel {
    pub text: Seq<char>,
    pub cursor: usize,
    pub reply_to: Option<MessageId>,
    pub editing: Option<MessageId>,
    pub attachments: Seq<AttachmentModel>,
}

impl DeepView for ComposerView {
    type V = ComposerModel;

    open spec fn deep_view(&self) -> ComposerModel {
        ComposerModel {
            text: self.text@,
            cursor: self.cursor,
            reply_to: self.reply_to,
            editing: self.editing,
            attachments: self.attachments.deep_view(),
        }
    }
}

impl ComposerModel {
    /// The composer as `ComposerView::default()` leaves it: nothing written, nothing attached.
    pub open spec fn blank() -> ComposerModel {
        ComposerModel {
            text: Seq::empty(),
            cursor: 0,
            reply_to: None,
            editing: None,
            attachments: Seq::empty(),
        }
    }
}

pub struct SearchModel {
    pub scope: SearchScope,
    pub query: Seq<char>,
}

impl DeepView for SearchView {
    type V = SearchModel;

    open spec fn deep_view(&self) -> SearchModel {
        SearchModel { scope: self.scope, query: self.query@ }
    }
}

pub struct ReactionPickerModel {
    pub selected: usize,
    pub options: Seq<Seq<char>>,
}

impl DeepView for ReactionPickerView {
    type V = ReactionPickerModel;

    open spec fn deep_view(&self) -> ReactionPickerModel {
        ReactionPickerModel { selected: self.selected, options: self.options.deep_view() }
    }
}

pub struct ActionMenuItemModel {
    pub action: Action,
    pub label: Seq<char>,
}

impl DeepView for ActionMenuItemView {
    type V = ActionMenuItemModel;

    open spec fn deep_view(&self) -> ActionMenuItemModel {
        ActionMenuItemModel { action: self.action, label: self.label@ }
    }
}

pub struct ActionMenuModel {
    pub title: Seq<char>,
    pub selected: usize,
    pub items: Seq<ActionMenuItemModel>,
}

impl DeepView for ActionMenuView {
    type V = ActionMenuModel;

    open spec fn deep_view(&self) -> ActionMenuModel {
        ActionMenuModel { title: self.title@, selected: self.selected, items: self.items.deep_view() }
    }
}

pub struct DownloadModel {
    pub id: i64,
    pub chat: ChatId,
    pub message: MessageId,
    pub path: Seq<char>,
    pub reveal_only: bool,
    pub has_preview: bool,
}

impl DeepView for DownloadView {
    type V = DownloadModel;

    open spec fn deep_view(&self) -> DownloadModel {
        DownloadModel {
            id: self.id,
            chat: self.chat,
            message: self.message,
            path: self.path@,
            reveal_only: self.reveal_only,
            has_preview: self.has_preview,
        }
    }
}

impl DeepView for MediaPreviewView {
    type V = PreviewKey;

    open spec fn deep_view(&self) -> PreviewKey {
        PreviewKey { chat: self.chat, message: self.message }
    }
}

impl DeepView for AvatarView {
    type V = AvatarRef;

    open spec fn deep_view(&self) -> AvatarRef {
        self.avatar
    }
}

impl DeepView for SavedDialogView {
    type V = ChatId;

    open spec fn deep_view(&self) -> ChatId {
        self.peer
    }
}

impl DeepView for SaveAsView {
    type V = Seq<char>;

    open spec fn deep_view(&self) -> Seq<char> {
        self.destination@
    }
}

impl DeepView for AttachmentPathView {
    type V = Seq<char>;

    open spec fn deep_view(&self) -> Seq<char> {
        self.path@
    }
}

/// The model of everything the terminal renders.
#[verifier::ext_equal]
pub struct ScreenModel {
    pub connection: ConnectionState,
    pub account_name: Seq<char>,
    pub folders: Seq<FolderModel>,
    pub folder_details: Seq<FolderDetailsModel>,
    pub folder_manager: Option<FolderManagerModel>,
    pub active_folder: usize,
    pub chats: Seq<ChatModel>,
    pub active_chat: Option<usize>,
    pub chat_scroll_direction: ScrollDirection,
    pub chat_loading: ChatLoadingState,
    pub messages: Seq<MessageModel>,
    pub active_message: Option<usize>,
    pub active_thread: Option<MessageId>,
    pub transcript_anchor: Option<usize>,
    pub unread_boundary: Option<MessageId>,
    pub pinned_messages: Seq<MessageModel>,
    pub selected_messages: Seq<MessageId>,
    pub focus: Focus,
    pub composer: ComposerModel,
    pub poll_composer: bool,
    pub search: Option<SearchModel>,
    pub has_newer_messages: bool,
    pub help_open: bool,
    pub folder_picker: Option<usize>,
    pub delete_confirmation: Option<Seq<MessageId>>,
    pub forward_picker: Option<usize>,
    pub reaction_picker: Option<ReactionPickerModel>,
    pub link_confirmation: Option<LinkModel>,
    pub save_as: Option<Seq<char>>,
    pub attachment_path: Option<Seq<char>>,
    pub action_menu: Option<ActionMenuModel>,
    pub downloads: Seq<DownloadModel>,
    pub media_previews: Seq<PreviewKey>,
    pub avatars: Seq<AvatarRef>,
    pub saved_dialogs: Seq<ChatId>,
    pub notification_identity: Seq<char>,
    pub notice: Option<Seq<char>>,
    pub actions: Seq<Action>,
}

impl DeepView for Screen {
    type V = ScreenModel;

    open spec fn deep_view(&self) -> ScreenModel {
        ScreenModel {
            connection: self.connection,
            account_name: self.account_name@,
            folders: self.folders.deep_view(),
            folder_details: self.folder_details.deep_view(),
            folder_manager: self.folder_manager.deep_view(),
            active_folder: self.active_folder,
            chats: self.chats.deep_view(),
            active_chat: self.active_chat,
            chat_scroll_direction: self.chat_scroll_direction,
            chat_loading: self.chat_loading,
            messages: self.messages.deep_view(),
            active_message: self.active_message,
            active_thread: self.active_thread,
            transcript_anchor: self.transcript_anchor,
            unread_boundary: self.unread_boundary,
            pinned_messages: self.pinned_messages.deep_view(),
            selected_messages: self.selected_messages@,
            focus: self.focus,
            composer: self.composer.deep_view(),
            poll_composer: self.poll_composer,
            search: self.search.deep_view(),
            has_newer_messages: self.has_newer_messages,
            help_open: self.help_open,
            folder_picker: self.folder_picker,
            delete_confirmation: self.delete_confirmation.deep_view(),
            forward_picker: self.forward_picker,
            reaction_picker: self.reaction_picker.deep_view(),
            link_confirmation: self.link_confirmation.deep_view(),
            save_as: self.save_as.deep_view(),
            attachment_path: self.attachment_path.deep_view(),
            action_menu: self.action_menu.deep_view(),
            downloads: self.downloads.deep_view(),
            media_previews: self.media_previews.deep_view(),
            avatars: self.avatars.deep_view(),
            saved_dialogs: self.saved_dialogs.deep_view(),
            notification_identity: self.notification_identity@,
            notice: self.notice.deep_view(),
            actions: self.actions@,
        }
    }
}

/// Model of an effect: strings as `Seq<char>`, messages as their models.
pub enum EffectModel {
    Quit,
    Reconnect,
    SaveSelection { folder: i32, chat: Option<ChatId>, message: Option<MessageId> },
    SaveDraft { chat: ChatId, thread_root: Option<MessageId>, text: Seq<char>, reply_to: Option<MessageId> },
    LoadChat { chat: ChatId, selection: Option<SelectionView> },
    LoadThread { chat: ChatId, root: MessageId },
    ReadHistory { chat: ChatId, max_id: MessageId },
    ReadThread { chat: ChatId, root: MessageId, max_id: MessageId },
    LoadAvatar { avatar: AvatarRef },
    LoadMediaPreview { chat: ChatId, message: MessageId },
    ReadClipboard { chat: ChatId, thread_root: Option<MessageId> },
    PickAttachment { chat: ChatId, thread_root: Option<MessageId> },
    SelectAttachment { chat: ChatId, thread_root: Option<MessageId>, path: Seq<char> },
    SetChatFolder { chat: ChatId, folder: i32, included: bool },
    ForwardMessages { source: ChatId, destination: ChatId, messages: Seq<MessageId> },
    DeleteMessages { chat: ChatId, messages: Seq<MessageId> },
    ReactMessage { chat: ChatId, message: MessageModel, reaction: Seq<char> },
    SetMessagePinned { chat: ChatId, message: MessageModel, pinned: bool },
    DownloadMedia { chat: ChatId, message: MessageId, destination: Option<Seq<char>> },
    OpenDownload { download: i64, reveal: bool },
    OpenExternalLink { url: Seq<char> },
    ResolveTelegramUsername { username: Seq<char> },
    Notify { identity: Seq<char>, chat: ChatId },
    FormatDraft { text: Seq<char> },
    SendMessage {
        chat: ChatId,
        text: Seq<char>,
        entities: Seq<TextEntityModel>,
        link_preview: bool,
        reply_to: Option<MessageId>,
        thread_root: Option<MessageId>,
        saved_peer: Option<ChatId>,
        attachments: Seq<i64>,
        local_id: MessageId,
    },
    EditMessage {
        chat: ChatId,
        message: MessageModel,
        draft_text: Seq<char>,
        attachments: Seq<i64>,
        draft_attachments: Seq<AttachmentModel>,
    },
}

impl DeepView for Effect {
    type V = EffectModel;

    open spec fn deep_view(&self) -> EffectModel {
        match self {
            Effect::Quit => EffectModel::Quit,
            Effect::Reconnect => EffectModel::Reconnect,
            Effect::SaveSelection { folder, chat, message } => EffectModel::SaveSelection {
                folder: *folder,
                chat: *chat,
                message: *message,
            },
            Effect::SaveDraft { chat, thread_root, text, reply_to } => EffectModel::SaveDraft {
                chat: *chat,
                thread_root: *thread_root,
                text: text@,
                reply_to: *reply_to,
            },
            Effect::LoadChat { chat, selection } => EffectModel::LoadChat {
                chat: *chat,
                selection: *selection,
            },
            Effect::LoadThread { chat, root } => EffectModel::LoadThread { chat: *chat, root: *root },
            Effect::ReadHistory { chat, max_id } => EffectModel::ReadHistory {
                chat: *chat,
                max_id: *max_id,
            },
            Effect::ReadThread { chat, root, max_id } => EffectModel::ReadThread {
                chat: *chat,
                root: *root,
                max_id: *max_id,
            },
            Effect::LoadAvatar { avatar } => EffectModel::LoadAvatar { avatar: *avatar },
            Effect::LoadMediaPreview { chat, message } => EffectModel::LoadMediaPreview {
                chat: *chat,
                message: *message,
            },
            Effect::ReadClipboard { chat, thread_root } => EffectModel::ReadClipboard {
                chat: *chat,
                thread_root: *thread_root,
            },
            Effect::PickAttachment { chat, thread_root } => EffectModel::PickAttachment {
                chat: *chat,
                thread_root: *thread_root,
            },
            Effect::SelectAttachment { chat, thread_root, path } => EffectModel::SelectAttachment {
                chat: *chat,
                thread_root: *thread_root,
                path: path@,
            },
            Effect::SetChatFolder { chat, folder, included } => EffectModel::SetChatFolder {
                chat: *chat,
                folder: *folder,
                included: *included,
            },
            Effect::ForwardMessages { source, destination, messages } =>
                EffectModel::ForwardMessages {
                    source: *source,
                    destination: *destination,
                    messages: messages@,
                },
            Effect::DeleteMessages { chat, messages } => EffectModel::DeleteMessages {
                chat: *chat,
                messages: messages@,
            },
            Effect::ReactMessage { chat, message, reaction } => EffectModel::ReactMessage {
                chat: *chat,
                message: message.deep_view(),
                reaction: reaction@,
            },
            Effect::SetMessagePinned { chat, message, pinned } => EffectModel::SetMessagePinned {
                chat: *chat,
                message: message.deep_view(),
                pinned: *pinned,
            },
            Effect::DownloadMedia { chat, message, destination } => EffectModel::DownloadMedia {
                chat: *chat,
                message: *message,
                destination: destination.deep_view(),
            },
            Effect::OpenDownload { download, reveal } => EffectModel::OpenDownload {
                download: *download,
                reveal: *reveal,
            },
            Effect::OpenExternalLink { url } => EffectModel::OpenExternalLink { url: url@ },
            Effect::ResolveTelegramUsername { username } => EffectModel::ResolveTelegramUsername {
                username: username@,
            },
            Effect::Notify { identity, chat } => EffectModel::Notify {
                identity: identity@,
                chat: *chat,
            },
            Effect::FormatDraft { text } => EffectModel::FormatDraft { text: text@ },
            Effect::SendMessage { chat, text, entities, link_preview, reply_to, thread_root, saved_peer, attachments, local_id } =>
                EffectModel::SendMessage {
                chat: *chat,
                text: text@,
                entities: entities.deep_view(),
                link_preview: *link_preview,
                reply_to: *reply_to,
                thread_root: *thread_root,
                saved_peer: *saved_peer,
                attachments: attachments@,
                local_id: *local_id,
            },
            Effect::EditMessage { chat, message, draft_text, attachments, draft_attachments } =>
                EffectModel::EditMessage {
                chat: *chat,
                message: message.deep_view(),
                draft_text: draft_text@,
                attachments: attachments@,
                draft_attachments: draft_attachments.deep_view(),
            },
        }
    }
}

pub fn clone_string(s: &String) -> (r: String)
    ensures
        r@ == s@,
{
    s.clone()
}

pub fn clone_opt_string(s: &Option<String>) -> (r: Option<String>)
    ensures
        r.deep_view() == s.deep_view(),
{
    match s {
        Some(v) => Some(v.clone()),
        None => None,
    }
}

impl Clone for TextEntity {
    fn clone(&self) -> (r: Self)
        ensures
            r.deep_view() == self.deep_view(),
    {
        TextEntity { kind: self.kind.clone(), offset: self.offset, length: self.length }
    }
}

pub fn clone_entities(v: &Vec<TextEntity>) -> (r: Vec<TextEntity>)
    ensures
        r.deep_view() == v.deep_view(),
{
    let r = v.clone();
    assert(r.deep_view() =~= v.deep_view());
    r
}

impl Clone for AttachmentView {
    fn clone(&self) -> (r: Self)
        ensures
            r.deep_view() == self.deep_view(),
    {
        AttachmentView { id: self.id, name: self.name.clone() }
    }
}

impl Clone for ReactionView {
    fn clone(&self) -> (r: Self)
        ensures
            r.deep_view() == self.deep_view(),
    {
        ReactionView { label: self.label.clone(), count: self.count, chosen: self.chosen }
    }
}

impl Clone for MediaCard {
    fn clone(&self) -> (r: Self)
        ensures
            r.deep_view() == self.deep_view(),
    {
        MediaCard {
            kind: self.kind,
            title: self.title.clone(),
            remote_id: self.remote_id,
            poll: match &self.poll {
                Some(p) => Some(PollView { closed: p.closed }),
                None => None,
            },
            fallback_body: self.fallback_body,
        }
    }
}

impl Clone for LinkTarget {
    fn clone(&self) -> (r: Self)
        ensures
            r.deep_view() == self.deep_view(),
    {
        LinkTarget {
            url: self.url.clone(),
            telegram_username: clone_opt_string(&self.telegram_username),
            suspicious: self.suspicious,
        }
    }
}

pub fn clone_reactions(v: &Vec<ReactionView>) -> (r: Vec<ReactionView>)
    ensures
        r.deep_view() == v.deep_view(),
{
    let r = v.clone();
    assert(r.deep_view() =~= v.deep_view());
    r
}

pub fn clone_attachments(v: &Vec<AttachmentView>) -> (r: Vec<AttachmentView>)
    ensures
        r.deep_view() == v.deep_view(),
{
    let r = v.clone();
    assert(r.deep_view() =~= v.deep_view());
    r
}

impl Clone for MessageView {
    fn clone(&self) -> (r: Self)
        ensures
            r.deep_view() == self.deep_view(),
    {
        MessageView {
            id: self.id,
            sender: self.sender.clone(),
            body: self.body.clone(),
            timestamp: self.timestamp.clone(),
            direction: self.direction,
            delivery: self.delivery,
            reply_to: self.reply_to,
            details: MessageDetails {
                thread_root: self.details.thread_root,
                sender_peer: self.details.sender_peer,
                pinned: self.details.pinned,
                edited: self.details.edited,
                media: match &self.details.media {
                    Some(m) => Some(m.clone()),
                    None => None,
                },
                reactions: clone_reactions(&self.details.reactions),
                entities: clone_entities(&self.details.entities),
                link: match &self.details.link {
                    Some(l) => Some(l.clone()),
                    None => None,
                },
            },
        }
    }
}

pub fn clone_messages(v: &Vec<MessageView>) -> (r: Vec<MessageView>)
    ensures
        r.deep_view() == v.deep_view(),
{
    let r = v.clone();
    assert(r.deep_view() =~= v.deep_view());
    r
}

pub fn clone_folders(v: &Vec<FolderView>) -> (r: Vec<FolderView>)
    ensures
        r.deep_view() == v.deep_view(),
{
    let r = v.clone();
    assert(r.deep_view() =~= v.deep_view());
    r
}

pub fn clone_chats(v: &Vec<ChatView>) -> (r: Vec<ChatView>)
    ensures
        r.deep_view() == v.deep_view(),
{
    let r = v.clone();
    assert(r.deep_view() =~= v.deep_view());
    r
}

pub fn clone_ints(v: &Vec<i32>) -> (r: Vec<i32>)
    ensures
        r@ == v@,
{
    let r = v.clone();
    assert(r@ =~= v@);
    r
}

impl Clone for DownloadView {
    fn clone(&self) -> (r: Self)
        ensures
            r.deep_view() == self.deep_view(),
    {
        DownloadView {
            id: self.id,
            chat: self.chat,
            message: self.message,
            path: self.path.clone(),
            reveal_only: self.reveal_only,
            has_preview: self.has_preview,
        }
    }
}

impl Clone for FolderView {
    fn clone(&self) -> (r: Self)
        ensures
            r.deep_view() == self.deep_view(),
    {
        FolderView { id: self.id, title: self.title.clone(), unread: self.unread }
    }
}

impl Clone for ChatView {
    fn clone(&self) -> (r: Self)
        ensures
            r.deep_view() == self.deep_view(),
    {
        ChatView {
            id: self.id,
            title: self.title.clone(),
            folders: clone_ints(&self.folders),
            unread: self.unread,
            status: self.status.clone(),
            preview: self.preview.clone(),
            preview_sender: clone_opt_string(&self.preview_sender),
            preview_sender_peer: self.preview_sender_peer,
            preview_timestamp: self.preview_timestamp.clone(),
            can_pin_messages: self.can_pin_messages,
        }
    }
}

impl Clone for ComposerView {
    fn clone(&self) -> (r: Self)
        ensures
            r.deep_view() == self.deep_view(),
    {
        ComposerView {
            text: self.text.clone(),
            cursor: self.cursor,
            reply_to: self.reply_to,
            editing: self.editing,
            attachments: clone_attachments(&self.attachments),
        }
    }
}

impl ComposerView {
    pub fn blank() -> (c: ComposerView)
        ensures
            c.deep_view() == ComposerModel::blank(),
    {
        let c = ComposerView {
            text: String::new(),
            cursor: 0,
            reply_to: None,
            editing: None,
            attachments: Vec::new(),
        };
        assert(c.deep_view().attachments =~= Seq::<AttachmentModel>::empty());
        c
    }
}

} // verus!
