use vstd::prelude::*;

use crate::ids::{AvatarId, AvatarRef, ChatId, HistoryKey, MessageId, PreviewKey};
use crate::keyed::KeyList;
use crate::seqs::{first_index, lemma_first_index, lemma_first_index_is};
use crate::view::{ChatModel, ChatView, ComposerModel, ComposerView, Effect, EffectModel, MessageModel, MessageView, Screen, ScreenModel, SelectionView};

pub mod navigation;
pub mod history_loading;
pub mod media_loads;
pub mod avatar_loads;
pub mod composer;
pub mod actions;
pub mod editing;
pub mod dispatch;
pub mod apply;
pub mod activation;
pub mod reconciliation;
pub mod unread;
pub mod chat_reconciliation;
pub mod messaging;
pub mod events;
pub mod bootstrap;
pub mod reconnection;
pub mod folder_membership;
pub mod outgoing;
pub mod sending;
pub mod clipboard;
pub mod folder_reconciliation;

verus! {

/// Progress of the foreground and background history loads.
pub struct HistoryLoads {
    pub active: Option<HistoryKey>,
    pub active_baseline: Vec<MessageId>,
    pub queued: Option<HistoryKey>,
    pub background_cursor: usize,
    pub background_remaining: usize,
    pub refreshed_chats: Vec<ChatId>,
    pub read_pending: bool,
}

pub struct HistoryLoadsModel {
    pub active: Option<HistoryKey>,
    pub active_baseline: Set<MessageId>,
    pub queued: Option<HistoryKey>,
    pub background_cursor: usize,
    pub background_remaining: usize,
    pub refreshed_chats: Set<ChatId>,
    pub read_pending: bool,
}

impl DeepView for HistoryLoads {
    type V = HistoryLoadsModel;

    open spec fn deep_view(&self) -> HistoryLoadsModel {
        HistoryLoadsModel {
            active: self.active,
            active_baseline: self.active_baseline@.to_set(),
            queued: self.queued,
            background_cursor: self.background_cursor,
            background_remaining: self.background_remaining,
            refreshed_chats: self.refreshed_chats@.to_set(),
            read_pending: self.read_pending,
        }
    }
}

/// The media preview being loaded and those waiting for it.
pub struct MediaPreviewLoads {
    pub active: Option<PreviewKey>,
    pub queued: Vec<PreviewKey>,
}

pub struct MediaPreviewLoadsModel {
    pub active: Option<PreviewKey>,
    pub queued: Seq<PreviewKey>,
}

impl DeepView for MediaPreviewLoads {
    type V = MediaPreviewLoadsModel;

    open spec fn deep_view(&self) -> MediaPreviewLoadsModel {
        MediaPreviewLoadsModel { active: self.active, queued: self.queued@ }
    }
}

/// The avatar being loaded, those waiting for it, and those that failed.
pub struct AvatarLoads {
    pub active: Option<AvatarRef>,
    pub queued: Vec<AvatarRef>,
    pub failed: Vec<AvatarRef>,
}

pub struct AvatarLoadsModel {
    pub active: Option<AvatarRef>,
    pub queued: Seq<AvatarRef>,
    pub failed: Set<AvatarRef>,
}

impl DeepView for AvatarLoads {
    type V = AvatarLoadsModel;

    open spec fn deep_view(&self) -> AvatarLoadsModel {
        AvatarLoadsModel {
            active: self.active,
            queued: self.queued@,
            failed: self.failed@.to_set(),
        }
    }
}

/// A sent message's composer, kept until the server accepts or refuses the message.
pub struct PendingDraft {
    pub history: HistoryKey,
    pub composer: ComposerView,
}

pub struct PendingDraftModel {
    pub history: HistoryKey,
    pub composer: ComposerModel,
}

impl DeepView for PendingDraft {
    type V = PendingDraftModel;

    open spec fn deep_view(&self) -> PendingDraftModel {
        PendingDraftModel { history: self.history, composer: self.composer.deep_view() }
    }
}

/// Sole owner of mutable application state.
pub struct App {
    pub view: Screen,
    pub all_chats: Vec<ChatView>,
    pub drafts: KeyList<HistoryKey, ComposerView>,
    pub histories: KeyList<HistoryKey, Vec<MessageView>>,
    pub transcript_anchors: KeyList<HistoryKey, MessageId>,
    pub unread_boundaries: KeyList<HistoryKey, MessageId>,
    pub history_loads: HistoryLoads,
    pub media_preview_loads: MediaPreviewLoads,
    pub avatar_peers: KeyList<ChatId, AvatarId>,
    pub avatar_loads: AvatarLoads,
    pub offline_chats: Vec<ChatId>,
    pub muted_chats: Vec<ChatId>,
    pub next_local_message_id: i64,
    pub pending_drafts: KeyList<MessageId, PendingDraft>,
}

/// The model of the application state.
#[verifier::ext_equal]
pub struct AppModel {
    pub view: ScreenModel,
    pub all_chats: Seq<ChatModel>,
    pub drafts: Map<HistoryKey, ComposerModel>,
    pub histories: Map<HistoryKey, Seq<MessageModel>>,
    pub transcript_anchors: Map<HistoryKey, MessageId>,
    pub unread_boundaries: Map<HistoryKey, MessageId>,
    pub history_loads: HistoryLoadsModel,
    pub media_preview_loads: MediaPreviewLoadsModel,
    pub avatar_peers: Map<ChatId, AvatarId>,
    pub avatar_loads: AvatarLoadsModel,
    pub offline_chats: Set<ChatId>,
    pub muted_chats: Set<ChatId>,
    pub next_local_message_id: i64,
    pub pending_drafts: Map<MessageId, PendingDraftModel>,
}

impl View for App {
    type V = AppModel;

    open spec fn view(&self) -> AppModel {
        AppModel {
            view: self.view.deep_view(),
            all_chats: self.all_chats.deep_view(),
            drafts: self.drafts.map_model(),
            histories: self.histories.map_model(),
            transcript_anchors: self.transcript_anchors.map_model(),
            unread_boundaries: self.unread_boundaries.map_model(),
            history_loads: self.history_loads.deep_view(),
            media_preview_loads: self.media_preview_loads.deep_view(),
            avatar_peers: self.avatar_peers.map_model(),
            avatar_loads: self.avatar_loads.deep_view(),
            offline_chats: self.offline_chats@.to_set(),
            muted_chats: self.muted_chats@.to_set(),
            next_local_message_id: self.next_local_message_id,
            pending_drafts: self.pending_drafts.map_model(),
        }
    }
}

pub open spec fn message_has_id(id: MessageId) -> spec_fn(MessageModel) -> bool {
    |m: MessageModel| m.id == id
}

pub open spec fn chat_has_id(id: ChatId) -> spec_fn(ChatModel) -> bool {
    |c: ChatModel| c.id == id
}

impl ScreenModel {
    /// The selected message's index, else the saved anchor's.
    pub open spec fn anchor_index(self) -> Option<usize> {
        match self.active_message {
            Some(i) => Some(i),
            None => self.transcript_anchor,
        }
    }

    /// The chat under the chat selection.
    pub open spec fn active_chat_id(self) -> Option<ChatId> {
        match self.active_chat {
            Some(i) if i < self.chats.len() => Some(self.chats[i as int].id),
            _ => None,
        }
    }

    /// The message under the transcript selection.
    pub open spec fn active_message_id(self) -> Option<MessageId> {
        match self.active_message {
            Some(i) if i < self.messages.len() => Some(self.messages[i as int].id),
            _ => None,
        }
    }

    /// The message the transcript is anchored at: the selection, else the saved anchor.
    pub open spec fn transcript_anchor_id(self) -> Option<MessageId> {
        match self.anchor_index() {
            Some(i) if i < self.messages.len() => Some(self.messages[i as int].id),
            _ => None,
        }
    }

    /// The history shown: the active chat, and its open thread if any.
    pub open spec fn active_history_key(self) -> Option<HistoryKey> {
        match self.active_chat_id() {
            Some(chat) => Some(HistoryKey { chat, thread: self.active_thread, saved_peer: None }),
            None => None,
        }
    }

    /// Position of a message in the shown history.
    pub open spec fn history_position(self, id: MessageId) -> Option<usize> {
        match first_index(self.messages, message_has_id(id)) {
            Some(i) => Some(i as usize),
            None => None,
        }
    }

    /// Nothing is selected above the newest message.
    pub open spec fn at_latest(self) -> bool {
        match self.anchor_index() {
            None => true,
            Some(i) => self.messages.len() > 0 && i == self.messages.len() - 1,
        }
    }

    pub open spec fn active_folder_id(self) -> i32 {
        if self.active_folder < self.folders.len() {
            self.folders[self.active_folder as int].id
        } else {
            0
        }
    }

    pub open spec fn selection(self) -> SelectionView {
        SelectionView {
            folder: self.active_folder_id(),
            chat: self.active_chat_id(),
            message: self.transcript_anchor_id(),
        }
    }
}

impl AppModel {
    /// Unread count of a chat; 0 for a chat that is not known.
    pub open spec fn chat_unread(self, chat: ChatId) -> u32 {
        match first_index(self.all_chats, chat_has_id(chat)) {
            Some(i) => self.all_chats[i].unread,
            None => 0,
        }
    }
}

pub open spec fn selection_effect_of(selection: SelectionView) -> EffectModel {
    EffectModel::SaveSelection {
        folder: selection.folder,
        chat: selection.chat,
        message: selection.message,
    }
}

impl App {
    pub fn active_chat_id(&self) -> (r: Option<ChatId>)
        ensures
            r == self@.view.active_chat_id(),
    {
        match self.view.active_chat {
            Some(i) => if i < self.view.chats.len() {
                Some(self.view.chats[i].id)
            } else {
                None
            },
            None => None,
        }
    }

    pub fn active_message_id(&self) -> (r: Option<MessageId>)
        ensures
            r == self@.view.active_message_id(),
    {
        match self.view.active_message {
            Some(i) => if i < self.view.messages.len() {
                Some(self.view.messages[i].id)
            } else {
                None
            },
            None => None,
        }
    }

    pub fn transcript_anchor_id(&self) -> (r: Option<MessageId>)
        ensures
            r == self@.view.transcript_anchor_id(),
    {
        let index = match self.view.active_message {
            Some(i) => Some(i),
            None => self.view.transcript_anchor,
        };
        match index {
            Some(i) => if i < self.view.messages.len() {
                Some(self.view.messages[i].id)
            } else {
                None
            },
            None => None,
        }
    }

    pub fn active_history_key(&self) -> (r: Option<HistoryKey>)
        ensures
            r == self@.view.active_history_key(),
    {
        match self.active_chat_id() {
            Some(chat) => Some(HistoryKey::from_thread(chat, self.view.active_thread)),
            None => None,
        }
    }

    pub fn history_position(&self, message: MessageId) -> (r: Option<usize>)
        ensures
            r == self@.view.history_position(message),
    {
        let ghost msgs = self@.view.messages;
        proof {
            lemma_first_index(msgs, message_has_id(message));
        }
        let mut i: usize = 0;
        while i < self.view.messages.len()
            invariant
                msgs == self@.view.messages,
                i <= msgs.len(),
                forall|j: int| 0 <= j < i ==> msgs[j].id != message,
            decreases msgs.len() - i,
        {
            if self.view.messages[i].id.0 == message.0 {
                proof {
                    lemma_first_index_is(msgs, message_has_id(message), i as int);
                }
                return Some(i);
            }
            i = i + 1;
        }
        None
    }

    pub fn at_latest(&self) -> (r: bool)
        ensures
            r == self@.view.at_latest(),
    {
        let index = match self.view.active_message {
            Some(i) => Some(i),
            None => self.view.transcript_anchor,
        };
        match index {
            None => true,
            Some(i) => self.view.messages.len() > 0 && i == self.view.messages.len() - 1,
        }
    }

    pub fn chat_unread(&self, chat: ChatId) -> (r: u32)
        ensures
            r == self@.chat_unread(chat),
    {
        let ghost chats = self@.all_chats;
        proof {
            lemma_first_index(chats, chat_has_id(chat));
        }
        let mut i: usize = 0;
        while i < self.all_chats.len()
            invariant
                chats == self@.all_chats,
                i <= chats.len(),
                forall|j: int| 0 <= j < i ==> chats[j].id != chat,
            decreases chats.len() - i,
        {
            if self.all_chats[i].id.0 == chat.0 {
                proof {
                    lemma_first_index_is(chats, chat_has_id(chat), i as int);
                }
                return self.all_chats[i].unread;
            }
            i = i + 1;
        }
        0
    }

    pub fn selection_view(&self) -> (r: SelectionView)
        ensures
            r == self@.view.selection(),
    {
        let folder = if self.view.active_folder < self.view.folders.len() {
            self.view.folders[self.view.active_folder].id
        } else {
            0
        };
        SelectionView {
            folder,
            chat: self.active_chat_id(),
            message: self.transcript_anchor_id(),
        }
    }

    pub fn selection_effect(&self) -> (r: Effect)
        ensures
            r.deep_view() == selection_effect_of(self@.view.selection()),
    {
        let selection = self.selection_view();
        Effect::SaveSelection {
            folder: selection.folder,
            chat: selection.chat,
            message: selection.message,
        }
    }
}

} // verus!
