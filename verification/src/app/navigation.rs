use vstd::prelude::*;

use super::{chat_has_id, App, AppModel};
use crate::ids::{ChatId, HistoryKey, KeyEq, MessageId};
use crate::seqs::{first_index, lemma_first_index, lemma_first_index_is, lemma_first_index_none};
use crate::view::{clone_messages, ChatModel, ChatView, ComposerModel, ComposerView, Effect, EffectModel, Focus, MessageModel, ScreenModel};

verus! {

broadcast use vstd::seq_lib::group_seq_properties;

pub open spec fn in_folder(folder: i32) -> spec_fn(ChatModel) -> bool {
    |c: ChatModel| c.folders.contains(folder)
}

impl AppModel {
    /// The composer is remembered as the draft of the shown history, unless it edits a
    /// message or writes a poll.
    pub open spec fn saved_draft(self) -> AppModel {
        match self.view.active_history_key() {
            Some(key) if self.view.composer.editing is None && !self.view.poll_composer => AppModel {
                drafts: self.drafts.insert(key, self.view.composer),
                ..self
            },
            _ => self,
        }
    }

    /// The composer shows the draft of the shown history, or nothing.
    pub open spec fn restored_draft(self) -> AppModel {
        let composer = match self.view.active_history_key() {
            Some(key) if self.drafts.contains_key(key) => self.drafts[key],
            _ => ComposerModel::blank(),
        };
        AppModel { view: ScreenModel { composer, ..self.view }, ..self }
    }

    /// The anchor of the shown history is remembered, or forgotten when there is none.
    pub open spec fn saved_transcript_anchor(self) -> AppModel {
        match self.view.active_history_key() {
            None => self,
            Some(key) => AppModel {
                transcript_anchors: match self.view.transcript_anchor_id() {
                    Some(anchor) => self.transcript_anchors.insert(key, anchor),
                    None => self.transcript_anchors.remove(key),
                },
                ..self
            },
        }
    }

    /// The messages stored for the shown history (none when nothing is stored).
    pub open spec fn active_history(self) -> Seq<MessageModel> {
        match self.view.active_history_key() {
            Some(key) if self.histories.contains_key(key) => self.histories[key],
            _ => Seq::empty(),
        }
    }

    /// The shown history is reloaded from the store and the selection and anchor are put back
    /// on the given messages where they still exist.
    pub open spec fn refreshed_history_at(
        self,
        active_message: Option<MessageId>,
        transcript_anchor: Option<MessageId>,
    ) -> AppModel {
        let messages = self.active_history();
        let boundary = match self.view.active_history_key() {
            Some(key) if key.thread is None && self.unread_boundaries.contains_key(key) => Some(
                self.unread_boundaries[key],
            ),
            _ => None,
        };
        let view = ScreenModel { messages, unread_boundary: boundary, ..self.view };
        AppModel {
            view: ScreenModel {
                active_message: match active_message {
                    Some(id) => view.history_position(id),
                    None => None,
                },
                transcript_anchor: match transcript_anchor {
                    Some(id) => view.history_position(id),
                    None => None,
                },
                ..view
            },
            ..self
        }
    }

    pub open spec fn refreshed_history(self) -> AppModel {
        self.refreshed_history_at(self.view.active_message_id(), self.view.transcript_anchor_id())
    }

    /// Focus moves to the composer; a selected message becomes the transcript anchor.
    pub open spec fn focused_composer_at_anchor(self) -> AppModel {
        AppModel {
            view: ScreenModel {
                transcript_anchor: if self.view.active_message is Some {
                    self.view.active_message
                } else {
                    self.view.transcript_anchor
                },
                active_message: None,
                focus: Focus::Composer,
                ..self.view
            },
            ..self
        }
    }

    /// The chat list shows the chats of the active folder, keeping `preferred` selected when it
    /// is among them and selecting the first chat otherwise.
    pub open spec fn refreshed_folder_chats(self, preferred: Option<ChatId>) -> AppModel {
        let chats = self.all_chats.filter(in_folder(self.view.active_folder_id()));
        let kept = match preferred {
            Some(chat) => match first_index(chats, chat_has_id(chat)) {
                Some(i) => Some(i as usize),
                None => None,
            },
            None => None,
        };
        AppModel {
            view: ScreenModel {
                chats,
                active_chat: if kept is Some {
                    kept
                } else if chats.len() > 0 {
                    Some(0usize)
                } else {
                    None
                },
                ..self.view
            },
            ..self
        }
    }
}

pub fn contains_folder(folders: &Vec<i32>, folder: i32) -> (r: bool)
    ensures
        r == folders@.contains(folder),
{
    let mut i: usize = 0;
    while i < folders.len()
        invariant
            i <= folders.len(),
            forall|j: int| 0 <= j < i ==> folders@[j] != folder,
        decreases folders.len() - i,
    {
        if folders[i] == folder {
            return true;
        }
        i = i + 1;
    }
    false
}

pub fn find_chat(chats: &Vec<ChatView>, chat: ChatId) -> (r: Option<usize>)
    ensures
        r == (match first_index(chats.deep_view(), chat_has_id(chat)) {
            Some(i) => Some(i as usize),
            None => None,
        }),
        r matches Some(i) ==> i < chats.len(),
{
    let ghost s = chats.deep_view();
    proof {
        lemma_first_index(s, chat_has_id(chat));
    }
    let mut i: usize = 0;
    while i < chats.len()
        invariant
            s == chats.deep_view(),
            i <= chats.len(),
            forall|j: int| 0 <= j < i ==> s[j].id != chat,
        decreases chats.len() - i,
    {
        if chats[i].id.0 == chat.0 {
            proof {
                lemma_first_index_is(s, chat_has_id(chat), i as int);
            }
            return Some(i);
        }
        i = i + 1;
    }
    proof {
        lemma_first_index_none(s, chat_has_id(chat));
    }
    None
}

impl App {
    pub fn save_active_draft(&mut self)
        ensures
            final(self)@ == old(self)@.saved_draft(),
    {
        if self.view.composer.editing.is_none() && !self.view.poll_composer {
            if let Some(key) = self.active_history_key() {
                let composer = self.view.composer.clone();
                self.drafts.insert(key, composer);
            }
        }
    }

    pub fn restore_active_draft(&mut self)
        ensures
            final(self)@ == old(self)@.restored_draft(),
    {
        let composer = match self.active_history_key() {
            Some(key) => match self.drafts.get(&key) {
                Some(draft) => draft.clone(),
                None => ComposerView::blank(),
            },
            None => ComposerView::blank(),
        };
        self.view.composer = composer;
    }

    pub fn save_transcript_anchor(&mut self)
        ensures
            final(self)@ == old(self)@.saved_transcript_anchor(),
    {
        let Some(key) = self.active_history_key() else {
            return;
        };
        if let Some(anchor) = self.transcript_anchor_id() {
            self.transcript_anchors.insert(key, anchor);
        } else {
            self.transcript_anchors.remove(&key);
        }
    }

    pub fn refresh_active_history_at(
        &mut self,
        active_message: Option<MessageId>,
        transcript_anchor: Option<MessageId>,
    )
        ensures
            final(self)@ == old(self)@.refreshed_history_at(active_message, transcript_anchor),
    {
        let key = self.active_history_key();
        let messages = match key {
            Some(k) => match self.histories.get(&k) {
                Some(history) => clone_messages(history),
                None => Vec::new(),
            },
            None => Vec::new(),
        };
        let boundary = match key {
            Some(k) => if k.thread.is_none() {
                match self.unread_boundaries.get(&k) {
                    Some(b) => Some(*b),
                    None => None,
                }
            } else {
                None
            },
            None => None,
        };
        self.view.messages = messages;
        self.view.unread_boundary = boundary;
        proof {
            assert(self@.view.messages =~= old(self)@.active_history());
        }
        let active = match active_message {
            Some(id) => self.history_position(id),
            None => None,
        };
        let anchor = match transcript_anchor {
            Some(id) => self.history_position(id),
            None => None,
        };
        self.view.active_message = active;
        self.view.transcript_anchor = anchor;
    }

    pub fn refresh_active_history(&mut self)
        ensures
            final(self)@ == old(self)@.refreshed_history(),
    {
        let active_message = self.active_message_id();
        let transcript_anchor = self.transcript_anchor_id();
        self.refresh_active_history_at(active_message, transcript_anchor);
    }

    pub fn focus_composer_at_anchor(&mut self)
        ensures
            final(self)@ == old(self)@.focused_composer_at_anchor(),
    {
        if self.view.active_message.is_some() {
            self.view.transcript_anchor = self.view.active_message;
        }
        self.view.active_message = None;
        self.view.focus = Focus::Composer;
    }

    pub fn refresh_folder_chats(&mut self, preferred: Option<ChatId>)
        ensures
            final(self)@ == old(self)@.refreshed_folder_chats(preferred),
    {
        let folder = if self.view.active_folder < self.view.folders.len() {
            self.view.folders[self.view.active_folder].id
        } else {
            0
        };
        let ghost all = self@.all_chats;
        let ghost pred = in_folder(folder);
        let mut chats: Vec<ChatView> = Vec::new();
        let mut i: usize = 0;
        while i < self.all_chats.len()
            invariant
                all == self.all_chats.deep_view(),
                pred == in_folder(folder),
                i <= all.len(),
                chats.deep_view() == all.take(i as int).filter(pred),
            decreases all.len() - i,
        {
            proof {
                all.lemma_take_succ_push(i as int);
                all.take(i as int).lemma_filter_push(all[i as int], pred);
            }
            if contains_folder(&self.all_chats[i].folders, folder) {
                let ghost before = chats.deep_view();
                chats.push(self.all_chats[i].clone());
                proof {
                    assert(chats.deep_view() =~= before.push(all[i as int]));
                }
            }
            i = i + 1;
        }
        proof {
            assert(all.take(all.len() as int) =~= all);
        }
        self.view.chats = chats;
        let kept = match preferred {
            Some(chat) => find_chat(&self.view.chats, chat),
            None => None,
        };
        self.view.active_chat = if kept.is_some() {
            kept
        } else if self.view.chats.len() > 0 {
            Some(0)
        } else {
            None
        };
    }
}

} // verus!

verus! {

/// The selection one step up or down a list of `length` entries, clamped to the list.
pub open spec fn moved_index(current: Option<usize>, length: usize, forward: bool) -> Option<usize> {
    if length == 0 {
        None
    } else {
        let c = match current {
            Some(c) if c < length - 1 => c,
            Some(_) => (length - 1) as usize,
            None => 0usize,
        };
        Some(
            if forward {
                if c + 1 < length - 1 {
                    (c + 1) as usize
                } else {
                    (length - 1) as usize
                }
            } else if c > 0 {
                (c - 1) as usize
            } else {
                0usize
            },
        )
    }
}

pub fn move_index(current: Option<usize>, length: usize, forward: bool) -> (next: Option<usize>)
    ensures
        next == moved_index(current, length, forward),
        next matches Some(i) ==> i < length,
{
    if length == 0 {
        return None;
    }
    let current = match current {
        Some(c) => if c < length - 1 {
            c
        } else {
            length - 1
        },
        None => 0,
    };
    Some(
        if forward {
            if current + 1 < length - 1 {
                current + 1
            } else {
                length - 1
            }
        } else if current > 0 {
            current - 1
        } else {
            0
        },
    )
}

impl AppModel {
    pub open spec fn with_view(self, view: ScreenModel) -> AppModel {
        AppModel { view, ..self }
    }

    /// The anchor remembered for the shown history.
    pub open spec fn remembered_anchor(self) -> Option<MessageId> {
        match self.view.active_history_key() {
            Some(key) if self.transcript_anchors.contains_key(key) => Some(
                self.transcript_anchors[key],
            ),
            _ => None,
        }
    }

    /// Leaving the shown history: its draft and anchor are remembered.
    pub open spec fn left_history(self) -> AppModel {
        self.saved_draft().saved_transcript_anchor()
    }

    /// Entering the (new) shown history at its remembered anchor, nothing selected.
    pub open spec fn entered_history(self) -> AppModel {
        let s = self.restored_draft();
        let anchor = s.remembered_anchor();
        s.with_view(ScreenModel { active_message: None, transcript_anchor: None, ..s.view })
            .refreshed_history_at(None, anchor)
    }

    pub open spec fn moved_chat(self, forward: bool) -> (AppModel, Option<EffectModel>) {
        let next = moved_index(self.view.active_chat, self.view.chats.len() as usize, forward);
        if self.view.focus != Focus::Chats || next == self.view.active_chat {
            (self, None)
        } else {
            let s1 = self.left_history();
            let s2 = s1.with_view(ScreenModel { active_thread: None, active_chat: next, ..s1.view }).entered_history();
            let s3 = s2.with_view(ScreenModel { has_newer_messages: false, ..s2.view })
                .queued_active_media_previews();
            let (s4, e4) = match s3.view.active_chat_id() {
                Some(chat) => s3.requested_history_load(
                    HistoryKey { chat, thread: None, saved_peer: None },
                ),
                None => (s3, None),
            };
            if e4 is Some {
                (s4, e4)
            } else {
                s4.next_media_preview()
            }
        }
    }

    pub open spec fn selected_folder(self, index: usize) -> (AppModel, Option<EffectModel>) {
        if index >= self.view.folders.len() || index == self.view.active_folder {
            (self, None)
        } else {
            let active_chat = self.view.active_chat_id();
            let s1 = self.left_history();
            let s2 = s1.with_view(ScreenModel { active_folder: index, ..s1.view })
                .refreshed_folder_chats(active_chat)
                .restored_draft();
            let s3 = s2.with_view(ScreenModel { active_thread: None, ..s2.view });
            let anchor = s3.remembered_anchor();
            let s4 = s3.with_view(ScreenModel { active_message: None, transcript_anchor: None, ..s3.view })
                .refreshed_history_at(None, anchor);
            (s4, Some(super::selection_effect_of(s4.view.selection())))
        }
    }

    pub open spec fn moved_folder(self, forward: bool) -> (AppModel, Option<EffectModel>) {
        if self.view.focus != Focus::Chats || self.view.folders.len() == 0 {
            (self, None)
        } else {
            let next = match moved_index(
                Some(self.view.active_folder),
                self.view.folders.len() as usize,
                forward,
            ) {
                Some(i) => i,
                None => 0,
            };
            self.selected_folder(next)
        }
    }

    pub open spec fn targeted_previous_message(self) -> AppModel {
        if self.view.messages.len() == 0 {
            self
        } else {
            let s = if self.view.focus == Focus::Composer {
                self.saved_draft()
            } else {
                self
            };
            let target = match s.view.anchor_index() {
                Some(i) => if i > 0 {
                    (i - 1) as usize
                } else {
                    0
                },
                None => (s.view.messages.len() - 1) as usize,
            };
            s.with_view(
                ScreenModel {
                    active_message: Some(target),
                    transcript_anchor: Some(target),
                    focus: Focus::Transcript,
                    ..s.view
                },
            )
        }
    }

    pub open spec fn targeted_next_message(self) -> AppModel {
        if self.view.focus != Focus::Transcript {
            self
        } else {
            match self.view.active_message {
                None => self.with_view(ScreenModel { focus: Focus::Composer, ..self.view }),
                Some(index) => if index + 1 < self.view.messages.len() {
                    self.with_view(
                        ScreenModel {
                            active_message: Some((index + 1) as usize),
                            transcript_anchor: Some((index + 1) as usize),
                            ..self.view
                        },
                    )
                } else {
                    let s = self.focused_composer_at_anchor();
                    s.with_view(ScreenModel { has_newer_messages: false, ..s.view })
                },
            }
        }
    }

    pub open spec fn opened_thread(self) -> (AppModel, Option<EffectModel>) {
        match (self.view.active_chat_id(), self.view.active_message_id()) {
            (Some(chat), Some(root)) => {
                let s1 = self.left_history();
                let s2 = s1.with_view(
                    ScreenModel {
                        active_thread: Some(root),
                        active_message: None,
                        transcript_anchor: None,
                        ..s1.view
                    },
                ).restored_draft().refreshed_history();
                let s3 = s2.with_view(ScreenModel { focus: Focus::Composer, ..s2.view });
                s3.requested_history_load(HistoryKey { chat, thread: Some(root), saved_peer: None })
            },
            _ => (self, None),
        }
    }

    pub open spec fn left_thread(self) -> AppModel {
        let s1 = self.left_history();
        let s2 = s1.with_view(
            ScreenModel {
                active_thread: None,
                active_message: None,
                transcript_anchor: None,
                ..s1.view
            },
        ).restored_draft();
        let anchor = s2.remembered_anchor();
        let s3 = s2.refreshed_history_at(None, anchor);
        s3.with_view(ScreenModel { focus: Focus::Composer, ..s3.view })
    }
}

impl App {
    pub(crate) fn remembered_anchor(&self) -> (r: Option<MessageId>)
        ensures
            r == self@.remembered_anchor(),
    {
        match self.active_history_key() {
            Some(key) => match self.transcript_anchors.get(&key) {
                Some(anchor) => Some(*anchor),
                None => None,
            },
            None => None,
        }
    }

    pub(crate) fn leave_history(&mut self)
        ensures
            final(self)@ == old(self)@.left_history(),
    {
        self.save_active_draft();
        self.save_transcript_anchor();
    }

    pub(crate) fn enter_history(&mut self)
        ensures
            final(self)@ == old(self)@.entered_history(),
    {
        self.restore_active_draft();
        let anchor = self.remembered_anchor();
        self.view.active_message = None;
        self.view.transcript_anchor = None;
        self.refresh_active_history_at(None, anchor);
    }

    pub fn move_chat(&mut self, forward: bool) -> (r: Option<Effect>)
        ensures
            (final(self)@, r.deep_view()) == old(self)@.moved_chat(forward),
    {
        let next = move_index(self.view.active_chat, self.view.chats.len(), forward);
        if self.view.focus != Focus::Chats || next == self.view.active_chat {
            return None;
        }
        self.leave_history();
        self.view.active_thread = None;
        self.view.active_chat = next;
        self.enter_history();
        self.view.has_newer_messages = false;
        self.queue_active_media_previews();
        let load = match self.active_chat_id() {
            Some(chat) => self.request_chat_load(chat),
            None => None,
        };
        if load.is_some() {
            return load;
        }
        self.request_next_media_preview()
    }

    pub fn select_folder(&mut self, index: usize) -> (r: Option<Effect>)
        ensures
            (final(self)@, r.deep_view()) == old(self)@.selected_folder(index),
    {
        if index >= self.view.folders.len() || index == self.view.active_folder {
            return None;
        }
        let active_chat = self.active_chat_id();
        self.leave_history();
        self.view.active_folder = index;
        self.refresh_folder_chats(active_chat);
        self.restore_active_draft();
        self.view.active_thread = None;
        let anchor = self.remembered_anchor();
        self.view.active_message = None;
        self.view.transcript_anchor = None;
        self.refresh_active_history_at(None, anchor);
        Some(self.selection_effect())
    }

    pub fn move_folder(&mut self, forward: bool) -> (r: Option<Effect>)
        ensures
            (final(self)@, r.deep_view()) == old(self)@.moved_folder(forward),
    {
        if self.view.focus != Focus::Chats || self.view.folders.len() == 0 {
            return None;
        }
        let next = match move_index(Some(self.view.active_folder), self.view.folders.len(), forward) {
            Some(i) => i,
            None => 0,
        };
        self.select_folder(next)
    }

    pub fn target_previous_message(&mut self)
        ensures
            final(self)@ == old(self)@.targeted_previous_message(),
    {
        if self.view.messages.len() == 0 {
            return ;
        }
        if self.view.focus == Focus::Composer {
            self.save_active_draft();
        }
        let anchor = match self.view.active_message {
            Some(i) => Some(i),
            None => self.view.transcript_anchor,
        };
        let target = match anchor {
            Some(i) => if i > 0 {
                i - 1
            } else {
                0
            },
            None => self.view.messages.len() - 1,
        };
        self.view.active_message = Some(target);
        self.view.transcript_anchor = Some(target);
        self.view.focus = Focus::Transcript;
    }

    pub fn target_next_message(&mut self)
        ensures
            final(self)@ == old(self)@.targeted_next_message(),
    {
        if self.view.focus != Focus::Transcript {
            return ;
        }
        let Some(index) = self.view.active_message else {
            self.view.focus = Focus::Composer;
            return ;
        };
        if self.view.messages.len() > 0 && index < self.view.messages.len() - 1 {
            self.view.active_message = Some(index + 1);
            self.view.transcript_anchor = Some(index + 1);
        } else {
            self.focus_composer_at_anchor();
            self.view.has_newer_messages = false;
        }
    }

    pub fn open_thread(&mut self) -> (r: Option<Effect>)
        ensures
            (final(self)@, r.deep_view()) == old(self)@.opened_thread(),
    {
        let chat = match self.active_chat_id() {
            Some(c) => c,
            None => return None,
        };
        let root = match self.active_message_id() {
            Some(m) => m,
            None => return None,
        };
        self.leave_history();
        self.view.active_thread = Some(root);
        self.view.active_message = None;
        self.view.transcript_anchor = None;
        self.restore_active_draft();
        self.refresh_active_history();
        self.view.focus = Focus::Composer;
        self.request_history_load(HistoryKey::thread(chat, root))
    }

    pub fn leave_thread(&mut self)
        ensures
            final(self)@ == old(self)@.left_thread(),
    {
        self.leave_history();
        self.view.active_thread = None;
        self.view.active_message = None;
        self.view.transcript_anchor = None;
        self.restore_active_draft();
        let anchor = self.remembered_anchor();
        self.refresh_active_history_at(None, anchor);
        self.view.focus = Focus::Composer;
    }
}

} // verus!
