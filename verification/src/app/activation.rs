use vstd::prelude::*;

use super::navigation::find_chat;
use super::{chat_has_id, message_has_id, selection_effect_of, App, AppModel};
use crate::ids::{ChatId, HistoryKey, MessageId};
use crate::seqs::{first_index, lemma_first_index, lemma_first_index_is, lemma_first_index_none};
use crate::view::{ActivationTarget, Effect, EffectModel, FolderModel, Focus, ScreenModel, ScrollDirection, ScrollTarget};

verus! {

pub open spec fn folder_has_id(id: i32) -> spec_fn(FolderModel) -> bool {
    |f: FolderModel| f.id == id
}

impl AppModel {
    pub open spec fn activated_chat(self, chat: ChatId) -> (AppModel, Option<EffectModel>) {
        let s0 = self.with_view(ScreenModel { focus: Focus::Chats, ..self.view });
        match first_index(s0.view.chats, chat_has_id(chat)) {
            None => (s0, None),
            Some(index) => if s0.view.active_chat == Some(index as usize) {
                (s0, None)
            } else {
                let s1 = s0.left_history().cleared_selection();
                let s2 = s1.with_view(
                    ScreenModel {
                        active_thread: None,
                        chat_scroll_direction: match s1.view.active_chat {
                            None => ScrollDirection::Down,
                            Some(active) => if index >= active {
                                ScrollDirection::Down
                            } else {
                                ScrollDirection::Up
                            },
                        },
                        active_chat: Some(index as usize),
                        ..s1.view
                    },
                ).entered_history();
                s2.with_view(ScreenModel { has_newer_messages: false, ..s2.view })
                    .loaded_activated_chat(chat)
            },
        }
    }

    /// After a chat is selected: its previews and avatars are queued and its history loaded.
    pub open spec fn loaded_activated_chat(self, chat: ChatId) -> (AppModel, Option<EffectModel>) {
        let s3 = self.queued_active_media_previews().queued_visible_avatars();
        let (s4, e4) = s3.requested_history_load(HistoryKey { chat, thread: None, saved_peer: None });
        if e4 is Some {
            (s4, e4)
        } else {
            (s4, Some(selection_effect_of(s4.view.selection())))
        }
    }

    pub open spec fn activated_folder(self, folder: i32) -> (AppModel, Option<EffectModel>) {
        let s0 = self.with_view(ScreenModel { focus: Focus::Chats, ..self.view });
        match first_index(s0.view.folders, folder_has_id(folder)) {
            None => (s0, None),
            Some(index) => s0.selected_folder(index as usize),
        }
    }

    pub open spec fn activated_message(self, message: MessageId) -> AppModel {
        match first_index(self.view.messages, message_has_id(message)) {
            None => self,
            Some(index) => {
                let s = if self.view.focus == Focus::Composer {
                    self.saved_draft()
                } else {
                    self
                };
                s.with_view(
                    ScreenModel {
                        active_message: Some(index as usize),
                        transcript_anchor: Some(index as usize),
                        focus: Focus::Transcript,
                        ..s.view
                    },
                )
            },
        }
    }

    pub open spec fn activated(self, target: ActivationTarget) -> (AppModel, Option<EffectModel>) {
        match target {
            ActivationTarget::Folder(folder) => self.activated_folder(folder),
            ActivationTarget::Chat(chat) => self.activated_chat(chat),
            ActivationTarget::Message(message) => {
                let s = self.activated_message(message);
                (s, Some(selection_effect_of(s.view.selection())))
            },
            ActivationTarget::Composer => if self.view.active_chat_id() is Some {
                (self.focused_composer_at_anchor(), None)
            } else {
                (self, None)
            },
        }
    }

    pub open spec fn scrolled(self, target: ScrollTarget, direction: ScrollDirection) -> (
        AppModel,
        Option<EffectModel>,
    ) {
        match target {
            ScrollTarget::Chats => self.with_view(ScreenModel { focus: Focus::Chats, ..self.view })
                .moved_chat(direction == ScrollDirection::Down),
            ScrollTarget::Transcript => {
                let s0 = if self.view.focus == Focus::Chats {
                    self.with_view(ScreenModel { focus: Focus::Composer, ..self.view })
                } else {
                    self
                };
                let s1 = match direction {
                    ScrollDirection::Up => s0.targeted_previous_message(),
                    ScrollDirection::Down => s0.targeted_next_message(),
                };
                if s1.view.active_message != self.view.active_message || s1.view.transcript_anchor
                    != self.view.transcript_anchor {
                    (s1, Some(selection_effect_of(s1.view.selection())))
                } else {
                    (s1, None)
                }
            },
        }
    }
}

impl App {
    pub fn activate_chat(&mut self, chat: ChatId) -> (r: Option<Effect>)
        ensures
            (final(self)@, r.deep_view()) == old(self)@.activated_chat(chat),
    {
        self.view.focus = Focus::Chats;
        let index = match find_chat(&self.view.chats, chat) {
            Some(i) => i,
            None => return None,
        };
        proof {
            lemma_first_index(self@.view.chats, chat_has_id(chat));
            assert(first_index(self@.view.chats, chat_has_id(chat)) == Some(index as int));
        }
        if self.view.active_chat == Some(index) {
            return None;
        }
        self.leave_history();
        self.clear_message_selection();
        self.view.active_thread = None;
        self.view.chat_scroll_direction = match self.view.active_chat {
            None => ScrollDirection::Down,
            Some(active) => if index >= active {
                ScrollDirection::Down
            } else {
                ScrollDirection::Up
            },
        };
        self.view.active_chat = Some(index);
        self.enter_history();
        self.view.has_newer_messages = false;
        self.load_activated_chat(chat)
    }

    fn load_activated_chat(&mut self, chat: ChatId) -> (r: Option<Effect>)
        requires
            old(self)@.selection_wf(),
        ensures
            (final(self)@, r.deep_view()) == old(self)@.loaded_activated_chat(chat),
    {
        self.queue_active_media_previews();
        self.queue_visible_avatars();
        let load = self.request_chat_load(chat);
        if load.is_some() {
            return load;
        }
        Some(self.selection_effect())
    }

    pub fn activate_folder(&mut self, folder: i32) -> (r: Option<Effect>)
        ensures
            (final(self)@, r.deep_view()) == old(self)@.activated_folder(folder),
    {
        self.view.focus = Focus::Chats;
        let ghost fs = self@.view.folders;
        let mut i: usize = 0;
        while i < self.view.folders.len()
            invariant
                fs == self@.view.folders,
                self@ == old(self)@.with_view(ScreenModel { focus: Focus::Chats, ..old(self)@.view }),
                i <= fs.len(),
                forall|j: int| 0 <= j < i ==> fs[j].id != folder,
            decreases fs.len() - i,
        {
            if self.view.folders[i].id == folder {
                proof {
                    lemma_first_index_is(fs, folder_has_id(folder), i as int);
                }
                return self.select_folder(i);
            }
            i = i + 1;
        }
        proof {
            lemma_first_index_none(fs, folder_has_id(folder));
        }
        None
    }

    pub fn activate_message(&mut self, message: MessageId)
        ensures
            final(self)@ == old(self)@.activated_message(message),
    {
        let index = match self.history_position(message) {
            Some(i) => i,
            None => return ,
        };
        proof {
            lemma_first_index(self@.view.messages, message_has_id(message));
        }
        if self.view.focus == Focus::Composer {
            self.save_active_draft();
        }
        self.view.active_message = Some(index);
        self.view.transcript_anchor = Some(index);
        self.view.focus = Focus::Transcript;
    }

    pub fn activate(&mut self, target: ActivationTarget) -> (r: Option<Effect>)
        ensures
            (final(self)@, r.deep_view()) == old(self)@.activated(target),
    {
        match target {
            ActivationTarget::Folder(folder) => self.activate_folder(folder),
            ActivationTarget::Chat(chat) => self.activate_chat(chat),
            ActivationTarget::Message(message) => {
                self.activate_message(message);
                Some(self.selection_effect())
            },
            ActivationTarget::Composer => {
                if self.active_chat_id().is_some() {
                    self.focus_composer_at_anchor();
                }
                None
            },
        }
    }

    pub fn scroll(&mut self, target: ScrollTarget, direction: ScrollDirection) -> (r: Option<Effect>)
        ensures
            (final(self)@, r.deep_view()) == old(self)@.scrolled(target, direction),
    {
        match target {
            ScrollTarget::Chats => {
                self.view.focus = Focus::Chats;
                self.move_chat(direction == ScrollDirection::Down)
            },
            ScrollTarget::Transcript => {
                let previous_message = self.view.active_message;
                let previous_anchor = self.view.transcript_anchor;
                if self.view.focus == Focus::Chats {
                    self.view.focus = Focus::Composer;
                }
                match direction {
                    ScrollDirection::Up => self.target_previous_message(),
                    ScrollDirection::Down => self.target_next_message(),
                }
                if previous_message != self.view.active_message || previous_anchor
                    != self.view.transcript_anchor {
                    Some(self.selection_effect())
                } else {
                    None
                }
            },
        }
    }
}

} // verus!
