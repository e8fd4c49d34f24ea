use vstd::prelude::*;

use super::{chat_has_id, App, AppModel, HistoryLoadsModel};
use crate::ids::{ChatId, HistoryKey, KeyEq, MessageId};
use crate::seqs::{first_index, lemma_first_index};
use crate::vecset::{set_clear, set_remove, vec_contains};
use crate::view::{ChatLoadingState, Effect, EffectModel, Focus, MessageDirection, MessageModel, ScreenModel};

verus! {

broadcast use vstd::seq_lib::group_seq_properties;

/// At most this many chats are refreshed in the background after a (re)connection.
pub const BACKGROUND_HISTORY_LIMIT: usize = 16;

/// Newest server message that arrived from the other side.
pub open spec fn max_incoming(s: Seq<MessageModel>) -> Option<MessageId>
    decreases s.len(),
{
    if s.len() == 0 {
        None
    } else {
        let rest = max_incoming(s.drop_last());
        let m = s.last();
        if m.direction == MessageDirection::Incoming && m.id.0 > 0 {
            match rest {
                Some(r) if r.0 >= m.id.0 => Some(r),
                _ => Some(m.id),
            }
        } else {
            rest
        }
    }
}

pub open spec fn message_ids(s: Seq<MessageModel>) -> Seq<MessageId> {
    s.map_values(|m: MessageModel| m.id)
}

impl AppModel {
    /// The read receipt the shown history is owed: only when the user looks at its newest
    /// message, and for a chat only when it has unread messages.
    pub open spec fn active_read_effect(self) -> Option<EffectModel> {
        match self.view.active_history_key() {
            None => None,
            Some(key) => if self.view.focus == Focus::Chats || !self.view.at_latest() {
                None
            } else if key.thread is None && self.chat_unread(key.chat) == 0 {
                None
            } else {
                match max_incoming(self.view.messages) {
                    None => None,
                    Some(max_id) => Some(
                        match key.thread {
                            Some(root) => EffectModel::ReadThread { chat: key.chat, root, max_id },
                            None => EffectModel::ReadHistory { chat: key.chat, max_id },
                        },
                    ),
                }
            }
        }
    }

    pub open spec fn with_loads(self, loads: HistoryLoadsModel) -> AppModel {
        AppModel { history_loads: loads, ..self }
    }

    pub open spec fn history_was_refreshed(self, key: HistoryKey) -> bool {
        key.thread is None && self.history_loads.refreshed_chats.contains(key.chat)
    }

    /// Starts loading `key`, or queues it behind the load in progress.
    pub open spec fn started_history_load(self, key: HistoryKey) -> (AppModel, Option<EffectModel>) {
        let shown = self.view.active_history_key() == Some(key);
        let s = if shown {
            AppModel {
                view: ScreenModel {
                    chat_loading: if self.view.messages.len() == 0 {
                        ChatLoadingState::Fresh
                    } else {
                        ChatLoadingState::Updating
                    },
                    ..self.view
                },
                ..self
            }
        } else {
            self
        };
        match s.history_loads.active {
            None => {
                let baseline = if s.histories.contains_key(key) {
                    message_ids(s.histories[key]).to_set()
                } else {
                    Set::empty()
                };
                (
                    s.with_loads(
                        HistoryLoadsModel {
                            active: Some(key),
                            active_baseline: baseline,
                            ..s.history_loads
                        },
                    ),
                    Some(
                        match key.thread {
                            Some(root) => EffectModel::LoadThread { chat: key.chat, root },
                            None => EffectModel::LoadChat {
                                chat: key.chat,
                                selection: if shown {
                                    Some(s.view.selection())
                                } else {
                                    None
                                },
                            },
                        },
                    ),
                )
            },
            Some(loading) => if loading == key {
                (s.with_loads(HistoryLoadsModel { queued: None, ..s.history_loads }), None)
            } else {
                (s.with_loads(HistoryLoadsModel { queued: Some(key), ..s.history_loads }), None)
            },
        }
    }

    pub open spec fn requested_history_load(self, key: HistoryKey) -> (AppModel, Option<EffectModel>) {
        if self.history_was_refreshed(key) {
            (self, None)
        } else {
            self.started_history_load(key)
        }
    }

    /// Loads `chat` again even when it was refreshed already.
    pub open spec fn forced_chat_load(self, chat: ChatId) -> (AppModel, Option<EffectModel>) {
        let key = HistoryKey { chat, thread: None, saved_peer: None };
        let s = self.with_loads(
            HistoryLoadsModel {
                refreshed_chats: self.history_loads.refreshed_chats.remove(chat),
                ..self.history_loads
            },
        );
        if s.history_loads.active == Some(key) {
            (s.with_loads(HistoryLoadsModel { queued: Some(key), ..s.history_loads }), None)
        } else {
            s.started_history_load(key)
        }
    }

    /// The background refresh starts over after the active chat (or at the first chat).
    pub open spec fn background_history_reset(self) -> AppModel {
        let active = self.view.active_chat_id();
        let len = self.all_chats.len();
        let cursor = match active {
            Some(chat) => match first_index(self.all_chats, chat_has_id(chat)) {
                Some(i) => ((i + 1) % (len as int)) as usize,
                None => 0usize,
            },
            None => 0usize,
        };
        let candidates = if active is Some {
            if len >= 1 {
                (len - 1) as int
            } else {
                0
            }
        } else {
            len as int
        };
        AppModel {
            view: ScreenModel { chat_loading: ChatLoadingState::Idle, ..self.view },
            history_loads: HistoryLoadsModel {
                active: None,
                active_baseline: Set::empty(),
                queued: None,
                background_cursor: cursor,
                background_remaining: if candidates < BACKGROUND_HISTORY_LIMIT {
                    candidates as usize
                } else {
                    BACKGROUND_HISTORY_LIMIT
                },
                refreshed_chats: Set::empty(),
                read_pending: false,
            },
            ..self
        }
    }

    /// After a reconnection the background refresh includes the active chat itself.
    pub open spec fn reconnected_history_reset(self) -> AppModel {
        let s = self.background_history_reset();
        match s.view.active_chat_id() {
            Some(chat) => match first_index(s.all_chats, chat_has_id(chat)) {
                Some(i) => s.with_loads(
                    HistoryLoadsModel {
                        background_cursor: i as usize,
                        background_remaining: if s.all_chats.len() < BACKGROUND_HISTORY_LIMIT {
                            s.all_chats.len() as usize
                        } else {
                            BACKGROUND_HISTORY_LIMIT
                        },
                        ..s.history_loads
                    },
                ),
                None => s,
            },
            None => s,
        }
    }

    /// The background cursor always points into the chat list while work remains.
    pub open spec fn background_wf(self) -> bool {
        self.history_loads.background_remaining > 0 ==> self.history_loads.background_cursor
            < self.all_chats.len()
    }

    /// The chat selection points into the shown chat list.
    pub open spec fn selection_wf(self) -> bool {
        self.view.active_chat matches Some(i) ==> i < self.view.chats.len()
    }

    pub open spec fn wf(self) -> bool {
        self.background_wf() && self.selection_wf()
    }

    /// Walks the background cursor to the next chat that was not refreshed and loads it.
    pub open spec fn next_background_history(self) -> (AppModel, Option<EffectModel>)
        decreases self.history_loads.background_remaining,
    {
        if self.history_loads.background_remaining == 0 {
            (self, None)
        } else {
            let index = self.history_loads.background_cursor;
            let s = self.with_loads(
                HistoryLoadsModel {
                    background_cursor: ((index + 1) % (self.all_chats.len() as int)) as usize,
                    background_remaining: (self.history_loads.background_remaining - 1) as usize,
                    ..self.history_loads
                },
            );
            let key = HistoryKey { chat: self.all_chats[index as int].id, thread: None, saved_peer: None };
            if !s.history_was_refreshed(key) {
                s.started_history_load(key)
            } else {
                s.next_background_history()
            }
        }
    }

    pub open spec fn taken_pending_read(self) -> (AppModel, Option<EffectModel>) {
        if !self.history_loads.read_pending {
            (self, None)
        } else {
            (
                self.with_loads(HistoryLoadsModel { read_pending: false, ..self.history_loads }),
                self.active_read_effect(),
            )
        }
    }
}

impl App {
    /// The newest server message shown that came from the other side.
    pub fn newest_incoming(&self) -> (r: Option<MessageId>)
        ensures
            r == max_incoming(self@.view.messages),
    {
        let ghost msgs = self@.view.messages;
        let mut best: Option<MessageId> = None;
        let mut i: usize = 0;
        while i < self.view.messages.len()
            invariant
                msgs == self@.view.messages,
                i <= msgs.len(),
                best == max_incoming(msgs.take(i as int)),
            decreases msgs.len() - i,
        {
            proof {
                assert(msgs.take(i as int + 1).drop_last() =~= msgs.take(i as int));
            }
            let m = &self.view.messages[i];
            if m.direction == MessageDirection::Incoming && m.id.0 > 0 {
                best = match best {
                    Some(b) => if b.0 >= m.id.0 {
                        Some(b)
                    } else {
                        Some(m.id)
                    },
                    None => Some(m.id),
                };
            }
            i = i + 1;
        }
        proof {
            assert(msgs.take(msgs.len() as int) =~= msgs);
        }
        best
    }

    pub fn active_read_effect(&self) -> (r: Option<Effect>)
        ensures
            r.deep_view() == self@.active_read_effect(),
    {
        let key = match self.active_history_key() {
            Some(k) => k,
            None => return None,
        };
        if self.view.focus == Focus::Chats || !self.at_latest() {
            return None;
        }
        if key.thread.is_none() && self.chat_unread(key.chat) == 0 {
            return None;
        }
        let best = self.newest_incoming();
        let max_id = match best {
            Some(b) => b,
            None => return None,
        };
        Some(
            match key.thread {
                Some(root) => Effect::ReadThread { chat: key.chat, root, max_id },
                None => Effect::ReadHistory { chat: key.chat, max_id },
            },
        )
    }

    pub fn history_load_is_active(&self) -> (r: bool)
        ensures
            r == self@.history_loads.active is Some,
    {
        self.history_loads.active.is_some()
    }

    pub fn defer_active_read(&mut self)
        ensures
            final(self)@ == old(self)@.with_loads(
                HistoryLoadsModel {
                    read_pending: old(self)@.history_loads.read_pending
                        || old(self)@.active_read_effect() is Some,
                    ..old(self)@.history_loads
                },
            ),
    {
        let pending = self.active_read_effect().is_some();
        self.history_loads.read_pending = self.history_loads.read_pending || pending;
    }

    pub fn take_pending_read(&mut self) -> (r: Option<Effect>)
        ensures
            (final(self)@, r.deep_view()) == old(self)@.taken_pending_read(),
    {
        if !self.history_loads.read_pending {
            return None;
        }
        self.history_loads.read_pending = false;
        self.active_read_effect()
    }

    pub fn history_was_refreshed(&self, key: HistoryKey) -> (r: bool)
        ensures
            r == self@.history_was_refreshed(key),
    {
        key.thread.is_none() && vec_contains(&self.history_loads.refreshed_chats, &key.chat)
    }

    /// The message ids a load of `key` started from, while that load runs.
    pub fn history_request_baseline(&self, key: HistoryKey) -> (r: Option<&Vec<MessageId>>)
        ensures
            match r {
                Some(ids) => self@.history_loads.active == Some(key) && ids@.to_set()
                    == self@.history_loads.active_baseline,
                None => self@.history_loads.active != Some(key),
            },
    {
        let active = match self.history_loads.active {
            Some(a) => a.same(&key),
            None => false,
        };
        if active {
            Some(&self.history_loads.active_baseline)
        } else {
            None
        }
    }

    fn message_ids_of(messages: &Vec<crate::view::MessageView>) -> (r: Vec<MessageId>)
        ensures
            r@ == message_ids(messages.deep_view()),
    {
        let ghost s = messages.deep_view();
        let mut ids: Vec<MessageId> = Vec::new();
        let mut i: usize = 0;
        while i < messages.len()
            invariant
                s == messages.deep_view(),
                i <= s.len(),
                ids@ == message_ids(s.take(i as int)),
            decreases s.len() - i,
        {
            ids.push(messages[i].id);
            proof {
                assert(message_ids(s.take(i as int + 1)) =~= message_ids(s.take(i as int)).push(
                    s[i as int].id,
                ));
            }
            i = i + 1;
        }
        proof {
            assert(s.take(s.len() as int) =~= s);
        }
        ids
    }

    pub fn start_history_load(&mut self, key: HistoryKey) -> (r: Option<Effect>)
        ensures
            (final(self)@, r.deep_view()) == old(self)@.started_history_load(key),
    {
        let shown = match self.active_history_key() {
            Some(k) => k.same(&key),
            None => false,
        };
        if shown {
            self.view.chat_loading = if self.view.messages.len() == 0 {
                ChatLoadingState::Fresh
            } else {
                ChatLoadingState::Updating
            };
        }
        match self.history_loads.active {
            None => {
                let baseline = match self.histories.get(&key) {
                    Some(history) => Self::message_ids_of(history),
                    None => Vec::new(),
                };
                self.history_loads.active = Some(key);
                self.history_loads.active_baseline = baseline;
                proof {
                    if !old(self)@.histories.contains_key(key) {
                        assert(self@.history_loads.active_baseline =~= Set::<MessageId>::empty());
                    }
                }
                Some(
                    match key.thread {
                        Some(root) => Effect::LoadThread { chat: key.chat, root },
                        None => Effect::LoadChat {
                            chat: key.chat,
                            selection: if shown {
                                Some(self.selection_view())
                            } else {
                                None
                            },
                        },
                    },
                )
            },
            Some(loading) => {
                if loading.same(&key) {
                    self.history_loads.queued = None;
                } else {
                    self.history_loads.queued = Some(key);
                }
                None
            },
        }
    }

    pub fn request_history_load(&mut self, key: HistoryKey) -> (r: Option<Effect>)
        ensures
            (final(self)@, r.deep_view()) == old(self)@.requested_history_load(key),
    {
        if self.history_was_refreshed(key) {
            return None;
        }
        self.start_history_load(key)
    }

    pub fn request_chat_load(&mut self, chat: ChatId) -> (r: Option<Effect>)
        ensures
            (final(self)@, r.deep_view()) == old(self)@.requested_history_load(
                HistoryKey { chat, thread: None, saved_peer: None },
            ),
    {
        self.request_history_load(HistoryKey::root(chat))
    }

    pub fn force_chat_load(&mut self, chat: ChatId) -> (r: Option<Effect>)
        ensures
            (final(self)@, r.deep_view()) == old(self)@.forced_chat_load(chat),
    {
        let key = HistoryKey::root(chat);
        set_remove(&mut self.history_loads.refreshed_chats, &chat);
        let active = match self.history_loads.active {
            Some(a) => a.same(&key),
            None => false,
        };
        if active {
            self.history_loads.queued = Some(key);
            None
        } else {
            self.start_history_load(key)
        }
    }

    pub fn reset_background_history(&mut self)
        ensures
            final(self)@ == old(self)@.background_history_reset(),
            final(self)@.background_wf(),
    {
        self.history_loads.active = None;
        set_clear(&mut self.history_loads.active_baseline);
        self.history_loads.queued = None;
        set_clear(&mut self.history_loads.refreshed_chats);
        self.history_loads.read_pending = false;
        self.view.chat_loading = ChatLoadingState::Idle;
        let active = self.active_chat_id();
        let len = self.all_chats.len();
        let cursor = match active {
            Some(chat) => match super::navigation::find_chat(&self.all_chats, chat) {
                Some(i) => {
                    proof {
                        lemma_first_index(self@.all_chats, chat_has_id(chat));
                        assert(first_index(self@.all_chats, chat_has_id(chat)) == Some(i as int));
                    }
                    (i + 1) % len
                },
                None => 0,
            },
            None => 0,
        };
        self.history_loads.background_cursor = cursor;
        let candidates = if active.is_some() {
            if len >= 1 {
                len - 1
            } else {
                0
            }
        } else {
            len
        };
        self.history_loads.background_remaining = if candidates < BACKGROUND_HISTORY_LIMIT {
            candidates
        } else {
            BACKGROUND_HISTORY_LIMIT
        };
        proof {
            let m = old(self)@.background_history_reset();
            assert(self@.view == m.view);
            assert(self@.history_loads == m.history_loads);
        }
    }

    pub fn reset_reconnected_history(&mut self)
        ensures
            final(self)@ == old(self)@.reconnected_history_reset(),
            final(self)@.background_wf(),
    {
        self.reset_background_history();
        if let Some(active) = self.active_chat_id() {
            if let Some(index) = super::navigation::find_chat(&self.all_chats, active) {
                self.history_loads.background_cursor = index;
                self.history_loads.background_remaining = if self.all_chats.len()
                    < BACKGROUND_HISTORY_LIMIT {
                    self.all_chats.len()
                } else {
                    BACKGROUND_HISTORY_LIMIT
                };
            }
        }
    }

    pub fn request_next_background_history(&mut self) -> (r: Option<Effect>)
        requires
            old(self)@.background_wf(),
        ensures
            (final(self)@, r.deep_view()) == old(self)@.next_background_history(),
    {
        while self.history_loads.background_remaining > 0
            invariant
                self@.background_wf(),
                old(self)@.next_background_history() == self@.next_background_history(),
            decreases self.history_loads.background_remaining,
        {
            let index = self.history_loads.background_cursor;
            assert(self@.all_chats.len() == self.all_chats.len());
            self.history_loads.background_cursor = (index + 1) % self.all_chats.len();
            self.history_loads.background_remaining = self.history_loads.background_remaining - 1;
            let key = HistoryKey::root(self.all_chats[index].id);
            if !self.history_was_refreshed(key) {
                return self.start_history_load(key);
            }
        }
        None
    }
}

} // verus!
