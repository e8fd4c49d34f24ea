use vstd::prelude::*;

use super::chat_reconciliation::{ChatChange, ChatChangeModel};
use super::history_loading::max_incoming;
use super::{App, AppModel};
use crate::ids::{same_message, ChatId, HistoryKey};
use crate::keyed::{lemma_entries_mapped, lemma_position, position, KeyList};
use crate::seqs::{last_index, lemma_last_index, lemma_last_index_is, lemma_last_index_none};
use crate::view::{clone_messages, clone_string, Effect, EffectModel, Focus, MessageDirection, MessageModel, MessageView, ScreenModel};

verus! {

broadcast use vstd::seq_lib::group_seq_properties;

/// A stored message that an arriving outgoing message stands for: the same message, or a
/// local copy (negative id) with the same text that was sent from here.
pub open spec fn pending_match(m: MessageModel) -> spec_fn(MessageModel) -> bool {
    |c: MessageModel|
        c.id == m.id || (c.id.0 < 0 && c.direction == MessageDirection::Outgoing && c.body == m.body)
}

/// In each history of `chat`, the last message that `m` stands for is replaced by `m`.
pub open spec fn pending_replaced(chat: ChatId, m: MessageModel) -> spec_fn(HistoryKey, Seq<MessageModel>) -> Seq<
    MessageModel,
> {
    |k: HistoryKey, h: Seq<MessageModel>|
        if k.chat == chat {
            match last_index(h, pending_match(m)) {
                Some(i) => h.update(i, m),
                None => h,
            }
        } else {
            h
        }
}

/// The stored history of `key` (empty when none is stored) with `m` appended.
pub open spec fn appended_at(
    hs: Map<HistoryKey, Seq<MessageModel>>,
    key: HistoryKey,
    m: MessageModel,
) -> Map<HistoryKey, Seq<MessageModel>> {
    hs.insert(key, (if hs.contains_key(key) { hs[key] } else { Seq::empty() }).push(m))
}

/// The entry at `j` is the one that holds its key, belongs to `chat` and holds a message that
/// `m` stands for.
pub open spec fn holds_pending(
    entries: Seq<(HistoryKey, Vec<MessageView>)>,
    j: int,
    chat: ChatId,
    m: MessageModel,
) -> bool {
    &&& position(entries, entries[j].0) == Some(j)
    &&& entries[j].0.chat == chat
    &&& last_index(entries[j].1.deep_view(), pending_match(m)) is Some
}

impl AppModel {
    /// Some stored history of `chat` holds a message that `m` stands for.
    pub open spec fn has_pending_copy(self, chat: ChatId, m: MessageModel) -> bool {
        exists|k: HistoryKey|
            #[trigger] self.histories.contains_key(k) && k.chat == chat && last_index(
                self.histories[k],
                pending_match(m),
            ) is Some
    }

    /// An outgoing server message takes the place of the copies it stands for; the flag says
    /// whether there was one.
    pub open spec fn pending_message_reconciled(self, chat: ChatId, m: MessageModel) -> (AppModel, bool) {
        if m.direction != MessageDirection::Outgoing || m.id.0 <= 0 {
            (self, false)
        } else {
            (
                self.with_histories(self.histories.map_entries(pending_replaced(chat, m))),
                self.has_pending_copy(chat, m),
            )
        }
    }

    /// The read receipt a shown thread is owed when the user looks at its newest message.
    pub open spec fn active_thread_read_effect(self) -> Option<EffectModel> {
        match self.view.active_history_key() {
            Some(key) => match key.thread {
                Some(root) => if self.view.focus == Focus::Chats || !self.view.at_latest() {
                    None
                } else {
                    match max_incoming(self.view.messages) {
                        Some(max_id) => Some(EffectModel::ReadThread { chat: key.chat, root, max_id }),
                        None => None,
                    }
                },
                None => None,
            },
            None => None,
        }
    }

    /// The new message is kept in its root history and its thread, unless it took the place of
    /// a local copy.
    pub open spec fn added_message_stored(self, chat: ChatId, m: MessageModel) -> (AppModel, bool) {
        let (s, reconciled) = self.pending_message_reconciled(chat, m);
        if reconciled {
            (s, true)
        } else {
            let h1 = appended_at(s.histories, HistoryKey { chat, thread: None, saved_peer: None }, m);
            let h2 = match m.thread_root {
                Some(root) => appended_at(h1, HistoryKey { chat, thread: Some(root), saved_peer: None }, m),
                None => h1,
            };
            (s.with_histories(h2), false)
        }
    }

    /// A message arrives in `chat`: the unread count, boundary and preview follow it, it is
    /// stored, the shown history is refreshed, and the user is told of it unless they are
    /// looking at it (then a shown thread may be marked read).
    pub open spec fn message_added(self, chat: ChatId, m: MessageModel) -> (AppModel, Option<EffectModel>) {
        let incoming = m.direction == MessageDirection::Incoming;
        let active = self.view.active_chat_id() == Some(chat);
        let was_latest = active && self.view.at_latest();
        let active_message = if active { self.view.active_message_id() } else { None };
        let anchor = if active { self.view.transcript_anchor_id() } else { None };
        let visibly_read = active && self.view.focus != Focus::Chats && was_latest;
        let increment: u32 = if incoming && !visibly_read { 1 } else { 0 };
        let root = HistoryKey { chat, thread: None, saved_peer: None };
        let s1 = if increment > 0 && m.thread_root is None && !self.unread_boundaries.contains_key(root) {
            self.with_boundaries(self.unread_boundaries.insert(root, m.id))
        } else {
            self
        };
        let s2 = s1.changed_chat(chat, ChatChangeModel::Added { body: m.body, unread_increment: increment });
        let s4 = s2.added_message_stored(chat, m).0;
        let s5 = if active {
            let r = s4.refreshed_history_at(active_message, anchor);
            AppModel { view: ScreenModel { has_newer_messages: !was_latest, ..r.view }, ..r }
        } else {
            s4
        };
        let read = if incoming && visibly_read && m.thread_root is Some && s5.view.active_thread
            == m.thread_root {
            s5.active_thread_read_effect()
        } else {
            None
        };
        let effect = if read is Some {
            read
        } else if incoming && !visibly_read {
            Some(EffectModel::Notify { identity: s5.view.notification_identity, chat })
        } else {
            None
        };
        (s5, effect)
    }
}

proof fn lemma_position_same_keys(
    a: Seq<(HistoryKey, Vec<MessageView>)>,
    b: Seq<(HistoryKey, Vec<MessageView>)>,
    k: HistoryKey,
)
    requires
        a.len() == b.len(),
        forall|j: int| 0 <= j < a.len() ==> #[trigger] a[j].0 == b[j].0,
    ensures
        position(a, k) == position(b, k),
{
    lemma_position(a, k);
    lemma_position(b, k);
    if let Some(i) = position(a, k) {
        assert(b[i].0 == k);
        if let Some(p) = position(b, k) {
            assert(a[p].0 == k);
        }
    } else {
        if let Some(p) = position(b, k) {
            assert(a[p].0 == k);
        }
    }
}

/// Some entry holds a pending copy exactly when some stored history of the chat does.
proof fn lemma_pending_copy(before: KeyList<HistoryKey, Vec<MessageView>>, model: AppModel, chat: ChatId, m: MessageModel)
    requires
        model.histories == before.map_model(),
    ensures
        (exists|j: int| 0 <= j < before.entries@.len() && holds_pending(before.entries@, j, chat, m))
            == model.has_pending_copy(chat, m),
{
    let b = before.entries@;
    if exists|j: int| 0 <= j < b.len() && holds_pending(b, j, chat, m) {
        let j = choose|j: int| 0 <= j < b.len() && holds_pending(b, j, chat, m);
        let k = b[j].0;
        lemma_position(b, k);
        assert(model.histories.contains_key(k));
        assert(model.histories[k] == b[j].1.deep_view());
    }
    if model.has_pending_copy(chat, m) {
        let k = choose|k: HistoryKey|
            #[trigger] model.histories.contains_key(k) && k.chat == chat && last_index(
                model.histories[k],
                pending_match(m),
            ) is Some;
        lemma_position(b, k);
        let p = position(b, k).unwrap();
        assert(holds_pending(b, p, chat, m));
    }
}

/// Position of the last stored message that `message` stands for.
fn last_pending(h: &Vec<MessageView>, message: &MessageView) -> (r: Option<usize>)
    ensures
        match r {
            Some(i) => i < h.len() && last_index(h.deep_view(), pending_match(message.deep_view()))
                == Some(i as int),
            None => last_index(h.deep_view(), pending_match(message.deep_view())) is None,
        },
{
    let ghost s = h.deep_view();
    let ghost p = pending_match(message.deep_view());
    proof {
        lemma_last_index(s, p);
    }
    let mut i: usize = h.len();
    while i > 0
        invariant
            s == h.deep_view(),
            p == pending_match(message.deep_view()),
            i <= h.len(),
            forall|j: int| i <= j < s.len() ==> !p(s[j]),
        decreases i,
    {
        let c = &h[i - 1];
        let same_text = c.body == message.body;
        if c.id.0 == message.id.0 || (c.id.0 < 0 && c.direction == MessageDirection::Outgoing && same_text) {
            proof {
                lemma_last_index_is(s, p, i - 1);
            }
            return Some(i - 1);
        }
        i = i - 1;
    }
    proof {
        lemma_last_index_none(s, p);
    }
    None
}

impl App {
    pub fn reconcile_pending_message(&mut self, chat: ChatId, message: &MessageView) -> (reconciled: bool)
        ensures
            (final(self)@, reconciled) == old(self)@.pending_message_reconciled(chat, message.deep_view()),
    {
        if message.direction != MessageDirection::Outgoing || message.id.0 <= 0 {
            return false;
        }
        let ghost before = self.histories;
        let ghost m = message.deep_view();
        let ghost g = pending_replaced(chat, m);
        let n = self.histories.entries.len();
        let mut reconciled = false;
        let mut i: usize = 0;
        while i < n
            invariant
                g == pending_replaced(chat, m),
                m == message.deep_view(),
                n == self.histories.entries.len(),
                n == before.entries@.len(),
                i <= n,
                forall|j: int| 0 <= j < n ==> #[trigger] self.histories.entries@[j].0 == before.entries@[j].0,
                forall|j: int|
                    0 <= j < i ==> (#[trigger] self.histories.entries@[j].1).deep_view() == g(
                        before.entries@[j].0,
                        before.entries@[j].1.deep_view(),
                    ),
                forall|j: int| i <= j < n ==> #[trigger] self.histories.entries@[j] == before.entries@[j],
                reconciled == exists|j: int| 0 <= j < i && holds_pending(before.entries@, j, chat, m),
                self@ == old(self)@.with_histories(self.histories.map_model()),
                before == old(self).histories,
            decreases n - i,
        {
            let key = self.histories.entries[i].0;
            let ghost prev = self.histories.entries@;
            proof {
                lemma_position_same_keys(prev, before.entries@, key);
            }
            let first = match self.histories.find(&key) {
                Some(p) => p == i,
                None => false,
            };
            let found = if key.chat.0 == chat.0 {
                last_pending(&self.histories.entries[i].1, message)
            } else {
                None
            };
            proof {
                assert(prev[i as int] == before.entries@[i as int]);
                assert(holds_pending(before.entries@, i as int, chat, m) == (first && found is Some));
            }
            {
                match found {
                    Some(p) => {
                        let mut h = clone_messages(&self.histories.entries[i].1);
                        let ghost hv = h.deep_view();
                        h.set(p, message.clone());
                        proof {
                            assert(h.deep_view() =~= hv.update(p as int, m));
                        }
                        self.histories.entries.set(i, (key, h));
                        if first {
                            reconciled = true;
                        }
                    },
                    None => {},
                }
            }
            proof {
                assert(prev[i as int] == before.entries@[i as int]);
                assert forall|j: int| 0 <= j < n implies #[trigger] self.histories.entries@[j].0
                    == before.entries@[j].0 by {
                    assert(prev[j].0 == before.entries@[j].0);
                }
                assert forall|j: int| 0 <= j <= i implies (#[trigger] self.histories.entries@[j].1).deep_view()
                    == g(before.entries@[j].0, before.entries@[j].1.deep_view()) by {
                    if j < i {
                        assert(prev[j].0 == before.entries@[j].0);
                        assert(self.histories.entries@[j] == prev[j]);
                    }
                }
            }
            i = i + 1;
        }
        proof {
            assert forall|j: int| 0 <= j < before.entries@.len() implies #[trigger] self.histories.entries@[j].0
                == before.entries@[j].0 && self.histories.entries@[j].1.deep_view() == g(
                before.entries@[j].0,
                before.entries@[j].1.deep_view(),
            ) by {
                assert(self.histories.entries@[j].0 == before.entries@[j].0);
                assert(self.histories.entries@[j].1.deep_view() == g(
                    before.entries@[j].0,
                    before.entries@[j].1.deep_view(),
                ));
            }
            lemma_entries_mapped(before, self.histories, g);
            lemma_pending_copy(before, old(self)@, chat, m);
        }
        reconciled
    }
    pub fn active_thread_read_effect(&self) -> (r: Option<Effect>)
        ensures
            r.deep_view() == self@.active_thread_read_effect(),
    {
        let key = match self.active_history_key() {
            Some(k) => k,
            None => return None,
        };
        let root = match key.thread {
            Some(r) => r,
            None => return None,
        };
        if self.view.focus == Focus::Chats || !self.at_latest() {
            return None;
        }
        match self.newest_incoming() {
            Some(max_id) => Some(Effect::ReadThread { chat: key.chat, root, max_id }),
            None => None,
        }
    }

    pub(crate) fn append_at(&mut self, key: HistoryKey, message: MessageView)
        ensures
            final(self)@ == old(self)@.with_histories(appended_at(old(self)@.histories, key, message.deep_view())),
    {
        let mut h = match self.histories.get(&key) {
            Some(h) => clone_messages(h),
            None => Vec::new(),
        };
        let ghost hv = h.deep_view();
        h.push(message);
        proof {
            assert(h.deep_view() =~= hv.push(message.deep_view()));
        }
        self.histories.insert(key, h);
    }

    fn store_added_message(&mut self, chat: ChatId, message: MessageView)
        ensures
            final(self)@ == old(self)@.added_message_stored(chat, message.deep_view()).0,
    {
        let reconciled = self.reconcile_pending_message(chat, &message);
        if !reconciled {
            let thread = message.details.thread_root;
            self.append_at(HistoryKey::root(chat), message.clone());
            if let Some(root) = thread {
                self.append_at(HistoryKey::thread(chat, root), message);
            }
        }
    }

    pub fn apply_added_message(&mut self, chat: ChatId, message: MessageView) -> (r: Option<Effect>)
        ensures
            (final(self)@, r.deep_view()) == old(self)@.message_added(chat, message.deep_view()),
    {
        let incoming = message.direction == MessageDirection::Incoming;
        let message_thread = message.details.thread_root;
        let active = match self.active_chat_id() {
            Some(c) => c.0 == chat.0,
            None => false,
        };
        let was_latest = active && self.at_latest();
        let active_message = if active {
            self.active_message_id()
        } else {
            None
        };
        let transcript_anchor = if active {
            self.transcript_anchor_id()
        } else {
            None
        };
        let visibly_read = active && self.view.focus != Focus::Chats && was_latest;
        let increment: u32 = if incoming && !visibly_read {
            1
        } else {
            0
        };
        if increment > 0 && message_thread.is_none() {
            let root = HistoryKey::root(chat);
            if !self.unread_boundaries.contains(&root) {
                self.unread_boundaries.insert(root, message.id);
            }
        }
        let change = ChatChange::Added { body: clone_string(&message.body), unread_increment: increment };
        self.change_chat_entries(chat, &change);
        self.store_added_message(chat, message);
        if active {
            self.refresh_active_history_at(active_message, transcript_anchor);
            self.view.has_newer_messages = !was_latest;
        }
        let read = if incoming && visibly_read && message_thread.is_some() && same_message(
            self.view.active_thread,
            message_thread,
        ) {
            self.active_thread_read_effect()
        } else {
            None
        };
        if read.is_some() {
            read
        } else if incoming && !visibly_read {
            Some(Effect::Notify { identity: clone_string(&self.view.notification_identity), chat })
        } else {
            None
        }
    }
}

} // verus!
