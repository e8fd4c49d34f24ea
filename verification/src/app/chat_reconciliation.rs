use vstd::prelude::*;

use super::folder_membership::{change_membership, membership_folders};
use super::navigation::contains_folder;
use super::reconciliation::{HistoryOp, HistoryOpModel};
use super::{message_has_id, App, AppModel};
use crate::ids::{same_message, ChatId, HistoryKey, MessageId};
use crate::keyed::lemma_entries_mapped;
use crate::seqs::{first_index, lemma_first_index, lemma_first_index_is, lemma_first_index_none};
use crate::view::{clone_messages, ChatModel, ChatView, DeliveryState, FolderModel, MediaCard, MessageModel, MessageView, ScreenModel, TextEntity, TextEntityModel};

verus! {

broadcast use vstd::seq_lib::group_seq_properties;

/// A change to the list entry of one chat.
pub enum ChatChange {
    Status(String),
    Unread(u32),
    /// The preview follows a replaced message.
    Preview { body: String, sender: String, sender_peer: Option<ChatId>, timestamp: String },
    /// The preview follows a new message, and the unread count grows (saturating).
    Added { body: String, unread_increment: u32 },
    /// The chat joins or leaves a folder.
    Membership { folder: i32, included: bool },
}

pub enum ChatChangeModel {
    Status(Seq<char>),
    Unread(u32),
    Preview { body: Seq<char>, sender: Seq<char>, sender_peer: Option<ChatId>, timestamp: Seq<char> },
    Added { body: Seq<char>, unread_increment: u32 },
    Membership { folder: i32, included: bool },
}

impl DeepView for ChatChange {
    type V = ChatChangeModel;

    open spec fn deep_view(&self) -> ChatChangeModel {
        match self {
            ChatChange::Status(s) => ChatChangeModel::Status(s@),
            ChatChange::Unread(u) => ChatChangeModel::Unread(*u),
            ChatChange::Preview { body, sender, sender_peer, timestamp } => ChatChangeModel::Preview {
                body: body@,
                sender: sender@,
                sender_peer: *sender_peer,
                timestamp: timestamp@,
            },
            ChatChange::Added { body, unread_increment } => ChatChangeModel::Added {
                body: body@,
                unread_increment: *unread_increment,
            },
            ChatChange::Membership { folder, included } => ChatChangeModel::Membership {
                folder: *folder,
                included: *included,
            },
        }
    }
}

impl ChatChangeModel {
    pub open spec fn applied_to(self, c: ChatModel) -> ChatModel {
        match self {
            ChatChangeModel::Status(status) => ChatModel { status, ..c },
            ChatChangeModel::Unread(unread) => ChatModel { unread, ..c },
            ChatChangeModel::Preview { body, sender, sender_peer, timestamp } => ChatModel {
                preview: body,
                preview_sender: Some(sender),
                preview_sender_peer: sender_peer,
                preview_timestamp: timestamp,
                ..c
            },
            ChatChangeModel::Added { body, unread_increment } => ChatModel {
                preview: body,
                unread: c.unread.saturating_add(unread_increment),
                ..c
            },
            ChatChangeModel::Membership { folder, included } => ChatModel {
                folders: membership_folders(c.folders, folder, included),
                ..c
            },
        }
    }

    /// The change applied to the entries of `chat`, other entries left alone.
    pub open spec fn for_chat(self, chat: ChatId) -> spec_fn(ChatModel) -> ChatModel {
        |c: ChatModel| if c.id == chat {
            self.applied_to(c)
        } else {
            c
        }
    }
}

/// The unread count of a folder: the saturating sum over the chats filed in it, in list order.
pub open spec fn folder_unread(chats: Seq<ChatModel>, folder: i32) -> u32
    decreases chats.len(),
{
    if chats.len() == 0 {
        0
    } else {
        let total = folder_unread(chats.drop_last(), folder);
        if chats.last().folders.contains(folder) {
            total.saturating_add(chats.last().unread)
        } else {
            total
        }
    }
}

pub open spec fn with_folder_unread(chats: Seq<ChatModel>) -> spec_fn(FolderModel) -> FolderModel {
    |f: FolderModel| FolderModel { unread: folder_unread(chats, f.id), ..f }
}

pub open spec fn other_id(id: MessageId) -> spec_fn(MessageModel) -> bool {
    |c: MessageModel| c.id != id
}

/// A history after a message is stored in it: its first copy is replaced, later copies leave,
/// and a message the history lacks is appended.
pub open spec fn upserted(h: Seq<MessageModel>, m: MessageModel) -> Seq<MessageModel> {
    match first_index(h, message_has_id(m.id)) {
        Some(i) => h.take(i).push(m) + h.skip(i + 1).filter(other_id(m.id)),
        None => h.push(m),
    }
}

/// The stored history of `key` (empty when none is stored) after `m` is stored in it.
pub open spec fn upserted_at(
    hs: Map<HistoryKey, Seq<MessageModel>>,
    key: HistoryKey,
    m: MessageModel,
) -> Map<HistoryKey, Seq<MessageModel>> {
    hs.insert(key, upserted(if hs.contains_key(key) { hs[key] } else { Seq::empty() }, m))
}

/// Thread histories of `chat` other than the message's own thread take the message when they
/// already hold it.
/// Entry `j` of `now` holds the key of entry `j` of `before`, with its history rewritten by `g`.
pub open spec fn rewritten_entry(
    now: Seq<(HistoryKey, Vec<MessageView>)>,
    before: Seq<(HistoryKey, Vec<MessageView>)>,
    g: spec_fn(HistoryKey, Seq<MessageModel>) -> Seq<MessageModel>,
    j: int,
) -> bool {
    now[j].0 == before[j].0 && now[j].1.deep_view() == g(before[j].0, before[j].1.deep_view())
}

pub open spec fn thread_upsert(chat: ChatId, m: MessageModel) -> spec_fn(HistoryKey, Seq<MessageModel>) -> Seq<
    MessageModel,
> {
    |k: HistoryKey, h: Seq<MessageModel>|
        if k.chat == chat && k.thread is Some && k.thread != m.thread_root && first_index(
            h,
            message_has_id(m.id),
        ) is Some {
            upserted(h, m)
        } else {
            h
        }
}

pub open spec fn preview_of(m: MessageModel) -> ChatChangeModel {
    ChatChangeModel::Preview {
        body: m.body,
        sender: m.sender,
        sender_peer: m.sender_peer,
        timestamp: m.timestamp,
    }
}

impl AppModel {
    /// A message's new content is stored in its chat's root history, its own thread and the
    /// other threads that hold it; the chat's preview follows it.
    pub open spec fn message_replaced(self, chat: ChatId, m: MessageModel) -> AppModel {
        let active = self.view.active_chat_id() == Some(chat);
        let h1 = upserted_at(self.histories, HistoryKey { chat, thread: None, saved_peer: None }, m);
        let h2 = match m.thread_root {
            Some(root) => upserted_at(h1, HistoryKey { chat, thread: Some(root), saved_peer: None }, m),
            None => h1,
        };
        let s = self.with_histories(h2.map_entries(thread_upsert(chat, m))).changed_chat(chat, preview_of(m));
        if active {
            s.refreshed_history_at(self.view.active_message_id(), self.view.transcript_anchor_id())
        } else {
            s
        }
    }
}

impl AppModel {
    /// Every list entry of `chat`, in the account's chats and in the shown list, changes.
    pub open spec fn changed_chat(self, chat: ChatId, change: ChatChangeModel) -> AppModel {
        AppModel {
            all_chats: self.all_chats.map_values(change.for_chat(chat)),
            view: ScreenModel {
                chats: self.view.chats.map_values(change.for_chat(chat)),
                ..self.view
            },
            ..self
        }
    }

    /// Every folder shows the unread total of its chats.
    pub open spec fn refreshed_folder_unread(self) -> AppModel {
        AppModel {
            view: ScreenModel {
                folders: self.view.folders.map_values(with_folder_unread(self.all_chats)),
                ..self.view
            },
            ..self
        }
    }

    /// The shown history is refreshed when it belongs to `chat`.
    pub open spec fn refreshed_if_active(self, chat: ChatId) -> AppModel {
        if self.view.active_chat_id() == Some(chat) {
            self.refreshed_history()
        } else {
            self
        }
    }

    pub open spec fn chat_status_applied(self, chat: ChatId, status: Seq<char>) -> AppModel {
        self.changed_chat(chat, ChatChangeModel::Status(status))
    }

    pub open spec fn messages_deleted(self, chat: Option<ChatId>, ids: Seq<MessageId>) -> AppModel {
        let m = self.rewritten_histories(HistoryOpModel::Delete { chat, ids });
        if chat is None || self.view.active_chat_id() == chat {
            m.refreshed_history_at(self.view.active_message_id(), self.view.transcript_anchor_id())
        } else {
            m
        }
    }

    pub open spec fn delivery_updated(self, chat: ChatId, message: MessageId, delivery: DeliveryState) -> AppModel {
        self.rewritten_histories(HistoryOpModel::Delivery { chat, message, delivery }).refreshed_if_active(chat)
    }

    pub open spec fn message_acknowledged(self, chat: ChatId, local_id: MessageId, server_id: MessageId) -> AppModel {
        self.rewritten_histories(HistoryOpModel::Acknowledge { chat, local_id, server_id }).refreshed_if_active(chat)
    }

    pub open spec fn edit_acknowledged(
        self,
        chat: ChatId,
        message: MessageId,
        text: Seq<char>,
        entities: Seq<TextEntityModel>,
    ) -> AppModel {
        self.rewritten_histories(HistoryOpModel::Edited { chat, message, text, entities }).refreshed_if_active(chat)
    }

    pub open spec fn read_state_applied(
        self,
        chat: ChatId,
        max_id: MessageId,
        outgoing: bool,
        unread: Option<u32>,
    ) -> AppModel {
        let m1 = if outgoing {
            self.rewritten_histories(HistoryOpModel::Read { chat, max_id })
        } else {
            self
        };
        let m2 = match unread {
            Some(u) => {
                let m = m1.changed_chat(chat, ChatChangeModel::Unread(u)).refreshed_folder_unread();
                if outgoing {
                    m
                } else {
                    m.advanced_unread_boundary(chat, max_id, u)
                }
            },
            None => m1,
        };
        m2.refreshed_if_active(chat)
    }
}

fn change_chat(c: &mut ChatView, change: &ChatChange)
    ensures
        final(c).deep_view() == change.deep_view().applied_to(old(c).deep_view()),
{
    match change {
        ChatChange::Status(status) => {
            c.status = status.clone();
        },
        ChatChange::Unread(unread) => {
            c.unread = *unread;
        },
        ChatChange::Preview { body, sender, sender_peer, timestamp } => {
            c.preview = body.clone();
            c.preview_sender = Some(sender.clone());
            c.preview_sender_peer = *sender_peer;
            c.preview_timestamp = timestamp.clone();
        },
        ChatChange::Added { body, unread_increment } => {
            c.preview = body.clone();
            c.unread = c.unread.saturating_add(*unread_increment);
        },
        ChatChange::Membership { folder, included } => {
            c.folders = change_membership(&c.folders, *folder, *included);
        },
    }
}

fn change_chats(chats: &mut Vec<ChatView>, chat: ChatId, change: &ChatChange)
    ensures
        final(chats).deep_view() == old(chats).deep_view().map_values(change.deep_view().for_chat(chat)),
{
    let ghost before = chats.deep_view();
    let ghost f = change.deep_view().for_chat(chat);
    let mut i: usize = 0;
    while i < chats.len()
        invariant
            f == change.deep_view().for_chat(chat),
            before.len() == chats.len(),
            i <= chats.len(),
            forall|j: int| 0 <= j < i ==> #[trigger] chats.deep_view()[j] == f(before[j]),
            forall|j: int| i <= j < chats.len() ==> #[trigger] chats.deep_view()[j] == before[j],
        decreases chats.len() - i,
    {
        let ghost prev = chats.deep_view();
        assert(prev[i as int] == before[i as int]);
        if chats[i].id.0 == chat.0 {
            let mut c = chats[i].clone();
            change_chat(&mut c, change);
            assert(c.deep_view() == f(before[i as int]));
            chats.set(i, c);
        } else {
            assert(f(before[i as int]) == before[i as int]);
        }
        proof {
            assert(chats.deep_view() =~= prev.update(i as int, f(before[i as int])));
        }
        i = i + 1;
    }
    proof {
        assert(chats.deep_view() =~= before.map_values(f));
    }
}

/// Position of the first message with this id.
pub fn position_of(h: &Vec<MessageView>, id: MessageId) -> (r: Option<usize>)
    ensures
        r == (match first_index(h.deep_view(), message_has_id(id)) {
            Some(i) => Some(i as usize),
            None => None,
        }),
        r matches Some(i) ==> i < h.len(),
{
    let ghost s = h.deep_view();
    proof {
        lemma_first_index(s, message_has_id(id));
    }
    let mut i: usize = 0;
    while i < h.len()
        invariant
            s == h.deep_view(),
            i <= h.len(),
            forall|j: int| 0 <= j < i ==> s[j].id != id,
        decreases h.len() - i,
    {
        if h[i].id.0 == id.0 {
            proof {
                lemma_first_index_is(s, message_has_id(id), i as int);
            }
            return Some(i);
        }
        i = i + 1;
    }
    proof {
        lemma_first_index_none(s, message_has_id(id));
    }
    None
}

pub fn upsert_history_message(history: &mut Vec<MessageView>, message: &MessageView)
    ensures
        final(history).deep_view() == upserted(old(history).deep_view(), message.deep_view()),
{
    let ghost all = history.deep_view();
    let ghost m = message.deep_view();
    match position_of(history, message.id) {
        None => {
            history.push(message.clone());
            proof {
                assert(history.deep_view() =~= all.push(m));
            }
        },
        Some(f) => {
            proof {
                lemma_first_index(all, message_has_id(m.id));
            }
            let rest = history.split_off(f + 1);
            let _ = history.pop();
            history.push(message.clone());
            let ghost rdv = rest.deep_view();
            let ghost p = other_id(m.id);
            proof {
                assert(rdv =~= all.skip(f + 1));
                assert(history.deep_view() =~= all.take(f as int).push(m));
                assert(rdv.take(0).filter(p) =~= Seq::<MessageModel>::empty());
                assert(history.deep_view() =~= all.take(f as int).push(m) + rdv.take(0).filter(p));
            }
            let mut j: usize = 0;
            while j < rest.len()
                invariant
                    p == other_id(m.id),
                    m == message.deep_view(),
                    rdv == rest.deep_view(),
                    j <= rest.len(),
                    history.deep_view() == all.take(f as int).push(m) + rdv.take(j as int).filter(p),
                decreases rest.len() - j,
            {
                proof {
                    assert(rdv.take(j as int + 1) =~= rdv.take(j as int).push(rdv[j as int]));
                    rdv.take(j as int).lemma_filter_push(rdv[j as int], p);
                }
                let ghost before_push = history.deep_view();
                if rest[j].id.0 != message.id.0 {
                    history.push(rest[j].clone());
                    proof {
                        assert(history.deep_view() =~= before_push.push(rdv[j as int]));
                    }
                }
                j = j + 1;
            }
            proof {
                assert(rdv.take(rest.len() as int) =~= rdv);
            }
        },
    }
}

impl App {
    /// Stores `message` in the history of `key`, creating the history when none is stored.
    fn upsert_at(&mut self, key: HistoryKey, message: &MessageView)
        ensures
            final(self)@ == old(self)@.with_histories(upserted_at(old(self)@.histories, key, message.deep_view())),
    {
        let mut h = match self.histories.get(&key) {
            Some(h) => clone_messages(h),
            None => Vec::new(),
        };
        upsert_history_message(&mut h, message);
        self.histories.insert(key, h);
    }

    fn upsert_in_threads(&mut self, chat: ChatId, message: &MessageView)
        ensures
            final(self)@ == old(self)@.with_histories(
                old(self)@.histories.map_entries(thread_upsert(chat, message.deep_view())),
            ),
    {
        let ghost before = self.histories;
        let ghost g = thread_upsert(chat, message.deep_view());
        let n = self.histories.entries.len();
        let mut i: usize = 0;
        while i < n
            invariant
                g == thread_upsert(chat, message.deep_view()),
                n == self.histories.entries.len(),
                n == before.entries@.len(),
                i <= n,
                forall|j: int| 0 <= j < i ==> #[trigger] rewritten_entry(self.histories.entries@, before.entries@, g, j),
                forall|j: int| i <= j < n ==> #[trigger] self.histories.entries@[j] == before.entries@[j],
                self@ == old(self)@.with_histories(self.histories.map_model()),
                before == old(self).histories,
            decreases n - i,
        {
            let key = self.histories.entries[i].0;
            let ghost prev = self.histories.entries@;
            let hit = key.chat.0 == chat.0 && key.thread.is_some() && !same_message(
                key.thread,
                message.details.thread_root,
            ) && position_of(&self.histories.entries[i].1, message.id).is_some();
            if hit {
                let mut h = clone_messages(&self.histories.entries[i].1);
                upsert_history_message(&mut h, message);
                self.histories.entries.set(i, (key, h));
            }
            proof {
                assert(prev[i as int] == before.entries@[i as int]);
                assert(rewritten_entry(self.histories.entries@, before.entries@, g, i as int));
                assert forall|j: int| 0 <= j < i + 1 implies #[trigger] rewritten_entry(
                    self.histories.entries@,
                    before.entries@,
                    g,
                    j,
                ) by {
                    if j < i {
                        assert(rewritten_entry(prev, before.entries@, g, j));
                        assert(self.histories.entries@[j] == prev[j]);
                    }
                }
            }
            i = i + 1;
        }
        proof {
            assert forall|j: int| 0 <= j < before.entries@.len() implies #[trigger] self.histories.entries@[j].0
                == before.entries@[j].0 && self.histories.entries@[j].1.deep_view() == g(
                before.entries@[j].0,
                before.entries@[j].1.deep_view(),
            ) by {
                assert(rewritten_entry(self.histories.entries@, before.entries@, g, j));
            }
            lemma_entries_mapped(before, self.histories, g);
        }
    }

    pub fn replace_message(&mut self, chat: ChatId, message: MessageView)
        ensures
            final(self)@ == old(self)@.message_replaced(chat, message.deep_view()),
    {
        let active = match self.active_chat_id() {
            Some(c) => c.0 == chat.0,
            None => false,
        };
        let active_message = if active {
            self.active_message_id()
        } else {
            None
        };
        let transcript_anchor = if active {
            self.transcript_anchor_id()
        } else {
            None
        };
        self.upsert_at(HistoryKey::root(chat), &message);
        if let Some(root) = message.details.thread_root {
            self.upsert_at(HistoryKey::thread(chat, root), &message);
        }
        self.upsert_in_threads(chat, &message);
        let change = ChatChange::Preview {
            body: message.body,
            sender: message.sender,
            sender_peer: message.details.sender_peer,
            timestamp: message.timestamp,
        };
        self.change_chat_entries(chat, &change);
        if active {
            self.refresh_active_history_at(active_message, transcript_anchor);
        }
    }

    pub fn change_chat_entries(&mut self, chat: ChatId, change: &ChatChange)
        ensures
            final(self)@ == old(self)@.changed_chat(chat, change.deep_view()),
    {
        change_chats(&mut self.all_chats, chat, change);
        change_chats(&mut self.view.chats, chat, change);
    }

    pub fn apply_chat_status(&mut self, chat: ChatId, status: String)
        ensures
            final(self)@ == old(self)@.chat_status_applied(chat, status@),
    {
        self.change_chat_entries(chat, &ChatChange::Status(status));
    }

    pub fn refresh_folder_unread(&mut self)
        ensures
            final(self)@ == old(self)@.refreshed_folder_unread(),
    {
        let ghost before = self.view.folders.deep_view();
        let ghost chats = self.all_chats.deep_view();
        let ghost f = with_folder_unread(chats);
        let mut i: usize = 0;
        while i < self.view.folders.len()
            invariant
                f == with_folder_unread(chats),
                chats == self.all_chats.deep_view(),
                before.len() == self.view.folders.len(),
                i <= self.view.folders.len(),
                forall|j: int| 0 <= j < i ==> #[trigger] self.view.folders.deep_view()[j] == f(before[j]),
                forall|j: int|
                    i <= j < self.view.folders.len() ==> #[trigger] self.view.folders.deep_view()[j]
                        == before[j],
                self@ == (AppModel { view: ScreenModel { folders: self.view.folders.deep_view(), ..old(self)@.view }, ..old(self)@ }),
            decreases self.view.folders.len() - i,
        {
            let folder = self.view.folders[i].id;
            let mut total: u32 = 0;
            let mut k: usize = 0;
            while k < self.all_chats.len()
                invariant
                    chats == self.all_chats.deep_view(),
                    k <= chats.len(),
                    total == folder_unread(chats.take(k as int), folder),
                decreases chats.len() - k,
            {
                proof {
                    assert(chats.take(k as int + 1).drop_last() =~= chats.take(k as int));
                }
                if contains_folder(&self.all_chats[k].folders, folder) {
                    total = total.saturating_add(self.all_chats[k].unread);
                }
                k = k + 1;
            }
            proof {
                assert(chats.take(chats.len() as int) =~= chats);
            }
            let ghost prev = self.view.folders.deep_view();
            assert(prev[i as int] == before[i as int]);
            let mut entry = self.view.folders[i].clone();
            entry.unread = total;
            assert(entry.deep_view() == f(before[i as int]));
            self.view.folders.set(i, entry);
            proof {
                assert(self.view.folders.deep_view() =~= prev.update(i as int, f(before[i as int])));
            }
            i = i + 1;
        }
        proof {
            assert(self.view.folders.deep_view() =~= before.map_values(f));
        }
    }

    pub fn delete_messages(&mut self, chat: Option<ChatId>, ids: &[MessageId])
        ensures
            final(self)@ == old(self)@.messages_deleted(chat, ids@),
    {
        let active_message = self.active_message_id();
        let transcript_anchor = self.transcript_anchor_id();
        let mut listed: Vec<MessageId> = Vec::new();
        let mut i: usize = 0;
        while i < ids.len()
            invariant
                i <= ids@.len(),
                listed@ == ids@.take(i as int),
            decreases ids@.len() - i,
        {
            listed.push(ids[i]);
            i = i + 1;
        }
        proof {
            assert(listed@ =~= ids@);
        }
        let op = HistoryOp::Delete { chat, ids: listed };
        self.rewrite_histories(&op);
        let refresh = match chat {
            None => true,
            Some(c) => match self.active_chat_id() {
                Some(active) => active.0 == c.0,
                None => false,
            },
        };
        if refresh {
            self.refresh_active_history_at(active_message, transcript_anchor);
        }
    }

    fn refresh_if_active(&mut self, chat: ChatId)
        ensures
            final(self)@ == old(self)@.refreshed_if_active(chat),
    {
        let active = match self.active_chat_id() {
            Some(c) => c.0 == chat.0,
            None => false,
        };
        if active {
            self.refresh_active_history();
        }
    }

    pub fn update_delivery(&mut self, chat: ChatId, message: MessageId, delivery: DeliveryState)
        ensures
            final(self)@ == old(self)@.delivery_updated(chat, message, delivery),
    {
        self.rewrite_histories(&HistoryOp::Delivery { chat, message, delivery });
        self.refresh_if_active(chat);
    }

    pub fn acknowledge_message(&mut self, chat: ChatId, local_id: MessageId, server_id: MessageId)
        ensures
            final(self)@ == old(self)@.message_acknowledged(chat, local_id, server_id),
    {
        self.rewrite_histories(&HistoryOp::Acknowledge { chat, local_id, server_id });
        self.refresh_if_active(chat);
    }

    pub fn apply_message_media(&mut self, chat: ChatId, message: MessageId, media: MediaCard)
        ensures
            final(self)@ == old(self)@.rewritten_histories(
                HistoryOpModel::Media { chat, message, media: media.deep_view() },
            ).refreshed_if_active(chat),
    {
        self.rewrite_histories(&HistoryOp::Media { chat, message, media });
        self.refresh_if_active(chat);
    }

    pub fn apply_edit_acknowledgement(
        &mut self,
        chat: ChatId,
        message: MessageId,
        text: String,
        entities: Vec<TextEntity>,
    )
        ensures
            final(self)@ == old(self)@.edit_acknowledged(chat, message, text@, entities.deep_view()),
    {
        self.rewrite_histories(&HistoryOp::Edited { chat, message, text, entities });
        self.refresh_if_active(chat);
    }

    pub fn apply_read_state(&mut self, chat: ChatId, max_id: MessageId, outgoing: bool, unread: Option<u32>)
        ensures
            final(self)@ == old(self)@.read_state_applied(chat, max_id, outgoing, unread),
    {
        if outgoing {
            self.rewrite_histories(&HistoryOp::Read { chat, max_id });
        }
        if let Some(u) = unread {
            self.change_chat_entries(chat, &ChatChange::Unread(u));
            self.refresh_folder_unread();
            if !outgoing {
                self.advance_unread_boundary(chat, max_id, u);
            }
        }
        self.refresh_if_active(chat);
    }
}

} // verus!
