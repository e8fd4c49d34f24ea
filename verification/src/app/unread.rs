use vstd::prelude::*;

use super::{App, AppModel};
use crate::ids::{ChatId, HistoryKey, MessageId};
use crate::keyed::{lookup, KeyList};
use crate::seqs::{first_index, lemma_first_index_is, lemma_first_index_none};
use crate::view::{MessageDirection, MessageModel, MessageView};

verus! {

broadcast use vstd::seq_lib::group_seq_properties;

pub open spec fn incoming() -> spec_fn(MessageModel) -> bool {
    |m: MessageModel| m.direction == MessageDirection::Incoming
}

pub open spec fn id_of() -> spec_fn(MessageModel) -> MessageId {
    |m: MessageModel| m.id
}

/// Where the unread part of a history starts: the `unread`-th incoming message from the end,
/// or the first incoming message when there are fewer.
pub open spec fn unread_boundary_of(messages: Seq<MessageModel>, unread: u32) -> Option<MessageId> {
    let ids = messages.filter(incoming()).map_values(id_of());
    if unread == 0 {
        None
    } else if unread <= ids.len() {
        Some(ids[ids.len() - unread])
    } else if ids.len() > 0 {
        Some(ids[0])
    } else {
        None
    }
}

pub open spec fn after_read(max_id: MessageId) -> spec_fn(MessageModel) -> bool {
    |m: MessageModel| m.direction == MessageDirection::Incoming && m.id.0 > max_id.0
}

impl AppModel {
    pub open spec fn with_boundaries(self, boundaries: Map<HistoryKey, MessageId>) -> AppModel {
        AppModel { unread_boundaries: boundaries, ..self }
    }

    /// The unread boundary of a chat moves past what was read.
    pub open spec fn advanced_unread_boundary(self, chat: ChatId, max_id: MessageId, unread: u32) -> AppModel {
        let key = HistoryKey { chat, thread: None, saved_peer: None };
        if unread == 0 || !self.histories.contains_key(key) {
            self.with_boundaries(self.unread_boundaries.remove(key))
        } else {
            let messages = self.histories[key];
            let boundary = match first_index(messages, after_read(max_id)) {
                Some(i) => Some(messages[i].id),
                None => unread_boundary_of(messages, unread),
            };
            match boundary {
                Some(b) => self.with_boundaries(self.unread_boundaries.insert(key, b)),
                None => self.with_boundaries(self.unread_boundaries.remove(key)),
            }
        }
    }

    /// A root history gets a boundary when it has none yet.
    pub open spec fn ensured_unread_boundary(self, key: HistoryKey, messages: Seq<MessageModel>) -> AppModel {
        if key.thread is Some || self.unread_boundaries.contains_key(key) {
            self
        } else {
            match unread_boundary_of(messages, self.chat_unread(key.chat)) {
                Some(b) => self.with_boundaries(self.unread_boundaries.insert(key, b)),
                None => self,
            }
        }
    }

    /// Every root history gets the boundary its chat's unread count implies.
    pub open spec fn rebuilt_unread_boundaries(self) -> AppModel {
        self.with_boundaries(
            Map::new(
                |k: HistoryKey|
                    k.thread is None && self.histories.contains_key(k) && unread_boundary_of(
                        self.histories[k],
                        self.chat_unread(k.chat),
                    ) is Some,
                |k: HistoryKey| unread_boundary_of(self.histories[k], self.chat_unread(k.chat)).unwrap(),
            ),
        )
    }
}

fn incoming_ids(messages: &Vec<MessageView>) -> (r: Vec<MessageId>)
    ensures
        r@ == messages.deep_view().filter(incoming()).map_values(id_of()),
{
    let ghost s = messages.deep_view();
    let mut ids: Vec<MessageId> = Vec::new();
    let mut i: usize = 0;
    while i < messages.len()
        invariant
            s == messages.deep_view(),
            i <= s.len(),
            ids@ == s.take(i as int).filter(incoming()).map_values(id_of()),
        decreases s.len() - i,
    {
        proof {
            s.lemma_take_succ_push(i as int);
            s.take(i as int).lemma_filter_push(s[i as int], incoming());
            let f = s.take(i as int).filter(incoming());
            assert(f.push(s[i as int]).map_values(id_of()) =~= f.map_values(id_of()).push(s[i as int].id));
        }
        if messages[i].direction == MessageDirection::Incoming {
            ids.push(messages[i].id);
        }
        i = i + 1;
    }
    proof {
        assert(s.take(s.len() as int) =~= s);
    }
    ids
}

pub fn unread_boundary(messages: &Vec<MessageView>, unread: u32) -> (r: Option<MessageId>)
    ensures
        r == unread_boundary_of(messages.deep_view(), unread),
{
    if unread == 0 {
        return None;
    }
    let ids = incoming_ids(messages);
    let n = unread as usize;
    if n <= ids.len() {
        Some(ids[ids.len() - n])
    } else if ids.len() > 0 {
        Some(ids[0])
    } else {
        None
    }
}

impl App {
    pub fn advance_unread_boundary(&mut self, chat: ChatId, max_id: MessageId, unread: u32)
        ensures
            final(self)@ == old(self)@.advanced_unread_boundary(chat, max_id, unread),
    {
        let key = HistoryKey::root(chat);
        if unread == 0 {
            self.unread_boundaries.remove(&key);
            return ;
        }
        let boundary = match self.histories.get(&key) {
            None => {
                self.unread_boundaries.remove(&key);
                return ;
            },
            Some(messages) => {
                let ghost s = messages.deep_view();
                let mut found: Option<usize> = None;
                let mut i: usize = 0;
                while i < messages.len() && found.is_none()
                    invariant
                        s == messages.deep_view(),
                        i <= s.len(),
                        match found {
                            Some(f) => f < s.len() && first_index(s, after_read(max_id)) == Some(f as int),
                            None => forall|j: int| 0 <= j < i ==> !after_read(max_id)(s[j]),
                        },
                    decreases s.len() - i + if found is None {
                        1int
                    } else {
                        0int
                    },
                {
                    let m = &messages[i];
                    if m.direction == MessageDirection::Incoming && m.id.0 > max_id.0 {
                        proof {
                            lemma_first_index_is(s, after_read(max_id), i as int);
                        }
                        found = Some(i);
                    } else {
                        i = i + 1;
                    }
                }
                match found {
                    Some(f) => Some(messages[f].id),
                    None => {
                        proof {
                            lemma_first_index_none(s, after_read(max_id));
                        }
                        unread_boundary(messages, unread)
                    },
                }
            },
        };
        match boundary {
            Some(b) => self.unread_boundaries.insert(key, b),
            None => self.unread_boundaries.remove(&key),
        }
    }

    pub fn ensure_unread_boundary(&mut self, key: HistoryKey, messages: &Vec<MessageView>)
        ensures
            final(self)@ == old(self)@.ensured_unread_boundary(key, messages.deep_view()),
    {
        if key.thread.is_some() || self.unread_boundaries.contains(&key) {
            return ;
        }
        let unread = self.chat_unread(key.chat);
        if let Some(boundary) = unread_boundary(messages, unread) {
            self.unread_boundaries.insert(key, boundary);
        }
    }

    pub fn rebuild_unread_boundaries(&mut self)
        ensures
            final(self)@ == old(self)@.rebuilt_unread_boundaries(),
    {
        let ghost m = self@;
        let ghost entries = self.histories.entries@;
        let mut boundaries: KeyList<HistoryKey, MessageId> = KeyList::new();
        let mut i = self.histories.entries.len();
        while i > 0
            invariant
                m == self@,
                entries == self.histories.entries@,
                i <= entries.len(),
                forall|k: HistoryKey| #[trigger] boundaries.map_model().contains_key(k) == (k.thread is None
                    && lookup(entries.skip(i as int), k) is Some && unread_boundary_of(
                    lookup(entries.skip(i as int), k).unwrap().deep_view(),
                    m.chat_unread(k.chat),
                ) is Some),
                forall|k: HistoryKey| #[trigger] boundaries.map_model().contains_key(k) ==>
                    boundaries.map_model()[k] == unread_boundary_of(
                        lookup(entries.skip(i as int), k).unwrap().deep_view(),
                        m.chat_unread(k.chat),
                    ).unwrap(),
            decreases i,
        {
            i = i - 1;
            let key = self.histories.entries[i].0;
            proof {
                assert(entries.skip(i as int).drop_first() =~= entries.skip(i as int + 1));
            }
            if key.thread.is_none() {
                let unread = self.chat_unread(key.chat);
                match unread_boundary(&self.histories.entries[i].1, unread) {
                    Some(b) => boundaries.insert(key, b),
                    None => boundaries.remove(&key),
                }
            }
        }
        proof {
            assert(entries.skip(0) =~= entries);
            assert(boundaries.map_model() =~= m.rebuilt_unread_boundaries().unread_boundaries);
        }
        self.unread_boundaries = boundaries;
    }
}

} // verus!
