use vstd::prelude::*;

use super::chat_reconciliation::other_id;
use super::navigation::find_chat;
use super::{chat_has_id, App, AppModel, PendingDraft, PendingDraftModel};
use crate::ids::{ChatId, HistoryKey, MessageId};
use crate::keyed::{lemma_position, lookup, position, KeyList};
use crate::protocol::Bootstrap;
use crate::seqs::{first_index, lemma_first_index, lemma_first_index_is, lemma_first_index_none};
use crate::view::{clone_messages, ComposerView, DeliveryState, Focus, FolderModel, MessageModel, MessageView, ScreenModel};

verus! {

broadcast use vstd::seq_lib::group_seq_properties;

/// A message that has not reached the server yet.
pub open spec fn unsent() -> spec_fn(MessageModel) -> bool {
    |m: MessageModel| m.delivery == DeliveryState::Pending || m.delivery == DeliveryState::Failed
}

/// The restored history after each unsent message, in turn, replaces its copies and goes to
/// the end.
pub open spec fn kept_unsent(restored: Seq<MessageModel>, pending: Seq<MessageModel>) -> Seq<MessageModel>
    decreases pending.len(),
{
    if pending.len() == 0 {
        restored
    } else {
        kept_unsent(restored, pending.drop_last()).filter(other_id(pending.last().id)).push(pending.last())
    }
}

/// The history of `key` after a reconnection: the fresh one, with the unsent messages of the
/// old one kept.
pub open spec fn merged_history(
    fresh: Map<HistoryKey, Seq<MessageModel>>,
    old: Seq<MessageModel>,
    key: HistoryKey,
) -> Seq<MessageModel> {
    kept_unsent(if fresh.contains_key(key) { fresh[key] } else { Seq::empty() }, old.filter(unsent()))
}

/// Fresh histories, with every old history's unsent messages kept in it.
pub open spec fn merged_histories(
    fresh: Map<HistoryKey, Seq<MessageModel>>,
    old: Map<HistoryKey, Seq<MessageModel>>,
) -> Map<HistoryKey, Seq<MessageModel>> {
    Map::new(
        |k: HistoryKey| fresh.contains_key(k) || old.contains_key(k),
        |k: HistoryKey|
            if old.contains_key(k) {
                merged_history(fresh, old[k], k)
            } else {
                fresh[k]
            },
    )
}

/// The histories with a sent message that the server has not answered yet.
pub open spec fn pending_histories(pending: Map<MessageId, PendingDraftModel>) -> Set<HistoryKey> {
    Set::new(|k: HistoryKey| exists|id: MessageId| pending.contains_key(id) && pending[id].history == k)
}

/// The histories of the entries before `i` that hold their key's value.
pub open spec fn first_histories(entries: Seq<(MessageId, PendingDraft)>, i: int) -> Set<HistoryKey> {
    Set::new(
        |k: HistoryKey|
            exists|j: int|
                0 <= j < i && position(entries, entries[j].0) == Some(j) && entries[j].1.history == k,
    )
}

pub open spec fn folder_has_id(id: i32) -> spec_fn(FolderModel) -> bool {
    |f: FolderModel| f.id == id
}

impl AppModel {
    /// The folder under the folder selection.
    pub open spec fn active_folder_model_id(self) -> Option<i32> {
        if self.view.active_folder < self.view.folders.len() {
            Some(self.view.folders[self.view.active_folder as int].id)
        } else {
            None
        }
    }

    /// The fresh account state, with the old drafts and unsent messages kept; a history with a
    /// message in flight keeps no draft, its composer having gone with the message.
    pub open spec fn fresh_merged(self, b: Bootstrap) -> AppModel {
        let s = AppModel { drafts: Map::empty(), histories: Map::empty(), ..self }.bootstrap_replaced(b);
        AppModel {
            drafts: s.drafts.union_prefer_right(self.drafts).remove_keys(
                pending_histories(self.pending_drafts),
            ),
            histories: merged_histories(s.histories, self.histories),
            ..s
        }
    }

    /// The user's folder, chat, thread, focus, selection and anchor come back where they still
    /// exist.
    pub open spec fn place_restored(
        self,
        active_chat: Option<ChatId>,
        active_folder: Option<i32>,
        active_thread: Option<MessageId>,
        focus: Focus,
        active_message: Option<MessageId>,
        anchor: Option<MessageId>,
    ) -> AppModel {
        let s2 = match active_folder {
            Some(f) => match first_index(self.view.folders, folder_has_id(f)) {
                Some(i) => AppModel { view: ScreenModel { active_folder: i as usize, ..self.view }, ..self },
                None => self,
            },
            None => self,
        };
        let s3 = s2.refreshed_folder_chats(active_chat);
        let kept = match active_chat {
            Some(c) => match first_index(s3.view.chats, chat_has_id(c)) {
                Some(i) => Some(i as usize),
                None => None,
            },
            None => None,
        };
        let s4 = AppModel {
            view: ScreenModel {
                active_chat: if kept is Some {
                    kept
                } else if s3.view.chats.len() > 0 {
                    Some(0usize)
                } else {
                    None
                },
                ..s3.view
            },
            ..s3
        };
        let s5 = AppModel {
            view: ScreenModel {
                active_thread: if s4.view.active_chat_id() == active_chat {
                    active_thread
                } else {
                    None
                },
                focus,
                notice: None,
                ..s4.view
            },
            ..s4
        };
        s5.refreshed_history_at(active_message, anchor).restored_draft().background_history_reset()
    }

    /// After a reconnection the fresh account state replaces the old one, but the user keeps
    /// their drafts, unsent messages, folder, chat, thread, focus, selection and anchor where
    /// these still exist.
    pub open spec fn connection_merged(self, b: Bootstrap) -> AppModel {
        self.fresh_merged(b).place_restored(
            self.view.active_chat_id(),
            self.active_folder_model_id(),
            self.view.active_thread,
            self.view.focus,
            self.view.active_message_id(),
            self.view.transcript_anchor_id(),
        )
    }
}

/// The map a list of entries represents, the first entry of a key holding its value.
pub open spec fn entries_map<V: DeepView>(entries: Seq<(HistoryKey, V)>) -> Map<HistoryKey, V::V> {
    Map::new(|k: HistoryKey| lookup(entries, k) is Some, |k: HistoryKey| lookup(entries, k).unwrap().deep_view())
}

fn without_id(h: &Vec<MessageView>, id: MessageId) -> (r: Vec<MessageView>)
    ensures
        r.deep_view() == h.deep_view().filter(other_id(id)),
{
    let ghost all = h.deep_view();
    let ghost p = other_id(id);
    let mut kept: Vec<MessageView> = Vec::new();
    let mut i: usize = 0;
    while i < h.len()
        invariant
            all == h.deep_view(),
            p == other_id(id),
            i <= h.len(),
            kept.deep_view() == all.take(i as int).filter(p),
        decreases h.len() - i,
    {
        proof {
            assert(all.take(i as int + 1) =~= all.take(i as int).push(all[i as int]));
            all.take(i as int).lemma_filter_push(all[i as int], p);
        }
        let ghost k0 = kept.deep_view();
        if h[i].id.0 != id.0 {
            kept.push(h[i].clone());
            proof {
                assert(kept.deep_view() =~= k0.push(all[i as int]));
            }
        }
        i = i + 1;
    }
    proof {
        assert(all.take(all.len() as int) =~= all);
    }
    kept
}

/// The restored history with the unsent messages of `old` kept in it.
fn keep_unsent(restored: Vec<MessageView>, old: &Vec<MessageView>) -> (r: Vec<MessageView>)
    ensures
        r.deep_view() == kept_unsent(restored.deep_view(), old.deep_view().filter(unsent())),
{
    let ghost start = restored.deep_view();
    let ghost all = old.deep_view();
    let ghost p = unsent();
    let mut current = restored;
    let mut j: usize = 0;
    while j < old.len()
        invariant
            all == old.deep_view(),
            p == unsent(),
            j <= old.len(),
            current.deep_view() == kept_unsent(start, all.take(j as int).filter(p)),
        decreases old.len() - j,
    {
        proof {
            assert(all.take(j as int + 1) =~= all.take(j as int).push(all[j as int]));
            all.take(j as int).lemma_filter_push(all[j as int], p);
        }
        let m = &old[j];
        if matches!(m.delivery, DeliveryState::Pending) || matches!(m.delivery, DeliveryState::Failed) {
            let ghost f = all.take(j as int).filter(p);
            let mut next = without_id(&current, m.id);
            let ghost n0 = next.deep_view();
            next.push(m.clone());
            proof {
                assert(next.deep_view() =~= n0.push(all[j as int]));
                assert(f.push(all[j as int]).drop_last() =~= f);
            }
            current = next;
        }
        j = j + 1;
    }
    proof {
        assert(all.take(old.len() as int) =~= all);
    }
    current
}

impl App {
    /// Old drafts win over the fresh ones.
    fn keep_old_drafts(&mut self, earlier: KeyList<HistoryKey, ComposerView>)
        ensures
            final(self)@ == (AppModel {
                drafts: old(self)@.drafts.union_prefer_right(earlier.map_model()),
                ..old(self)@
            }),
    {
        let ghost fresh = self.drafts.map_model();
        let ghost entries = earlier.entries@;
        let mut i = earlier.entries.len();
        proof {
            assert(entries.skip(i as int) =~= Seq::<(HistoryKey, ComposerView)>::empty());
            assert(fresh.union_prefer_right(entries_map(entries.skip(i as int))) =~= fresh);
        }
        while i > 0
            invariant
                entries == earlier.entries@,
                i <= entries.len(),
                self.drafts.map_model() == fresh.union_prefer_right(entries_map(entries.skip(i as int))),
                self@ == (AppModel { drafts: self.drafts.map_model(), ..old(self)@ }),
            decreases i,
        {
            i = i - 1;
            proof {
                assert(entries.skip(i as int).drop_first() =~= entries.skip(i as int + 1));
                assert(entries.skip(i as int)[0] == entries[i as int]);
            }
            let key = earlier.entries[i].0;
            let draft = earlier.entries[i].1.clone();
            self.drafts.insert(key, draft);
            proof {
                assert(self.drafts.map_model() =~= fresh.union_prefer_right(entries_map(entries.skip(i as int))));
            }
        }
        proof {
            assert(entries.skip(0) =~= entries);
            assert(entries_map(entries) =~= earlier.map_model());
        }
    }

    /// Every earlier history's unsent messages are kept in the fresh history of its key.
    fn keep_unsent_messages(&mut self, earlier: KeyList<HistoryKey, Vec<MessageView>>)
        ensures
            final(self)@ == (AppModel {
                histories: merged_histories(old(self)@.histories, earlier.map_model()),
                ..old(self)@
            }),
    {
        let ghost fresh = self.histories.map_model();
        let ghost entries = earlier.entries@;
        let n = earlier.entries.len();
        let mut i: usize = 0;
        proof {
            assert forall|k: HistoryKey| #[trigger] self.histories.map_model().contains_key(k) == (fresh.contains_key(k) || (
            position(entries, k) is Some && position(entries, k).unwrap() < 0)) by {
                lemma_position(entries, k);
            }
            assert forall|k: HistoryKey| #[trigger] self.histories.map_model().contains_key(k) ==> self.histories.map_model()[k]
                == if position(entries, k) is Some && position(entries, k).unwrap() < 0 {
                merged_history(fresh, lookup(entries, k).unwrap().deep_view(), k)
            } else {
                fresh[k]
            } by {
                lemma_position(entries, k);
            }
        }
        while i < n
            invariant
                entries == earlier.entries@,
                n == entries.len(),
                i <= n,
                forall|k: HistoryKey|
                    #[trigger] self.histories.map_model().contains_key(k) == (fresh.contains_key(k) || (
                    position(entries, k) is Some && position(entries, k).unwrap() < i)),
                forall|k: HistoryKey|
                    #[trigger] self.histories.map_model().contains_key(k) ==> self.histories.map_model()[k]
                        == if position(entries, k) is Some && position(entries, k).unwrap() < i {
                        merged_history(fresh, lookup(entries, k).unwrap().deep_view(), k)
                    } else {
                        fresh[k]
                    },
                self@ == (AppModel { histories: self.histories.map_model(), ..old(self)@ }),
            decreases n - i,
        {
            let key = earlier.entries[i].0;
            proof {
                lemma_position(entries, key);
            }
            let first = match earlier.find(&key) {
                Some(p) => p == i,
                None => false,
            };
            if first {
                let ghost before = self.histories.map_model();
                proof {
                    assert(before.contains_key(key) == fresh.contains_key(key));
                    if before.contains_key(key) {
                        assert(before[key] == fresh[key]);
                    }
                }
                let restored = match self.histories.get(&key) {
                    Some(h) => clone_messages(h),
                    None => Vec::new(),
                };
                proof {
                    assert(restored.deep_view() =~= if fresh.contains_key(key) {
                        fresh[key]
                    } else {
                        Seq::empty()
                    });
                }
                let merged = keep_unsent(restored, &earlier.entries[i].1);
                proof {
                    assert(lookup(entries, key) == Some(entries[i as int].1));
                    assert(merged.deep_view() == merged_history(fresh, entries[i as int].1.deep_view(), key));
                }
                self.histories.insert(key, merged);
                proof {
                    assert forall|k: HistoryKey| #[trigger] self.histories.map_model().contains_key(k) == (fresh.contains_key(k) || (
                    position(entries, k) is Some && position(entries, k).unwrap() < i + 1)) by {
                        lemma_position(entries, k);
                    }
                    assert forall|k: HistoryKey| #[trigger] self.histories.map_model().contains_key(k) ==> self.histories.map_model()[k]
                        == if position(entries, k) is Some && position(entries, k).unwrap() < i + 1 {
                        merged_history(fresh, lookup(entries, k).unwrap().deep_view(), k)
                    } else {
                        fresh[k]
                    } by {
                        lemma_position(entries, k);
                    }
                }
            } else {
                proof {
                    assert forall|k: HistoryKey| #[trigger] self.histories.map_model().contains_key(k) == (fresh.contains_key(k) || (
                    position(entries, k) is Some && position(entries, k).unwrap() < i + 1)) by {
                        lemma_position(entries, k);
                    }
                    assert forall|k: HistoryKey| #[trigger] self.histories.map_model().contains_key(k) ==> self.histories.map_model()[k]
                        == if position(entries, k) is Some && position(entries, k).unwrap() < i + 1 {
                        merged_history(fresh, lookup(entries, k).unwrap().deep_view(), k)
                    } else {
                        fresh[k]
                    } by {
                        lemma_position(entries, k);
                    }
                }
            }
            i = i + 1;
        }
        proof {
            assert forall|k: HistoryKey| #[trigger] self.histories.map_model().contains_key(k) == merged_histories(fresh, earlier.map_model()).contains_key(k) by {
                lemma_position(entries, k);
            }
            assert(self.histories.map_model() =~= merged_histories(fresh, earlier.map_model())) by {
                assert forall|k: HistoryKey| #[trigger] self.histories.map_model().contains_key(k) implies self.histories.map_model()[k] == merged_histories(fresh, earlier.map_model())[k] by {
                    lemma_position(entries, k);
                }
            }
        }
    }

    fn restore_selection(&mut self, active_chat: Option<ChatId>, active_thread: Option<MessageId>)
        ensures
            ({
                let s3 = old(self)@;
                let kept = match active_chat {
                    Some(c) => match first_index(s3.view.chats, chat_has_id(c)) {
                        Some(i) => Some(i as usize),
                        None => None,
                    },
                    None => None,
                };
                let s4 = AppModel {
                    view: ScreenModel {
                        active_chat: if kept is Some {
                            kept
                        } else if s3.view.chats.len() > 0 {
                            Some(0usize)
                        } else {
                            None
                        },
                        ..s3.view
                    },
                    ..s3
                };
                &&& final(self)@.selection_wf()
                &&& final(self)@ == AppModel {
                    view: ScreenModel {
                        active_thread: if s4.view.active_chat_id() == active_chat {
                            active_thread
                        } else {
                            None
                        },
                        ..s4.view
                    },
                    ..s4
                }
            }),
    {
        let kept = match active_chat {
            Some(c) => find_chat(&self.view.chats, c),
            None => None,
        };
        self.view.active_chat = if kept.is_some() {
            kept
        } else if self.view.chats.len() > 0 {
            Some(0)
        } else {
            None
        };
        let same = match (self.active_chat_id(), active_chat) {
            (Some(a), Some(b)) => a.0 == b.0,
            (None, None) => true,
            _ => false,
        };
        self.view.active_thread = if same {
            active_thread
        } else {
            None
        };
    }

    fn restore_active_folder(&mut self, active_folder: Option<i32>)
        ensures
            final(self)@ == match active_folder {
                Some(f) => match first_index(old(self)@.view.folders, folder_has_id(f)) {
                    Some(i) => AppModel {
                        view: ScreenModel { active_folder: i as usize, ..old(self)@.view },
                        ..old(self)@
                    },
                    None => old(self)@,
                },
                None => old(self)@,
            },
    {
        if let Some(f) = active_folder {
            let ghost folders = self@.view.folders;
            proof {
                lemma_first_index(folders, folder_has_id(f));
            }
            let mut found: Option<usize> = None;
            let mut i: usize = 0;
            while i < self.view.folders.len() && found.is_none()
                invariant
                    folders == self@.view.folders,
                    i <= folders.len(),
                    match found {
                        Some(k) => k < folders.len() && first_index(folders, folder_has_id(f)) == Some(k as int),
                        None => forall|j: int| 0 <= j < i ==> folders[j].id != f,
                    },
                decreases folders.len() - i + if found is None {
                    1int
                } else {
                    0int
                },
            {
                if self.view.folders[i].id == f {
                    proof {
                        lemma_first_index_is(folders, folder_has_id(f), i as int);
                    }
                    found = Some(i);
                } else {
                    i = i + 1;
                }
            }
            match found {
                Some(k) => {
                    self.view.active_folder = k;
                },
                None => {
                    proof {
                        lemma_first_index_none(folders, folder_has_id(f));
                    }
                },
            }
        }
    }

    /// The drafts of the histories with a message in flight are dropped.
    fn drop_pending_drafts(&mut self)
        ensures
            final(self)@ == (AppModel {
                drafts: old(self)@.drafts.remove_keys(pending_histories(old(self)@.pending_drafts)),
                ..old(self)@
            }),
    {
        let ghost d0 = self@.drafts;
        let ghost entries = self.pending_drafts.entries@;
        let n = self.pending_drafts.entries.len();
        let mut i: usize = 0;
        proof {
            assert(d0.remove_keys(first_histories(entries, 0)) =~= d0);
        }
        while i < n
            invariant
                entries == self.pending_drafts.entries@,
                n == entries.len(),
                i <= n,
                self.drafts.map_model() == d0.remove_keys(first_histories(entries, i as int)),
                self@ == (AppModel { drafts: self.drafts.map_model(), ..old(self)@ }),
            decreases n - i,
        {
            let id = self.pending_drafts.entries[i].0;
            let history = self.pending_drafts.entries[i].1.history;
            proof {
                lemma_position(entries, id);
            }
            let first = match self.pending_drafts.find(&id) {
                Some(p) => p == i,
                None => false,
            };
            if first {
                self.drafts.remove(&history);
                proof {
                    assert(first_histories(entries, i as int + 1) =~= first_histories(entries, i as int).insert(history));
                    assert(self.drafts.map_model() =~= d0.remove_keys(first_histories(entries, i as int + 1)));
                }
            } else {
                proof {
                    assert(first_histories(entries, i as int + 1) =~= first_histories(entries, i as int));
                }
            }
            i = i + 1;
        }
        proof {
            let m = old(self)@.pending_drafts;
            assert forall|k: HistoryKey| first_histories(entries, n as int).contains(k)
                == pending_histories(m).contains(k) by {
                if first_histories(entries, n as int).contains(k) {
                    let j = choose|j: int|
                        0 <= j < n && position(entries, entries[j].0) == Some(j) && entries[j].1.history == k;
                    lemma_position(entries, entries[j].0);
                    assert(m.contains_key(entries[j].0));
                }
                if pending_histories(m).contains(k) {
                    let id = choose|id: MessageId| m.contains_key(id) && m[id].history == k;
                    lemma_position(entries, id);
                    let p = position(entries, id).unwrap();
                    assert(0 <= p < n && position(entries, entries[p].0) == Some(p) && entries[p].1.history == k);
                }
            }
            assert(first_histories(entries, n as int) =~= pending_histories(m));
        }
    }

    fn merge_fresh_state(&mut self, bootstrap: Bootstrap)
        ensures
            final(self)@ == old(self)@.fresh_merged(bootstrap),
    {
        let mut drafts: KeyList<HistoryKey, ComposerView> = KeyList::new();
        std::mem::swap(&mut drafts, &mut self.drafts);
        let mut histories: KeyList<HistoryKey, Vec<MessageView>> = KeyList::new();
        std::mem::swap(&mut histories, &mut self.histories);
        proof {
            assert(self@ == AppModel { drafts: Map::empty(), histories: Map::empty(), ..old(self)@ });
        }
        self.replace_bootstrap(bootstrap);
        self.keep_old_drafts(drafts);
        self.drop_pending_drafts();
        self.keep_unsent_messages(histories);
    }

    pub fn merge_restored_connection(&mut self, bootstrap: Bootstrap)
        ensures
            final(self)@ == old(self)@.connection_merged(bootstrap),
            final(self)@.wf(),
    {
        let active_chat = self.active_chat_id();
        let active_folder = if self.view.active_folder < self.view.folders.len() {
            Some(self.view.folders[self.view.active_folder].id)
        } else {
            None
        };
        let active_thread = self.view.active_thread;
        let active_message = self.active_message_id();
        let transcript_anchor = self.transcript_anchor_id();
        let focus = self.view.focus;
        self.merge_fresh_state(bootstrap);
        self.restore_active_folder(active_folder);
        self.refresh_folder_chats(active_chat);
        self.restore_selection(active_chat, active_thread);
        self.view.focus = focus;
        self.view.notice = None;
        self.refresh_active_history_at(active_message, transcript_anchor);
        self.restore_active_draft();
        self.reset_background_history();
    }
}

} // verus!
