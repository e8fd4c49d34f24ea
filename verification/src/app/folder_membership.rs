use vstd::prelude::*;

use super::chat_reconciliation::{ChatChange, ChatChangeModel};
use super::{App, AppModel};
use crate::ids::{ChatId, HistoryKey};
use crate::view::{Effect, EffectModel, ScreenModel};

verus! {

broadcast use vstd::seq_lib::group_seq_properties;

/// `x` put into an increasing list of distinct folder ids, where it belongs, unless present.
pub open spec fn sorted_insert(s: Seq<i32>, x: i32) -> Seq<i32>
    decreases s.len(),
{
    if s.len() == 0 {
        seq![x]
    } else if x < s[0] {
        seq![x] + s
    } else if x == s[0] {
        s
    } else {
        seq![s[0]] + sorted_insert(s.drop_first(), x)
    }
}

/// The distinct ids of a list, in increasing order.
pub open spec fn sorted_distinct(s: Seq<i32>) -> Seq<i32>
    decreases s.len(),
{
    if s.len() == 0 {
        Seq::empty()
    } else {
        sorted_insert(sorted_distinct(s.drop_last()), s.last())
    }
}

pub open spec fn other_folder(folder: i32) -> spec_fn(i32) -> bool {
    |x: i32| x != folder
}

/// A chat's folders after it joins or leaves `folder`; -1 is the archive, whose counterpart
/// is the main list 0.
pub open spec fn membership_folders(folders: Seq<i32>, folder: i32, included: bool) -> Seq<i32> {
    let kept = folders.filter(other_folder(folder));
    let changed = if folder == -1 {
        kept.filter(other_folder(0)).push(if included { -1i32 } else { 0i32 })
    } else if included {
        kept.push(folder)
    } else {
        kept
    };
    sorted_distinct(changed)
}

pub open spec fn strictly_increasing(s: Seq<i32>) -> bool {
    forall|i: int, j: int| 0 <= i < j < s.len() ==> s[i] < s[j]
}

/// Inserting keeps the list increasing and adds exactly `x`.
pub proof fn lemma_sorted_insert(s: Seq<i32>, x: i32)
    requires
        strictly_increasing(s),
    ensures
        strictly_increasing(sorted_insert(s, x)),
        sorted_insert(s, x).to_set() == s.to_set().insert(x),
    decreases s.len(),
{
    if s.len() == 0 {
        assert(seq![x].to_set() =~= Set::<i32>::empty().insert(x)) by {
            assert(seq![x].contains(x) && seq![x][0] == x);
        }
        assert(s.to_set() =~= Set::<i32>::empty());
    } else if x < s[0] {
        let r = seq![x] + s;
        assert forall|i: int, j: int| 0 <= i < j < r.len() implies r[i] < r[j] by {
            if i > 0 {
                assert(r[i] == s[i - 1] && r[j] == s[j - 1]);
            } else {
                assert(r[j] == s[j - 1]);
                if j - 1 > 0 {
                    assert(s[0] < s[j - 1]);
                }
            }
        }
        assert(r.to_set() =~= s.to_set().insert(x)) by {
            assert forall|y: i32| r.contains(y) <==> s.contains(y) || y == x by {
                if r.contains(y) {
                    let k = choose|k: int| 0 <= k < r.len() && r[k] == y;
                    if k > 0 {
                        assert(s[k - 1] == y);
                    }
                }
                if s.contains(y) {
                    let k = choose|k: int| 0 <= k < s.len() && s[k] == y;
                    assert(r[k + 1] == y);
                }
                if y == x {
                    assert(r[0] == y);
                }
            }
        }
    } else if x == s[0] {
        assert(s.to_set() =~= s.to_set().insert(x)) by {
            assert(s.contains(x)) by {
                assert(s[0] == x);
            }
        }
    } else {
        let t = s.drop_first();
        assert(strictly_increasing(t)) by {
            assert forall|i: int, j: int| 0 <= i < j < t.len() implies t[i] < t[j] by {
                assert(t[i] == s[i + 1] && t[j] == s[j + 1]);
            }
        }
        lemma_sorted_insert(t, x);
        let u = sorted_insert(t, x);
        let r = seq![s[0]] + u;
        assert forall|k: int| 0 <= k < u.len() implies s[0] < #[trigger] u[k] by {
            assert(u.to_set().contains(u[k]));
            assert(u.contains(u[k]));
            assert(t.to_set().insert(x).contains(u[k]));
            if u[k] != x {
                assert(t.contains(u[k]));
                let q = choose|q: int| 0 <= q < t.len() && t[q] == u[k];
                assert(s[q + 1] == u[k]);
            }
        }
        assert forall|i: int, j: int| 0 <= i < j < r.len() implies r[i] < r[j] by {
            if i > 0 {
                assert(r[i] == u[i - 1] && r[j] == u[j - 1]);
            } else {
                assert(r[j] == u[j - 1]);
            }
        }
        assert(r.to_set() =~= s.to_set().insert(x)) by {
            assert forall|y: i32| r.contains(y) <==> s.contains(y) || y == x by {
                if r.contains(y) {
                    let k = choose|k: int| 0 <= k < r.len() && r[k] == y;
                    if k > 0 {
                        assert(u[k - 1] == y);
                        assert(u.contains(y));
                        assert(u.to_set().contains(y));
                        if y != x {
                            assert(t.contains(y));
                            let q = choose|q: int| 0 <= q < t.len() && t[q] == y;
                            assert(s[q + 1] == y);
                        }
                    } else {
                        assert(s[0] == y);
                    }
                }
                if s.contains(y) {
                    let k = choose|k: int| 0 <= k < s.len() && s[k] == y;
                    if k == 0 {
                        assert(r[0] == y);
                    } else {
                        assert(t[k - 1] == y);
                        assert(t.contains(y));
                        assert(u.to_set().contains(y));
                        assert(u.contains(y));
                        let q = choose|q: int| 0 <= q < u.len() && u[q] == y;
                        assert(r[q + 1] == y);
                    }
                }
                if y == x {
                    assert(u.to_set().contains(x));
                    assert(u.contains(x));
                    let q = choose|q: int| 0 <= q < u.len() && u[q] == x;
                    assert(r[q + 1] == x);
                }
            }
        }
    }
}

/// The sorted distinct ids are increasing and are exactly the ids of the list.
pub proof fn lemma_sorted_distinct(s: Seq<i32>)
    ensures
        strictly_increasing(sorted_distinct(s)),
        sorted_distinct(s).to_set() == s.to_set(),
    decreases s.len(),
{
    if s.len() == 0 {
        assert(s.to_set() =~= Set::<i32>::empty());
        assert(sorted_distinct(s).to_set() =~= Set::<i32>::empty());
    } else {
        lemma_sorted_distinct(s.drop_last());
        lemma_sorted_insert(sorted_distinct(s.drop_last()), s.last());
        assert(s =~= s.drop_last().push(s.last()));
        assert(s.to_set() =~= s.drop_last().to_set().insert(s.last())) by {
            assert forall|y: i32| s.contains(y) <==> s.drop_last().contains(y) || y == s.last() by {
                if s.contains(y) {
                    let k = choose|k: int| 0 <= k < s.len() && s[k] == y;
                    if k < s.len() - 1 {
                        assert(s.drop_last()[k] == y);
                    }
                }
                if s.drop_last().contains(y) {
                    let k = choose|k: int| 0 <= k < s.drop_last().len() && s.drop_last()[k] == y;
                    assert(s[k] == y);
                }
                if y == s.last() {
                    assert(s[s.len() - 1] == y);
                }
            }
        }
    }
}

/// `x` put into the increasing list of distinct ids `v`.
fn insert_sorted(v: &mut Vec<i32>, x: i32)
    requires
        strictly_increasing(old(v)@),
    ensures
        final(v)@ == sorted_insert(old(v)@, x),
{
    let ghost s = old(v)@;
    let mut i: usize = 0;
    while i < v.len() && v[i] < x
        invariant
            v@ == s,
            i <= s.len(),
            strictly_increasing(s),
            sorted_insert(s, x) == s.take(i as int) + sorted_insert(s.skip(i as int), x),
        decreases s.len() - i,
    {
        proof {
            let rest = s.skip(i as int);
            assert(rest[0] == s[i as int]);
            assert(rest.drop_first() =~= s.skip(i as int + 1));
            assert(sorted_insert(rest, x) == seq![s[i as int]] + sorted_insert(s.skip(i as int + 1), x));
            assert(s.take(i as int + 1) =~= s.take(i as int) + seq![s[i as int]]);
        }
        i = i + 1;
    }
    let ghost rest = s.skip(i as int);
    if i < v.len() && v[i] == x {
        proof {
            assert(rest[0] == x);
            assert(s =~= s.take(i as int) + rest);
        }
        return ;
    }
    v.insert(i, x);
    proof {
        if i < s.len() {
            assert(rest[0] == s[i as int]);
            assert(x < rest[0]);
        } else {
            assert(rest =~= Seq::<i32>::empty());
        }
        assert(v@ =~= s.take(i as int) + (seq![x] + rest));
    }
}

/// The distinct ids of `v` in increasing order.
fn sort_distinct(v: &Vec<i32>) -> (r: Vec<i32>)
    ensures
        r@ == sorted_distinct(v@),
{
    let mut r: Vec<i32> = Vec::new();
    let mut i: usize = 0;
    proof {
        assert(v@.take(0) =~= Seq::<i32>::empty());
    }
    while i < v.len()
        invariant
            i <= v.len(),
            r@ == sorted_distinct(v@.take(i as int)),
        decreases v.len() - i,
    {
        proof {
            lemma_sorted_distinct(v@.take(i as int));
            assert(v@.take(i as int + 1).drop_last() =~= v@.take(i as int));
        }
        insert_sorted(&mut r, v[i]);
        i = i + 1;
    }
    proof {
        assert(v@.take(v.len() as int) =~= v@);
    }
    r
}

fn without_folder(v: &Vec<i32>, folder: i32) -> (r: Vec<i32>)
    ensures
        r@ == v@.filter(other_folder(folder)),
{
    let ghost p = other_folder(folder);
    let mut r: Vec<i32> = Vec::new();
    let mut i: usize = 0;
    while i < v.len()
        invariant
            p == other_folder(folder),
            i <= v.len(),
            r@ == v@.take(i as int).filter(p),
        decreases v.len() - i,
    {
        proof {
            assert(v@.take(i as int + 1) =~= v@.take(i as int).push(v@[i as int]));
            v@.take(i as int).lemma_filter_push(v@[i as int], p);
        }
        if v[i] != folder {
            r.push(v[i]);
        }
        i = i + 1;
    }
    proof {
        assert(v@.take(v.len() as int) =~= v@);
    }
    r
}

/// The folders of a chat after it joins or leaves `folder`.
pub fn change_membership(folders: &Vec<i32>, folder: i32, included: bool) -> (r: Vec<i32>)
    ensures
        r@ == membership_folders(folders@, folder, included),
{
    let mut kept = without_folder(folders, folder);
    if folder == -1 {
        kept = without_folder(&kept, 0);
        kept.push(if included {
            -1
        } else {
            0
        });
    } else if included {
        kept.push(folder);
    }
    sort_distinct(&kept)
}

impl AppModel {
    /// A chat joins or leaves a folder: the counts and the chat list follow, and when the
    /// shown chat left the list the newly selected chat opens at its remembered place.
    pub open spec fn folder_membership_applied(self, chat: ChatId, folder: i32, included: bool) -> (
        AppModel,
        Option<EffectModel>,
    ) {
        let active_chat = self.view.active_chat_id();
        let s1 = self.saved_draft().saved_transcript_anchor().cleared_selection().changed_chat(
            chat,
            ChatChangeModel::Membership { folder, included },
        ).refreshed_folder_unread().refreshed_folder_chats(active_chat);
        if s1.view.active_chat_id() == active_chat {
            (s1, None)
        } else {
            let s2 = AppModel {
                view: ScreenModel {
                    active_thread: None,
                    active_message: None,
                    transcript_anchor: None,
                    ..s1.view
                },
                ..s1
            }.restored_draft();
            let s3 = s2.refreshed_history_at(None, s2.remembered_anchor());
            let s4 = AppModel { view: ScreenModel { has_newer_messages: false, ..s3.view }, ..s3 };
            match s4.view.active_chat_id() {
                Some(c) => s4.requested_history_load(HistoryKey { chat: c, thread: None, saved_peer: None }),
                None => (s4, None),
            }
        }
    }
}

impl App {
    fn file_chat(&mut self, chat: ChatId, folder: i32, included: bool)
        ensures
            final(self)@ == old(self)@.saved_draft().saved_transcript_anchor().cleared_selection().changed_chat(
                chat,
                ChatChangeModel::Membership { folder, included },
            ).refreshed_folder_unread(),
    {
        self.save_active_draft();
        self.save_transcript_anchor();
        self.clear_message_selection();
        self.change_chat_entries(chat, &ChatChange::Membership { folder, included });
        self.refresh_folder_unread();
    }

    pub fn apply_folder_membership(&mut self, chat: ChatId, folder: i32, included: bool) -> (r: Option<
        Effect,
    >)
        ensures
            (final(self)@, r.deep_view()) == old(self)@.folder_membership_applied(chat, folder, included),
    {
        let active_chat = self.active_chat_id();
        self.file_chat(chat, folder, included);
        self.refresh_folder_chats(active_chat);
        let same = match (self.active_chat_id(), active_chat) {
            (Some(a), Some(b)) => a.0 == b.0,
            (None, None) => true,
            _ => false,
        };
        if same {
            return None;
        }
        self.view.active_thread = None;
        self.view.active_message = None;
        self.view.transcript_anchor = None;
        self.restore_active_draft();
        let anchor = self.remembered_anchor();
        self.refresh_active_history_at(None, anchor);
        self.view.has_newer_messages = false;
        match self.active_chat_id() {
            Some(c) => self.request_chat_load(c),
            None => None,
        }
    }
}

} // verus!
