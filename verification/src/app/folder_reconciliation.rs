use vstd::prelude::*;
use vstd::string::StringExecFns;

use super::navigation::find_chat;
use super::reconnection::folder_has_id;
use super::{chat_has_id, App, AppModel};
use crate::folder_arguments::FolderRules;
use crate::seqs::{first_index, lemma_first_index, lemma_first_index_is, lemma_first_index_none};
use crate::view::{
    clone_ints, ChatModel, ChatView, FolderDetailsModel, FolderDetailsView, FolderManagerModel, FolderModel,
    FolderView, ScreenModel,
};

verus! {

broadcast use vstd::seq_lib::group_seq_properties;

/// What Telegram reports of a finished folder operation.
pub enum FolderOperationResult {
    Created { id: i32, title: String, rules: FolderRules },
    Updated { id: i32, title: String, rules: Option<FolderRules> },
    Reordered { id: i32, position: usize },
    Shared { id: i32, url: String },
    Deleted { id: i32 },
}

/// The account's folders as Telegram lists them after an operation: the folders, their
/// details, and the folders each chat is in.
pub struct FolderReconciliation {
    pub folders: Vec<FolderView>,
    pub details: Vec<FolderDetailsView>,
    pub chats: Vec<ChatView>,
}

pub open spec fn details_has_id(id: i32) -> spec_fn(FolderDetailsModel) -> bool {
    |d: FolderDetailsModel| d.id == id
}

pub open spec fn other_folder_id(id: i32) -> spec_fn(FolderModel) -> bool {
    |f: FolderModel| f.id != id
}

pub open spec fn other_details_id(id: i32) -> spec_fn(FolderDetailsModel) -> bool {
    |d: FolderDetailsModel| d.id != id
}

pub open spec fn other_folder_number(id: i32) -> spec_fn(i32) -> bool {
    |f: i32| f != id
}

/// The chat without the folder `id` in its list.
pub open spec fn without_folder(id: i32) -> spec_fn(ChatModel) -> ChatModel {
    |c: ChatModel| ChatModel { folders: c.folders.filter(other_folder_number(id)), ..c }
}

/// The folders named by `details`, in their order, each as `folders` lists it (details of a
/// folder that is not listed name none).
pub open spec fn custom_folders(details: Seq<FolderDetailsModel>, folders: Seq<FolderModel>) -> Seq<FolderModel>
    decreases details.len(),
{
    if details.len() == 0 {
        Seq::empty()
    } else {
        let rest = custom_folders(details.drop_last(), folders);
        match first_index(folders, folder_has_id(details.last().id)) {
            Some(i) => rest.push(folders[i]),
            None => rest,
        }
    }
}

/// The chats with the folder lists of `fresh` taken in, one fresh chat after the other, each
/// by the first known chat with its id.
pub open spec fn refoldered(all: Seq<ChatModel>, fresh: Seq<ChatModel>) -> Seq<ChatModel>
    decreases fresh.len(),
{
    if fresh.len() == 0 {
        all
    } else {
        let before = refoldered(all, fresh.drop_last());
        let c = fresh.last();
        match first_index(before, chat_has_id(c.id)) {
            Some(i) => before.update(i, ChatModel { folders: c.folders, ..before[i] }),
            None => before,
        }
    }
}

/// The index of the folder `id`, else that of the main list, else 0.
pub open spec fn folder_index_or_main(folders: Seq<FolderModel>, id: Option<i32>) -> usize {
    match id {
        Some(a) if first_index(folders, folder_has_id(a)) is Some => first_index(folders, folder_has_id(a)).unwrap() as usize,
        _ => match first_index(folders, folder_has_id(0)) {
            Some(i) => i as usize,
            None => 0,
        },
    }
}

/// The folder list with a created folder: unchanged when it is listed, else with the folder
/// before the archive, or last.
pub open spec fn created_folders(folders: Seq<FolderModel>, id: i32, title: Seq<char>) -> Seq<FolderModel> {
    if first_index(folders, folder_has_id(id)) is Some {
        folders
    } else {
        let at = match first_index(folders, folder_has_id(-1i32)) {
            Some(i) => i,
            None => folders.len() as int,
        };
        folders.insert(at, FolderModel { id, title, unread: 0 })
    }
}

/// The details with those of a created folder added, unless it has some.
pub open spec fn created_details(details: Seq<FolderDetailsModel>, id: i32, rules: FolderRules) -> Seq<FolderDetailsModel> {
    if first_index(details, details_has_id(id)) is Some {
        details
    } else {
        details.push(FolderDetailsModel { id, rules: Some(rules), shareable: true })
    }
}

/// The folder list in the order of the details: the main list, the folders the details
/// name, then the archive.
pub open spec fn arranged_folders(folders: Seq<FolderModel>, details: Seq<FolderDetailsModel>) -> Seq<FolderModel> {
    let archive = match first_index(folders, folder_has_id(-1i32)) {
        Some(i) => seq![folders[i]],
        None => Seq::empty(),
    };
    folders.filter(folder_has_id(0)) + custom_folders(details, folders) + archive
}

impl AppModel {
    pub open spec fn with_screen(self, view: ScreenModel) -> AppModel {
        AppModel { view, ..self }
    }

    /// The folder manager, if open, is no longer waiting for an operation.
    pub open spec fn folder_manager_settled(self) -> AppModel {
        self.with_screen(
            ScreenModel {
                folder_manager: match self.view.folder_manager {
                    Some(m) => Some(FolderManagerModel { pending: false, ..m }),
                    None => None,
                },
                ..self.view
            },
        )
    }

    /// A created folder is listed before the archive (or last), its details are added, and the
    /// manager's editor closes on the last folder.
    pub open spec fn folder_created(self, id: i32, title: Seq<char>, rules: FolderRules) -> AppModel {
        let v = self.view;
        let details = created_details(v.folder_details, id, rules);
        self.with_screen(
            ScreenModel {
                folders: created_folders(v.folders, id, title),
                folder_details: details,
                folder_manager: match v.folder_manager {
                    Some(m) => Some(
                        FolderManagerModel {
                            editor: None,
                            selected: if details.len() > 0 {
                                (details.len() - 1) as usize
                            } else {
                                0
                            },
                            ..m
                        },
                    ),
                    None => None,
                },
                ..v
            },
        )
    }

    /// An updated folder takes its new title and rules, and the manager's editor closes.
    pub open spec fn folder_updated(self, id: i32, title: Seq<char>, rules: Option<FolderRules>) -> AppModel {
        let v = self.view;
        self.with_screen(
            ScreenModel {
                folders: match first_index(v.folders, folder_has_id(id)) {
                    Some(i) => v.folders.update(i, FolderModel { title, ..v.folders[i] }),
                    None => v.folders,
                },
                folder_details: match first_index(v.folder_details, details_has_id(id)) {
                    Some(i) => v.folder_details.update(i, FolderDetailsModel { rules, ..v.folder_details[i] }),
                    None => v.folder_details,
                },
                folder_manager: match v.folder_manager {
                    Some(m) => Some(FolderManagerModel { editor: None, ..m }),
                    None => None,
                },
                ..v
            },
        )
    }

    /// A moved folder's details go to `position` (at most the end); the folder list follows:
    /// the main list, the folders in the order of their details, then the archive. The active
    /// folder stays selected where it is still listed, and the manager selects the moved
    /// folder. Details that name no folder leave everything as it was.
    pub open spec fn folder_reordered(self, id: i32, position: usize) -> AppModel {
        let v = self.view;
        match first_index(v.folder_details, details_has_id(id)) {
            None => self,
            Some(c) => {
                let rest = v.folder_details.remove(c);
                let p: usize = if position < rest.len() {
                    position
                } else {
                    rest.len() as usize
                };
                let details = rest.insert(p as int, v.folder_details[c]);
                let folders = arranged_folders(v.folders, details);
                let active = if v.active_folder < v.folders.len() {
                    Some(v.folders[v.active_folder as int].id)
                } else {
                    None
                };
                self.with_screen(
                    ScreenModel {
                        folder_details: details,
                        folders,
                        active_folder: match active {
                            Some(a) => match first_index(folders, folder_has_id(a)) {
                                Some(i) => i as usize,
                                None => 0,
                            },
                            None => 0,
                        },
                        folder_manager: match v.folder_manager {
                            Some(m) => Some(FolderManagerModel { selected: p, ..m }),
                            None => None,
                        },
                        ..v
                    },
                )
            },
        }
    }

    /// A deleted folder leaves the folder list, the details and every chat's folders; where it
    /// was active the main list becomes active. The chat list is rebuilt, and the manager drops
    /// its deletion confirmation and keeps its selection on a listed folder.
    pub open spec fn folder_removed(self, id: i32) -> AppModel {
        let v = self.view;
        let details = v.folder_details.filter(other_details_id(id));
        let folders = v.folders.filter(other_folder_id(id));
        let was_active = v.active_folder < v.folders.len() && v.folders[v.active_folder as int].id == id;
        let s = AppModel {
            view: ScreenModel {
                folders,
                folder_details: details,
                active_folder: if was_active {
                    match first_index(folders, folder_has_id(0)) {
                        Some(i) => i as usize,
                        None => 0,
                    }
                } else {
                    v.active_folder
                },
                ..v
            },
            all_chats: self.all_chats.map_values(without_folder(id)),
            ..self
        }.refreshed_folder_chats(v.active_chat_id());
        s.with_screen(
            ScreenModel {
                folder_manager: match s.view.folder_manager {
                    Some(m) => Some(
                        FolderManagerModel {
                            delete_confirmation: None,
                            selected: if details.len() == 0 {
                                0
                            } else if m.selected < details.len() - 1 {
                                m.selected
                            } else {
                                (details.len() - 1) as usize
                            },
                            ..m
                        },
                    ),
                    None => None,
                },
                ..s.view
            },
        )
    }

    /// Telegram's folders replace the listed ones, and each known chat takes the folders
    /// Telegram gives it. The active folder stays selected where it is still listed, else the
    /// main list is; the chat list is rebuilt around the chat that was selected.
    pub open spec fn folders_reconciled(
        self,
        folders: Seq<FolderModel>,
        details: Seq<FolderDetailsModel>,
        chats: Seq<ChatModel>,
    ) -> AppModel {
        let v = self.view;
        let active = if v.active_folder < v.folders.len() {
            Some(v.folders[v.active_folder as int].id)
        } else {
            None
        };
        AppModel {
            view: ScreenModel {
                folders,
                folder_details: details,
                active_folder: folder_index_or_main(folders, active),
                ..v
            },
            all_chats: refoldered(self.all_chats, chats),
            ..self
        }.refreshed_folder_chats(v.active_chat_id())
    }

    /// What a finished folder operation does to the state.
    pub open spec fn folder_operation_applied(self, result: FolderOperationResult) -> AppModel {
        let s = self.folder_manager_settled();
        match result {
            FolderOperationResult::Created { id, title, rules } => s.folder_created(id, title@, rules),
            FolderOperationResult::Updated { id, title, rules } => s.folder_updated(id, title@, rules),
            FolderOperationResult::Reordered { id, position } => s.folder_reordered(id, position),
            FolderOperationResult::Shared { id: _, url } => s.with_screen(
                ScreenModel { notice: Some("Folder share link: "@ + url@), ..s.view },
            ),
            FolderOperationResult::Deleted { id } => s.folder_removed(id),
        }
    }

    /// A folder operation is done: the notice is cleared, Telegram's folders are taken in when
    /// they came with it, then the operation's result is applied.
    pub open spec fn folder_operation_completed(
        self,
        result: FolderOperationResult,
        reconciliation: Option<Box<FolderReconciliation>>,
    ) -> AppModel {
        let s = self.with_screen(ScreenModel { notice: None, ..self.view });
        let s2 = match reconciliation {
            Some(r) => s.folders_reconciled(r.folders.deep_view(), r.details.deep_view(), r.chats.deep_view()),
            None => s,
        };
        s2.folder_operation_applied(result)
    }

    /// A folder operation failed: the manager stops waiting and the reason is shown.
    pub open spec fn folder_operation_failed(self, reason: Seq<char>) -> AppModel {
        let s = self.folder_manager_settled();
        s.with_screen(ScreenModel { notice: Some(reason), ..s.view })
    }
}

fn find_folder(folders: &Vec<FolderView>, id: i32) -> (r: Option<usize>)
    ensures
        match r {
            Some(i) => i < folders.len() && first_index(folders.deep_view(), folder_has_id(id)) == Some(i as int),
            None => first_index(folders.deep_view(), folder_has_id(id)) is None,
        },
{
    let ghost s = folders.deep_view();
    proof {
        lemma_first_index(s, folder_has_id(id));
    }
    let mut i: usize = 0;
    while i < folders.len()
        invariant
            s == folders.deep_view(),
            i <= folders.len(),
            forall|j: int| 0 <= j < i ==> s[j].id != id,
        decreases folders.len() - i,
    {
        if folders[i].id == id {
            proof {
                lemma_first_index_is(s, folder_has_id(id), i as int);
            }
            return Some(i);
        }
        i = i + 1;
    }
    proof {
        lemma_first_index_none(s, folder_has_id(id));
    }
    None
}

fn find_details(details: &Vec<FolderDetailsView>, id: i32) -> (r: Option<usize>)
    ensures
        match r {
            Some(i) => i < details.len() && first_index(details.deep_view(), details_has_id(id)) == Some(i as int),
            None => first_index(details.deep_view(), details_has_id(id)) is None,
        },
{
    let ghost s = details.deep_view();
    proof {
        lemma_first_index(s, details_has_id(id));
    }
    let mut i: usize = 0;
    while i < details.len()
        invariant
            s == details.deep_view(),
            i <= details.len(),
            forall|j: int| 0 <= j < i ==> s[j].id != id,
        decreases details.len() - i,
    {
        if details[i].id == id {
            proof {
                lemma_first_index_is(s, details_has_id(id), i as int);
            }
            return Some(i);
        }
        i = i + 1;
    }
    proof {
        lemma_first_index_none(s, details_has_id(id));
    }
    None
}

fn filter_folders(folders: &Vec<FolderView>, id: i32, equal: bool) -> (r: Vec<FolderView>)
    ensures
        r.deep_view() == if equal {
            folders.deep_view().filter(folder_has_id(id))
        } else {
            folders.deep_view().filter(other_folder_id(id))
        },
{
    let ghost all = folders.deep_view();
    let ghost p = if equal {
        folder_has_id(id)
    } else {
        other_folder_id(id)
    };
    let mut kept: Vec<FolderView> = Vec::new();
    let mut i: usize = 0;
    while i < folders.len()
        invariant
            all == folders.deep_view(),
            p == (if equal {
                folder_has_id(id)
            } else {
                other_folder_id(id)
            }),
            i <= folders.len(),
            kept.deep_view() == all.take(i as int).filter(p),
        decreases folders.len() - i,
    {
        proof {
            assert(all.take(i as int + 1) =~= all.take(i as int).push(all[i as int]));
            all.take(i as int).lemma_filter_push(all[i as int], p);
        }
        if (folders[i].id == id) == equal {
            let ghost k0 = kept.deep_view();
            kept.push(folders[i].clone());
            proof {
                assert(kept.deep_view() =~= k0.push(all[i as int]));
            }
        }
        i = i + 1;
    }
    proof {
        assert(all.take(all.len() as int) =~= all);
    }
    kept
}

fn other_details(details: &Vec<FolderDetailsView>, id: i32) -> (r: Vec<FolderDetailsView>)
    ensures
        r.deep_view() == details.deep_view().filter(other_details_id(id)),
{
    let ghost all = details.deep_view();
    let ghost p = other_details_id(id);
    let mut kept: Vec<FolderDetailsView> = Vec::new();
    let mut i: usize = 0;
    while i < details.len()
        invariant
            all == details.deep_view(),
            p == other_details_id(id),
            i <= details.len(),
            kept.deep_view() == all.take(i as int).filter(p),
        decreases details.len() - i,
    {
        proof {
            assert(all.take(i as int + 1) =~= all.take(i as int).push(all[i as int]));
            all.take(i as int).lemma_filter_push(all[i as int], p);
        }
        if details[i].id != id {
            let ghost k0 = kept.deep_view();
            kept.push(FolderDetailsView { id: details[i].id, rules: details[i].rules, shareable: details[i].shareable });
            proof {
                assert(kept.deep_view() =~= k0.push(all[i as int]));
            }
        }
        i = i + 1;
    }
    proof {
        assert(all.take(all.len() as int) =~= all);
    }
    kept
}

fn other_numbers(folders: &Vec<i32>, id: i32) -> (r: Vec<i32>)
    ensures
        r@ == folders@.filter(other_folder_number(id)),
{
    let ghost all = folders@;
    let ghost p = other_folder_number(id);
    let mut kept: Vec<i32> = Vec::new();
    let mut i: usize = 0;
    while i < folders.len()
        invariant
            all == folders@,
            p == other_folder_number(id),
            i <= folders.len(),
            kept@ == all.take(i as int).filter(p),
        decreases folders.len() - i,
    {
        proof {
            assert(all.take(i as int + 1) =~= all.take(i as int).push(all[i as int]));
            all.take(i as int).lemma_filter_push(all[i as int], p);
        }
        if folders[i] != id {
            kept.push(folders[i]);
        }
        i = i + 1;
    }
    proof {
        assert(all.take(all.len() as int) =~= all);
    }
    kept
}

/// The folders that `details` name, in their order.
fn custom_folders_of(details: &Vec<FolderDetailsView>, folders: &Vec<FolderView>) -> (r: Vec<FolderView>)
    ensures
        r.deep_view() == custom_folders(details.deep_view(), folders.deep_view()),
{
    let ghost d = details.deep_view();
    let mut r: Vec<FolderView> = Vec::new();
    let mut i: usize = 0;
    while i < details.len()
        invariant
            d == details.deep_view(),
            i <= details.len(),
            r.deep_view() == custom_folders(d.take(i as int), folders.deep_view()),
        decreases details.len() - i,
    {
        proof {
            assert(d.take(i as int + 1).drop_last() =~= d.take(i as int));
            assert(d.take(i as int + 1).last() == d[i as int]);
        }
        let ghost f = folders.deep_view();
        let ghost before = custom_folders(d.take(i as int), f);
        proof {
            lemma_first_index(f, folder_has_id(d[i as int].id));
        }
        match find_folder(folders, details[i].id) {
            Some(k) => {
                let ghost r0 = r.deep_view();
                r.push(folders[k].clone());
                proof {
                    assert(r.deep_view() =~= r0.push(f[k as int]));
                }
            },
            None => {},
        }
        i = i + 1;
    }
    proof {
        assert(d.take(d.len() as int) =~= d);
    }
    r
}

fn append_folders(target: &mut Vec<FolderView>, more: &Vec<FolderView>)
    ensures
        final(target).deep_view() == old(target).deep_view() + more.deep_view(),
{
    let ghost head = target.deep_view();
    let ghost m = more.deep_view();
    let mut k: usize = 0;
    while k < more.len()
        invariant
            m == more.deep_view(),
            k <= more.len(),
            target.deep_view() == head + m.take(k as int),
        decreases more.len() - k,
    {
        let ghost r0 = target.deep_view();
        target.push(more[k].clone());
        proof {
            assert(target.deep_view() =~= r0.push(m[k as int]));
            assert(m.take(k as int + 1) =~= m.take(k as int).push(m[k as int]));
            assert(target.deep_view() =~= head + m.take(k as int + 1));
        }
        k = k + 1;
    }
    proof {
        assert(m.take(m.len() as int) =~= m);
    }
}

fn arrange_folders(folders: &Vec<FolderView>, details: &Vec<FolderDetailsView>) -> (r: Vec<FolderView>)
    ensures
        r.deep_view() == arranged_folders(folders.deep_view(), details.deep_view()),
{
    let ghost f0 = folders.deep_view();
    let mut r = filter_folders(folders, 0, true);
    let custom = custom_folders_of(details, folders);
    append_folders(&mut r, &custom);
    let ghost f1 = r.deep_view();
    match find_folder(folders, -1) {
        Some(a) => {
            r.push(folders[a].clone());
            proof {
                assert(r.deep_view() =~= f1 + seq![f0[a as int]]);
            }
        },
        None => {
            proof {
                assert(r.deep_view() =~= f1 + Seq::<FolderModel>::empty());
            }
        },
    }
    r
}

impl App {
    fn settle_folder_manager(&mut self)
        ensures
            final(self)@ == old(self)@.folder_manager_settled(),
    {
        match self.view.folder_manager.take() {
            Some(mut m) => {
                m.pending = false;
                self.view.folder_manager = Some(m);
            },
            None => {},
        }
        proof {
            assert(self@.view =~= old(self)@.folder_manager_settled().view);
        }
    }

    fn list_created_folder(&mut self, id: i32, title: String)
        ensures
            final(self)@ == old(self)@.with_screen(
                ScreenModel { folders: created_folders(old(self)@.view.folders, id, title@), ..old(self)@.view },
            ),
    {
        if find_folder(&self.view.folders, id).is_none() {
            let at = match find_folder(&self.view.folders, -1) {
                Some(i) => i,
                None => self.view.folders.len(),
            };
            let ghost f0 = self.view.folders.deep_view();
            let folder = FolderView { id, title, unread: 0 };
            let ghost fm = folder.deep_view();
            self.view.folders.insert(at, folder);
            proof {
                assert(self.view.folders.deep_view() =~= f0.insert(at as int, fm));
            }
        }
    }

    fn add_created_details(&mut self, id: i32, rules: FolderRules)
        ensures
            final(self)@ == old(self)@.with_screen(
                ScreenModel {
                    folder_details: created_details(old(self)@.view.folder_details, id, rules),
                    ..old(self)@.view
                },
            ),
    {
        if find_details(&self.view.folder_details, id).is_none() {
            let ghost d0 = self.view.folder_details.deep_view();
            self.view.folder_details.push(FolderDetailsView { id, rules: Some(rules), shareable: true });
            proof {
                assert(self.view.folder_details.deep_view() =~= d0.push(
                    FolderDetailsModel { id, rules: Some(rules), shareable: true },
                ));
            }
        }
    }

    fn create_folder(&mut self, id: i32, title: String, rules: FolderRules)
        ensures
            final(self)@ == old(self)@.folder_created(id, title@, rules),
    {
        self.list_created_folder(id, title);
        self.add_created_details(id, rules);
        let n = self.view.folder_details.len();
        match self.view.folder_manager.take() {
            Some(mut m) => {
                m.editor = None;
                m.selected = if n > 0 {
                    n - 1
                } else {
                    0
                };
                self.view.folder_manager = Some(m);
            },
            None => {},
        }
        proof {
            let t = old(self)@.folder_created(id, title@, rules).view;
            assert(self@.view =~= t);
        }
    }

    fn update_folder(&mut self, id: i32, title: String, rules: Option<FolderRules>)
        ensures
            final(self)@ == old(self)@.folder_updated(id, title@, rules),
    {
        match find_folder(&self.view.folders, id) {
            Some(i) => {
                let ghost f0 = self.view.folders.deep_view();
                let folder = FolderView { id: self.view.folders[i].id, title, unread: self.view.folders[i].unread };
                let ghost fm = folder.deep_view();
                self.view.folders.set(i, folder);
                proof {
                    assert(self.view.folders.deep_view() =~= f0.update(i as int, fm));
                }
            },
            None => {},
        }
        match find_details(&self.view.folder_details, id) {
            Some(i) => {
                let ghost d0 = self.view.folder_details.deep_view();
                let d = FolderDetailsView { id: self.view.folder_details[i].id, rules, shareable: self.view.folder_details[i].shareable };
                let ghost dm = d.deep_view();
                self.view.folder_details.set(i, d);
                proof {
                    assert(self.view.folder_details.deep_view() =~= d0.update(i as int, dm));
                }
            },
            None => {},
        }
        match self.view.folder_manager.take() {
            Some(mut m) => {
                m.editor = None;
                self.view.folder_manager = Some(m);
            },
            None => {},
        }
        proof {
            let t = old(self)@.folder_updated(id, title@, rules).view;
            assert(self@.view.folders == t.folders);
            assert(self@.view.folder_details == t.folder_details);
            assert(self@.view.folder_manager == t.folder_manager);
            assert(self@.view =~= t);
        }
    }

    /// The details at `c` move to `position`, at most the end of the others; the place they
    /// took is returned.
    fn move_details(&mut self, c: usize, position: usize) -> (p: usize)
        requires
            c < old(self).view.folder_details.len(),
        ensures
            ({
                let d = old(self)@.view.folder_details;
                let rest = d.remove(c as int);
                &&& p == if position < rest.len() {
                    position
                } else {
                    rest.len() as usize
                }
                &&& final(self)@ == old(self)@.with_screen(
                    ScreenModel { folder_details: rest.insert(p as int, d[c as int]), ..old(self)@.view },
                )
            }),
    {
        let ghost d0 = self.view.folder_details.deep_view();
        let moved = self.view.folder_details.remove(c);
        let ghost dm = moved.deep_view();
        proof {
            assert(self.view.folder_details.deep_view() =~= d0.remove(c as int));
        }
        let p = if position < self.view.folder_details.len() {
            position
        } else {
            self.view.folder_details.len()
        };
        let ghost d1 = self.view.folder_details.deep_view();
        self.view.folder_details.insert(p, moved);
        proof {
            assert(self.view.folder_details.deep_view() =~= d1.insert(p as int, dm));
            assert(self@.view =~= ScreenModel { folder_details: d0.remove(c as int).insert(p as int, d0[c as int]), ..old(self)@.view });
        }
        p
    }

    fn reorder_folder(&mut self, id: i32, position: usize)
        ensures
            final(self)@ == old(self)@.folder_reordered(id, position),
    {
        let active = if self.view.active_folder < self.view.folders.len() {
            Some(self.view.folders[self.view.active_folder].id)
        } else {
            None
        };
        let c = match find_details(&self.view.folder_details, id) {
            Some(c) => c,
            None => return ,
        };
        let p = self.move_details(c, position);
        let folders = arrange_folders(&self.view.folders, &self.view.folder_details);
        self.view.folders = folders;
        self.view.active_folder = match active {
            Some(a) => match find_folder(&self.view.folders, a) {
                Some(i) => i,
                None => 0,
            },
            None => 0,
        };
        match self.view.folder_manager.take() {
            Some(mut m) => {
                m.selected = p;
                self.view.folder_manager = Some(m);
            },
            None => {},
        }
        proof {
            let t = old(self)@.folder_reordered(id, position).view;
            assert(self@.view.folder_details == t.folder_details);
            assert(self@.view.folders == t.folders);
            assert(self@.view =~= t);
        }
    }

    fn drop_folder_from_chats(&mut self, id: i32)
        ensures
            final(self)@ == (AppModel { all_chats: old(self)@.all_chats.map_values(without_folder(id)), ..old(self)@ }),
    {
        let ghost a0 = self@.all_chats;
        let n = self.all_chats.len();
        let mut i: usize = 0;
        while i < n
            invariant
                n == self.all_chats.len(),
                n == a0.len(),
                i <= n,
                forall|j: int| 0 <= j < i ==> #[trigger] self@.all_chats[j] == without_folder(id)(a0[j]),
                forall|j: int| i <= j < n ==> #[trigger] self@.all_chats[j] == a0[j],
                self@ == (AppModel { all_chats: self@.all_chats, ..old(self)@ }),
            decreases n - i,
        {
            let mut c = self.all_chats[i].clone();
            proof {
                assert(self@.all_chats[i as int] == self.all_chats[i as int].deep_view());
                assert(c.deep_view() == a0[i as int]);
            }
            c.folders = other_numbers(&c.folders, id);
            let ghost before = self@.all_chats;
            let ghost cm = c.deep_view();
            self.all_chats.set(i, c);
            proof {
                assert(self@.all_chats =~= before.update(i as int, cm));
                assert(cm =~= without_folder(id)(a0[i as int]));
            }
            i = i + 1;
        }
        proof {
            assert(self@.all_chats =~= a0.map_values(without_folder(id)));
        }
    }

    fn remove_folder(&mut self, id: i32)
        ensures
            final(self)@ == old(self)@.folder_removed(id),
    {
        let was_active = self.view.active_folder < self.view.folders.len()
            && self.view.folders[self.view.active_folder].id == id;
        let preferred = self.active_chat_id();
        self.view.folders = filter_folders(&self.view.folders, id, false);
        self.view.folder_details = other_details(&self.view.folder_details, id);
        self.drop_folder_from_chats(id);
        if was_active {
            self.view.active_folder = match find_folder(&self.view.folders, 0) {
                Some(i) => i,
                None => 0,
            };
        }
        proof {
            let v = old(self)@.view;
            let folders = v.folders.filter(other_folder_id(id));
            assert(self@ == (AppModel {
                view: ScreenModel {
                    folders,
                    folder_details: v.folder_details.filter(other_details_id(id)),
                    active_folder: if was_active {
                        match first_index(folders, folder_has_id(0)) {
                            Some(i) => i as usize,
                            None => 0,
                        }
                    } else {
                        v.active_folder
                    },
                    ..v
                },
                all_chats: old(self)@.all_chats.map_values(without_folder(id)),
                ..old(self)@
            }));
        }
        self.refresh_folder_chats(preferred);
        let n = self.view.folder_details.len();
        match self.view.folder_manager.take() {
            Some(mut m) => {
                m.delete_confirmation = None;
                m.selected = if n == 0 {
                    0
                } else if m.selected < n - 1 {
                    m.selected
                } else {
                    n - 1
                };
                self.view.folder_manager = Some(m);
            },
            None => {},
        }
    }

    fn take_chat_folders(&mut self, chats: &Vec<ChatView>)
        ensures
            final(self)@ == (AppModel { all_chats: refoldered(old(self)@.all_chats, chats.deep_view()), ..old(self)@ }),
    {
        let ghost a0 = self@.all_chats;
        let ghost cs = chats.deep_view();
        let mut j: usize = 0;
        proof {
            assert(cs.take(0) =~= Seq::<ChatModel>::empty());
        }
        while j < chats.len()
            invariant
                cs == chats.deep_view(),
                j <= chats.len(),
                self@.all_chats == refoldered(a0, cs.take(j as int)),
                self@ == (AppModel { all_chats: self@.all_chats, ..old(self)@ }),
            decreases chats.len() - j,
        {
            proof {
                assert(cs.take(j as int + 1).drop_last() =~= cs.take(j as int));
                assert(cs.take(j as int + 1).last() == cs[j as int]);
                lemma_first_index(self@.all_chats, chat_has_id(chats[j as int].id));
                assert(self@.all_chats.len() == self.all_chats.len());
            }
            match find_chat(&self.all_chats, chats[j].id) {
                Some(i) => {
                    let mut x = self.all_chats[i].clone();
                    x.folders = clone_ints(&chats[j].folders);
                    let ghost before = self@.all_chats;
                    let ghost xm = x.deep_view();
                    self.all_chats.set(i, x);
                    proof {
                        assert(self@.all_chats =~= before.update(i as int, xm));
                        assert(xm == ChatModel { folders: cs[j as int].folders, ..before[i as int] });
                    }
                },
                None => {},
            }
            j = j + 1;
        }
        proof {
            assert(cs.take(cs.len() as int) =~= cs);
        }
    }

    fn reconcile_folders(&mut self, fresh: FolderReconciliation)
        ensures
            final(self)@ == old(self)@.folders_reconciled(
                fresh.folders.deep_view(),
                fresh.details.deep_view(),
                fresh.chats.deep_view(),
            ),
    {
        let active = if self.view.active_folder < self.view.folders.len() {
            Some(self.view.folders[self.view.active_folder].id)
        } else {
            None
        };
        let preferred = self.active_chat_id();
        let FolderReconciliation { folders, details, chats } = fresh;
        self.view.folders = folders;
        self.view.folder_details = details;
        self.take_chat_folders(&chats);
        let found = match active {
            Some(a) => find_folder(&self.view.folders, a),
            None => None,
        };
        self.view.active_folder = match found {
            Some(i) => i,
            None => match find_folder(&self.view.folders, 0) {
                Some(i) => i,
                None => 0,
            },
        };
        self.refresh_folder_chats(preferred);
    }

    pub fn apply_folder_operation(&mut self, result: FolderOperationResult)
        ensures
            final(self)@ == old(self)@.folder_operation_applied(result),
    {
        self.settle_folder_manager();
        match result {
            FolderOperationResult::Created { id, title, rules } => self.create_folder(id, title, rules),
            FolderOperationResult::Updated { id, title, rules } => self.update_folder(id, title, rules),
            FolderOperationResult::Reordered { id, position } => self.reorder_folder(id, position),
            FolderOperationResult::Shared { id: _, url } => {
                let mut notice = String::from_str("Folder share link: ");
                notice.append(url.as_str());
                self.view.notice = Some(notice);
            },
            FolderOperationResult::Deleted { id } => self.remove_folder(id),
        }
    }

    pub fn complete_folder_operation(
        &mut self,
        result: FolderOperationResult,
        reconciliation: Option<Box<FolderReconciliation>>,
    )
        ensures
            final(self)@ == old(self)@.folder_operation_completed(result, reconciliation),
    {
        self.view.notice = None;
        match reconciliation {
            Some(r) => self.reconcile_folders(*r),
            None => {},
        }
        self.apply_folder_operation(result);
    }

    pub fn fail_folder_operation(&mut self, reason: String)
        ensures
            final(self)@ == old(self)@.folder_operation_failed(reason@),
    {
        self.settle_folder_manager();
        self.view.notice = Some(reason);
    }
}

} // verus!
