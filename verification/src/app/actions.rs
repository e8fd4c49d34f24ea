use vstd::prelude::*;

use super::{App, AppModel};

use crate::text::{is_blank, trimmed};
use crate::view::{Action, ConnectionState, Focus, FolderManagerModel, FolderManagerView, MessageDirection, MessageModel, ScreenModel};

verus! {

broadcast use vstd::seq_lib::group_seq_properties;

pub open spec fn other_action(a: Action) -> spec_fn(Action) -> bool {
    |x: Action| x != a
}

pub open spec fn editable(m: MessageModel) -> bool {
    m.direction == MessageDirection::Outgoing && m.id.0 > 0
}

pub open spec fn has_remote_media(m: MessageModel) -> bool {
    m.media matches Some(media) && media.remote_id is Some
}

pub open spec fn has_open_poll(m: MessageModel) -> bool {
    m.media matches Some(media) && media.poll_closed == Some(false)
}

impl AppModel {
    /// The message under the transcript selection.
    pub open spec fn active_message(self) -> Option<MessageModel> {
        match self.view.active_message {
            Some(i) if i < self.view.messages.len() => Some(self.view.messages[i as int]),
            _ => None,
        }
    }

    /// A download of `m` from the shown chat exists.
    pub open spec fn has_download(self, m: MessageModel) -> bool {
        exists|i: int|
            0 <= i < self.view.downloads.len() && Some(self.view.downloads[i].chat)
                == self.view.active_chat_id() && self.view.downloads[i].message == m.id
    }

    /// Actions offered for the message under the selection, beyond the fixed ones.
    pub open spec fn message_extras(self, m: MessageModel) -> Seq<Action> {
        (if m.link is Some {
            seq![Action::OpenLink]
        } else {
            seq![]
        }) + (if has_remote_media(m) {
            seq![Action::DownloadMedia, Action::SaveAs]
        } else {
            seq![]
        }) + (if has_open_poll(m) {
            seq![Action::VotePoll]
        } else {
            seq![]
        }) + (if self.has_download(m) {
            seq![Action::OpenDownload]
        } else {
            seq![]
        })
    }

    pub open spec fn has_editable_message(self) -> bool {
        exists|i: int| 0 <= i < self.view.messages.len() && editable(self.view.messages[i])
    }

    pub open spec fn has_pinned_projection(self) -> bool {
        exists|i: int| 0 <= i < self.view.pinned_messages.len() && self.view.pinned_messages[i].pinned
    }

    pub open spec fn focus_actions(self) -> Seq<Action> {
        match self.view.focus {
            Focus::Chats => seq![
                Action::MoveUp,
                Action::MoveDown,
                Action::PreviousFolder,
                Action::NextFolder,
                Action::ManageFolders,
                Action::ManageAccounts,
                Action::Open,
                Action::NavigatePinned,
                Action::Search,
            ] + if self.view.connection == ConnectionState::Connected {
                seq![Action::ManageFolderLifecycle]
            } else {
                seq![]
            },
            Focus::Transcript => seq![
                Action::NavigatePinned,
                Action::TargetPreviousMessage,
                Action::TargetNextMessage,
                Action::Compose,
                Action::Reply,
                Action::OpenScheduled,
                Action::OpenThread,
                Action::Search,
                Action::JumpEarliest,
                Action::JumpLatest,
                Action::React,
                Action::TogglePin,
                Action::ToggleMessageSelection,
                Action::Cancel,
            ] + (if self.view.selected_messages.len() > 0 {
                seq![Action::Delete, Action::Forward]
            } else {
                seq![]
            }) + (match self.active_message() {
                Some(m) => (if editable(m) {
                    seq![Action::Edit]
                } else {
                    seq![]
                }) + self.message_extras(m),
                None => seq![],
            }),
            Focus::Composer => if self.view.composer.editing is Some {
                seq![Action::SaveEdit, Action::Newline, Action::Cancel]
            } else if self.view.poll_composer {
                seq![Action::SendPoll, Action::Newline, Action::Cancel]
            } else {
                seq![
                    Action::Send,
                    Action::Newline,
                    Action::Paste,
                    Action::Attach,
                    Action::OpenRichMedia,
                    Action::OpenScheduled,
                    Action::CreatePoll,
                    Action::Cancel,
                    Action::Search,
                    Action::TargetPreviousMessage,
                ] + if self.view.composer.text.len() == 0 && self.has_editable_message() {
                    seq![Action::EditPrevious]
                } else {
                    seq![]
                }
            },
            Focus::Search => seq![Action::Cancel],
        }
    }

    pub open spec fn can_pin_active(self) -> bool {
        &&& self.view.active_chat matches Some(i) && i < self.view.chats.len()
            && self.view.chats[i as int].can_pin_messages
        &&& self.active_message() matches Some(m) && m.id.0 > 0
    }

    /// The actions of the folder manager: none but quitting while an operation is under way,
    /// the confirmation of a deletion, the editor's moves (saving once the title holds more
    /// than white space, toggling a rule on a rule row), or the list's moves and, on a listed
    /// folder, its operations.
    pub open spec fn folder_manager_actions(self, m: FolderManagerModel) -> Seq<Action> {
        if m.pending {
            seq![Action::Quit]
        } else if m.delete_confirmation is Some {
            seq![Action::Quit, Action::ConfirmDeleteFolder, Action::Cancel]
        } else if m.editor is Some {
            let e = m.editor.unwrap();
            seq![Action::Quit, Action::MoveUp, Action::MoveDown, Action::Cancel] + (if trimmed(e.title).len() > 0 {
                seq![Action::SaveFolder]
            } else {
                seq![]
            }) + (if e.rules is Some && e.selected > 0 {
                seq![Action::ToggleFolderRule]
            } else {
                seq![]
            })
        } else {
            seq![Action::Quit, Action::MoveUp, Action::MoveDown, Action::CreateFolder, Action::Cancel] + if m.selected
                < self.view.folder_details.len() {
                seq![Action::EditFolder, Action::ReorderFolderUp, Action::ReorderFolderDown, Action::DeleteFolder]
                    + if self.view.folder_details[m.selected as int].shareable {
                    seq![Action::ShareFolder]
                } else {
                    seq![]
                }
            } else {
                seq![]
            }
        }
    }

    /// The actions the key bar offers in the current state.
    pub open spec fn offered_actions(self) -> Seq<Action> {
        if self.view.help_open {
            seq![Action::Quit, Action::Help, Action::Cancel]
        } else if self.view.save_as is Some {
            seq![Action::Quit, Action::ConfirmSaveAs, Action::Cancel]
        } else if self.view.attachment_path is Some {
            seq![Action::Quit, Action::ConfirmAttachment, Action::Cancel]
        } else if self.view.folder_manager is Some {
            self.folder_manager_actions(self.view.folder_manager.unwrap())
        } else if self.view.folder_picker is Some {
            seq![
                Action::Quit,
                Action::MoveUp,
                Action::MoveDown,
                Action::ToggleFolderMembership,
                Action::Cancel,
            ]
        } else if self.view.delete_confirmation is Some {
            seq![Action::Quit, Action::ConfirmDelete, Action::Cancel]
        } else if self.view.link_confirmation is Some {
            seq![Action::Quit, Action::ConfirmOpenLink, Action::Cancel]
        } else if self.view.forward_picker is Some {
            seq![
                Action::Quit,
                Action::MoveUp,
                Action::MoveDown,
                Action::ConfirmForward,
                Action::Cancel,
            ]
        } else if self.view.reaction_picker is Some {
            seq![
                Action::Quit,
                Action::MoveUp,
                Action::MoveDown,
                Action::ConfirmReaction,
                Action::Cancel,
            ]
        } else {
            let all = seq![Action::Quit] + (if self.view.focus != Focus::Composer {
                seq![Action::Help]
            } else {
                seq![]
            }) + self.focus_actions() + if self.view.connection == ConnectionState::ReconnectCooldown {
                seq![Action::Reconnect]
            } else {
                seq![]
            };
            let pinned = if self.view.active_thread is Some || !self.has_pinned_projection() {
                all.filter(other_action(Action::NavigatePinned))
            } else {
                all
            };
            if !self.can_pin_active() {
                pinned.filter(other_action(Action::TogglePin))
            } else {
                pinned
            }
        }
    }

    pub open spec fn refreshed_actions(self) -> AppModel {
        AppModel { view: ScreenModel { actions: self.offered_actions(), ..self.view }, ..self }
    }
}

fn extend(v: &mut Vec<Action>, more: Vec<Action>)
    ensures
        final(v)@ == old(v)@ + more@,
{
    let mut i: usize = 0;
    let ghost start = v@;
    while i < more.len()
        invariant
            i <= more.len(),
            v@ == start + more@.take(i as int),
        decreases more.len() - i,
    {
        v.push(more[i]);
        proof {
            assert(more@.take(i as int + 1) =~= more@.take(i as int).push(more@[i as int]));
            assert(start + more@.take(i as int + 1) =~= (start + more@.take(i as int)).push(more@[i as int]));
        }
        i = i + 1;
    }
    proof {
        assert(more@.take(more@.len() as int) =~= more@);
    }
}

fn without(v: Vec<Action>, a: Action) -> (r: Vec<Action>)
    ensures
        r@ == v@.filter(other_action(a)),
{
    let ghost pred = other_action(a);
    let mut kept: Vec<Action> = Vec::new();
    let mut i: usize = 0;
    while i < v.len()
        invariant
            pred == other_action(a),
            i <= v.len(),
            kept@ == v@.take(i as int).filter(pred),
        decreases v.len() - i,
    {
        proof {
            v@.lemma_take_succ_push(i as int);
            v@.take(i as int).lemma_filter_push(v@[i as int], pred);
        }
        if v[i] != a {
            kept.push(v[i]);
        }
        i = i + 1;
    }
    proof {
        assert(v@.take(v@.len() as int) =~= v@);
    }
    kept
}

impl App {
    fn active_message_index(&self) -> (r: Option<usize>)
        ensures
            match r {
                Some(i) => i < self.view.messages.len() && self@.active_message() == Some(
                    self@.view.messages[i as int],
                ) && self@.view.active_message == Some(i),
                None => self@.active_message() is None,
            },
    {
        match self.view.active_message {
            Some(i) => if i < self.view.messages.len() {
                Some(i)
            } else {
                None
            },
            None => None,
        }
    }

    fn has_download(&self, index: usize) -> (r: bool)
        requires
            index < self.view.messages.len(),
        ensures
            r == self@.has_download(self@.view.messages[index as int]),
    {
        let id = self.view.messages[index].id;
        let chat = self.active_chat_id();
        let ghost d = self@.view.downloads;
        let mut i: usize = 0;
        while i < self.view.downloads.len()
            invariant
                d == self@.view.downloads,
                chat == self@.view.active_chat_id(),
                id == self@.view.messages[index as int].id,
                i <= d.len(),
                forall|j: int|
                    0 <= j < i ==> !(Some(d[j].chat) == chat && d[j].message == id),
            decreases d.len() - i,
        {
            let download = &self.view.downloads[i];
            let same_chat = match chat {
                Some(c) => c.0 == download.chat.0,
                None => false,
            };
            if same_chat && download.message.0 == id.0 {
                assert(Some(d[i as int].chat) == chat && d[i as int].message == id);
                return true;
            }
            i = i + 1;
        }
        false
    }

    pub fn message_extras_at(&self, index: usize) -> (r: Vec<Action>)
        requires
            index < self.view.messages.len(),
        ensures
            r@ == self@.message_extras(self@.view.messages[index as int]),
    {
        let m = &self.view.messages[index];
        let mut r: Vec<Action> = Vec::new();
        if m.details.link.is_some() {
            r.push(Action::OpenLink);
        }
        let remote = match &m.details.media {
            Some(media) => media.remote_id.is_some(),
            None => false,
        };
        if remote {
            r.push(Action::DownloadMedia);
            r.push(Action::SaveAs);
        }
        let open_poll = match &m.details.media {
            Some(media) => match &media.poll {
                Some(poll) => !poll.closed,
                None => false,
            },
            None => false,
        };
        if open_poll {
            r.push(Action::VotePoll);
        }
        if self.has_download(index) {
            r.push(Action::OpenDownload);
        }
        proof {
            let mm = self@.view.messages[index as int];
            assert(r@ =~= self@.message_extras(mm));
        }
        r
    }

    fn has_editable_message(&self) -> (r: bool)
        ensures
            r == self@.has_editable_message(),
    {
        let ghost s = self@.view.messages;
        let mut i: usize = 0;
        while i < self.view.messages.len()
            invariant
                s == self@.view.messages,
                i <= s.len(),
                forall|j: int| 0 <= j < i ==> !editable(s[j]),
            decreases s.len() - i,
        {
            let m = &self.view.messages[i];
            if m.direction == MessageDirection::Outgoing && m.id.0 > 0 {
                assert(editable(s[i as int]));
                return true;
            }
            i = i + 1;
        }
        false
    }

    fn has_pinned_projection(&self) -> (r: bool)
        ensures
            r == self@.has_pinned_projection(),
    {
        let ghost s = self@.view.pinned_messages;
        let mut i: usize = 0;
        while i < self.view.pinned_messages.len()
            invariant
                s == self@.view.pinned_messages,
                i <= s.len(),
                forall|j: int| 0 <= j < i ==> !s[j].pinned,
            decreases s.len() - i,
        {
            if self.view.pinned_messages[i].details.pinned {
                assert(s[i as int].pinned);
                return true;
            }
            i = i + 1;
        }
        false
    }

    fn focus_actions(&self) -> (r: Vec<Action>)
        ensures
            r@ == self@.focus_actions(),
    {
        match self.view.focus {
            Focus::Chats => {
                let mut r = vec![
                    Action::MoveUp,
                    Action::MoveDown,
                    Action::PreviousFolder,
                    Action::NextFolder,
                    Action::ManageFolders,
                    Action::ManageAccounts,
                    Action::Open,
                    Action::NavigatePinned,
                    Action::Search,
                ];
                if self.view.connection == ConnectionState::Connected {
                    r.push(Action::ManageFolderLifecycle);
                }
                proof {
                    assert(r@ =~= self@.focus_actions());
                }
                r
            },
            Focus::Transcript => {
                let mut r = vec![
                    Action::NavigatePinned,
                    Action::TargetPreviousMessage,
                    Action::TargetNextMessage,
                    Action::Compose,
                    Action::Reply,
                    Action::OpenScheduled,
                    Action::OpenThread,
                    Action::Search,
                    Action::JumpEarliest,
                    Action::JumpLatest,
                    Action::React,
                    Action::TogglePin,
                    Action::ToggleMessageSelection,
                    Action::Cancel,
                ];
                let ghost fixed = r@;
                if self.view.selected_messages.len() > 0 {
                    r.push(Action::Delete);
                    r.push(Action::Forward);
                }
                let ghost with_selection = r@;
                if let Some(index) = self.active_message_index() {
                    let m = &self.view.messages[index];
                    if m.direction == MessageDirection::Outgoing && m.id.0 > 0 {
                        r.push(Action::Edit);
                    }
                    let extras = self.message_extras_at(index);
                    extend(&mut r, extras);
                }
                proof {
                    assert(r@ =~= self@.focus_actions());
                }
                r
            },
            Focus::Composer => {
                if self.view.composer.editing.is_some() {
                    let r = vec![Action::SaveEdit, Action::Newline, Action::Cancel];
                    proof {
                        assert(r@ =~= self@.focus_actions());
                    }
                    r
                } else if self.view.poll_composer {
                    let r = vec![Action::SendPoll, Action::Newline, Action::Cancel];
                    proof {
                        assert(r@ =~= self@.focus_actions());
                    }
                    r
                } else {
                    let mut r = vec![
                        Action::Send,
                        Action::Newline,
                        Action::Paste,
                        Action::Attach,
                        Action::OpenRichMedia,
                        Action::OpenScheduled,
                        Action::CreatePoll,
                        Action::Cancel,
                        Action::Search,
                        Action::TargetPreviousMessage,
                    ];
                    if self.view.composer.text.as_str().is_empty() && self.has_editable_message() {
                        r.push(Action::EditPrevious);
                    }
                    proof {
                        assert(r@ =~= self@.focus_actions());
                    }
                    r
                }
            },
            Focus::Search => {
                let r = vec![Action::Cancel];
                proof {
                    assert(r@ =~= self@.focus_actions());
                }
                r
            },
        }
    }

    fn can_pin_active(&self) -> (r: bool)
        ensures
            r == self@.can_pin_active(),
    {
        let chat_can_pin = match self.view.active_chat {
            Some(i) => i < self.view.chats.len() && self.view.chats[i].can_pin_messages,
            None => false,
        };
        let message_pinnable = match self.active_message_index() {
            Some(i) => self.view.messages[i].id.0 > 0,
            None => false,
        };
        chat_can_pin && message_pinnable
    }

    fn folder_manager_actions(&self, m: &FolderManagerView) -> (r: Vec<Action>)
        ensures
            r@ == self@.folder_manager_actions(m.deep_view()),
    {
        if m.pending {
            let r = vec![Action::Quit];
            assert(r@ =~= self@.folder_manager_actions(m.deep_view()));
            return r;
        }
        if m.delete_confirmation.is_some() {
            let r = vec![Action::Quit, Action::ConfirmDeleteFolder, Action::Cancel];
            assert(r@ =~= self@.folder_manager_actions(m.deep_view()));
            return r;
        }
        if let Some(editor) = &m.editor {
            let mut r = vec![Action::Quit, Action::MoveUp, Action::MoveDown, Action::Cancel];
            if !is_blank(editor.title.as_str()) {
                r.push(Action::SaveFolder);
            }
            if editor.rules.is_some() && editor.selected > 0 {
                r.push(Action::ToggleFolderRule);
            }
            assert(r@ =~= self@.folder_manager_actions(m.deep_view()));
            return r;
        }
        let mut r = vec![Action::Quit, Action::MoveUp, Action::MoveDown, Action::CreateFolder, Action::Cancel];
        if m.selected < self.view.folder_details.len() {
            r.push(Action::EditFolder);
            r.push(Action::ReorderFolderUp);
            r.push(Action::ReorderFolderDown);
            r.push(Action::DeleteFolder);
            if self.view.folder_details[m.selected].shareable {
                r.push(Action::ShareFolder);
            }
        }
        assert(r@ =~= self@.folder_manager_actions(m.deep_view()));
        r
    }

    fn offered_actions(&self) -> (r: Vec<Action>)
        ensures
            r@ == self@.offered_actions(),
    {
        if self.view.help_open {
            let r = vec![Action::Quit, Action::Help, Action::Cancel];
            assert(r@ =~= self@.offered_actions());
            return r;
        }
        if self.view.save_as.is_some() {
            let r = vec![Action::Quit, Action::ConfirmSaveAs, Action::Cancel];
            assert(r@ =~= self@.offered_actions());
            return r;
        }
        if self.view.attachment_path.is_some() {
            let r = vec![Action::Quit, Action::ConfirmAttachment, Action::Cancel];
            assert(r@ =~= self@.offered_actions());
            return r;
        }
        if let Some(m) = &self.view.folder_manager {
            let r = self.folder_manager_actions(m);
            assert(r@ =~= self@.offered_actions());
            return r;
        }
        if self.view.folder_picker.is_some() {
            let r = vec![
                Action::Quit,
                Action::MoveUp,
                Action::MoveDown,
                Action::ToggleFolderMembership,
                Action::Cancel,
            ];
            assert(r@ =~= self@.offered_actions());
            return r;
        }
        if self.view.delete_confirmation.is_some() {
            let r = vec![Action::Quit, Action::ConfirmDelete, Action::Cancel];
            assert(r@ =~= self@.offered_actions());
            return r;
        }
        if self.view.link_confirmation.is_some() {
            let r = vec![Action::Quit, Action::ConfirmOpenLink, Action::Cancel];
            assert(r@ =~= self@.offered_actions());
            return r;
        }
        if self.view.forward_picker.is_some() {
            let r = vec![
                Action::Quit,
                Action::MoveUp,
                Action::MoveDown,
                Action::ConfirmForward,
                Action::Cancel,
            ];
            assert(r@ =~= self@.offered_actions());
            return r;
        }
        if self.view.reaction_picker.is_some() {
            let r = vec![
                Action::Quit,
                Action::MoveUp,
                Action::MoveDown,
                Action::ConfirmReaction,
                Action::Cancel,
            ];
            assert(r@ =~= self@.offered_actions());
            return r;
        }
        let mut actions = vec![Action::Quit];
        if self.view.focus != Focus::Composer {
            actions.push(Action::Help);
        }
        let ghost head = actions@;
        let focus = self.focus_actions();
        extend(&mut actions, focus);
        if self.view.connection == ConnectionState::ReconnectCooldown {
            actions.push(Action::Reconnect);
        }
        proof {
            let all = seq![Action::Quit] + (if self@.view.focus != Focus::Composer {
                seq![Action::Help]
            } else {
                seq![]
            }) + self@.focus_actions() + if self@.view.connection
                == ConnectionState::ReconnectCooldown {
                seq![Action::Reconnect]
            } else {
                seq![]
            };
            assert(actions@ =~= all);
        }
        if self.view.active_thread.is_some() || !self.has_pinned_projection() {
            actions = without(actions, Action::NavigatePinned);
        }
        if !self.can_pin_active() {
            actions = without(actions, Action::TogglePin);
        }
        actions
    }

    pub fn refresh_actions(&mut self)
        ensures
            final(self)@ == old(self)@.refreshed_actions(),
    {
        let actions = self.offered_actions();
        self.view.actions = actions;
    }
}

} // verus!
