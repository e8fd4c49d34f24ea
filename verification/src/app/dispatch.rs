use vstd::prelude::*;

use super::actions::editable;

use super::navigation::find_chat;
use super::{chat_has_id, App, AppModel};
use crate::ids::{ChatId, KeyEq};
use crate::seqs::{first_index, lemma_first_index};
use crate::text::{is_blank, trimmed};
use crate::view::{Action, ActionMenuItemModel, ActionMenuItemView, ActionMenuModel, ActionMenuView, Effect, EffectModel, Focus, ScreenModel};

verus! {

broadcast use vstd::seq_lib::group_seq_properties;

impl AppModel {
    pub open spec fn available_message_actions(self) -> Seq<Action> {
        match self.active_message() {
            None => seq![],
            Some(m) => seq![Action::Reply] + (if editable(m) {
                seq![Action::Edit]
            } else {
                seq![]
            }) + (if self.view.selected_messages.len() > 0 {
                seq![Action::Delete, Action::Forward]
            } else {
                seq![]
            }) + seq![Action::React] + self.message_extras(m) + seq![Action::OpenThread] + (if m.id.0
                > 0 && (self.view.active_chat matches Some(i) && i < self.view.chats.len()
                && self.view.chats[i as int].can_pin_messages) {
                seq![Action::TogglePin]
            } else {
                seq![]
            }) + seq![Action::ToggleMessageSelection],
        }
    }

    pub open spec fn available_composer_actions(self) -> Seq<Action> {
        if self.view.composer.editing is Some {
            seq![Action::Paste, Action::Attach]
        } else if self.view.poll_composer {
            seq![]
        } else {
            seq![
                Action::Paste,
                Action::Attach,
                Action::OpenRichMedia,
                Action::OpenScheduled,
                Action::CreatePoll,
            ]
        }
    }

    pub open spec fn available_chat_actions(self) -> Seq<Action> {
        if self.view.active_chat_id() is Some {
            seq![Action::ToggleKeepMediaOffline]
        } else {
            seq![]
        }
    }

    /// The menu label of an action.
    pub open spec fn action_label(self, action: Action) -> Seq<char> {
        match action {
            Action::Reply => "Reply"@,
            Action::Edit => "Edit"@,
            Action::Delete => "Delete"@,
            Action::Forward => "Forward"@,
            Action::React => "React"@,
            Action::OpenLink => "Open Link"@,
            Action::DownloadMedia => "Download"@,
            Action::SaveAs => "Save As"@,
            Action::VotePoll => "Vote"@,
            Action::OpenDownload => "Open Download"@,
            Action::OpenThread => "Open Thread"@,
            Action::TogglePin => "Pin / Unpin"@,
            Action::ToggleMessageSelection => "Select Message"@,
            Action::Paste => "Paste"@,
            Action::Attach => "Attach File"@,
            Action::OpenRichMedia => "Media & Contacts"@,
            Action::OpenScheduled => "Scheduled Messages"@,
            Action::CreatePoll => "Create Poll"@,
            Action::ToggleKeepMediaOffline => match self.view.active_chat_id() {
                None => "Action"@,
                Some(chat) => if self.offline_chats.contains(chat) {
                    "Use Cache Eviction"@
                } else {
                    "Keep Media Offline"@
                },
            },
            _ => "Action"@,
        }
    }

    pub open spec fn menu_title(self) -> Seq<char> {
        match self.view.focus {
            Focus::Transcript => "Message Actions"@,
            Focus::Composer => "Composer Actions"@,
            Focus::Chats => "Chat Actions"@,
            Focus::Search => "Actions"@,
        }
    }

    pub open spec fn menu_actions(self) -> Seq<Action> {
        match self.view.focus {
            Focus::Transcript => self.available_message_actions(),
            Focus::Composer => self.available_composer_actions(),
            Focus::Chats => self.available_chat_actions(),
            Focus::Search => seq![],
        }
    }

    /// The action menu lists the actions available for the focused pane, when there are any.
    pub open spec fn opened_action_menu(self) -> AppModel {
        let actions = self.menu_actions();
        if actions.len() == 0 {
            self
        } else {
            self.with_view(
                ScreenModel {
                    action_menu: Some(
                        ActionMenuModel {
                            title: self.menu_title(),
                            selected: 0,
                            items: actions.map_values(
                                |a: Action| ActionMenuItemModel { action: a, label: self.action_label(a) },
                            ),
                        },
                    ),
                    ..self.view
                },
            )
        }
    }

    pub open spec fn confirmed_attachment(self) -> (AppModel, Option<EffectModel>) {
        match self.view.attachment_path {
            None => (self, None),
            Some(path) => {
                let s = self.with_view(ScreenModel { attachment_path: None, ..self.view });
                match s.view.active_history_key() {
                    None => (s, None),
                    Some(key) => if trimmed(path).len() == 0 {
                        (
                            s.with_view(
                                ScreenModel {
                                    notice: Some("Attachment path must not be empty"@),
                                    ..s.view
                                },
                            ),
                            None,
                        )
                    } else {
                        (
                            s,
                            Some(
                                EffectModel::SelectAttachment {
                                    chat: key.chat,
                                    thread_root: key.thread,
                                    path,
                                },
                            ),
                        )
                    },
                }
            },
        }
    }

    pub open spec fn opened_folder_picker(self) -> AppModel {
        if self.view.active_chat_id() is Some {
            self.with_view(
                ScreenModel {
                    folder_picker: if self.view.folders.len() > 1 {
                        Some(1usize)
                    } else {
                        None
                    },
                    ..self.view
                },
            )
        } else {
            self
        }
    }

    /// The chat is in the folder.
    pub open spec fn chat_in_folder(self, chat: ChatId, folder: i32) -> bool {
        match first_index(self.all_chats, chat_has_id(chat)) {
            Some(i) => self.all_chats[i].folders.contains(folder),
            None => false,
        }
    }

    pub open spec fn applied_folder_picker_action(self, action: Action) -> (
        AppModel,
        Option<EffectModel>,
    ) {
        let selected: usize = match self.view.folder_picker {
            Some(s) => s,
            None => 1,
        };
        match action {
            Action::MoveUp => (
                self.with_view(
                    ScreenModel {
                        folder_picker: Some(
                            if selected >= 2 {
                                (selected - 1) as usize
                            } else {
                                1usize
                            },
                        ),
                        ..self.view
                    },
                ),
                None,
            ),
            Action::MoveDown => (
                self.with_view(
                    ScreenModel {
                        folder_picker: Some(
                            if selected + 1 < self.view.folders.len() - 1 {
                                (selected + 1) as usize
                            } else {
                                (self.view.folders.len() - 1) as usize
                            },
                        ),
                        ..self.view
                    },
                ),
                None,
            ),
            Action::ToggleFolderMembership => match (self.view.active_chat_id(), self.view.folder_picker) {
                (Some(chat), Some(index)) if index < self.view.folders.len() => {
                    let folder = self.view.folders[index as int].id;
                    (
                        self.with_view(ScreenModel { folder_picker: None, ..self.view }),
                        Some(
                            EffectModel::SetChatFolder {
                                chat,
                                folder,
                                included: !self.chat_in_folder(chat, folder),
                            },
                        ),
                    )
                },
                _ => (self, None),
            },
            Action::Cancel | Action::ManageFolders => (
                self.with_view(ScreenModel { folder_picker: None, ..self.view }),
                None,
            ),
            _ => (self, None),
        }
    }
}

impl App {
    pub fn available_message_actions(&self) -> (r: Vec<Action>)
        ensures
            r@ == self@.available_message_actions(),
    {
        let index = match self.view.active_message {
            Some(i) => if i < self.view.messages.len() {
                i
            } else {
                return Vec::new();
            },
            None => return Vec::new(),
        };
        let m = &self.view.messages[index];
        let mut actions = vec![Action::Reply];
        if m.direction == crate::view::MessageDirection::Outgoing && m.id.0 > 0 {
            actions.push(Action::Edit);
        }
        if self.view.selected_messages.len() > 0 {
            actions.push(Action::Delete);
            actions.push(Action::Forward);
        }
        actions.push(Action::React);
        let ghost before = actions@;
        let extras = self.message_extras_at(index);
        let mut k: usize = 0;
        while k < extras.len()
            invariant
                k <= extras.len(),
                actions@ == before + extras@.take(k as int),
            decreases extras.len() - k,
        {
            actions.push(extras[k]);
            proof {
                assert(extras@.take(k as int + 1) =~= extras@.take(k as int).push(extras@[k as int]));
                assert(before + extras@.take(k as int + 1) =~= (before + extras@.take(k as int)).push(
                    extras@[k as int],
                ));
            }
            k = k + 1;
        }
        proof {
            assert(extras@.take(extras@.len() as int) =~= extras@);
        }
        actions.push(Action::OpenThread);
        let can_pin = match self.view.active_chat {
            Some(i) => i < self.view.chats.len() && self.view.chats[i].can_pin_messages,
            None => false,
        };
        if m.id.0 > 0 && can_pin {
            actions.push(Action::TogglePin);
        }
        actions.push(Action::ToggleMessageSelection);
        proof {
            assert(actions@ =~= self@.available_message_actions());
        }
        actions
    }

    pub fn available_composer_actions(&self) -> (r: Vec<Action>)
        ensures
            r@ == self@.available_composer_actions(),
    {
        if self.view.composer.editing.is_some() {
            let r = vec![Action::Paste, Action::Attach];
            assert(r@ =~= self@.available_composer_actions());
            return r;
        }
        if self.view.poll_composer {
            let r = Vec::new();
            assert(r@ =~= self@.available_composer_actions());
            return r;
        }
        let r = vec![
            Action::Paste,
            Action::Attach,
            Action::OpenRichMedia,
            Action::OpenScheduled,
            Action::CreatePoll,
        ];
        assert(r@ =~= self@.available_composer_actions());
        r
    }

    pub fn available_chat_actions(&self) -> (r: Vec<Action>)
        ensures
            r@ == self@.available_chat_actions(),
    {
        if self.active_chat_id().is_some() {
            let r = vec![Action::ToggleKeepMediaOffline];
            assert(r@ =~= self@.available_chat_actions());
            r
        } else {
            let r = Vec::new();
            assert(r@ =~= self@.available_chat_actions());
            r
        }
    }

    pub fn action_label(&self, action: Action) -> (r: &'static str)
        ensures
            r@ == self@.action_label(action),
    {
        match action {
            Action::Reply => "Reply",
            Action::Edit => "Edit",
            Action::Delete => "Delete",
            Action::Forward => "Forward",
            Action::React => "React",
            Action::OpenLink => "Open Link",
            Action::DownloadMedia => "Download",
            Action::SaveAs => "Save As",
            Action::VotePoll => "Vote",
            Action::OpenDownload => "Open Download",
            Action::OpenThread => "Open Thread",
            Action::TogglePin => "Pin / Unpin",
            Action::ToggleMessageSelection => "Select Message",
            Action::Paste => "Paste",
            Action::Attach => "Attach File",
            Action::OpenRichMedia => "Media & Contacts",
            Action::OpenScheduled => "Scheduled Messages",
            Action::CreatePoll => "Create Poll",
            Action::ToggleKeepMediaOffline => match self.active_chat_id() {
                None => "Action",
                Some(chat) => if crate::vecset::vec_contains(&self.offline_chats, &chat) {
                    "Use Cache Eviction"
                } else {
                    "Keep Media Offline"
                },
            },
            _ => "Action",
        }
    }

    pub fn open_action_menu(&mut self)
        ensures
            final(self)@ == old(self)@.opened_action_menu(),
    {
        let (title, actions) = match self.view.focus {
            Focus::Transcript => ("Message Actions", self.available_message_actions()),
            Focus::Composer => ("Composer Actions", self.available_composer_actions()),
            Focus::Chats => ("Chat Actions", self.available_chat_actions()),
            Focus::Search => ("Actions", Vec::new()),
        };
        proof {
            assert(actions@ =~= self@.menu_actions());
        }
        let ghost m = self@;
        let ghost f = |a: Action| ActionMenuItemModel { action: a, label: m.action_label(a) };
        let mut items: Vec<ActionMenuItemView> = Vec::new();
        let mut i: usize = 0;
        while i < actions.len()
            invariant
                m == self@,
                f == (|a: Action| ActionMenuItemModel { action: a, label: m.action_label(a) }),
                i <= actions.len(),
                items.deep_view() == actions@.take(i as int).map_values(f),
            decreases actions.len() - i,
        {
            let action = actions[i];
            let label = self.action_label(action).to_owned();
            let ghost before = items.deep_view();
            items.push(ActionMenuItemView { action, label });
            proof {
                assert(items.deep_view() =~= before.push(f(action)));
                assert(actions@.take(i as int + 1).map_values(f) =~= actions@.take(i as int).map_values(f).push(
                    f(action),
                ));
            }
            i = i + 1;
        }
        proof {
            assert(actions@.take(actions@.len() as int) =~= actions@);
        }
        if items.len() > 0 {
            self.view.action_menu = Some(ActionMenuView { title: title.to_owned(), selected: 0, items });
        }
    }

    pub fn confirm_attachment(&mut self) -> (r: Option<Effect>)
        ensures
            (final(self)@, r.deep_view()) == old(self)@.confirmed_attachment(),
    {
        let path = match self.view.attachment_path.take() {
            Some(p) => p.path,
            None => return None,
        };
        let key = match self.active_history_key() {
            Some(k) => k,
            None => return None,
        };
        if is_blank(path.as_str()) {
            self.view.notice = Some("Attachment path must not be empty".to_owned());
            return None;
        }
        Some(Effect::SelectAttachment { chat: key.chat, thread_root: key.thread, path })
    }

    pub fn open_folder_picker(&mut self)
        ensures
            final(self)@ == old(self)@.opened_folder_picker(),
    {
        if self.active_chat_id().is_some() {
            self.view.folder_picker = if self.view.folders.len() > 1 {
                Some(1)
            } else {
                None
            };
        }
    }

    fn chat_in_folder(&self, chat: ChatId, folder: i32) -> (r: bool)
        ensures
            r == self@.chat_in_folder(chat, folder),
    {
        match find_chat(&self.all_chats, chat) {
            Some(i) => {
                proof {
                    lemma_first_index(self@.all_chats, chat_has_id(chat));
                    assert(first_index(self@.all_chats, chat_has_id(chat)) == Some(i as int));
                    assert(self@.all_chats[i as int].folders == self.all_chats@[i as int].folders@);
                }
                super::navigation::contains_folder(&self.all_chats[i].folders, folder)
            },
            None => false,
        }
    }

    pub fn apply_folder_picker_action(&mut self, action: Action) -> (r: Option<Effect>)
        requires
            action == Action::MoveDown ==> old(self)@.view.folders.len() > 0,
        ensures
            (final(self)@, r.deep_view()) == old(self)@.applied_folder_picker_action(action),
    {
        let selected = match self.view.folder_picker {
            Some(s) => s,
            None => 1,
        };
        match action {
            Action::MoveUp => {
                self.view.folder_picker = Some(
                    if selected >= 2 {
                        selected - 1
                    } else {
                        1
                    },
                );
                None
            },
            Action::MoveDown => {
                let last = self.view.folders.len() - 1;
                self.view.folder_picker = Some(
                    if selected < last && selected + 1 < last {
                        selected + 1
                    } else {
                        last
                    },
                );
                None
            },
            Action::ToggleFolderMembership => {
                let chat = match self.active_chat_id() {
                    Some(c) => c,
                    None => return None,
                };
                let index = match self.view.folder_picker {
                    Some(i) => i,
                    None => return None,
                };
                if index >= self.view.folders.len() {
                    return None;
                }
                let folder = self.view.folders[index].id;
                let included = !self.chat_in_folder(chat, folder);
                self.view.folder_picker = None;
                Some(Effect::SetChatFolder { chat, folder, included })
            },
            Action::Cancel | Action::ManageFolders => {
                self.view.folder_picker = None;
                None
            },
            _ => None,
        }
    }
}

} // verus!
