use vstd::prelude::*;

use super::{selection_effect_of, App, AppModel, HistoryLoadsModel};
use crate::ids::HistoryKey;
use crate::view::{Action, ActionMenuModel, ConnectionState, Effect, EffectModel, Focus, ScreenModel, SearchModel, SearchScope, SearchView};

verus! {

impl AppModel {
    /// A history load of the active chat, then a preview, an avatar, or a pending read.
    pub open spec fn opened_chat(self) -> (AppModel, Option<EffectModel>) {
        match self.view.active_chat_id() {
            None => (self, None),
            Some(chat) => {
                let s0 = self.focused_composer_at_anchor().queued_active_media_previews().queued_visible_avatars();
                let s = s0.with_loads(
                    HistoryLoadsModel {
                        read_pending: s0.history_loads.read_pending || s0.active_read_effect() is Some,
                        ..s0.history_loads
                    },
                );
                let (s1, e1) = s.requested_history_load(
                    HistoryKey { chat, thread: None, saved_peer: None },
                );
                if e1 is Some {
                    (s1, e1)
                } else {
                    let (s2, e2) = s1.next_media_preview();
                    if e2 is Some {
                        (s2, e2)
                    } else {
                        let (s3, e3) = s2.next_avatar();
                        if e3 is Some {
                            (s3, e3)
                        } else if s3.history_loads.active is Some {
                            (s3, None)
                        } else {
                            s3.taken_pending_read()
                        }
                    }
                }
            },
        }
    }

    pub open spec fn cancelled(self) -> (AppModel, Option<EffectModel>) {
        if self.view.help_open {
            (self.with_view(ScreenModel { help_open: false, ..self.view }), None)
        } else if self.view.search is Some {
            (
                self.with_view(
                    ScreenModel {
                        search: None,
                        focus: match self.view.search.unwrap().scope {
                            SearchScope::Account => Focus::Chats,
                            SearchScope::Chat => Focus::Composer,
                        },
                        ..self.view
                    },
                ),
                None,
            )
        } else if self.view.composer.editing is Some {
            (self.cancelled_edit(), None)
        } else if self.view.poll_composer {
            (self.with_view(ScreenModel { poll_composer: false, ..self.view }), None)
        } else if self.view.composer.reply_to is Some {
            let s = self.with_view(
                ScreenModel {
                    composer: crate::view::ComposerModel { reply_to: None, ..self.view.composer },
                    focus: Focus::Composer,
                    ..self.view
                },
            );
            (s, s.draft_effect())
        } else if self.view.focus == Focus::Transcript {
            (self.focused_composer_at_anchor(), None)
        } else if self.view.focus == Focus::Composer {
            if self.view.active_thread is Some {
                (self.left_thread(), None)
            } else {
                (self.with_view(ScreenModel { focus: Focus::Chats, ..self.view }), None)
            }
        } else {
            (self, None)
        }
    }

    pub open spec fn replied(self) -> (AppModel, Option<EffectModel>) {
        let s = self.with_view(
            ScreenModel {
                composer: crate::view::ComposerModel {
                    reply_to: self.view.active_message_id(),
                    ..self.view.composer
                },
                ..self.view
            },
        );
        let s2 = if s.view.composer.reply_to is Some {
            s.focused_composer_at_anchor()
        } else {
            s
        };
        (s2, s2.draft_effect())
    }

    pub open spec fn jumped_latest(self) -> (AppModel, Option<EffectModel>) {
        let s = self.refreshed_history();
        let last = if s.view.messages.len() > 0 {
            Some((s.view.messages.len() - 1) as usize)
        } else {
            None
        };
        let s2 = s.with_view(
            ScreenModel {
                active_message: last,
                transcript_anchor: last,
                has_newer_messages: false,
                focus: Focus::Transcript,
                ..s.view
            },
        );
        (s2, Some(selection_effect_of(s2.view.selection())))
    }

    pub open spec fn jumped_earliest(self) -> (AppModel, Option<EffectModel>) {
        let first = if self.view.messages.len() > 0 {
            Some(0usize)
        } else {
            None
        };
        let s = self.with_view(
            ScreenModel {
                active_message: first,
                transcript_anchor: first,
                focus: Focus::Transcript,
                ..self.view
            },
        );
        (s, Some(selection_effect_of(s.view.selection())))
    }

    /// What an action does when no overlay (menu, picker, confirmation) takes it.
    pub open spec fn applied_main_action(self, action: Action) -> (AppModel, Option<EffectModel>) {
        match action {
            Action::Quit => (self, Some(EffectModel::Quit)),
            Action::Help => (self.with_view(ScreenModel { help_open: !self.view.help_open, ..self.view }), None),
            Action::Reconnect => if self.view.connection == ConnectionState::ReconnectCooldown {
                (
                    self.with_view(
                        ScreenModel {
                            connection: ConnectionState::Connecting,
                            notice: None,
                            ..self.view
                        },
                    ),
                    Some(EffectModel::Reconnect),
                )
            } else {
                (self, None)
            },
            Action::MoveUp => self.moved_chat(false),
            Action::MoveDown => self.moved_chat(true),
            Action::PreviousFolder => self.moved_folder(false),
            Action::NextFolder => self.moved_folder(true),
            Action::ManageFolders => (self.opened_folder_picker(), None),
            Action::Open => self.opened_chat(),
            Action::OpenActions => (self.opened_action_menu(), None),
            Action::Compose => if self.view.active_chat is Some {
                (self.focused_composer_at_anchor(), None)
            } else {
                (self, None)
            },
            Action::Reply => self.replied(),
            Action::Edit => self.began_edit(),
            Action::EditPrevious => self.began_previous_edit(),
            Action::Delete => (
                self.with_view(
                    ScreenModel {
                        delete_confirmation: if self.view.selected_messages.len() > 0 {
                            Some(self.view.selected_messages)
                        } else {
                            None
                        },
                        ..self.view
                    },
                ),
                None,
            ),
            Action::Forward => (self.opened_forward_picker(), None),
            Action::React => (self.opened_reaction_picker(), None),
            Action::OpenLink => self.opened_active_link(),
            Action::DownloadMedia => (self, self.active_media_download()),
            Action::SaveAs => (self.opened_save_as(), None),
            Action::ConfirmSaveAs => self.confirmed_save_as(),
            Action::OpenDownload => (self, self.active_download_opening()),
            Action::OpenThread => self.opened_thread(),
            Action::TogglePin => (self, self.active_pin_toggle()),
            Action::Paste => (
                self,
                match self.view.active_history_key() {
                    Some(key) => Some(EffectModel::ReadClipboard { chat: key.chat, thread_root: key.thread }),
                    None => None,
                },
            ),
            Action::Attach => (
                self,
                match self.view.active_history_key() {
                    Some(key) => Some(EffectModel::PickAttachment { chat: key.chat, thread_root: key.thread }),
                    None => None,
                },
            ),
            Action::ConfirmAttachment => self.confirmed_attachment(),
            Action::TargetPreviousMessage => {
                let s = self.targeted_previous_message();
                (s, Some(selection_effect_of(s.view.selection())))
            },
            Action::TargetNextMessage => {
                let s = self.targeted_next_message();
                (s, Some(selection_effect_of(s.view.selection())))
            },
            Action::Search => (
                self.with_view(
                    ScreenModel {
                        search: Some(
                            SearchModel {
                                scope: if self.view.focus == Focus::Chats {
                                    SearchScope::Account
                                } else {
                                    SearchScope::Chat
                                },
                                query: Seq::empty(),
                            },
                        ),
                        focus: Focus::Search,
                        ..self.view
                    },
                ),
                None,
            ),
            Action::Send => (self, self.send_requested()),
            Action::SaveEdit => (self, self.edit_requested()),
            Action::Cancel => self.cancelled(),
            Action::JumpEarliest => self.jumped_earliest(),
            Action::JumpLatest => self.jumped_latest(),
            Action::Newline => {
                let s = if self.view.focus == Focus::Composer {
                    self.with_composer(self.view.composer.inserted("\n"@))
                } else {
                    self
                };
                (s, s.draft_effect())
            },
            _ => (self, None),
        }
    }

    /// An action with no overlay but possibly the action menu open.
    pub open spec fn applied_action_after_menu(self, action: Action) -> (AppModel, Option<EffectModel>) {
        if action != Action::Quit && self.view.folder_manager is Some {
            (self, None)
        } else if action != Action::Quit && self.view.save_as is Some {
            self.applied_save_as_action(action)
        } else if action != Action::Quit && self.view.attachment_path is Some {
            match action {
                Action::ConfirmAttachment => self.confirmed_attachment(),
                Action::Cancel | Action::Attach => (
                    self.with_view(ScreenModel { attachment_path: None, ..self.view }),
                    None,
                ),
                _ => (self, None),
            }
        } else if action != Action::Quit && self.view.reaction_picker is Some {
            self.applied_reaction_picker(action)
        } else if action != Action::Quit && self.view.forward_picker is Some {
            self.applied_forward_picker(action)
        } else if action != Action::Quit && self.view.delete_confirmation is Some {
            self.applied_delete_confirmation(action)
        } else if action != Action::Quit && self.view.link_confirmation is Some {
            match action {
                Action::ConfirmOpenLink => self.confirmed_active_link(),
                Action::Cancel | Action::OpenLink => (
                    self.with_view(ScreenModel { link_confirmation: None, ..self.view }),
                    None,
                ),
                _ => (self, None),
            }
        } else if action != Action::Quit && self.view.folder_picker is Some {
            self.applied_folder_picker_action(action)
        } else {
            self.applied_main_action(action)
        }
    }

    pub open spec fn applied_action_menu(self, action: Action) -> (AppModel, Option<EffectModel>) {
        match self.view.action_menu {
            None => (self, None),
            Some(menu) => match action {
                Action::MoveUp => (
                    self.with_view(
                        ScreenModel {
                            action_menu: Some(
                                ActionMenuModel {
                                    selected: if menu.selected > 0 {
                                        (menu.selected - 1) as usize
                                    } else {
                                        0usize
                                    },
                                    ..menu
                                },
                            ),
                            ..self.view
                        },
                    ),
                    None,
                ),
                Action::MoveDown => {
                    let last: int = if menu.items.len() > 0 {
                        menu.items.len() - 1
                    } else {
                        0
                    };
                    (
                        self.with_view(
                            ScreenModel {
                                action_menu: Some(
                                    ActionMenuModel {
                                        selected: if menu.selected + 1 < last {
                                            (menu.selected + 1) as usize
                                        } else {
                                            last as usize
                                        },
                                        ..menu
                                    },
                                ),
                                ..self.view
                            },
                        ),
                        None,
                    )
                },
                Action::ChooseAction => {
                    let s = self.with_view(ScreenModel { action_menu: None, ..self.view });
                    if menu.selected < menu.items.len() {
                        s.applied_action_after_menu(menu.items[menu.selected as int].action)
                    } else {
                        (s, None)
                    }
                },
                Action::Cancel | Action::OpenActions => (
                    self.with_view(ScreenModel { action_menu: None, ..self.view }),
                    None,
                ),
                _ => (self, None),
            },
        }
    }

    /// What an action does in the current state.
    pub open spec fn applied_action(self, action: Action) -> (AppModel, Option<EffectModel>) {
        if action != Action::Quit && self.view.action_menu is Some {
            self.applied_action_menu(action)
        } else {
            self.applied_action_after_menu(action)
        }
    }

    /// The state `apply_action` can take without a panic: the shown selections point into
    /// their lists, and an open folder picker has folders to move over.
    pub open spec fn actionable(self) -> bool {
        &&& self.wf()
        &&& self.view.folder_picker is Some ==> self.view.folders.len() > 0
    }
}

impl App {
    fn open_active_chat(&mut self) -> (r: Option<Effect>)
        requires
            old(self)@.wf(),
        ensures
            (final(self)@, r.deep_view()) == old(self)@.opened_chat(),
    {
        let chat = match self.active_chat_id() {
            Some(c) => c,
            None => return None,
        };
        self.focus_composer_at_anchor();
        self.queue_active_media_previews();
        self.queue_visible_avatars();
        self.defer_active_read();
        let load = self.request_chat_load(chat);
        if load.is_some() {
            return load;
        }
        let preview = self.request_next_media_preview();
        if preview.is_some() {
            return preview;
        }
        let avatar = self.request_next_avatar();
        if avatar.is_some() {
            return avatar;
        }
        if self.history_load_is_active() {
            return None;
        }
        self.take_pending_read()
    }

    fn cancel(&mut self) -> (r: Option<Effect>)
        ensures
            (final(self)@, r.deep_view()) == old(self)@.cancelled(),
    {
        if self.view.help_open {
            self.view.help_open = false;
        } else if let Some(search) = self.view.search.take() {
            self.view.focus = match search.scope {
                SearchScope::Account => Focus::Chats,
                SearchScope::Chat => Focus::Composer,
            };
        } else if self.view.composer.editing.is_some() {
            self.cancel_edit();
        } else if self.view.poll_composer {
            self.view.poll_composer = false;
        } else if self.view.composer.reply_to.take().is_some() {
            self.view.focus = Focus::Composer;
            return self.draft_effect();
        } else if self.view.focus == Focus::Transcript {
            self.focus_composer_at_anchor();
        } else if self.view.focus == Focus::Composer {
            if self.view.active_thread.is_some() {
                self.leave_thread();
            } else {
                self.view.focus = Focus::Chats;
            }
        }
        None
    }

    fn reply(&mut self) -> (r: Option<Effect>)
        ensures
            (final(self)@, r.deep_view()) == old(self)@.replied(),
    {
        self.view.composer.reply_to = self.active_message_id();
        if self.view.composer.reply_to.is_some() {
            self.focus_composer_at_anchor();
        }
        self.draft_effect()
    }

    fn jump_latest(&mut self) -> (r: Option<Effect>)
        ensures
            (final(self)@, r.deep_view()) == old(self)@.jumped_latest(),
    {
        self.refresh_active_history();
        let last = if self.view.messages.len() > 0 {
            Some(self.view.messages.len() - 1)
        } else {
            None
        };
        self.view.active_message = last;
        self.view.transcript_anchor = last;
        self.view.has_newer_messages = false;
        self.view.focus = Focus::Transcript;
        Some(self.selection_effect())
    }

    fn jump_earliest(&mut self) -> (r: Option<Effect>)
        ensures
            (final(self)@, r.deep_view()) == old(self)@.jumped_earliest(),
    {
        let first = if self.view.messages.len() > 0 {
            Some(0)
        } else {
            None
        };
        self.view.active_message = first;
        self.view.transcript_anchor = first;
        self.view.focus = Focus::Transcript;
        Some(self.selection_effect())
    }

    fn apply_main_action(&mut self, action: Action) -> (r: Option<Effect>)
        requires
            old(self)@.actionable(),
        ensures
            (final(self)@, r.deep_view()) == old(self)@.applied_main_action(action),
    {
        match action {
            Action::Quit => Some(Effect::Quit),
            Action::Help => {
                self.view.help_open = !self.view.help_open;
                None
            },
            Action::Reconnect => {
                if self.view.connection == ConnectionState::ReconnectCooldown {
                    self.view.connection = ConnectionState::Connecting;
                    self.view.notice = None;
                    Some(Effect::Reconnect)
                } else {
                    None
                }
            },
            Action::MoveUp => self.move_chat(false),
            Action::MoveDown => self.move_chat(true),
            Action::PreviousFolder => self.move_folder(false),
            Action::NextFolder => self.move_folder(true),
            Action::ManageFolders => {
                self.open_folder_picker();
                None
            },
            Action::Open => self.open_active_chat(),
            Action::OpenActions => {
                self.open_action_menu();
                None
            },
            Action::Compose => {
                if self.view.active_chat.is_some() {
                    self.focus_composer_at_anchor();
                }
                None
            },
            Action::Reply => self.reply(),
            Action::Edit => self.begin_edit(),
            Action::EditPrevious => self.begin_previous_edit(),
            Action::Delete => {
                self.view.delete_confirmation = if self.view.selected_messages.len() > 0 {
                    let messages = self.view.selected_messages.clone();
                    proof {
                        assert(messages.deep_view() =~= old(self)@.view.selected_messages);
                    }
                    Some(messages)
                } else {
                    None
                };
                None
            },
            Action::Forward => {
                self.open_forward_picker();
                None
            },
            Action::React => {
                self.open_reaction_picker();
                None
            },
            Action::OpenLink => self.open_active_link(),
            Action::DownloadMedia => self.download_active_media(),
            Action::SaveAs => {
                self.open_save_as();
                None
            },
            Action::ConfirmSaveAs => self.confirm_save_as(),
            Action::OpenDownload => self.open_download(),
            Action::OpenThread => self.open_thread(),
            Action::TogglePin => self.toggle_active_pin(),
            Action::Paste => match self.active_history_key() {
                Some(key) => Some(Effect::ReadClipboard { chat: key.chat, thread_root: key.thread }),
                None => None,
            },
            Action::Attach => match self.active_history_key() {
                Some(key) => Some(Effect::PickAttachment { chat: key.chat, thread_root: key.thread }),
                None => None,
            },
            Action::ConfirmAttachment => self.confirm_attachment(),
            Action::TargetPreviousMessage => {
                self.target_previous_message();
                Some(self.selection_effect())
            },
            Action::TargetNextMessage => {
                self.target_next_message();
                Some(self.selection_effect())
            },
            Action::Search => {
                let scope = if self.view.focus == Focus::Chats {
                    SearchScope::Account
                } else {
                    SearchScope::Chat
                };
                self.view.search = Some(SearchView { scope, query: String::new() });
                self.view.focus = Focus::Search;
                None
            },
            Action::Send => self.request_send(),
            Action::SaveEdit => self.request_edit_save(),
            Action::Cancel => self.cancel(),
            Action::JumpEarliest => self.jump_earliest(),
            Action::JumpLatest => self.jump_latest(),
            Action::Newline => {
                if self.view.focus == Focus::Composer {
                    self.insert_composer_text("\n");
                }
                self.draft_effect()
            },
            _ => None,
        }
    }

    fn apply_action_after_menu(&mut self, action: Action) -> (r: Option<Effect>)
        requires
            old(self)@.actionable(),
        ensures
            (final(self)@, r.deep_view()) == old(self)@.applied_action_after_menu(action),
    {
        if action != Action::Quit && self.view.folder_manager.is_some() {
            return None;
        }
        if action != Action::Quit && self.view.save_as.is_some() {
            return self.apply_save_as_action(action);
        }
        if action != Action::Quit && self.view.attachment_path.is_some() {
            return match action {
                Action::ConfirmAttachment => self.confirm_attachment(),
                Action::Cancel | Action::Attach => {
                    self.view.attachment_path = None;
                    None
                },
                _ => None,
            };
        }
        if action != Action::Quit && self.view.reaction_picker.is_some() {
            return self.apply_reaction_picker(action);
        }
        if action != Action::Quit && self.view.forward_picker.is_some() {
            return self.apply_forward_picker(action);
        }
        if action != Action::Quit && self.view.delete_confirmation.is_some() {
            return self.apply_delete_confirmation(action);
        }
        if action != Action::Quit && self.view.link_confirmation.is_some() {
            return match action {
                Action::ConfirmOpenLink => self.confirm_active_link(),
                Action::Cancel | Action::OpenLink => {
                    self.view.link_confirmation = None;
                    None
                },
                _ => None,
            };
        }
        if action != Action::Quit && self.view.folder_picker.is_some() {
            return self.apply_folder_picker_action(action);
        }
        self.apply_main_action(action)
    }

    pub fn apply_action_menu(&mut self, action: Action) -> (r: Option<Effect>)
        requires
            old(self)@.actionable(),
        ensures
            (final(self)@, r.deep_view()) == old(self)@.applied_action_menu(action),
    {
        match action {
            Action::MoveUp => {
                match &mut self.view.action_menu {
                    Some(menu) => {
                        menu.selected = if menu.selected > 0 {
                            menu.selected - 1
                        } else {
                            0
                        };
                    },
                    None => {},
                }
                None
            },
            Action::MoveDown => {
                match &mut self.view.action_menu {
                    Some(menu) => {
                        let last = if menu.items.len() > 0 {
                            menu.items.len() - 1
                        } else {
                            0
                        };
                        menu.selected = if menu.selected < last && menu.selected + 1 < last {
                            menu.selected + 1
                        } else {
                            last
                        };
                    },
                    None => {},
                }
                None
            },
            Action::ChooseAction => {
                let menu = match self.view.action_menu.take() {
                    Some(m) => m,
                    None => return None,
                };
                if menu.selected >= menu.items.len() {
                    return None;
                }
                let chosen = menu.items[menu.selected].action;
                self.apply_action_after_menu(chosen)
            },
            Action::Cancel | Action::OpenActions => {
                self.view.action_menu = None;
                None
            },
            _ => None,
        }
    }

    /// Applies a user action and returns the work it asks for.
    pub fn apply_action(&mut self, action: Action) -> (r: Option<Effect>)
        requires
            old(self)@.actionable(),
        ensures
            (final(self)@, r.deep_view()) == old(self)@.applied_action(action),
    {
        if self.view.action_menu.is_some() && action != Action::Quit {
            return self.apply_action_menu(action);
        }
        self.apply_action_after_menu(action)
    }
}

} // verus!
