use vstd::prelude::*;
use vstd::string::StringExecFns;

use super::navigation::find_chat;
use super::{chat_has_id, App, AppModel};
use crate::ids::{ChatId, HistoryKey, KeyEq, MessageId, PreviewKey};
use crate::protocol::{AdapterEvent, Bootstrap, Input, Intent};
use crate::seqs::first_index;
use crate::view::{AttachmentPathView, ChatModel, ChatView, ConnectionState, DownloadModel, DownloadView, EffectModel, Focus, ScreenModel, SearchModel, Effect};

verus! {

broadcast use vstd::seq_lib::group_seq_properties;

pub open spec fn other_download(chat: ChatId, message: MessageId) -> spec_fn(DownloadModel) -> bool {
    |d: DownloadModel| d.chat != chat || d.message != message
}

/// The notice shown when a download is done.
pub open spec fn download_notice(download: DownloadModel) -> Seq<char> {
    "Downloaded to "@ + download.path + if download.reveal_only {
        " Launchable content will only be revealed in its folder."@
    } else {
        Seq::empty()
    }
}

/// `String::pop`: removes the last character, when there is one.
#[verifier::external_body]
fn pop_char(s: &mut String)
    ensures
        final(s)@ == if old(s)@.len() > 0 {
            old(s)@.drop_last()
        } else {
            old(s)@
        },
{
    s.pop();
}

impl AppModel {
    pub open spec fn with_notice(self, notice: Option<Seq<char>>) -> AppModel {
        AppModel { view: ScreenModel { notice, ..self.view }, ..self }
    }

    /// A resolved link's chat is listed (replacing its old entry), selected and loaded.
    pub open spec fn link_resolved(self, chat: ChatModel) -> (AppModel, Option<EffectModel>) {
        let chats = match first_index(self.all_chats, chat_has_id(chat.id)) {
            Some(i) => self.all_chats.update(i, chat),
            None => self.all_chats.push(chat),
        };
        AppModel { all_chats: chats, ..self }.refreshed_folder_chats(
            Some(chat.id),
        ).focused_composer_at_anchor().requested_history_load(
            HistoryKey { chat: chat.id, thread: None, saved_peer: None },
        )
    }

    /// A finished download replaces the earlier one of the same message and is announced.
    pub open spec fn download_ready(self, chat: ChatId, d: DownloadModel) -> AppModel {
        AppModel {
            view: ScreenModel {
                notice: Some(download_notice(d)),
                downloads: self.view.downloads.filter(other_download(chat, d.message)).push(d),
                ..self.view
            },
            ..self
        }
    }

    /// Link resolution, downloads and media previews.
    pub open spec fn link_media_applied(self, event: AdapterEvent) -> (AppModel, Option<EffectModel>) {
        match event {
            AdapterEvent::TelegramLinkResolved { chat } => self.link_resolved(chat.deep_view()),
            AdapterEvent::DownloadReady { chat, download } => (
                self.download_ready(chat, download.deep_view()),
                None,
            ),
            AdapterEvent::MediaPreviewReady(preview) => self.stored_media_preview(
                preview.deep_view(),
            ).completed_media_preview(preview.deep_view()),
            AdapterEvent::MediaPreviewFailed { chat, message } => self.completed_media_preview(
                PreviewKey { chat, message },
            ),
            _ => (self, None),
        }
    }

    /// Typing, erasing and moving in the search query or the composer, and actions.
    pub open spec fn intent_applied(self, intent: Intent) -> (AppModel, Option<EffectModel>) {
        match intent {
            Intent::Insert(text) => {
                let s = match self.view.search {
                    Some(search) => AppModel {
                        view: ScreenModel {
                            search: Some(SearchModel { query: search.query + text@, ..search }),
                            ..self.view
                        },
                        ..self
                    },
                    None => if self.view.active_chat is Some && self.view.focus != Focus::Chats {
                        let f = self.focused_composer_at_anchor();
                        f.with_composer(f.view.composer.inserted(text@))
                    } else {
                        self
                    },
                };
                (s, s.draft_effect())
            },
            Intent::Backspace => {
                let s = match self.view.search {
                    Some(search) => AppModel {
                        view: ScreenModel {
                            search: Some(
                                SearchModel {
                                    query: if search.query.len() > 0 {
                                        search.query.drop_last()
                                    } else {
                                        search.query
                                    },
                                    ..search
                                },
                            ),
                            ..self.view
                        },
                        ..self
                    },
                    None => if self.view.focus == Focus::Composer {
                        self.with_composer(self.view.composer.backspaced())
                    } else {
                        self
                    },
                };
                (s, s.draft_effect())
            },
            Intent::MoveComposerCursor(movement) => (self.moved_composer_cursor(movement), None),
            Intent::Action(action) => self.applied_action(action),
        }
    }

    /// A chat the list lacked is added to it.
    pub open spec fn chat_discovered(self, chat: ChatModel) -> AppModel {
        if first_index(self.all_chats, chat_has_id(chat.id)) is None {
            AppModel { all_chats: self.all_chats.push(chat), ..self }.refreshed_folder_chats(
                self.view.active_chat_id(),
            )
        } else {
            self
        }
    }

    /// A failed load of a history is reported when that history is shown, and the load ends.
    pub open spec fn history_load_failed(self, key: HistoryKey, reason: Seq<char>) -> (AppModel, Option<EffectModel>) {
        let s = if self.view.active_history_key() == Some(key) {
            self.with_notice(Some(reason))
        } else {
            self
        };
        s.completed_history_load(key, false)
    }

    /// The shown history asks for an attachment path: an empty path prompt opens.
    pub open spec fn attachment_path_required(self, key: HistoryKey) -> AppModel {
        if self.view.active_history_key() == Some(key) {
            AppModel { view: ScreenModel { attachment_path: Some(Seq::empty()), ..self.view }, ..self }
        } else {
            self
        }
    }

    /// Connection, notices and the chat list.
    pub open spec fn status_event_applied(self, event: AdapterEvent) -> AppModel {
        match event {
            AdapterEvent::ConnectionChanged(connection) => AppModel {
                view: ScreenModel { connection, ..self.view },
                ..self
            },
            AdapterEvent::ConnectionFailed(reason) => AppModel {
                view: ScreenModel {
                    connection: ConnectionState::ReconnectCooldown,
                    notice: Some(reason@),
                    ..self.view
                },
                ..self
            },
            AdapterEvent::OperationFailed(reason) => self.with_notice(Some(reason@)),
            AdapterEvent::OperationCompleted(message) => self.with_notice(Some(message@)),
            AdapterEvent::ChatDiscovered { chat } => self.chat_discovered(chat.deep_view()),
            AdapterEvent::AttachmentPathRequired { chat, thread_root } => self.attachment_path_required(
                HistoryKey { chat, thread: thread_root, saved_peer: None },
            ),
            _ => self,
        }
    }

    /// Messages and histories.
    pub open spec fn history_event_applied(self, event: AdapterEvent) -> (AppModel, Option<EffectModel>) {
        match event {
            AdapterEvent::MessageAdded { chat, message } => self.message_added(chat, message.deep_view()),
            AdapterEvent::MessageUpdated { chat, message } => (
                self.message_replaced(chat, message.deep_view()),
                None,
            ),
            AdapterEvent::AvatarChanged { peer, id } => self.updated_avatar(peer, id),
            AdapterEvent::MessageEditFailed { chat, message, text, attachments, reason } => (
                self.restored_failed_edit(chat, message, text@, attachments.deep_view()).with_notice(
                    Some(reason@),
                ),
                None,
            ),
            AdapterEvent::MessagesDeleted { chat, ids } => (self.messages_deleted(chat, ids@), None),
            AdapterEvent::HistoryRead { chat, max_id, outgoing, unread } => (
                self.read_state_applied(chat, max_id, outgoing, unread),
                None,
            ),
            AdapterEvent::HistoryLoadFailed { chat, thread_root, reason } => self.history_load_failed(
                HistoryKey { chat, thread: thread_root, saved_peer: None },
                reason@,
            ),
            AdapterEvent::ChatArchiveChanged { chat, archived } => self.folder_membership_applied(
                chat,
                -1i32,
                archived,
            ),
            AdapterEvent::FolderMembershipChanged { chat, folder, included } => {
                let (s, e) = self.folder_membership_applied(chat, folder, included);
                (s.with_notice(None), e)
            },
            _ => (self, None),
        }
    }

    /// The account's state arrives: it replaces the old one, and once connected the previews,
    /// avatars and background histories start loading, one at a time.
    pub open spec fn bootstrap_applied(self, b: Bootstrap) -> (AppModel, Option<EffectModel>) {
        let s = self.bootstrap_replaced(b);
        if s.view.connection != ConnectionState::Connected {
            (s, None)
        } else {
            let s2 = s.queued_active_media_previews().queued_visible_avatars();
            let (s3, e3) = s2.next_media_preview();
            if e3 is Some {
                (s3, e3)
            } else {
                let (s4, e4) = s3.next_avatar();
                if e4 is Some {
                    (s4, e4)
                } else {
                    s4.next_background_history()
                }
            }
        }
    }

    /// The connection is back: the fresh state is merged in, and the background histories,
    /// previews and avatars start loading, one at a time.
    pub open spec fn connection_restored(self, b: Bootstrap) -> (AppModel, Option<EffectModel>) {
        let s = self.connection_merged(b).queued_active_media_previews().queued_visible_avatars();
        let (s1, e1) = s.next_background_history();
        if e1 is Some {
            (s1, e1)
        } else {
            let (s2, e2) = s1.next_media_preview();
            if e2 is Some {
                (s2, e2)
            } else {
                s2.next_avatar()
            }
        }
    }

    /// What an event from the Telegram side does to the state, and the effect it asks for.
    pub open spec fn event_applied(self, event: AdapterEvent) -> (AppModel, Option<EffectModel>) {
        match event {
            AdapterEvent::Bootstrap(b) => self.bootstrap_applied(b),
            AdapterEvent::ConnectionRestored(b) => self.connection_restored(b),
            AdapterEvent::ConnectionChanged(_)
            | AdapterEvent::ConnectionFailed(_)
            | AdapterEvent::OperationFailed(_)
            | AdapterEvent::OperationCompleted(_)
            | AdapterEvent::ChatDiscovered { .. }
            | AdapterEvent::AttachmentPathRequired { .. } => (self.status_event_applied(event), None),
            AdapterEvent::MessageAdded { .. }
            | AdapterEvent::MessageUpdated { .. }
            | AdapterEvent::AvatarChanged { .. }
            | AdapterEvent::MessageEditFailed { .. }
            | AdapterEvent::MessagesDeleted { .. }
            | AdapterEvent::HistoryRead { .. }
            | AdapterEvent::HistoryLoadFailed { .. }
            | AdapterEvent::ChatArchiveChanged { .. }
            | AdapterEvent::FolderMembershipChanged { .. } => self.history_event_applied(event),
            AdapterEvent::ChatMuteChanged { chat, muted } => (self.mute_changed(chat, muted), None),
            AdapterEvent::DraftFormatted { formatted, entities } => self.message_sent(
                formatted@,
                entities.deep_view(),
            ),
            AdapterEvent::FolderOperationCompleted { result, reconciliation } => (
                self.folder_operation_completed(result, reconciliation),
                None,
            ),
            AdapterEvent::FolderOperationFailed(reason) => (self.folder_operation_failed(reason@), None),
            AdapterEvent::ClipboardReady { chat, thread_root, text, attachments } => self.clipboard_pasted(
                chat,
                thread_root,
                match text {
                    Some(t) => Some(t@),
                    None => None,
                },
                attachments.deep_view(),
            ),
            AdapterEvent::MessageAcknowledged { chat, local_id } => (
                self.send_acknowledged(chat, local_id),
                None,
            ),
            AdapterEvent::MessageFailed { chat, local_id, thread_root, saved_peer, text, reason } => self.send_failed(
                chat,
                local_id,
                thread_root,
                saved_peer,
                text@,
                reason@,
            ),
            _ => self.link_media_applied(event),
        }
    }

    pub open spec fn input_applied(self, input: Input) -> (AppModel, Option<EffectModel>) {
        match input {
            Input::Adapter(event) => self.event_applied(event),
            Input::Intent(intent) => self.intent_applied(intent),
        }
    }
}

fn keep_other_downloads(downloads: &mut Vec<DownloadView>, chat: ChatId, message: MessageId)
    ensures
        final(downloads).deep_view() == old(downloads).deep_view().filter(other_download(chat, message)),
{
    let ghost all = downloads.deep_view();
    let ghost p = other_download(chat, message);
    let mut kept: Vec<DownloadView> = Vec::new();
    let mut i: usize = 0;
    while i < downloads.len()
        invariant
            p == other_download(chat, message),
            all == downloads.deep_view(),
            i <= downloads.len(),
            kept.deep_view() == all.take(i as int).filter(p),
        decreases downloads.len() - i,
    {
        proof {
            assert(all.take(i as int + 1) =~= all.take(i as int).push(all[i as int]));
            all.take(i as int).lemma_filter_push(all[i as int], p);
        }
        let ghost k0 = kept.deep_view();
        if downloads[i].chat.0 != chat.0 || downloads[i].message.0 != message.0 {
            kept.push(downloads[i].clone());
            proof {
                assert(kept.deep_view() =~= k0.push(all[i as int]));
            }
        }
        i = i + 1;
    }
    proof {
        assert(all.take(all.len() as int) =~= all);
    }
    *downloads = kept;
}

impl App {
    fn resolve_link(&mut self, chat: ChatView) -> (r: Option<Effect>)
        ensures
            (final(self)@, r.deep_view()) == old(self)@.link_resolved(chat.deep_view()),
    {
        let id = chat.id;
        proof {
            crate::seqs::lemma_first_index(old(self)@.all_chats, chat_has_id(id));
        }
        match find_chat(&self.all_chats, id) {
            Some(i) => {
                self.all_chats.set(i, chat);
            },
            None => {
                self.all_chats.push(chat);
            },
        }
        proof {
            assert(self@ == (AppModel {
                all_chats: match first_index(old(self)@.all_chats, chat_has_id(id)) {
                    Some(i) => old(self)@.all_chats.update(i, chat.deep_view()),
                    None => old(self)@.all_chats.push(chat.deep_view()),
                },
                ..old(self)@
            }));
        }
        self.refresh_folder_chats(Some(id));
        self.focus_composer_at_anchor();
        self.request_chat_load(id)
    }

    fn finish_download(&mut self, chat: ChatId, download: DownloadView)
        ensures
            final(self)@ == old(self)@.download_ready(chat, download.deep_view()),
    {
        let mut notice = String::from_str("Downloaded to ");
        notice.append(download.path.as_str());
        if download.reveal_only {
            notice.append(" Launchable content will only be revealed in its folder.");
        }
        self.view.notice = Some(notice);
        keep_other_downloads(&mut self.view.downloads, chat, download.message);
        let ghost kept = self.view.downloads.deep_view();
        self.view.downloads.push(download);
        proof {
            assert(self.view.downloads.deep_view() =~= kept.push(download.deep_view()));
        }
    }

    pub fn apply_link_media_event(&mut self, event: AdapterEvent) -> (r: Option<Effect>)
        requires
            old(self)@.background_wf(),
        ensures
            (final(self)@, r.deep_view()) == old(self)@.link_media_applied(event),
    {
        match event {
            AdapterEvent::TelegramLinkResolved { chat } => self.resolve_link(chat),
            AdapterEvent::DownloadReady { chat, download } => {
                self.finish_download(chat, download);
                None
            },
            AdapterEvent::MediaPreviewReady(preview) => {
                let key = PreviewKey { chat: preview.chat, message: preview.message };
                self.store_media_preview(preview);
                self.complete_media_preview(key)
            },
            AdapterEvent::MediaPreviewFailed { chat, message } => {
                self.complete_media_preview(PreviewKey { chat, message })
            },
            _ => None,
        }
    }
}

impl App {
    fn note(&mut self, text: String)
        ensures
            final(self)@ == old(self)@.with_notice(Some(text@)),
    {
        self.view.notice = Some(text);
    }

    pub fn apply_intent(&mut self, intent: Intent) -> (r: Option<Effect>)
        requires
            intent is Action ==> old(self)@.actionable(),
        ensures
            (final(self)@, r.deep_view()) == old(self)@.intent_applied(intent),
    {
        match intent {
            Intent::Insert(text) => {
                if let Some(mut search) = self.view.search.take() {
                    search.query.append(text.as_str());
                    self.view.search = Some(search);
                } else if self.view.active_chat.is_some() && self.view.focus != Focus::Chats {
                    self.focus_composer_at_anchor();
                    self.insert_composer_text(text.as_str());
                }
                self.draft_effect()
            },
            Intent::Backspace => {
                if let Some(mut search) = self.view.search.take() {
                    pop_char(&mut search.query);
                    self.view.search = Some(search);
                } else if self.view.focus == Focus::Composer {
                    self.backspace_composer();
                }
                self.draft_effect()
            },
            Intent::MoveComposerCursor(movement) => {
                self.move_composer_cursor(movement);
                None
            },
            Intent::Action(action) => self.apply_action(action),
        }
    }

    fn discover_chat(&mut self, chat: ChatView)
        ensures
            final(self)@ == old(self)@.chat_discovered(chat.deep_view()),
    {
        let ghost c = chat.deep_view();
        if find_chat(&self.all_chats, chat.id).is_none() {
            let active = self.active_chat_id();
            self.all_chats.push(chat);
            proof {
                assert(self@ == (AppModel { all_chats: old(self)@.all_chats.push(c), ..old(self)@ }));
            }
            self.refresh_folder_chats(active);
        }
    }

    fn fail_history_load(&mut self, key: HistoryKey, reason: String) -> (r: Option<Effect>)
        requires
            old(self)@.background_wf(),
        ensures
            (final(self)@, r.deep_view()) == old(self)@.history_load_failed(key, reason@),
    {
        let shown = match self.active_history_key() {
            Some(k) => k.same(&key),
            None => false,
        };
        if shown {
            self.note(reason);
        }
        self.complete_history_load(key, false)
    }

    fn require_attachment_path(&mut self, key: HistoryKey)
        ensures
            final(self)@ == old(self)@.attachment_path_required(key),
    {
        let shown = match self.active_history_key() {
            Some(k) => k.same(&key),
            None => false,
        };
        if shown {
            self.view.attachment_path = Some(AttachmentPathView { path: String::new() });
        }
    }

    fn apply_bootstrap(&mut self, bootstrap: Bootstrap) -> (r: Option<Effect>)
        ensures
            (final(self)@, r.deep_view()) == old(self)@.bootstrap_applied(bootstrap),
    {
        self.replace_bootstrap(bootstrap);
        if self.view.connection != ConnectionState::Connected {
            return None;
        }
        self.queue_active_media_previews();
        self.queue_visible_avatars();
        let preview = self.request_next_media_preview();
        if preview.is_some() {
            return preview;
        }
        let avatar = self.request_next_avatar();
        if avatar.is_some() {
            return avatar;
        }
        self.request_next_background_history()
    }

    fn restore_connection(&mut self, bootstrap: Bootstrap) -> (r: Option<Effect>)
        ensures
            (final(self)@, r.deep_view()) == old(self)@.connection_restored(bootstrap),
    {
        self.merge_restored_connection(bootstrap);
        self.queue_active_media_previews();
        self.queue_visible_avatars();
        let background = self.request_next_background_history();
        if background.is_some() {
            return background;
        }
        let preview = self.request_next_media_preview();
        if preview.is_some() {
            return preview;
        }
        self.request_next_avatar()
    }

    fn apply_status_event(&mut self, event: AdapterEvent)
        ensures
            final(self)@ == old(self)@.status_event_applied(event),
    {
        match event {
            AdapterEvent::ConnectionChanged(connection) => {
                self.view.connection = connection;
            },
            AdapterEvent::ConnectionFailed(reason) => {
                self.view.connection = ConnectionState::ReconnectCooldown;
                self.note(reason);
            },
            AdapterEvent::OperationFailed(reason) => {
                self.note(reason);
            },
            AdapterEvent::OperationCompleted(message) => {
                self.note(message);
            },
            AdapterEvent::ChatDiscovered { chat } => {
                self.discover_chat(chat);
            },
            AdapterEvent::AttachmentPathRequired { chat, thread_root } => {
                self.require_attachment_path(HistoryKey::from_thread(chat, thread_root));
            },
            _ => {},
        }
    }

    fn apply_history_event(&mut self, event: AdapterEvent) -> (r: Option<Effect>)
        requires
            old(self)@.wf(),
        ensures
            (final(self)@, r.deep_view()) == old(self)@.history_event_applied(event),
    {
        match event {
            AdapterEvent::MessageAdded { chat, message } => self.apply_added_message(chat, *message),
            AdapterEvent::MessageUpdated { chat, message } => {
                self.replace_message(chat, *message);
                None
            },
            AdapterEvent::AvatarChanged { peer, id } => self.update_avatar(peer, id),
            AdapterEvent::MessageEditFailed { chat, message, text, attachments, reason } => {
                self.restore_failed_edit(chat, message, text, attachments);
                self.note(reason);
                None
            },
            AdapterEvent::MessagesDeleted { chat, ids } => {
                self.delete_messages(chat, ids.as_slice());
                None
            },
            AdapterEvent::HistoryRead { chat, max_id, outgoing, unread } => {
                self.apply_read_state(chat, max_id, outgoing, unread);
                None
            },
            AdapterEvent::HistoryLoadFailed { chat, thread_root, reason } => {
                self.fail_history_load(HistoryKey::from_thread(chat, thread_root), reason)
            },
            AdapterEvent::ChatArchiveChanged { chat, archived } => {
                self.apply_folder_membership(chat, -1, archived)
            },
            AdapterEvent::FolderMembershipChanged { chat, folder, included } => {
                let effect = self.apply_folder_membership(chat, folder, included);
                self.view.notice = None;
                effect
            },
            _ => None,
        }
    }

    pub fn apply_adapter_event(&mut self, event: AdapterEvent) -> (r: Option<Effect>)
        requires
            old(self)@.wf(),
        ensures
            (final(self)@, r.deep_view()) == old(self)@.event_applied(event),
    {
        match event {
            AdapterEvent::Bootstrap(b) => self.apply_bootstrap(b),
            AdapterEvent::ConnectionRestored(b) => self.restore_connection(b),
            AdapterEvent::ConnectionChanged(_)
            | AdapterEvent::ConnectionFailed(_)
            | AdapterEvent::OperationFailed(_)
            | AdapterEvent::OperationCompleted(_)
            | AdapterEvent::ChatDiscovered { .. }
            | AdapterEvent::AttachmentPathRequired { .. } => {
                self.apply_status_event(event);
                None
            },
            AdapterEvent::MessageAdded { .. }
            | AdapterEvent::MessageUpdated { .. }
            | AdapterEvent::AvatarChanged { .. }
            | AdapterEvent::MessageEditFailed { .. }
            | AdapterEvent::MessagesDeleted { .. }
            | AdapterEvent::HistoryRead { .. }
            | AdapterEvent::HistoryLoadFailed { .. }
            | AdapterEvent::ChatArchiveChanged { .. }
            | AdapterEvent::FolderMembershipChanged { .. } => self.apply_history_event(event),
            AdapterEvent::ChatMuteChanged { chat, muted } => {
                self.apply_mute_change(chat, muted);
                None
            },
            AdapterEvent::DraftFormatted { formatted, entities } => self.send_message(formatted, entities),
            AdapterEvent::FolderOperationCompleted { result, reconciliation } => {
                self.complete_folder_operation(result, reconciliation);
                None
            },
            AdapterEvent::FolderOperationFailed(reason) => {
                self.fail_folder_operation(reason);
                None
            },
            AdapterEvent::ClipboardReady { chat, thread_root, text, attachments } => {
                self.apply_clipboard(chat, thread_root, text, attachments)
            },
            AdapterEvent::MessageAcknowledged { chat, local_id } => {
                self.acknowledge_send(chat, local_id);
                None
            },
            AdapterEvent::MessageFailed { chat, local_id, thread_root, saved_peer, text, reason } => {
                self.fail_send(chat, local_id, thread_root, saved_peer, text, reason)
            },
            _ => self.apply_link_media_event(event),
        }
    }

    /// Handles one input: an event of the Telegram side or an intent of the user.
    pub fn apply(&mut self, input: Input) -> (r: Option<Effect>)
        requires
            old(self)@.actionable(),
        ensures
            (final(self)@, r.deep_view()) == old(self)@.input_applied(input),
    {
        match input {
            Input::Adapter(event) => self.apply_adapter_event(event),
            Input::Intent(intent) => self.apply_intent(intent),
        }
    }
}

} // verus!
