use vstd::prelude::*;
use vstd::string::StringExecFns;

use super::{App, AppModel, AvatarLoads, AvatarLoadsModel, HistoryLoads, HistoryLoadsModel, MediaPreviewLoads, MediaPreviewLoadsModel};
use crate::ids::{HistoryKey, MessageId};
use crate::keyed::KeyList;
use crate::protocol::{Bootstrap, DraftView, HistoryView};
use crate::view::{clone_messages, ChatLoadingState, ComposerModel, ComposerView, ConnectionState, Focus, MessageModel, MessageView, Screen, ScreenModel, ScrollDirection};
use super::composer::bytes_of;

verus! {

impl AppModel {
    /// The state before the account is known: connecting, nothing listed, nothing loading.
    pub open spec fn initial() -> AppModel {
        AppModel {
            view: ScreenModel {
                connection: ConnectionState::Connecting,
                account_name: "Intuigram"@,
                folders: Seq::empty(),
                folder_details: Seq::empty(),
                folder_manager: None,
                active_folder: 0,
                chats: Seq::empty(),
                active_chat: None,
                chat_scroll_direction: ScrollDirection::Down,
                chat_loading: ChatLoadingState::Idle,
                messages: Seq::empty(),
                active_message: None,
                active_thread: None,
                transcript_anchor: None,
                unread_boundary: None,
                pinned_messages: Seq::empty(),
                selected_messages: Seq::empty(),
                focus: Focus::Chats,
                composer: ComposerModel::blank(),
                poll_composer: false,
                search: None,
                has_newer_messages: false,
                help_open: false,
                folder_picker: None,
                delete_confirmation: None,
                forward_picker: None,
                reaction_picker: None,
                link_confirmation: None,
                save_as: None,
                attachment_path: None,
                action_menu: None,
                downloads: Seq::empty(),
                media_previews: Seq::empty(),
                avatars: Seq::empty(),
                saved_dialogs: Seq::empty(),
                notification_identity: Seq::empty(),
                notice: None,
                actions: Seq::empty(),
            },
            all_chats: Seq::empty(),
            drafts: Map::empty(),
            histories: Map::empty(),
            transcript_anchors: Map::empty(),
            unread_boundaries: Map::empty(),
            history_loads: HistoryLoadsModel {
                active: None,
                active_baseline: Set::empty(),
                queued: None,
                background_cursor: 0,
                background_remaining: 0,
                refreshed_chats: Set::empty(),
                read_pending: false,
            },
            media_preview_loads: MediaPreviewLoadsModel { active: None, queued: Seq::empty() },
            avatar_peers: Map::empty(),
            avatar_loads: AvatarLoadsModel { active: None, queued: Seq::empty(), failed: Set::empty() },
            offline_chats: Set::empty(),
            muted_chats: Set::empty(),
            next_local_message_id: 0,
            pending_drafts: Map::empty(),
        }
    }
}

/// The composer a stored draft opens with: its text, the cursor at its end.
pub open spec fn draft_composer(d: DraftView) -> ComposerModel {
    ComposerModel {
        text: d.text@,
        cursor: bytes_of(d.text@).len() as usize,
        reply_to: d.reply_to,
        editing: None,
        attachments: Seq::empty(),
    }
}

/// The drafts of a list, a later draft of the same history winning.
pub open spec fn drafts_of(list: Seq<DraftView>) -> Map<HistoryKey, ComposerModel>
    decreases list.len(),
{
    if list.len() == 0 {
        Map::empty()
    } else {
        let d = list.last();
        drafts_of(list.drop_last()).insert(
            HistoryKey { chat: d.chat, thread: d.thread_root, saved_peer: None },
            draft_composer(d),
        )
    }
}

/// The histories of a list, a later history of the same key winning.
pub open spec fn histories_of(list: Seq<HistoryView>) -> Map<HistoryKey, Seq<MessageModel>>
    decreases list.len(),
{
    if list.len() == 0 {
        Map::empty()
    } else {
        let h = list.last();
        histories_of(list.drop_last()).insert(
            HistoryKey { chat: h.chat, thread: h.thread_root, saved_peer: None },
            h.messages.deep_view(),
        )
    }
}

impl AppModel {
    /// The account's lists, drafts and histories replace the old ones; the first chat of the
    /// active folder opens at its newest messages with its draft, and loading starts afresh.
    pub open spec fn bootstrap_replaced(self, b: Bootstrap) -> AppModel {
        let s1 = AppModel {
            view: ScreenModel {
                connection: b.connection,
                account_name: b.account_name@,
                folders: b.folders.deep_view(),
                ..self.view
            },
            all_chats: b.chats.deep_view(),
            drafts: drafts_of(b.drafts@),
            ..self
        }.refreshed_folder_chats(None);
        let s2 = AppModel {
            histories: match s1.view.active_chat_id() {
                Some(chat) => histories_of(b.histories@).insert(
                    HistoryKey { chat, thread: None, saved_peer: None },
                    b.messages.deep_view(),
                ),
                None => histories_of(b.histories@),
            },
            transcript_anchors: Map::empty(),
            ..s1
        }.rebuilt_unread_boundaries();
        let s3 = AppModel {
            view: ScreenModel {
                active_message: None,
                delete_confirmation: None,
                forward_picker: None,
                reaction_picker: None,
                poll_composer: false,
                active_thread: None,
                transcript_anchor: None,
                ..s2.view
            },
            ..s2
        }.refreshed_history().restored_draft().background_history_reset();
        AppModel {
            media_preview_loads: MediaPreviewLoadsModel { active: None, queued: Seq::empty() },
            ..s3
        }
    }
}

fn draft_composer_of(d: &DraftView) -> (c: ComposerView)
    ensures
        c.deep_view() == draft_composer(*d),
{
    let c = ComposerView {
        text: d.text.clone(),
        cursor: d.text.as_str().len(),
        reply_to: d.reply_to,
        editing: None,
        attachments: Vec::new(),
    };
    proof {
        assert(c.deep_view().attachments =~= Seq::<crate::view::AttachmentModel>::empty());
    }
    c
}

fn drafts_from(list: &Vec<DraftView>) -> (drafts: KeyList<HistoryKey, ComposerView>)
    ensures
        drafts.map_model() == drafts_of(list@),
{
    let mut drafts: KeyList<HistoryKey, ComposerView> = KeyList::new();
    let mut i: usize = 0;
    while i < list.len()
        invariant
            i <= list.len(),
            drafts.map_model() == drafts_of(list@.take(i as int)),
        decreases list.len() - i,
    {
        proof {
            assert(list@.take(i as int + 1).drop_last() =~= list@.take(i as int));
        }
        let d = &list[i];
        drafts.insert(HistoryKey::from_thread(d.chat, d.thread_root), draft_composer_of(d));
        i = i + 1;
    }
    proof {
        assert(list@.take(list.len() as int) =~= list@);
    }
    drafts
}

fn histories_from(list: &Vec<HistoryView>) -> (histories: KeyList<HistoryKey, Vec<MessageView>>)
    ensures
        histories.map_model() == histories_of(list@),
{
    let mut histories: KeyList<HistoryKey, Vec<MessageView>> = KeyList::new();
    let mut i: usize = 0;
    while i < list.len()
        invariant
            i <= list.len(),
            histories.map_model() == histories_of(list@.take(i as int)),
        decreases list.len() - i,
    {
        proof {
            assert(list@.take(i as int + 1).drop_last() =~= list@.take(i as int));
        }
        let h = &list[i];
        histories.insert(HistoryKey::from_thread(h.chat, h.thread_root), clone_messages(&h.messages));
        i = i + 1;
    }
    proof {
        assert(list@.take(list.len() as int) =~= list@);
    }
    histories
}

impl App {
    pub fn empty() -> (app: App)
        ensures
            app@ == AppModel::initial(),
            app@.actionable(),
    {
        let app = App {
            view: Screen {
                connection: ConnectionState::Connecting,
                account_name: String::from_str("Intuigram"),
                folders: Vec::new(),
                folder_details: Vec::new(),
                folder_manager: None,
                active_folder: 0,
                chats: Vec::new(),
                active_chat: None,
                chat_scroll_direction: ScrollDirection::Down,
                chat_loading: ChatLoadingState::Idle,
                messages: Vec::new(),
                active_message: None,
                active_thread: None,
                transcript_anchor: None,
                unread_boundary: None,
                pinned_messages: Vec::new(),
                selected_messages: Vec::new(),
                focus: Focus::Chats,
                composer: ComposerView::blank(),
                poll_composer: false,
                search: None,
                has_newer_messages: false,
                help_open: false,
                folder_picker: None,
                delete_confirmation: None,
                forward_picker: None,
                reaction_picker: None,
                link_confirmation: None,
                save_as: None,
                attachment_path: None,
                action_menu: None,
                downloads: Vec::new(),
                media_previews: Vec::new(),
                avatars: Vec::new(),
                saved_dialogs: Vec::new(),
                notification_identity: String::new(),
                notice: None,
                actions: Vec::new(),
            },
            all_chats: Vec::new(),
            drafts: KeyList::new(),
            histories: KeyList::new(),
            transcript_anchors: KeyList::new(),
            unread_boundaries: KeyList::new(),
            history_loads: HistoryLoads {
                active: None,
                active_baseline: Vec::new(),
                queued: None,
                background_cursor: 0,
                background_remaining: 0,
                refreshed_chats: Vec::new(),
                read_pending: false,
            },
            media_preview_loads: MediaPreviewLoads { active: None, queued: Vec::new() },
            avatar_peers: KeyList::new(),
            avatar_loads: AvatarLoads { active: None, queued: Vec::new(), failed: Vec::new() },
            offline_chats: Vec::new(),
            muted_chats: Vec::new(),
            next_local_message_id: 0,
            pending_drafts: KeyList::new(),
        };
        proof {
            assert(app@.view =~= AppModel::initial().view);
            assert(app@.history_loads.active_baseline =~= Set::<crate::ids::MessageId>::empty());
            assert(app@.history_loads.refreshed_chats =~= Set::<crate::ids::ChatId>::empty());
            assert(app@.avatar_loads.failed =~= Set::<crate::ids::AvatarRef>::empty());
            assert(app@.offline_chats =~= Set::<crate::ids::ChatId>::empty());
            assert(app@.muted_chats =~= Set::<crate::ids::ChatId>::empty());
            assert(app@ =~= AppModel::initial());
        }
        app
    }

    fn take_bootstrap_lists(&mut self, b: &Bootstrap)
        ensures
            final(self)@ == (AppModel {
                view: ScreenModel {
                    connection: b.connection,
                    account_name: b.account_name@,
                    folders: b.folders.deep_view(),
                    ..old(self)@.view
                },
                all_chats: b.chats.deep_view(),
                drafts: drafts_of(b.drafts@),
                ..old(self)@
            }),
    {
        self.view.connection = b.connection;
        self.view.account_name = b.account_name.clone();
        self.view.folders = crate::view::clone_folders(&b.folders);
        self.all_chats = crate::view::clone_chats(&b.chats);
        self.drafts = drafts_from(&b.drafts);
    }

    fn take_bootstrap_histories(&mut self, b: &Bootstrap)
        ensures
            final(self)@ == (AppModel {
                histories: match old(self)@.view.active_chat_id() {
                    Some(chat) => histories_of(b.histories@).insert(
                        HistoryKey { chat, thread: None, saved_peer: None },
                        b.messages.deep_view(),
                    ),
                    None => histories_of(b.histories@),
                },
                transcript_anchors: Map::empty(),
                ..old(self)@
            }).rebuilt_unread_boundaries(),
    {
        self.histories = histories_from(&b.histories);
        self.transcript_anchors = KeyList::new();
        if let Some(chat) = self.active_chat_id() {
            self.histories.insert(HistoryKey::root(chat), clone_messages(&b.messages));
        }
        self.rebuild_unread_boundaries();
    }

    pub fn replace_bootstrap(&mut self, bootstrap: Bootstrap)
        ensures
            final(self)@ == old(self)@.bootstrap_replaced(bootstrap),
            final(self)@.wf(),
    {
        self.take_bootstrap_lists(&bootstrap);
        proof {
            assert(self@.all_chats.len() == self.all_chats.len());
            crate::laws::law_folder_chats_keep_a_valid_selection(self@, None);
        }
        self.refresh_folder_chats(None);
        self.take_bootstrap_histories(&bootstrap);
        self.view.active_message = None;
        self.view.delete_confirmation = None;
        self.view.forward_picker = None;
        self.view.reaction_picker = None;
        self.view.poll_composer = false;
        self.view.active_thread = None;
        self.view.transcript_anchor = None;
        self.refresh_active_history();
        self.restore_active_draft();
        self.reset_background_history();
        self.media_preview_loads = MediaPreviewLoads { active: None, queued: Vec::new() };
    }
}

} // verus!
