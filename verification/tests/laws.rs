use lib::app::chat_reconciliation::upsert_history_message;
use lib::app::folder_membership::change_membership;
use lib::app::navigation::move_index;
use lib::app::App;
use lib::ids::{AvatarId, ChatId, MessageId};
use lib::view::{
    ChatView, ComposerView, DeliveryState, FolderView, MediaCard, MediaKind, MediaPreviewView,
    MessageDetails, MessageDirection, MessageView,
};

fn chat(id: i64, folders: Vec<i32>) -> ChatView {
    ChatView {
        id: ChatId(id),
        title: format!("Chat {id}"),
        folders,
        unread: 0,
        status: String::new(),
        preview: String::new(),
        preview_sender: None,
        preview_sender_peer: None,
        preview_timestamp: String::new(),
        can_pin_messages: false,
    }
}

fn message(id: i64, body: &str) -> MessageView {
    MessageView {
        id: MessageId(id),
        sender: "Ada".to_owned(),
        body: body.to_owned(),
        timestamp: "12:00".to_owned(),
        direction: MessageDirection::Incoming,
        delivery: DeliveryState::Sent,
        reply_to: None,
        details: MessageDetails {
            thread_root: None,
            sender_peer: None,
            pinned: false,
            edited: false,
            media: None,
            reactions: Vec::new(),
            link: None,
            entities: Vec::new(),
        },
    }
}

fn photo(id: i64) -> MessageView {
    let mut m = message(id, "[Photo]");
    m.details.media = Some(MediaCard {
        kind: MediaKind::Photo,
        title: "photo".to_owned(),
        remote_id: Some(id),
        poll: None,
        fallback_body: true,
    });
    m
}

fn app_with_chats(count: i64) -> App {
    let mut app = App::empty();
    app.view.folders = vec![FolderView { id: 0, title: "All".to_owned(), unread: 0 }];
    app.all_chats = (1..=count).map(|id| chat(id, vec![0])).collect();
    app.refresh_folder_chats(None);
    app
}

#[test]
fn saved_draft_is_restored_on_return() {
    let mut app = app_with_chats(2);
    app.view.composer.text = "draft x".to_owned();
    app.view.composer.cursor = 7;
    app.save_active_draft();
    app.view.composer = ComposerView::blank();
    app.restore_active_draft();
    assert_eq!(app.view.composer.text, "draft x");
    assert_eq!(app.view.composer.cursor, 7);
}

#[test]
fn saved_anchor_is_remembered() {
    let mut app = app_with_chats(1);
    app.view.messages = vec![message(1, "a"), message(2, "b")];
    app.view.transcript_anchor = Some(1);
    app.save_transcript_anchor();
    assert_eq!(app.transcript_anchors.get(&app.active_history_key().unwrap()), Some(&MessageId(2)));
}

#[test]
fn moved_selection_stays_in_the_list() {
    assert_eq!(move_index(Some(5), 3, true), Some(2));
    assert_eq!(move_index(Some(1), 3, true), Some(2));
    assert_eq!(move_index(Some(0), 3, false), Some(0));
    assert_eq!(move_index(None, 3, true), Some(1));
    assert_eq!(move_index(None, 0, true), None);
}

#[test]
fn rebuilt_chat_list_keeps_the_preferred_chat() {
    let mut app = app_with_chats(4);
    app.refresh_folder_chats(Some(ChatId(3)));
    assert_eq!(app.view.active_chat, Some(2));
    app.refresh_folder_chats(Some(ChatId(9)));
    assert_eq!(app.view.active_chat, Some(0));
    app.all_chats = vec![chat(5, vec![1])];
    app.refresh_folder_chats(Some(ChatId(5)));
    assert!(app.view.chats.is_empty());
    assert_eq!(app.view.active_chat, None);
}

#[test]
fn stored_message_is_kept_once() {
    let mut history = vec![message(1, "a"), message(5, "old"), message(7, "b"), message(5, "copy")];
    upsert_history_message(&mut history, &message(5, "new"));
    let bodies: Vec<&str> = history.iter().map(|m| m.body.as_str()).collect();
    assert_eq!(bodies, vec!["a", "new", "b"]);
    upsert_history_message(&mut history, &message(9, "last"));
    assert_eq!(history.len(), 4);
    assert_eq!(history[3].id, MessageId(9));
}

#[test]
fn preview_queue_holds_at_most_eight() {
    let mut app = app_with_chats(1);
    app.view.messages = (1..=10).map(photo).collect();
    app.queue_active_media_previews();
    assert_eq!(app.media_preview_loads.queued.len(), 8);
    assert_eq!(app.media_preview_loads.queued[0].message, MessageId(10));
}

#[test]
fn stored_preview_is_retained_once() {
    let mut app = app_with_chats(1);
    let preview = || MediaPreviewView { chat: ChatId(1), message: MessageId(4) };
    app.store_media_preview(preview());
    app.store_media_preview(preview());
    assert_eq!(app.view.media_previews.len(), 1);
    for id in 0..70 {
        app.store_media_preview(MediaPreviewView { chat: ChatId(1), message: MessageId(100 + id) });
    }
    assert_eq!(app.view.media_previews.len(), 64);
    assert_eq!(app.view.media_previews[63].message, MessageId(169));
}

#[test]
fn avatar_queue_holds_at_most_twelve_distinct_avatars() {
    let mut app = app_with_chats(20);
    for id in 1..=20 {
        app.avatar_peers.insert(ChatId(id), AvatarId(id * 10));
    }
    app.view.messages = vec![message(1, "a"), message(2, "b")];
    for m in app.view.messages.iter_mut() {
        m.details.sender_peer = Some(ChatId(1));
    }
    app.queue_visible_avatars();
    let queued = &app.avatar_loads.queued;
    assert_eq!(queued.len(), 9);
    for (i, a) in queued.iter().enumerate() {
        assert!(queued.iter().skip(i + 1).all(|b| b != a));
    }
    app.view.active_chat = Some(10);
    app.queue_visible_avatars();
    assert_eq!(app.avatar_loads.queued.len(), 12);
}

#[test]
fn typed_character_is_erased_by_backspace() {
    let mut app = app_with_chats(1);
    app.view.focus = lib::view::Focus::Composer;
    app.view.composer.text = "añb".to_owned();
    app.view.composer.cursor = 3;
    app.insert_composer_text("€");
    assert_eq!(app.view.composer.text, "añ€b");
    assert_eq!(app.view.composer.cursor, 6);
    app.backspace_composer();
    assert_eq!(app.view.composer.text, "añb");
    assert_eq!(app.view.composer.cursor, 3);
}

#[test]
fn membership_adds_and_removes_one_folder() {
    assert_eq!(change_membership(&vec![7, 2, 2, 0], 5, true), vec![0, 2, 5, 7]);
    assert_eq!(change_membership(&vec![0, 2, 5], 5, false), vec![0, 2]);
    assert_eq!(change_membership(&vec![0, 3], -1, true), vec![-1, 3]);
    assert_eq!(change_membership(&vec![-1, 3], -1, false), vec![0, 3]);
}

#[test]
fn background_refresh_skips_refreshed_chats_and_counts_down() {
    let mut app = App::empty();
    app.all_chats = vec![chat(1, vec![0]), chat(2, vec![0]), chat(3, vec![0])];
    app.history_loads.refreshed_chats = vec![ChatId(1), ChatId(2)];
    app.history_loads.background_cursor = 0;
    app.history_loads.background_remaining = 3;
    let effect = app.request_next_background_history();
    assert!(matches!(effect, Some(lib::view::Effect::LoadChat { chat: ChatId(3), .. })));
    assert_eq!(app.history_loads.background_remaining, 0);
    assert_eq!(app.history_loads.background_cursor, 0);
}
