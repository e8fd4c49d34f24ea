use lib::app::App;
use lib::ids::{ChatId, MessageId};
use lib::protocol::{AdapterEvent, Bootstrap, DraftView, Input, Intent};
use lib::view::{
    ChatView, ConnectionState, DeliveryState, DownloadView, Effect, FolderView, Focus, MessageDetails,
    MessageDirection, MessageView, SearchScope, SearchView,
};

fn chat(id: i64, title: &str) -> ChatView {
    ChatView {
        id: ChatId(id),
        title: title.to_owned(),
        folders: vec![0],
        unread: 0,
        status: String::new(),
        preview: String::new(),
        preview_sender: None,
        preview_sender_peer: None,
        preview_timestamp: String::new(),
        can_pin_messages: false,
    }
}

fn message(id: i64, direction: MessageDirection, body: &str) -> MessageView {
    MessageView {
        id: MessageId(id),
        sender: "Ada".to_owned(),
        body: body.to_owned(),
        timestamp: "12:00".to_owned(),
        direction,
        delivery: DeliveryState::Sent,
        reply_to: None,
        details: MessageDetails {
            thread_root: None,
            sender_peer: None,
            pinned: false,
            edited: false,
            media: None,
            reactions: Vec::new(),
            link: None,
            entities: Vec::new(),
        },
    }
}

fn bootstrapped() -> App {
    let mut app = App::empty();
    let bootstrap = Bootstrap {
        connection: ConnectionState::Connecting,
        account_name: "Ada".to_owned(),
        folders: vec![FolderView { id: 0, title: "All".to_owned(), unread: 0 }],
        chats: vec![chat(1, "First"), chat(2, "Second")],
        drafts: vec![DraftView {
            chat: ChatId(1),
            thread_root: None,
            text: "hi".to_owned(),
            reply_to: None,
        }],
        histories: Vec::new(),
        messages: vec![message(10, MessageDirection::Incoming, "hello")],
    };
    let effect = app.apply(Input::Adapter(AdapterEvent::Bootstrap(bootstrap)));
    assert!(effect.is_none());
    app
}

#[test]
fn empty_app_starts_connecting_with_nothing_listed() {
    let app = App::empty();
    assert_eq!(app.view.connection, ConnectionState::Connecting);
    assert_eq!(app.view.account_name, "Intuigram");
    assert!(app.view.chats.is_empty());
    assert_eq!(app.view.focus, Focus::Chats);
    assert!(app.view.active_chat.is_none());
}

#[test]
fn bootstrap_opens_the_first_chat_with_its_draft() {
    let app = bootstrapped();
    assert_eq!(app.view.account_name, "Ada");
    assert_eq!(app.view.chats.len(), 2);
    assert_eq!(app.view.active_chat, Some(0));
    assert_eq!(app.view.messages.len(), 1);
    assert_eq!(app.view.messages[0].id, MessageId(10));
    assert_eq!(app.view.composer.text, "hi");
    assert_eq!(app.view.composer.cursor, 2);
}

#[test]
fn incoming_message_counts_as_unread_and_notifies() {
    let mut app = bootstrapped();
    let effect = app.apply(Input::Adapter(AdapterEvent::MessageAdded {
        chat: ChatId(1),
        message: Box::new(message(11, MessageDirection::Incoming, "are you there?")),
    }));
    assert!(matches!(effect, Some(Effect::Notify { chat: ChatId(1), .. })));
    assert_eq!(app.all_chats[0].unread, 1);
    assert_eq!(app.all_chats[0].preview, "are you there?");
    assert_eq!(app.view.messages.len(), 2);
}

#[test]
fn message_in_another_chat_does_not_touch_the_shown_history() {
    let mut app = bootstrapped();
    app.apply(Input::Adapter(AdapterEvent::MessageAdded {
        chat: ChatId(2),
        message: Box::new(message(20, MessageDirection::Incoming, "elsewhere")),
    }));
    assert_eq!(app.view.messages.len(), 1);
    assert_eq!(app.all_chats[1].unread, 1);
    assert_eq!(app.all_chats[0].unread, 0);
}

#[test]
fn deleted_messages_leave_the_shown_history() {
    let mut app = bootstrapped();
    app.apply(Input::Adapter(AdapterEvent::MessagesDeleted {
        chat: Some(ChatId(1)),
        ids: vec![MessageId(10)],
    }));
    assert!(app.view.messages.is_empty());
}

#[test]
fn read_receipt_marks_outgoing_messages_read() {
    let mut app = bootstrapped();
    app.apply(Input::Adapter(AdapterEvent::MessageAdded {
        chat: ChatId(1),
        message: Box::new(message(12, MessageDirection::Outgoing, "mine")),
    }));
    app.apply(Input::Adapter(AdapterEvent::HistoryRead {
        chat: ChatId(1),
        max_id: MessageId(12),
        outgoing: true,
        unread: Some(0),
    }));
    let mine = app.view.messages.iter().find(|m| m.id == MessageId(12)).unwrap();
    assert_eq!(mine.delivery, DeliveryState::Read);
    let theirs = app.view.messages.iter().find(|m| m.id == MessageId(10)).unwrap();
    assert_eq!(theirs.delivery, DeliveryState::Sent);
}

#[test]
fn connection_failure_is_reported() {
    let mut app = bootstrapped();
    app.apply(Input::Adapter(AdapterEvent::ConnectionFailed("offline".to_owned())));
    assert_eq!(app.view.connection, ConnectionState::ReconnectCooldown);
    assert_eq!(app.view.notice.as_deref(), Some("offline"));
}

#[test]
fn finished_download_is_announced_once_per_message() {
    let mut app = bootstrapped();
    let download = |id: i64| DownloadView {
        id,
        chat: ChatId(1),
        message: MessageId(10),
        path: "/tmp/a.png".to_owned(),
        reveal_only: true,
        has_preview: false,
    };
    app.apply(Input::Adapter(AdapterEvent::DownloadReady { chat: ChatId(1), download: download(1) }));
    assert_eq!(
        app.view.notice.as_deref(),
        Some("Downloaded to /tmp/a.png Launchable content will only be revealed in its folder.")
    );
    app.apply(Input::Adapter(AdapterEvent::DownloadReady { chat: ChatId(1), download: download(2) }));
    assert_eq!(app.view.downloads.len(), 1);
    assert_eq!(app.view.downloads[0].id, 2);
}

#[test]
fn typing_and_erasing_go_to_the_search_query() {
    let mut app = bootstrapped();
    app.view.search = Some(SearchView { scope: SearchScope::Account, query: String::new() });
    app.apply(Input::Intent(Intent::Insert("ab".to_owned())));
    assert_eq!(app.view.search.as_ref().unwrap().query, "ab");
    app.apply(Input::Intent(Intent::Backspace));
    assert_eq!(app.view.search.as_ref().unwrap().query, "a");
    assert_eq!(app.view.composer.text, "hi");
}

#[test]
fn typing_in_the_composer_saves_the_draft() {
    let mut app = bootstrapped();
    app.view.focus = Focus::Composer;
    let effect = app.apply(Input::Intent(Intent::Insert("!".to_owned())));
    assert_eq!(app.view.composer.text, "hi!");
    match effect {
        Some(Effect::SaveDraft { chat, text, .. }) => {
            assert_eq!(chat, ChatId(1));
            assert_eq!(text, "hi!");
        }
        _ => panic!("typing in the composer saves the draft"),
    }
    app.apply(Input::Intent(Intent::Backspace));
    assert_eq!(app.view.composer.text, "hi");
}

#[test]
fn discovered_chat_is_listed_once() {
    let mut app = bootstrapped();
    app.apply(Input::Adapter(AdapterEvent::ChatDiscovered { chat: chat(3, "Third") }));
    app.apply(Input::Adapter(AdapterEvent::ChatDiscovered { chat: chat(3, "Third") }));
    assert_eq!(app.all_chats.len(), 3);
    assert_eq!(app.view.chats.len(), 3);
    assert_eq!(app.view.active_chat, Some(0));
}

#[test]
fn replaced_message_updates_history_and_preview() {
    let mut app = bootstrapped();
    app.apply(Input::Adapter(AdapterEvent::MessageUpdated {
        chat: ChatId(1),
        message: Box::new(message(10, MessageDirection::Incoming, "hello, edited")),
    }));
    assert_eq!(app.view.messages.len(), 1);
    assert_eq!(app.view.messages[0].body, "hello, edited");
    assert_eq!(app.all_chats[0].preview, "hello, edited");
    assert_eq!(app.all_chats[0].preview_sender.as_deref(), Some("Ada"));
}

#[test]
fn local_copy_is_replaced_by_the_sent_message() {
    let mut app = bootstrapped();
    let mut local = message(-1, MessageDirection::Outgoing, "on its way");
    local.delivery = DeliveryState::Pending;
    app.apply(Input::Adapter(AdapterEvent::MessageAdded { chat: ChatId(1), message: Box::new(local) }));
    assert_eq!(app.view.messages.len(), 2);
    let effect = app.apply(Input::Adapter(AdapterEvent::MessageAdded {
        chat: ChatId(1),
        message: Box::new(message(13, MessageDirection::Outgoing, "on its way")),
    }));
    assert!(effect.is_none());
    assert_eq!(app.view.messages.len(), 2);
    assert_eq!(app.view.messages[1].id, MessageId(13));
}

fn fresh_bootstrap() -> Bootstrap {
    Bootstrap {
        connection: ConnectionState::Connected,
        account_name: "Ada".to_owned(),
        folders: vec![FolderView { id: 0, title: "All".to_owned(), unread: 0 }],
        chats: vec![chat(1, "First"), chat(2, "Second")],
        drafts: Vec::new(),
        histories: Vec::new(),
        messages: vec![message(10, MessageDirection::Incoming, "hello")],
    }
}

#[test]
fn reconnection_keeps_drafts_and_unsent_messages() {
    let mut app = bootstrapped();
    let mut failed = message(-3, MessageDirection::Outgoing, "retry me");
    failed.delivery = DeliveryState::Failed;
    app.apply(Input::Adapter(AdapterEvent::MessageAdded { chat: ChatId(1), message: Box::new(failed) }));
    app.view.focus = Focus::Composer;
    app.apply(Input::Intent(Intent::Insert(" there".to_owned())));
    app.save_active_draft();
    app.apply(Input::Adapter(AdapterEvent::ConnectionRestored(fresh_bootstrap())));
    assert_eq!(app.view.connection, ConnectionState::Connected);
    assert_eq!(app.view.focus, Focus::Composer);
    assert_eq!(app.view.composer.text, "hi there");
    assert_eq!(app.view.messages.len(), 2);
    assert_eq!(app.view.messages[1].id, MessageId(-3));
    assert_eq!(app.view.messages[1].delivery, DeliveryState::Failed);
    assert!(app.view.notice.is_none());
}

#[test]
fn connected_bootstrap_starts_loading_in_the_background() {
    let mut app = App::empty();
    let effect = app.apply(Input::Adapter(AdapterEvent::Bootstrap(fresh_bootstrap())));
    assert!(matches!(effect, Some(Effect::LoadChat { chat: ChatId(2), .. })));
    assert_eq!(app.view.connection, ConnectionState::Connected);
}

#[test]
fn archiving_the_shown_chat_opens_the_next_one() {
    let mut app = bootstrapped();
    let effect = app.apply(Input::Adapter(AdapterEvent::ChatArchiveChanged {
        chat: ChatId(1),
        archived: true,
    }));
    assert_eq!(app.all_chats[0].folders, vec![-1]);
    assert_eq!(app.view.chats.len(), 1);
    assert_eq!(app.view.chats[0].id, ChatId(2));
    assert!(matches!(effect, Some(Effect::LoadChat { chat: ChatId(2), .. })));
    app.apply(Input::Adapter(AdapterEvent::ChatArchiveChanged { chat: ChatId(1), archived: false }));
    assert_eq!(app.all_chats[0].folders, vec![0]);
    assert_eq!(app.view.chats.len(), 2);
}

#[test]
fn folder_membership_keeps_folders_sorted() {
    let mut app = bootstrapped();
    app.apply(Input::Adapter(AdapterEvent::FolderMembershipChanged {
        chat: ChatId(2),
        folder: 9,
        included: true,
    }));
    app.apply(Input::Adapter(AdapterEvent::FolderMembershipChanged {
        chat: ChatId(2),
        folder: 4,
        included: true,
    }));
    assert_eq!(app.all_chats[1].folders, vec![0, 4, 9]);
    app.apply(Input::Adapter(AdapterEvent::FolderMembershipChanged {
        chat: ChatId(2),
        folder: 9,
        included: false,
    }));
    assert_eq!(app.all_chats[1].folders, vec![0, 4]);
}

#[test]
fn unread_counts_add_up_per_folder() {
    let mut app = bootstrapped();
    app.apply(Input::Adapter(AdapterEvent::HistoryRead {
        chat: ChatId(2),
        max_id: MessageId(1),
        outgoing: false,
        unread: Some(5),
    }));
    app.apply(Input::Adapter(AdapterEvent::HistoryRead {
        chat: ChatId(1),
        max_id: MessageId(1),
        outgoing: false,
        unread: Some(u32::MAX),
    }));
    assert_eq!(app.view.folders[0].unread, u32::MAX);
    app.apply(Input::Adapter(AdapterEvent::HistoryRead {
        chat: ChatId(1),
        max_id: MessageId(1),
        outgoing: false,
        unread: Some(2),
    }));
    assert_eq!(app.view.folders[0].unread, 7);
    assert_eq!(app.view.chats[1].unread, 5);
}
