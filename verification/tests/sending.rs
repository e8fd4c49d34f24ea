use lib::app::App;
use lib::ids::{ChatId, HistoryKey, MessageId};
use lib::protocol::{AdapterEvent, Bootstrap, DraftView, Input, Intent};
use lib::view::Action;
use lib::view::{
    MediaCard, MediaKind, TextEntity,
    AttachmentView, ChatView, ConnectionState, DeliveryState, Effect, FolderView, Focus, MessageDetails,
    MessageDirection, MessageView,
};

fn chat(id: i64, title: &str) -> ChatView {
    ChatView {
        id: ChatId(id),
        title: title.to_owned(),
        folders: vec![0],
        unread: 0,
        status: String::new(),
        preview: String::new(),
        preview_sender: None,
        preview_sender_peer: None,
        preview_timestamp: String::new(),
        can_pin_messages: false,
    }
}

fn message(id: i64, direction: MessageDirection, body: &str) -> MessageView {
    MessageView {
        id: MessageId(id),
        sender: "Ada".to_owned(),
        body: body.to_owned(),
        timestamp: "12:00".to_owned(),
        direction,
        delivery: DeliveryState::Sent,
        reply_to: None,
        details: MessageDetails {
            thread_root: None,
            sender_peer: None,
            pinned: false,
            edited: false,
            media: None,
            reactions: Vec::new(),
            link: None,
            entities: Vec::new(),
        },
    }
}

fn bootstrapped() -> App {
    let mut app = App::empty();
    let bootstrap = Bootstrap {
        connection: ConnectionState::Connecting,
        account_name: "Ada".to_owned(),
        folders: vec![FolderView { id: 0, title: "All".to_owned(), unread: 0 }],
        chats: vec![chat(1, "First"), chat(2, "Second")],
        drafts: vec![DraftView {
            chat: ChatId(1),
            thread_root: None,
            text: "hi".to_owned(),
            reply_to: None,
        }],
        histories: Vec::new(),
        messages: vec![message(10, MessageDirection::Incoming, "hello")],
    };
    let effect = app.apply(Input::Adapter(AdapterEvent::Bootstrap(bootstrap)));
    assert!(effect.is_none());
    app
}


#[test]
fn sending_keeps_a_pending_copy_and_empties_the_composer() {
    let mut app = bootstrapped();
    let effect = app.send_message("hi".to_owned(), Vec::new());
    match effect {
        Some(Effect::SendMessage { chat, text, link_preview, local_id, thread_root, .. }) => {
            assert_eq!(chat, ChatId(1));
            assert_eq!(text, "hi");
            assert!(link_preview);
            assert_eq!(local_id, MessageId(-1));
            assert_eq!(thread_root, None);
        }
        _ => panic!("expected a send"),
    }
    assert_eq!(app.next_local_message_id, -1);
    assert!(app.view.composer.text.is_empty());
    assert_eq!(app.view.focus, Focus::Composer);
    assert_eq!(app.view.messages.len(), 2);
    assert_eq!(app.view.messages[1].id, MessageId(-1));
    assert_eq!(app.view.messages[1].sender, "You");
    assert_eq!(app.view.messages[1].timestamp, "now");
    assert_eq!(app.view.messages[1].delivery, DeliveryState::Pending);
    assert!(!app.drafts.contains(&HistoryKey::root(ChatId(1))));
    assert!(app.pending_drafts.contains(&MessageId(-1)));
}

#[test]
fn sending_nothing_but_white_space_does_nothing() {
    let mut app = bootstrapped();
    app.view.composer.text = "  \n ".to_owned();
    assert!(app.send_message(String::new(), Vec::new()).is_none());
    assert_eq!(app.next_local_message_id, 0);
    assert_eq!(app.view.messages.len(), 1);
}

#[test]
fn acknowledged_send_is_marked_sent() {
    let mut app = bootstrapped();
    app.send_message("hi".to_owned(), Vec::new());
    app.view.notice = Some("slow".to_owned());
    let effect = app.apply(Input::Adapter(AdapterEvent::MessageAcknowledged {
        chat: ChatId(1),
        local_id: MessageId(-1),
    }));
    assert!(effect.is_none());
    assert_eq!(app.view.messages[1].delivery, DeliveryState::Sent);
    assert!(!app.pending_drafts.contains(&MessageId(-1)));
    assert!(app.view.notice.is_none());
}

#[test]
fn refused_send_gives_the_composer_back() {
    let mut app = bootstrapped();
    app.send_message("hi".to_owned(), Vec::new());
    let effect = app.apply(Input::Adapter(AdapterEvent::MessageFailed {
        chat: ChatId(1),
        local_id: MessageId(-1),
        thread_root: None,
        saved_peer: None,
        text: "hi".to_owned(),
        reason: "flood wait".to_owned(),
    }));
    match effect {
        Some(Effect::SaveDraft { chat, text, .. }) => {
            assert_eq!(chat, ChatId(1));
            assert_eq!(text, "hi");
        }
        _ => panic!("expected the draft to be saved"),
    }
    assert_eq!(app.view.messages[1].delivery, DeliveryState::Failed);
    assert_eq!(app.view.composer.text, "hi");
    assert_eq!(app.view.composer.cursor, 2);
    assert_eq!(app.view.notice.as_deref(), Some("flood wait"));
    assert!(!app.pending_drafts.contains(&MessageId(-1)));
}

#[test]
fn refused_send_without_a_kept_composer_uses_its_text() {
    let mut app = bootstrapped();
    app.view.composer.text = String::new();
    let effect = app.apply(Input::Adapter(AdapterEvent::MessageFailed {
        chat: ChatId(2),
        local_id: MessageId(-7),
        thread_root: None,
        saved_peer: None,
        text: "héllo".to_owned(),
        reason: "refused".to_owned(),
    }));
    assert!(matches!(effect, Some(Effect::SaveDraft { chat: ChatId(2), .. })));
    let draft = app.drafts.get(&HistoryKey::root(ChatId(2))).unwrap();
    assert_eq!(draft.text, "héllo");
    assert_eq!(draft.cursor, 6);
    assert!(app.view.composer.text.is_empty());
}

#[test]
fn refused_send_keeps_a_newer_draft() {
    let mut app = bootstrapped();
    app.send_message("hi".to_owned(), Vec::new());
    app.view.composer.text = "newer".to_owned();
    app.view.composer.cursor = 5;
    app.drafts.insert(HistoryKey::root(ChatId(1)), app.view.composer.clone());
    let effect = app.apply(Input::Adapter(AdapterEvent::MessageFailed {
        chat: ChatId(1),
        local_id: MessageId(-1),
        thread_root: None,
        saved_peer: None,
        text: "hi".to_owned(),
        reason: "refused".to_owned(),
    }));
    assert!(matches!(effect, Some(Effect::SaveDraft { ref text, .. }) if text == "newer"));
    assert_eq!(app.view.composer.text, "newer");
}

#[test]
fn saving_an_edit_sends_the_edited_message() {
    let mut app = bootstrapped();
    app.view.messages[0].direction = MessageDirection::Outgoing;
    app.view.composer.text = "fixed  ".to_owned();
    app.view.composer.editing = Some(MessageId(10));
    let effect = app.send_message("fixed".to_owned(), Vec::new());
    match effect {
        Some(Effect::EditMessage { chat, message, draft_text, attachments, .. }) => {
            assert_eq!(chat, ChatId(1));
            assert_eq!(message.id, MessageId(10));
            assert_eq!(message.body, "fixed");
            assert!(message.details.edited);
            assert_eq!(draft_text, "fixed");
            assert!(attachments.is_empty());
        }
        _ => panic!("expected an edit"),
    }
    assert!(app.view.composer.editing.is_none());
    assert!(app.view.composer.text.is_empty());
}

#[test]
fn muted_chats_are_remembered_until_unmuted() {
    let mut app = bootstrapped();
    app.apply(Input::Adapter(AdapterEvent::ChatMuteChanged { chat: ChatId(2), muted: true }));
    assert!(app.muted_chats.contains(&ChatId(2)));
    app.apply(Input::Adapter(AdapterEvent::ChatMuteChanged { chat: ChatId(2), muted: false }));
    assert!(!app.muted_chats.contains(&ChatId(2)));
}

#[test]
fn clipboard_for_the_shown_history_goes_into_the_composer() {
    let mut app = bootstrapped();
    app.view.composer.cursor = 2;
    let effect = app.apply(Input::Adapter(AdapterEvent::ClipboardReady {
        chat: ChatId(1),
        thread_root: None,
        text: Some(" there".to_owned()),
        attachments: vec![AttachmentView { id: 5, name: "a.png".to_owned() }],
    }));
    assert_eq!(app.view.composer.text, "hi there");
    assert_eq!(app.view.composer.cursor, 8);
    assert_eq!(app.view.composer.attachments.len(), 1);
    assert_eq!(app.view.focus, Focus::Composer);
    assert!(matches!(effect, Some(Effect::SaveDraft { ref text, .. }) if text == "hi there"));
}

#[test]
fn clipboard_for_another_history_goes_into_its_draft() {
    let mut app = bootstrapped();
    let effect = app.apply(Input::Adapter(AdapterEvent::ClipboardReady {
        chat: ChatId(2),
        thread_root: None,
        text: Some("later".to_owned()),
        attachments: Vec::new(),
    }));
    let draft = app.drafts.get(&HistoryKey::root(ChatId(2))).unwrap();
    assert_eq!(draft.text, "later");
    assert_eq!(draft.cursor, 5);
    assert!(matches!(effect, Some(Effect::SaveDraft { chat: ChatId(2), ref text, .. }) if text == "later"));
    assert_eq!(app.view.composer.text, "hi");
}

#[test]
fn reconnection_drops_the_draft_of_a_history_with_a_message_in_flight() {
    let mut app = bootstrapped();
    app.send_message("hi".to_owned(), Vec::new());
    app.drafts.insert(HistoryKey::root(ChatId(1)), app.view.composer.clone());
    let bootstrap = Bootstrap {
        connection: ConnectionState::Connected,
        account_name: "Ada".to_owned(),
        folders: vec![FolderView { id: 0, title: "All".to_owned(), unread: 0 }],
        chats: vec![chat(1, "First"), chat(2, "Second")],
        drafts: Vec::new(),
        histories: Vec::new(),
        messages: Vec::new(),
    };
    app.apply(Input::Adapter(AdapterEvent::ConnectionRestored(bootstrap)));
    assert!(!app.drafts.contains(&HistoryKey::root(ChatId(1))));
    assert!(app.view.messages.iter().any(|m| m.id == MessageId(-1)));
}

#[test]
fn send_action_asks_for_the_trimmed_text_to_be_formatted() {
    let mut app = bootstrapped();
    app.view.focus = Focus::Composer;
    app.view.composer.text = "*hi*  ".to_owned();
    let effect = app.apply(Input::Intent(Intent::Action(Action::Send)));
    assert!(matches!(effect, Some(Effect::FormatDraft { ref text }) if text == "*hi*"));
    assert_eq!(app.view.messages.len(), 1);
    let effect = app.apply(Input::Adapter(AdapterEvent::DraftFormatted { formatted: "hi".to_owned(), entities: Vec::new() }));
    assert!(matches!(effect, Some(Effect::SendMessage { ref text, local_id: MessageId(-1), .. }) if text == "hi"));
    assert_eq!(app.view.messages.len(), 2);
    assert!(app.view.composer.text.is_empty());
}

#[test]
fn send_action_with_an_empty_composer_asks_for_nothing() {
    let mut app = bootstrapped();
    app.view.focus = Focus::Composer;
    app.view.composer.text = " ".to_owned();
    assert!(app.apply(Input::Intent(Intent::Action(Action::Send))).is_none());
}

#[test]
fn save_edit_action_asks_for_the_edit_to_be_formatted() {
    let mut app = bootstrapped();
    app.view.focus = Focus::Composer;
    app.view.composer.text = "fixed".to_owned();
    app.view.composer.editing = Some(MessageId(10));
    let effect = app.apply(Input::Intent(Intent::Action(Action::SaveEdit)));
    assert!(matches!(effect, Some(Effect::FormatDraft { ref text }) if text == "fixed"));
    let effect = app.apply(Input::Adapter(AdapterEvent::DraftFormatted { formatted: "fixed".to_owned(), entities: Vec::new() }));
    assert!(matches!(effect, Some(Effect::EditMessage { ref message, .. }) if message.body == "fixed"));
    app.view.composer.editing = None;
    assert!(app.apply(Input::Intent(Intent::Action(Action::SaveEdit))).is_none());
}

#[test]
fn cancel_closes_the_poll_composer() {
    let mut app = bootstrapped();
    app.view.focus = Focus::Composer;
    app.view.poll_composer = true;
    app.apply(Input::Intent(Intent::Action(Action::Cancel)));
    assert!(!app.view.poll_composer);
}

fn bold(offset: u32, length: u32) -> TextEntity {
    TextEntity { kind: "bold".to_owned(), offset, length }
}

#[test]
fn formatted_entities_go_with_the_sent_message() {
    let mut app = bootstrapped();
    let effect = app.send_message("hi".to_owned(), vec![bold(0, 2)]);
    match effect {
        Some(Effect::SendMessage { entities, .. }) => {
            assert_eq!(entities.len(), 1);
            assert_eq!(entities[0].kind, "bold");
        }
        _ => panic!("expected a send"),
    }
    assert_eq!(app.view.messages[1].details.entities.len(), 1);
    assert_eq!(app.view.messages[1].details.entities[0].length, 2);
}

#[test]
fn saved_edit_carries_its_entities() {
    let mut app = bootstrapped();
    app.view.composer.text = "fixed".to_owned();
    app.view.composer.editing = Some(MessageId(10));
    let effect = app.save_edit("fixed".to_owned(), vec![bold(1, 3)]);
    assert!(matches!(effect, Some(Effect::EditMessage { ref message, .. }) if message.details.entities.len() == 1 && message.details.entities[0].offset == 1));
}

#[test]
fn acknowledged_edit_takes_its_text_and_entities() {
    let mut app = bootstrapped();
    app.apply_edit_acknowledgement(ChatId(1), MessageId(10), "new".to_owned(), vec![bold(0, 3)]);
    assert_eq!(app.view.messages[0].body, "new");
    assert!(app.view.messages[0].details.edited);
    assert_eq!(app.view.messages[0].details.entities.len(), 1);
}

#[test]
fn refused_send_in_a_saved_messages_dialog_goes_back_to_that_dialog() {
    let mut app = bootstrapped();
    let effect = app.apply(Input::Adapter(AdapterEvent::MessageFailed {
        chat: ChatId(1),
        local_id: MessageId(-4),
        thread_root: None,
        saved_peer: Some(ChatId(5)),
        text: "note".to_owned(),
        reason: "refused".to_owned(),
    }));
    assert!(matches!(effect, Some(Effect::SaveDraft { chat: ChatId(1), .. })));
    assert_eq!(app.drafts.get(&HistoryKey::saved(ChatId(1), ChatId(5))).unwrap().text, "note");
    assert!(!app.drafts.get(&HistoryKey::root(ChatId(1))).is_some_and(|d| d.text == "note"));
}

#[test]
fn editing_a_photo_whose_body_stands_in_for_it_opens_an_empty_composer() {
    let mut app = bootstrapped();
    app.view.messages[0].direction = MessageDirection::Outgoing;
    app.view.messages[0].body = "[Photo]".to_owned();
    app.view.messages[0].details.media = Some(MediaCard {
        kind: MediaKind::Photo,
        title: "photo".to_owned(),
        remote_id: Some(3),
        poll: None,
        fallback_body: true,
    });
    app.view.active_message = Some(0);
    app.begin_edit();
    assert_eq!(app.view.composer.text, "");
    assert_eq!(app.view.composer.cursor, 0);
    assert_eq!(app.view.composer.editing, Some(MessageId(10)));
    if let Some(media) = app.view.messages[0].details.media.as_mut() {
        media.fallback_body = false;
    }
    app.view.active_message = Some(0);
    app.begin_edit();
    assert_eq!(app.view.composer.text, "[Photo]");
}
