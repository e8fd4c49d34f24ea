use lib::ids::{ChatId, MessageId};
use lib::protocol::AdapterEvent;
use lib::send_reply::{send_opening, send_step, SendAction, SendReply, SendStep};
use lib::view::{DeliveryState, MessageDetails, MessageDirection, MessageView};

fn stored(id: i64) -> MessageView {
    MessageView {
        id: MessageId(id),
        sender: "You".to_owned(),
        body: "hello".to_owned(),
        timestamp: "12:00".to_owned(),
        direction: MessageDirection::Outgoing,
        delivery: DeliveryState::Sent,
        reply_to: None,
        details: MessageDetails {
            thread_root: None,
            sender_peer: None,
            pinned: false,
            edited: false,
            media: None,
            reactions: Vec::new(),
            link: None,
            entities: Vec::new(),
        },
    }
}

#[test]
fn delivered_send_is_acknowledged_under_the_server_id() {
    let step = send_step(ChatId(10), MessageId(-1), None, None, "hello".to_owned(), SendReply::Delivered(stored(41)));
    match step {
        SendStep::Acknowledge { server_id, event: AdapterEvent::MessageAdded { chat, message } } => {
            assert_eq!(server_id, MessageId(41));
            assert_eq!(chat, ChatId(10));
            assert_eq!(message.id, MessageId(41));
        }
        _ => panic!("expected an acknowledgement"),
    }
}

#[test]
fn lost_connection_stores_nothing() {
    let step = send_step(ChatId(10), MessageId(-1), None, None, "hello".to_owned(), SendReply::ConnectionLost);
    assert!(matches!(step, SendStep::Reconnect));
}

#[test]
fn refused_send_is_reported_with_its_reason() {
    let step = send_step(
        ChatId(10),
        MessageId(-3),
        Some(MessageId(7)),
        Some(ChatId(99)),
        "hello".to_owned(),
        SendReply::Refused("too long".to_owned()),
    );
    match step {
        SendStep::MarkFailed {
            event: AdapterEvent::MessageFailed { chat, local_id, thread_root, saved_peer, text, reason },
        } => {
            assert_eq!(chat, ChatId(10));
            assert_eq!(local_id, MessageId(-3));
            assert_eq!(thread_root, Some(MessageId(7)));
            assert_eq!(saved_peer, Some(ChatId(99)));
            assert_eq!(text, "hello");
            assert_eq!(reason, "too long");
        }
        _ => panic!("expected a failure"),
    }
}

#[test]
fn send_stores_pending_clears_the_draft_then_sends_with_its_token() {
    assert_eq!(
        send_opening(Some(77)),
        vec![SendAction::StorePending, SendAction::ClearDraft, SendAction::Send { random_id: 77 }]
    );
}
