use lib::ids::{ChatId, MessageId};
use lib::protocol::{successful_send_event, AdapterEvent};
use lib::view::{DeliveryState, MessageDetails, MessageDirection, MessageView};

fn sent_message(id: i64, text: &str) -> MessageView {
    MessageView {
        id: MessageId(id),
        sender: "You".to_owned(),
        body: text.to_owned(),
        timestamp: "now".to_owned(),
        direction: MessageDirection::Outgoing,
        delivery: DeliveryState::Sent,
        reply_to: None,
        details: MessageDetails {
            thread_root: None,
            sender_peer: None,
            pinned: false,
            edited: false,
            media: None,
            reactions: Vec::new(),
            link: None,
            entities: Vec::new(),
        },
    }
}

#[test]
fn successful_send_keeps_the_server_message_identity() {
    let event = successful_send_event(ChatId(10), sent_message(41, "hello"));

    assert!(matches!(
        event,
        AdapterEvent::MessageAdded { chat: ChatId(10), message }
            if message.id == MessageId(41)
    ));
}

#[test]
fn successful_send_keeps_the_text() {
    let event = successful_send_event(ChatId(3), sent_message(7, "hi there"));
    match event {
        AdapterEvent::MessageAdded { chat, message } => {
            assert_eq!(chat, ChatId(3));
            assert_eq!(message.body, "hi there");
            assert_eq!(message.delivery, DeliveryState::Sent);
        }
        _ => panic!("a sent message is reported as added"),
    }
}
