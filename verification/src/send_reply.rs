use vstd::prelude::*;

use crate::ids::{ChatId, MessageId};
use crate::protocol::{successful_send_event, AdapterEvent};
use crate::view::MessageView;

verus! {

/// What the backend does for a queued send before it is answered, in order.
#[derive(Debug, PartialEq, Eq)]
pub enum SendAction {
    /// Store the message as pending.
    StorePending,
    /// Save the history's draft as empty.
    ClearDraft,
    /// Send the message with this idempotency token.
    Send { random_id: i64 },
}

/// The opening of a send: store the message as pending, empty the history's saved draft, then
/// send it with its idempotency token. Every queued send carries a token.
pub fn send_opening(random_id: Option<i64>) -> (plan: Vec<SendAction>)
    requires
        random_id is Some,
    ensures
        plan@ == seq![SendAction::StorePending, SendAction::ClearDraft, SendAction::Send { random_id: random_id.unwrap() }],
{
    let token = match random_id {
        Some(t) => t,
        None => 0,
    };
    let plan = vec![SendAction::StorePending, SendAction::ClearDraft, SendAction::Send { random_id: token }];
    proof {
        assert(plan@ =~= seq![SendAction::StorePending, SendAction::ClearDraft, SendAction::Send { random_id: token }]);
    }
    plan
}

/// What the Telegram side answered to a message send.
pub enum SendReply {
    /// The server stored the message.
    Delivered(MessageView),
    /// The send failed on a broken connection (what the Telegram client reports as a connection
    /// failure).
    ConnectionLost,
    /// The send failed otherwise, for the given reason (the error's text).
    Refused(String),
}

/// What the backend does once a send is answered (after `send_opening`).
pub enum SendStep {
    /// Nothing is stored: the connection error goes up, and the send is retried once the
    /// connection is back.
    Reconnect,
    /// The message is stored as sent under the server's id, and the event is reported.
    Acknowledge { server_id: MessageId, event: AdapterEvent },
    /// The message is stored as failed, and the refusal is reported.
    MarkFailed { event: AdapterEvent },
}

/// The step that follows the answer to a send of `text` (local id `local_id`) to `chat`.
pub fn send_step(
    chat: ChatId,
    local_id: MessageId,
    thread_root: Option<MessageId>,
    saved_peer: Option<ChatId>,
    text: String,
    reply: SendReply,
) -> (step: SendStep)
    ensures
        match reply {
            SendReply::Delivered(m) => step matches SendStep::Acknowledge {
                server_id,
                event: AdapterEvent::MessageAdded { chat: c, message: added },
            } && server_id == m.id && c == chat && *added == m,
            SendReply::ConnectionLost => step is Reconnect,
            SendReply::Refused(reason) => step matches SendStep::MarkFailed {
                event: AdapterEvent::MessageFailed {
                    chat: c,
                    local_id: l,
                    thread_root: t,
                    saved_peer: p,
                    text: x,
                    reason: r,
                },
            } && c == chat && l == local_id && t == thread_root && p == saved_peer && x@ == text@ && r@ == reason@,
        },
{
    match reply {
        SendReply::Delivered(message) => {
            let server_id = message.id;
            SendStep::Acknowledge { server_id, event: successful_send_event(chat, message) }
        },
        SendReply::ConnectionLost => SendStep::Reconnect,
        SendReply::Refused(reason) => SendStep::MarkFailed {
            event: AdapterEvent::MessageFailed { chat, local_id, thread_root, saved_peer, text, reason },
        },
    }
}

} // verus!
