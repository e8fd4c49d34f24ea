use vstd::prelude::*;

verus! {

/// Identity of a chat (a peer) in the account.
#[derive(Clone, Copy, Debug, PartialEq, Eq, Structural)]
pub struct ChatId(pub i64);

/// Identity of a message; positive ids come from the server, non-positive ones are local.
#[derive(Clone, Copy, Debug, PartialEq, Eq, Structural)]
pub struct MessageId(pub i64);

/// Identity of an avatar photo.
#[derive(Clone, Copy, Debug, PartialEq, Eq, Structural)]
pub struct AvatarId(pub i64);

/// One avatar of one peer.
#[derive(Clone, Copy, Debug, PartialEq, Eq, Structural)]
pub struct AvatarRef {
    pub peer: ChatId,
    pub id: AvatarId,
}

/// The media preview of one message.
#[derive(Clone, Copy, Debug, PartialEq, Eq, Structural)]
pub struct PreviewKey {
    pub chat: ChatId,
    pub message: MessageId,
}

/// Names one history: the root history of a chat, a thread of it, or a Saved Messages origin.
#[derive(Clone, Copy, Debug, PartialEq, Eq, Structural)]
pub struct HistoryKey {
    pub chat: ChatId,
    pub thread: Option<MessageId>,
    /// Saved Messages origin. Never set together with `thread`.
    pub saved_peer: Option<ChatId>,
}

impl HistoryKey {
    pub fn root(chat: ChatId) -> (key: Self)
        ensures
            key == (HistoryKey { chat, thread: None, saved_peer: None }),
    {
        HistoryKey { chat, thread: None, saved_peer: None }
    }

    pub fn thread(chat: ChatId, root: MessageId) -> (key: Self)
        ensures
            key == (HistoryKey { chat, thread: Some(root), saved_peer: None }),
    {
        HistoryKey { chat, thread: Some(root), saved_peer: None }
    }

    pub fn from_thread(chat: ChatId, thread: Option<MessageId>) -> (key: Self)
        ensures
            key == (HistoryKey { chat, thread, saved_peer: None }),
    {
        HistoryKey { chat, thread, saved_peer: None }
    }

    pub fn saved(chat: ChatId, peer: ChatId) -> (key: Self)
        ensures
            key == (HistoryKey { chat, thread: None, saved_peer: Some(peer) }),
    {
        HistoryKey { chat, thread: None, saved_peer: Some(peer) }
    }
}

impl DeepView for AvatarId {
    type V = AvatarId;

    open spec fn deep_view(&self) -> AvatarId {
        *self
    }
}

/// Exact equality on a key type.
pub trait KeyEq: Sized + Copy {
    fn same(&self, other: &Self) -> (r: bool)
        ensures
            r == (*self == *other),
    ;
}

impl KeyEq for ChatId {
    fn same(&self, other: &Self) -> (r: bool) {
        self.0 == other.0
    }
}

impl KeyEq for MessageId {
    fn same(&self, other: &Self) -> (r: bool) {
        self.0 == other.0
    }
}

impl KeyEq for AvatarRef {
    fn same(&self, other: &Self) -> (r: bool) {
        self.peer.0 == other.peer.0 && self.id.0 == other.id.0
    }
}

pub fn same_message(a: Option<MessageId>, b: Option<MessageId>) -> (r: bool)
    ensures
        r == (a == b),
{
    match (a, b) {
        (Some(x), Some(y)) => x.0 == y.0,
        (None, None) => true,
        _ => false,
    }
}

pub fn same_chat(a: Option<ChatId>, b: Option<ChatId>) -> (r: bool)
    ensures
        r == (a == b),
{
    match (a, b) {
        (Some(x), Some(y)) => x.0 == y.0,
        (None, None) => true,
        _ => false,
    }
}

impl KeyEq for HistoryKey {
    fn same(&self, other: &Self) -> (r: bool) {
        self.chat.0 == other.chat.0 && same_message(self.thread, other.thread) && same_chat(
            self.saved_peer,
            other.saved_peer,
        )
    }
}

} // verus!
