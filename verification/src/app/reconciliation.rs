use vstd::prelude::*;

use super::{message_has_id, App, AppModel};
use crate::ids::{ChatId, HistoryKey, MessageId};
use crate::keyed::{lemma_entries_mapped, KeyList};
use crate::seqs::{first_index, lemma_first_index_is, lemma_first_index_none};
use crate::view::{clone_entities, DeliveryState, MediaCard, MediaModel, MessageDirection, MessageModel, MessageView, TextEntity, TextEntityModel};

verus! {

broadcast use vstd::seq_lib::group_seq_properties;

/// A change applied to the stored histories of the account.
pub enum HistoryOp {
    /// Messages with these ids leave the histories of `chat` (of every chat when `None`).
    Delete { chat: Option<ChatId>, ids: Vec<MessageId> },
    /// The other side read the outgoing messages of `chat` up to `max_id`.
    Read { chat: ChatId, max_id: MessageId },
    /// The delivery state of one message changed.
    Delivery { chat: ChatId, message: MessageId, delivery: DeliveryState },
    /// A locally sent message got its server identity.
    Acknowledge { chat: ChatId, local_id: MessageId, server_id: MessageId },
    /// A message's media changed.
    Media { chat: ChatId, message: MessageId, media: MediaCard },
    /// A message's text and its formatting changed.
    Edited { chat: ChatId, message: MessageId, text: String, entities: Vec<TextEntity> },
}

/// The model of a history change: strings as `Seq<char>`, id lists as `Seq`.
pub enum HistoryOpModel {
    Delete { chat: Option<ChatId>, ids: Seq<MessageId> },
    Read { chat: ChatId, max_id: MessageId },
    Delivery { chat: ChatId, message: MessageId, delivery: DeliveryState },
    Acknowledge { chat: ChatId, local_id: MessageId, server_id: MessageId },
    Media { chat: ChatId, message: MessageId, media: MediaModel },
    Edited { chat: ChatId, message: MessageId, text: Seq<char>, entities: Seq<TextEntityModel> },
}

impl DeepView for HistoryOp {
    type V = HistoryOpModel;

    open spec fn deep_view(&self) -> HistoryOpModel {
        match self {
            HistoryOp::Delete { chat, ids } => HistoryOpModel::Delete { chat: *chat, ids: ids@ },
            HistoryOp::Read { chat, max_id } => HistoryOpModel::Read { chat: *chat, max_id: *max_id },
            HistoryOp::Delivery { chat, message, delivery } => HistoryOpModel::Delivery {
                chat: *chat,
                message: *message,
                delivery: *delivery,
            },
            HistoryOp::Acknowledge { chat, local_id, server_id } => HistoryOpModel::Acknowledge {
                chat: *chat,
                local_id: *local_id,
                server_id: *server_id,
            },
            HistoryOp::Media { chat, message, media } => HistoryOpModel::Media {
                chat: *chat,
                message: *message,
                media: media.deep_view(),
            },
            HistoryOp::Edited { chat, message, text, entities } => HistoryOpModel::Edited {
                chat: *chat,
                message: *message,
                text: text@,
                entities: entities.deep_view(),
            },
        }
    }
}

pub open spec fn not_listed(ids: Seq<MessageId>) -> spec_fn(MessageModel) -> bool {
    |m: MessageModel| !ids.contains(m.id)
}

impl HistoryOpModel {
    pub open spec fn touches(self, key: HistoryKey) -> bool {
        match self {
            HistoryOpModel::Delete { chat, .. } => chat is None || key.chat == chat.unwrap(),
            HistoryOpModel::Read { chat, .. } => key.chat == chat,
            HistoryOpModel::Delivery { chat, .. } => key.chat == chat,
            HistoryOpModel::Acknowledge { chat, .. } => key.chat == chat,
            HistoryOpModel::Media { chat, .. } => key.chat == chat,
            HistoryOpModel::Edited { chat, .. } => key.chat == chat,
        }
    }

    /// The change to one message, for the operations that change messages one by one.
    pub open spec fn rewrite_message(self, m: MessageModel) -> MessageModel {
        match self {
            HistoryOpModel::Read { max_id, .. } => if m.direction == MessageDirection::Outgoing
                && m.id.0 <= max_id.0 {
                MessageModel { delivery: DeliveryState::Read, ..m }
            } else {
                m
            },
            HistoryOpModel::Acknowledge { local_id, server_id, .. } => if m.id == local_id {
                MessageModel { id: server_id, delivery: DeliveryState::Sent, ..m }
            } else {
                m
            },
            HistoryOpModel::Media { message, media, .. } => if m.id == message {
                MessageModel { media: Some(media), ..m }
            } else {
                m
            },
            HistoryOpModel::Edited { message, text, entities, .. } => if m.id == message {
                MessageModel { body: text, entities, edited: true, ..m }
            } else {
                m
            },
            _ => m,
        }
    }

    pub open spec fn message_rewriter(self) -> spec_fn(MessageModel) -> MessageModel {
        |m: MessageModel| self.rewrite_message(m)
    }

    /// The change to one stored history.
    pub open spec fn rewrite(self, key: HistoryKey, h: Seq<MessageModel>) -> Seq<MessageModel> {
        if !self.touches(key) {
            h
        } else {
            match self {
                HistoryOpModel::Delete { ids, .. } => h.filter(not_listed(ids)),
                HistoryOpModel::Delivery { message, delivery, .. } => match first_index(
                    h,
                    message_has_id(message),
                ) {
                    Some(i) => h.update(i, MessageModel { delivery, ..h[i] }),
                    None => h,
                },
                _ => h.map_values(self.message_rewriter()),
            }
        }
    }

    pub open spec fn rewriter(self) -> spec_fn(HistoryKey, Seq<MessageModel>) -> Seq<MessageModel> {
        |k: HistoryKey, h: Seq<MessageModel>| self.rewrite(k, h)
    }
}

impl HistoryOp {
    fn touches_exec(&self, key: &HistoryKey) -> (r: bool)
        ensures
            r == self.deep_view().touches(*key),
    {
        match self {
            HistoryOp::Delete { chat, .. } => match chat {
                Some(c) => key.chat.0 == c.0,
                None => true,
            },
            HistoryOp::Read { chat, .. } => key.chat.0 == chat.0,
            HistoryOp::Delivery { chat, .. } => key.chat.0 == chat.0,
            HistoryOp::Acknowledge { chat, .. } => key.chat.0 == chat.0,
            HistoryOp::Media { chat, .. } => key.chat.0 == chat.0,
            HistoryOp::Edited { chat, .. } => key.chat.0 == chat.0,
        }
    }

    fn rewrite_message_exec(&self, m: MessageView) -> (r: MessageView)
        ensures
            r.deep_view() == self.deep_view().rewrite_message(m.deep_view()),
    {
        let mut m = m;
        match self {
            HistoryOp::Read { max_id, .. } => {
                if m.direction == MessageDirection::Outgoing && m.id.0 <= max_id.0 {
                    m.delivery = DeliveryState::Read;
                }
            },
            HistoryOp::Acknowledge { local_id, server_id, .. } => {
                if m.id.0 == local_id.0 {
                    m.id = *server_id;
                    m.delivery = DeliveryState::Sent;
                }
            },
            HistoryOp::Media { message, media, .. } => {
                if m.id.0 == message.0 {
                    m.details.media = Some(media.clone());
                }
            },
            HistoryOp::Edited { message, text, entities, .. } => {
                if m.id.0 == message.0 {
                    m.body = text.clone();
                    m.details.entities = clone_entities(entities);
                    m.details.edited = true;
                }
            },
            _ => {},
        }
        m
    }

    fn rewrite_exec(&self, key: &HistoryKey, h: Vec<MessageView>) -> (r: Vec<MessageView>)
        ensures
            r.deep_view() == self.deep_view().rewrite(*key, h.deep_view()),
    {
        if !self.touches_exec(key) {
            return h;
        }
        let ghost all = h.deep_view();
        match self {
            HistoryOp::Delete { ids, .. } => {
                let ghost pred = not_listed(ids@);
                let mut rest = h;
                let mut kept: Vec<MessageView> = Vec::new();
                let n = rest.len();
                let mut i: usize = 0;
                while rest.len() > 0
                    invariant
                        pred == not_listed(ids@),
                        rest.len() + i == n,
                        n == all.len(),
                        rest.deep_view() == all.skip(i as int),
                        kept.deep_view() == all.take(i as int).filter(pred),
                    decreases rest.len(),
                {
                    proof {
                        all.lemma_take_succ_push(i as int);
                        all.take(i as int).lemma_filter_push(all[i as int], pred);
                    }
                    let m = rest.remove(0);
                    proof {
                        assert(rest.deep_view() =~= all.skip(i as int + 1));
                    }
                    let mut listed = false;
                    let mut j: usize = 0;
                    while j < ids.len()
                        invariant
                            j <= ids.len(),
                            listed == exists|k: int| 0 <= k < j && ids@[k] == m.id,
                        decreases ids.len() - j,
                    {
                        if ids[j].0 == m.id.0 {
                            listed = true;
                        }
                        j = j + 1;
                    }
                    proof {
                        assert(listed == ids@.contains(m.id));
                    }
                    if !listed {
                        let ghost k0 = kept.deep_view();
                        kept.push(m);
                        proof {
                            assert(kept.deep_view() =~= k0.push(all[i as int]));
                        }
                    }
                    i = i + 1;
                }
                proof {
                    assert(all.take(n as int) =~= all);
                }
                kept
            },
            HistoryOp::Delivery { message, delivery, .. } => {
                let mut h = h;
                let mut found: Option<usize> = None;
                let mut i: usize = 0;
                while i < h.len() && found.is_none()
                    invariant
                        all == h.deep_view(),
                        i <= h.len(),
                        match found {
                            Some(f) => f < h.len() && first_index(all, message_has_id(*message))
                                == Some(f as int),
                            None => forall|j: int| 0 <= j < i ==> all[j].id != *message,
                        },
                    decreases h.len() - i + if found is None {
                        1int
                    } else {
                        0int
                    },
                {
                    if h[i].id.0 == message.0 {
                        proof {
                            lemma_first_index_is(all, message_has_id(*message), i as int);
                        }
                        found = Some(i);
                    } else {
                        i = i + 1;
                    }
                }
                match found {
                    Some(f) => {
                        let mut m = h.remove(f);
                        m.delivery = *delivery;
                        h.insert(f, m);
                        proof {
                            assert(h.deep_view() =~= all.update(
                                f as int,
                                MessageModel { delivery: *delivery, ..all[f as int] },
                            ));
                        }
                    },
                    None => {
                        proof {
                            lemma_first_index_none(all, message_has_id(*message));
                        }
                    },
                }
                h
            },
            _ => {
                let ghost f = self.deep_view().message_rewriter();
                let mut rest = h;
                let mut out: Vec<MessageView> = Vec::new();
                let n = rest.len();
                let mut i: usize = 0;
                while rest.len() > 0
                    invariant
                        f == self.deep_view().message_rewriter(),
                        rest.len() + i == n,
                        n == all.len(),
                        rest.deep_view() == all.skip(i as int),
                        out.deep_view() == all.take(i as int).map_values(f),
                    decreases rest.len(),
                {
                    let m = rest.remove(0);
                    proof {
                        assert(rest.deep_view() =~= all.skip(i as int + 1));
                        assert(m.deep_view() == all[i as int]);
                    }
                    let rewritten = self.rewrite_message_exec(m);
                    let ghost k0 = out.deep_view();
                    out.push(rewritten);
                    proof {
                        assert(out.deep_view() =~= k0.push(f(all[i as int])));
                        assert(all.take(i as int + 1).map_values(f) =~= all.take(i as int).map_values(
                            f,
                        ).push(f(all[i as int])));
                    }
                    i = i + 1;
                }
                proof {
                    assert(all.take(n as int) =~= all);
                }
                out
            },
        }
    }
}

impl AppModel {
    pub open spec fn with_histories(self, histories: Map<HistoryKey, Seq<MessageModel>>) -> AppModel {
        AppModel { histories, ..self }
    }

    pub open spec fn rewritten_histories(self, op: HistoryOpModel) -> AppModel {
        self.with_histories(self.histories.map_entries(op.rewriter()))
    }
}

impl App {
    pub fn rewrite_histories(&mut self, op: &HistoryOp)
        ensures
            final(self)@ == old(self)@.rewritten_histories(op.deep_view()),
    {
        let ghost before = self.histories;
        let mut rest: Vec<(HistoryKey, Vec<MessageView>)> = Vec::new();
        std::mem::swap(&mut rest, &mut self.histories.entries);
        let ghost all = rest@;
        let n = rest.len();
        let mut out: Vec<(HistoryKey, Vec<MessageView>)> = Vec::new();
        let mut i: usize = 0;
        while rest.len() > 0
            invariant
                all == before.entries@,
                rest.len() + i == n,
                n == all.len(),
                rest@ == all.skip(i as int),
                out@.len() == i,
                forall|j: int|
                    0 <= j < i ==> #[trigger] out@[j].0 == all[j].0 && out@[j].1.deep_view()
                        == op.deep_view().rewriter()(all[j].0, all[j].1.deep_view()),
            decreases rest.len(),
        {
            let (key, h) = rest.remove(0);
            proof {
                assert(rest@ =~= all.skip(i as int + 1));
            }
            let rewritten = op.rewrite_exec(&key, h);
            out.push((key, rewritten));
            i = i + 1;
        }
        let after = KeyList { entries: out };
        proof {
            assert forall|j: int| 0 <= j < before.entries@.len() implies #[trigger] after.entries@[j].0
                == before.entries@[j].0 && after.entries@[j].1.deep_view() == op.deep_view().rewriter()(
                before.entries@[j].0,
                before.entries@[j].1.deep_view(),
            ) by {
                assert(out@[j].0 == all[j].0);
            }
            lemma_entries_mapped(before, after, op.deep_view().rewriter());
        }
        self.histories = after;
    }
}

} // verus!
