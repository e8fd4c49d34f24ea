use vstd::prelude::*;
use vstd::string::StringExecFns;

use super::messaging::appended_at;
use super::{message_has_id, App, AppModel, PendingDraft, PendingDraftModel};
use crate::ids::MessageId;
use crate::seqs::first_index;
use crate::text::{str_trim_end, trimmed_end};
use crate::view::{clone_attachments, clone_entities, TextEntity, TextEntityModel, AttachmentModel, AttachmentView, ComposerModel, ComposerView, DeliveryState, Effect, EffectModel, Focus, MessageDetails, MessageDirection, MessageModel, MessageView, ScreenModel};

verus! {

/// The ids of the attachments, in order.
pub open spec fn attachment_ids(attachments: Seq<AttachmentModel>) -> Seq<i64> {
    attachments.map_values(|a: AttachmentModel| a.id)
}

/// The copy of a sent message that the history shows until the server answers.
pub open spec fn pending_message(
    id: MessageId,
    body: Seq<char>,
    entities: Seq<TextEntityModel>,
    reply_to: Option<MessageId>,
    thread_root: Option<MessageId>,
) -> MessageModel {
    MessageModel {
        id,
        sender: "You"@,
        body,
        timestamp: "now"@,
        direction: MessageDirection::Outgoing,
        delivery: DeliveryState::Pending,
        reply_to,
        thread_root,
        sender_peer: None,
        pinned: false,
        edited: false,
        media: None,
        reactions: Seq::empty(),
        link: None,
        entities,
    }
}

/// The local id before `id`, staying at the least one.
pub open spec fn previous_local_id(id: i64) -> i64 {
    if id == i64::MIN {
        i64::MIN
    } else {
        (id - 1) as i64
    }
}

impl AppModel {
    /// An edit can be saved: a chat is open, the edited message is shown, and the composer or
    /// the message holds something.
    pub open spec fn edit_ready(self) -> bool {
        let c = self.view.composer;
        match (self.view.active_chat_id(), c.editing) {
            (Some(_), Some(id)) => match first_index(self.view.messages, message_has_id(id)) {
                Some(i) => !(trimmed_end(c.text).len() == 0 && c.attachments.len() == 0
                    && self.view.messages[i].media is None),
                None => false,
            },
            _ => false,
        }
    }

    /// The composer can be sent: an edit that can be saved, or, with no edit, an open history
    /// and a composer holding something.
    pub open spec fn send_ready(self) -> bool {
        let c = self.view.composer;
        if c.editing is Some {
            self.edit_ready()
        } else {
            self.view.active_history_key() is Some && !(trimmed_end(c.text).len() == 0
                && c.attachments.len() == 0)
        }
    }

    /// The runtime is asked to render the composer's text, without trailing white space, as
    /// Markdown.
    pub open spec fn format_request(self) -> Option<EffectModel> {
        Some(EffectModel::FormatDraft { text: trimmed_end(self.view.composer.text) })
    }

    /// Send: the text goes to be formatted where the composer can be sent.
    pub open spec fn send_requested(self) -> Option<EffectModel> {
        if self.send_ready() {
            self.format_request()
        } else {
            None
        }
    }

    /// Save the edit: the text goes to be formatted where the edit can be saved.
    pub open spec fn edit_requested(self) -> Option<EffectModel> {
        if self.edit_ready() {
            self.format_request()
        } else {
            None
        }
    }

    /// The edited message is saved: where the composer or the message holds something, the
    /// message goes out with the `formatted` body and its `entities` (the composer's text without trailing white
    /// space, as Markdown rendered it) and marked edited, and the edit ends.
    pub open spec fn edit_saved(self, formatted: Seq<char>, entities: Seq<TextEntityModel>) -> (
        AppModel,
        Option<EffectModel>,
    ) {
        let c = self.view.composer;
        match (self.view.active_chat_id(), c.editing) {
            (Some(chat), Some(id)) => match first_index(self.view.messages, message_has_id(id)) {
                Some(i) => {
                    let m = self.view.messages[i];
                    let draft_text = trimmed_end(c.text);
                    if draft_text.len() == 0 && c.attachments.len() == 0 && m.media is None {
                        (self, None)
                    } else {
                        (
                            self.finished_edit(),
                            Some(
                                EffectModel::EditMessage {
                                    chat,
                                    message: MessageModel { body: formatted, entities, edited: true, ..m },
                                    draft_text,
                                    attachments: attachment_ids(c.attachments),
                                    draft_attachments: c.attachments,
                                },
                            ),
                        )
                    }
                },
                None => (self, None),
            },
            _ => (self, None),
        }
    }

    /// The composer is sent: an edit is saved; otherwise, where a chat is open and the composer
    /// holds something, the message gets the next local id, its composer is kept until the
    /// server answers, a pending copy joins the shown history, the draft is dropped and the
    /// composer emptied. `formatted` is the composer's text without trailing white space, as
    /// Markdown rendered it.
    pub open spec fn message_sent(self, formatted: Seq<char>, entities: Seq<TextEntityModel>) -> (
        AppModel,
        Option<EffectModel>,
    ) {
        let c = self.view.composer;
        if c.editing is Some {
            self.edit_saved(formatted, entities)
        } else {
            match self.view.active_history_key() {
                Some(key) => if trimmed_end(c.text).len() == 0 && c.attachments.len() == 0 {
                    (self, None)
                } else {
                    let next = previous_local_id(self.next_local_message_id);
                    let local_id = MessageId(next);
                    let thread_root = self.view.active_thread;
                    let s1 = AppModel {
                        next_local_message_id: next,
                        pending_drafts: self.pending_drafts.insert(
                            local_id,
                            PendingDraftModel { history: key, composer: c },
                        ),
                        histories: appended_at(
                            self.histories,
                            key,
                            pending_message(local_id, formatted, entities, c.reply_to, thread_root),
                        ),
                        ..self
                    }.refreshed_history();
                    (
                        AppModel {
                            drafts: s1.drafts.remove(key),
                            view: ScreenModel {
                                composer: ComposerModel::blank(),
                                active_message: None,
                                transcript_anchor: None,
                                focus: Focus::Composer,
                                ..s1.view
                            },
                            ..s1
                        },
                        Some(
                            EffectModel::SendMessage {
                                chat: key.chat,
                                text: formatted,
                                entities,
                                link_preview: true,
                                reply_to: c.reply_to,
                                thread_root,
                                saved_peer: key.saved_peer,
                                attachments: attachment_ids(c.attachments),
                                local_id,
                            },
                        ),
                    )
                },
                None => (self, None),
            }
        }
    }
}

fn attachment_ids_of(attachments: &Vec<AttachmentView>) -> (r: Vec<i64>)
    ensures
        r@ == attachment_ids(attachments.deep_view()),
{
    let ghost all = attachments.deep_view();
    let mut ids: Vec<i64> = Vec::new();
    let mut i: usize = 0;
    while i < attachments.len()
        invariant
            all == attachments.deep_view(),
            i <= attachments.len(),
            ids@ == attachment_ids(all.take(i as int)),
        decreases attachments.len() - i,
    {
        ids.push(attachments[i].id);
        proof {
            assert(all.take(i as int + 1) =~= all.take(i as int).push(all[i as int]));
            assert(ids@ =~= attachment_ids(all.take(i as int + 1)));
        }
        i = i + 1;
    }
    proof {
        assert(all.take(all.len() as int) =~= all);
    }
    ids
}

fn pending_message_of(
    id: MessageId,
    body: String,
    entities: Vec<TextEntity>,
    reply_to: Option<MessageId>,
    thread_root: Option<MessageId>,
) -> (m: MessageView)
    ensures
        m.deep_view() == pending_message(id, body@, entities.deep_view(), reply_to, thread_root),
{
    let m = MessageView {
        id,
        sender: String::from_str("You"),
        body,
        timestamp: String::from_str("now"),
        direction: MessageDirection::Outgoing,
        delivery: DeliveryState::Pending,
        reply_to,
        details: MessageDetails {
            thread_root,
            sender_peer: None,
            pinned: false,
            edited: false,
            media: None,
            reactions: Vec::new(),
            link: None,
            entities,
        },
    };
    proof {
        reveal_strlit("You");
        reveal_strlit("now");
        assert(m.deep_view().reactions =~= Seq::<crate::view::ReactionModel>::empty());
        assert(m.deep_view() =~= pending_message(id, body@, m.details.entities.deep_view(), reply_to, thread_root));
    }
    m
}

impl App {
    /// Saves the edited message with the `formatted` body: the composer's text without trailing
    /// white space, as Markdown rendered it.
    pub fn save_edit(&mut self, formatted: String, entities: Vec<TextEntity>) -> (r: Option<Effect>)
        ensures
            (final(self)@, r.deep_view()) == old(self)@.edit_saved(formatted@, entities.deep_view()),
    {
        let chat = match self.active_chat_id() {
            Some(c) => c,
            None => return None,
        };
        let id = match self.view.composer.editing {
            Some(id) => id,
            None => return None,
        };
        let draft_text = str_trim_end(self.view.composer.text.as_str()).to_owned();
        proof {
            crate::seqs::lemma_first_index(self@.view.messages, message_has_id(id));
        }
        let i = match self.history_position(id) {
            Some(i) => i,
            None => return None,
        };
        let found = &self.view.messages[i];
        proof {
            let k = first_index(self@.view.messages, message_has_id(id));
            assert(k is Some);
            assert(self@.view.messages.len() == self.view.messages.len());
            assert(0 <= k.unwrap() < self@.view.messages.len());
            assert(k.unwrap() as usize == i);
            assert(k == Some(i as int));
            assert(found.deep_view() == self@.view.messages[i as int]);
        }
        if draft_text.as_str().is_empty() && self.view.composer.attachments.len() == 0
            && found.details.media.is_none() {
            return None;
        }
        let mut message = found.clone();
        let ghost m = message.deep_view();
        message.body = formatted;
        let ghost em = entities.deep_view();
        message.details.entities = entities;
        message.details.edited = true;
        proof {
            assert(message.deep_view() =~= MessageModel { body: formatted@, entities: em, edited: true, ..m });
        }
        let attachments = attachment_ids_of(&self.view.composer.attachments);
        let draft_attachments = clone_attachments(&self.view.composer.attachments);
        self.finish_edit();
        Some(Effect::EditMessage { chat, message: Box::new(message), draft_text, attachments, draft_attachments })
    }

    /// Sends the composer; `formatted` is its text without trailing white space, as Markdown
    /// rendered it.
    pub fn send_message(&mut self, formatted: String, entities: Vec<TextEntity>) -> (r: Option<Effect>)
        ensures
            (final(self)@, r.deep_view()) == old(self)@.message_sent(formatted@, entities.deep_view()),
    {
        if self.view.composer.editing.is_some() {
            return self.save_edit(formatted, entities);
        }
        let key = match self.active_history_key() {
            Some(k) => k,
            None => return None,
        };
        let draft_text = str_trim_end(self.view.composer.text.as_str());
        if draft_text.is_empty() && self.view.composer.attachments.len() == 0 {
            return None;
        }
        let next = if self.next_local_message_id == i64::MIN {
            i64::MIN
        } else {
            self.next_local_message_id - 1
        };
        self.next_local_message_id = next;
        let local_id = MessageId(next);
        let composer = self.view.composer.clone();
        let reply_to = composer.reply_to;
        let attachments = attachment_ids_of(&composer.attachments);
        let thread_root = self.view.active_thread;
        self.pending_drafts.insert(local_id, PendingDraft { history: key, composer });
        let pending = pending_message_of(local_id, formatted.clone(), clone_entities(&entities), reply_to, thread_root);
        self.append_at(key, pending);
        self.refresh_active_history();
        self.view.composer = ComposerView::blank();
        self.drafts.remove(&key);
        self.view.active_message = None;
        self.view.transcript_anchor = None;
        self.view.focus = Focus::Composer;
        Some(
            Effect::SendMessage {
                chat: key.chat,
                text: formatted,
                entities,
                link_preview: true,
                reply_to,
                thread_root,
                saved_peer: key.saved_peer,
                attachments,
                local_id,
            },
        )
    }
}

impl App {
    fn edit_ready(&self) -> (r: bool)
        ensures
            r == self@.edit_ready(),
    {
        if self.active_chat_id().is_none() {
            return false;
        }
        let id = match self.view.composer.editing {
            Some(id) => id,
            None => return false,
        };
        proof {
            crate::seqs::lemma_first_index(self@.view.messages, message_has_id(id));
        }
        let i = match self.history_position(id) {
            Some(i) => i,
            None => return false,
        };
        proof {
            let k = first_index(self@.view.messages, message_has_id(id));
            assert(self@.view.messages.len() == self.view.messages.len());
            assert(k.unwrap() as usize == i);
            assert(k == Some(i as int));
            assert(self.view.messages[i as int].deep_view() == self@.view.messages[i as int]);
        }
        let text = str_trim_end(self.view.composer.text.as_str());
        !(text.is_empty() && self.view.composer.attachments.len() == 0 && self.view.messages[i].details.media.is_none())
    }

    fn send_ready(&self) -> (r: bool)
        ensures
            r == self@.send_ready(),
    {
        if self.view.composer.editing.is_some() {
            return self.edit_ready();
        }
        if self.active_history_key().is_none() {
            return false;
        }
        let text = str_trim_end(self.view.composer.text.as_str());
        !(text.is_empty() && self.view.composer.attachments.len() == 0)
    }

    fn format_request(&self) -> (r: Option<Effect>)
        ensures
            r.deep_view() == self@.format_request(),
    {
        let text = str_trim_end(self.view.composer.text.as_str()).to_owned();
        Some(Effect::FormatDraft { text })
    }

    /// What Send asks for: the composer's text to be formatted, where it can be sent.
    pub fn request_send(&self) -> (r: Option<Effect>)
        ensures
            r.deep_view() == self@.send_requested(),
    {
        if self.send_ready() {
            self.format_request()
        } else {
            None
        }
    }

    /// What SaveEdit asks for: the composer's text to be formatted, where the edit can be saved.
    pub fn request_edit_save(&self) -> (r: Option<Effect>)
        ensures
            r.deep_view() == self@.edit_requested(),
    {
        if self.edit_ready() {
            self.format_request()
        } else {
            None
        }
    }
}

} // verus!
