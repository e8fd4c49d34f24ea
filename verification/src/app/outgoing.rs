use vstd::prelude::*;

use super::composer::bytes_of;
use super::{App, AppModel};
use crate::ids::{ChatId, HistoryKey, KeyEq, MessageId};
use crate::view::{ComposerModel, ComposerView, DeliveryState, Effect, EffectModel, ScreenModel};

verus! {

/// The composer that a refused message gives back when its own was not kept: its text, with
/// the cursor at the end.
pub open spec fn failed_composer(text: Seq<char>) -> ComposerModel {
    ComposerModel { text, cursor: bytes_of(text).len() as usize, ..ComposerModel::blank() }
}

/// Nothing written and nothing attached.
pub open spec fn composer_is_empty(c: ComposerModel) -> bool {
    c.text.len() == 0 && c.attachments.len() == 0
}

impl AppModel {
    /// A chat's notifications are silenced or restored.
    pub open spec fn mute_changed(self, chat: ChatId, muted: bool) -> AppModel {
        AppModel {
            muted_chats: if muted {
                self.muted_chats.insert(chat)
            } else {
                self.muted_chats.remove(chat)
            },
            ..self
        }
    }

    /// The server accepted a sent message: it is marked sent, its kept composer is dropped and
    /// the notice cleared.
    pub open spec fn send_acknowledged(self, chat: ChatId, local_id: MessageId) -> AppModel {
        let s = self.delivery_updated(chat, local_id, DeliveryState::Sent);
        AppModel {
            pending_drafts: s.pending_drafts.remove(local_id),
            view: ScreenModel { notice: None, ..s.view },
            ..s
        }
    }

    /// The server refused a sent message: it is marked failed, and its composer (the one kept
    /// when it was sent, else one holding its text) comes back as the history's draft and, where
    /// the history is shown, into the composer, wherever these hold nothing yet. The reason is
    /// shown and the draft saved.
    pub open spec fn send_failed(
        self,
        chat: ChatId,
        local_id: MessageId,
        thread_root: Option<MessageId>,
        saved_peer: Option<ChatId>,
        text: Seq<char>,
        reason: Seq<char>,
    ) -> (AppModel, Option<EffectModel>) {
        let s1 = self.delivery_updated(chat, local_id, DeliveryState::Failed);
        let key = HistoryKey { chat, thread: thread_root, saved_peer };
        let failed = if s1.pending_drafts.contains_key(local_id) {
            s1.pending_drafts[local_id].composer
        } else {
            failed_composer(text)
        };
        let existing = if s1.drafts.contains_key(key) {
            s1.drafts[key]
        } else {
            ComposerModel::blank()
        };
        let draft = if composer_is_empty(existing) {
            failed
        } else {
            existing
        };
        let composer = if s1.view.active_history_key() == Some(key) && composer_is_empty(
            s1.view.composer,
        ) {
            failed
        } else {
            s1.view.composer
        };
        (
            AppModel {
                pending_drafts: s1.pending_drafts.remove(local_id),
                drafts: s1.drafts.insert(key, draft),
                view: ScreenModel { composer, notice: Some(reason), ..s1.view },
                ..s1
            },
            Some(
                EffectModel::SaveDraft {
                    chat,
                    thread_root,
                    text: draft.text,
                    reply_to: draft.reply_to,
                },
            ),
        )
    }
}

fn failed_composer_of(text: &String) -> (c: ComposerView)
    ensures
        c.deep_view() == failed_composer(text@),
{
    let c = ComposerView {
        text: text.clone(),
        cursor: text.as_str().len(),
        reply_to: None,
        editing: None,
        attachments: Vec::new(),
    };
    proof {
        assert(c.deep_view().attachments =~= Seq::<crate::view::AttachmentModel>::empty());
        assert(c.deep_view() =~= failed_composer(text@));
    }
    c
}

impl App {
    pub fn apply_mute_change(&mut self, chat: ChatId, muted: bool)
        ensures
            final(self)@ == old(self)@.mute_changed(chat, muted),
    {
        if muted {
            crate::vecset::set_insert(&mut self.muted_chats, chat);
        } else {
            crate::vecset::set_remove(&mut self.muted_chats, &chat);
        }
        proof {
            assert(self@ =~= old(self)@.mute_changed(chat, muted));
        }
    }

    pub fn acknowledge_send(&mut self, chat: ChatId, local_id: MessageId)
        ensures
            final(self)@ == old(self)@.send_acknowledged(chat, local_id),
    {
        self.update_delivery(chat, local_id, DeliveryState::Sent);
        self.pending_drafts.remove(&local_id);
        self.view.notice = None;
    }

    /// The composer that a refused message gives back.
    fn take_failed_composer(&mut self, local_id: MessageId, text: &String) -> (c: ComposerView)
        ensures
            c.deep_view() == if old(self)@.pending_drafts.contains_key(local_id) {
                old(self)@.pending_drafts[local_id].composer
            } else {
                failed_composer(text@)
            },
            final(self)@ == (AppModel { pending_drafts: old(self)@.pending_drafts.remove(local_id), ..old(self)@ }),
    {
        let failed = match self.pending_drafts.get(&local_id) {
            Some(pending) => pending.composer.clone(),
            None => failed_composer_of(text),
        };
        self.pending_drafts.remove(&local_id);
        failed
    }

    /// The history's draft becomes `failed` where it holds nothing; its text and reply target
    /// are returned.
    fn restore_failed_draft(&mut self, key: HistoryKey, failed: &ComposerView) -> (r: (String, Option<MessageId>))
        ensures
            ({
                let existing = if old(self)@.drafts.contains_key(key) {
                    old(self)@.drafts[key]
                } else {
                    ComposerModel::blank()
                };
                let draft = if composer_is_empty(existing) {
                    failed.deep_view()
                } else {
                    existing
                };
                &&& final(self)@ == (AppModel { drafts: old(self)@.drafts.insert(key, draft), ..old(self)@ })
                &&& r.0@ == draft.text
                &&& r.1 == draft.reply_to
            }),
    {
        let draft = match self.drafts.get(&key) {
            Some(existing) => if existing.text.as_str().is_empty() && existing.attachments.len() == 0 {
                failed.clone()
            } else {
                existing.clone()
            },
            None => failed.clone(),
        };
        let r = (draft.text.clone(), draft.reply_to);
        self.drafts.insert(key, draft);
        r
    }

    /// Where the history is shown and the composer holds nothing, `failed` goes into it.
    fn restore_failed_composer(&mut self, key: HistoryKey, failed: ComposerView)
        ensures
            final(self)@ == (if old(self)@.view.active_history_key() == Some(key) && composer_is_empty(
                old(self)@.view.composer,
            ) {
                AppModel { view: ScreenModel { composer: failed.deep_view(), ..old(self)@.view }, ..old(self)@ }
            } else {
                old(self)@
            }),
    {
        let shown = match self.active_history_key() {
            Some(k) => k.same(&key),
            None => false,
        };
        if shown && self.view.composer.text.as_str().is_empty() && self.view.composer.attachments.len() == 0 {
            self.view.composer = failed;
        }
    }

    pub fn fail_send(
        &mut self,
        chat: ChatId,
        local_id: MessageId,
        thread_root: Option<MessageId>,
        saved_peer: Option<ChatId>,
        text: String,
        reason: String,
    ) -> (r: Option<Effect>)
        ensures
            (final(self)@, r.deep_view()) == old(self)@.send_failed(chat, local_id, thread_root, saved_peer, text@, reason@),
    {
        self.update_delivery(chat, local_id, DeliveryState::Failed);
        let key = HistoryKey { chat, thread: thread_root, saved_peer };
        let failed = self.take_failed_composer(local_id, &text);
        let (draft_text, draft_reply_to) = self.restore_failed_draft(key, &failed);
        self.restore_failed_composer(key, failed);
        self.view.notice = Some(reason);
        let r = Some(Effect::SaveDraft { chat, thread_root, text: draft_text, reply_to: draft_reply_to });
        proof {
            let (s, e) = old(self)@.send_failed(chat, local_id, thread_root, saved_peer, text@, reason@);
            assert(self@.view == s.view);
            assert(self@ == s);
        }
        r
    }
}

} // verus!
