use vstd::prelude::*;
use vstd::string::StringExecFns;

use super::composer::bytes_of;
use super::{App, AppModel};
use crate::ids::{ChatId, HistoryKey, KeyEq, MessageId};
use crate::view::{AttachmentModel, AttachmentView, ComposerModel, ComposerView, Effect, EffectModel, Focus, ScreenModel};

verus! {

/// A draft with pasted text appended (the cursor then at its end) and pasted attachments added.
pub open spec fn pasted_into_draft(
    draft: ComposerModel,
    text: Option<Seq<char>>,
    attachments: Seq<AttachmentModel>,
) -> ComposerModel {
    let with_text = match text {
        Some(t) => ComposerModel {
            text: draft.text + t,
            cursor: bytes_of(draft.text + t).len() as usize,
            ..draft
        },
        None => draft,
    };
    ComposerModel { attachments: with_text.attachments + attachments, ..with_text }
}

impl AppModel {
    /// What the clipboard held arrives for a history. Where the history is shown, its text is
    /// inserted at the cursor and its attachments added (an edit takes them in place of its
    /// own), the composer is focused and the draft saved. Otherwise they are appended to the
    /// history's draft, which is saved.
    pub open spec fn clipboard_pasted(
        self,
        chat: ChatId,
        thread_root: Option<MessageId>,
        text: Option<Seq<char>>,
        attachments: Seq<AttachmentModel>,
    ) -> (AppModel, Option<EffectModel>) {
        let key = HistoryKey { chat, thread: thread_root, saved_peer: None };
        if self.view.active_history_key() == Some(key) {
            let s1 = match text {
                Some(t) => self.with_composer(self.view.composer.inserted(t)),
                None => self,
            };
            let c = s1.view.composer;
            let composer = if c.editing is Some && attachments.len() > 0 {
                ComposerModel { attachments, ..c }
            } else {
                ComposerModel { attachments: c.attachments + attachments, ..c }
            };
            let s2 = AppModel { view: ScreenModel { composer, focus: Focus::Composer, ..s1.view }, ..s1 };
            (s2, s2.draft_effect())
        } else {
            let existing = if self.drafts.contains_key(key) {
                self.drafts[key]
            } else {
                ComposerModel::blank()
            };
            let draft = pasted_into_draft(existing, text, attachments);
            (
                AppModel { drafts: self.drafts.insert(key, draft), ..self },
                Some(
                    EffectModel::SaveDraft {
                        chat,
                        thread_root,
                        text: draft.text,
                        reply_to: draft.reply_to,
                    },
                ),
            )
        }
    }
}

fn append_attachments(target: &mut Vec<AttachmentView>, attachments: &Vec<AttachmentView>)
    ensures
        final(target).deep_view() == old(target).deep_view() + attachments.deep_view(),
{
    let ghost start = target.deep_view();
    let ghost added = attachments.deep_view();
    let mut i: usize = 0;
    while i < attachments.len()
        invariant
            added == attachments.deep_view(),
            i <= attachments.len(),
            target.deep_view() == start + added.take(i as int),
        decreases attachments.len() - i,
    {
        let ghost t0 = target.deep_view();
        target.push(attachments[i].clone());
        proof {
            assert(added.take(i as int + 1) =~= added.take(i as int).push(added[i as int]));
            assert(target.deep_view() =~= t0.push(added[i as int]));
            assert(target.deep_view() =~= start + added.take(i as int + 1));
        }
        i = i + 1;
    }
    proof {
        assert(added.take(added.len() as int) =~= added);
    }
}

fn paste_into_draft(draft: &mut ComposerView, text: &Option<String>, attachments: &Vec<AttachmentView>)
    ensures
        final(draft).deep_view() == pasted_into_draft(
            old(draft).deep_view(),
            match text {
                Some(t) => Some(t@),
                None => None,
            },
            attachments.deep_view(),
        ),
{
    if let Some(t) = text {
        draft.text.append(t.as_str());
        draft.cursor = draft.text.as_str().len();
    }
    append_attachments(&mut draft.attachments, attachments);
}

impl App {
    pub fn apply_clipboard(
        &mut self,
        chat: ChatId,
        thread_root: Option<MessageId>,
        text: Option<String>,
        attachments: Vec<AttachmentView>,
    ) -> (r: Option<Effect>)
        ensures
            (final(self)@, r.deep_view()) == old(self)@.clipboard_pasted(
                chat,
                thread_root,
                match text {
                    Some(t) => Some(t@),
                    None => None,
                },
                attachments.deep_view(),
            ),
    {
        let key = HistoryKey::from_thread(chat, thread_root);
        let shown = match self.active_history_key() {
            Some(k) => k.same(&key),
            None => false,
        };
        if shown {
            if let Some(t) = &text {
                self.insert_composer_text(t.as_str());
            }
            if self.view.composer.editing.is_some() && attachments.len() > 0 {
                self.view.composer.attachments = attachments;
            } else {
                append_attachments(&mut self.view.composer.attachments, &attachments);
            }
            self.view.focus = Focus::Composer;
            self.draft_effect()
        } else {
            let mut draft = match self.drafts.get(&key) {
                Some(d) => d.clone(),
                None => ComposerView::blank(),
            };
            paste_into_draft(&mut draft, &text, &attachments);
            let saved = Effect::SaveDraft {
                chat,
                thread_root,
                text: draft.text.clone(),
                reply_to: draft.reply_to,
            };
            self.drafts.insert(key, draft);
            Some(saved)
        }
    }
}

} // verus!
