use vstd::prelude::*;
use vstd::string::StringSliceAdditionalSpecFns;
use vstd::utf8::encode_utf8;

use super::actions::{editable, has_remote_media};
use super::navigation::move_index;
use super::navigation::moved_index;
use super::{App, AppModel};
use crate::ids::{ChatId, MessageId};
use crate::seqs::{first_index, last_index, lemma_first_index, lemma_first_index_is, lemma_first_index_none, lemma_last_index_is, lemma_last_index_none};
use crate::view::{Action, AttachmentModel, AttachmentView, ComposerModel, ComposerView, Effect, EffectModel, Focus, LinkModel, LinkTarget, MediaKind, MessageModel, ReactionModel, ReactionPickerModel, ReactionPickerView, ReactionView, SaveAsView, ScreenModel};

verus! {

broadcast use vstd::seq_lib::group_seq_properties;

pub open spec fn reaction_labels() -> Seq<Seq<char>> {
    seq!["👍"@, "❤️"@, "🔥"@, "👏"@, "😁"@, "🤔"@]
}

pub open spec fn labelled(label: Seq<char>) -> spec_fn(ReactionModel) -> bool {
    |r: ReactionModel| r.label == label
}

pub open spec fn editable_message() -> spec_fn(MessageModel) -> bool {
    |m: MessageModel| editable(m)
}

pub open spec fn cleared(r: ReactionModel) -> ReactionModel {
    ReactionModel { chosen: false, ..r }
}

/// The user's reaction becomes `reaction`: every other reaction is unchosen, the chosen one is
/// counted once.
pub open spec fn reacted(reactions: Seq<ReactionModel>, reaction: Seq<char>) -> Seq<ReactionModel> {
    let already = exists|i: int|
        0 <= i < reactions.len() && reactions[i].label == reaction && reactions[i].chosen;
    let all_cleared = reactions.map_values(|r: ReactionModel| cleared(r));
    match first_index(reactions, labelled(reaction)) {
        Some(i) => all_cleared.update(
            i,
            ReactionModel {
                count: if already || reactions[i].count == u32::MAX {
                    reactions[i].count
                } else {
                    (reactions[i].count + 1) as u32
                },
                chosen: true,
                ..all_cleared[i]
            },
        ),
        None => all_cleared.push(ReactionModel { label: reaction, count: 1, chosen: true }),
    }
}

pub open spec fn not_source(source: ChatId) -> spec_fn(crate::view::ChatModel) -> bool {
    |c: crate::view::ChatModel| c.id != source
}

/// Indices of the chats other than `source`, in order.
pub open spec fn forward_candidates(chats: Seq<crate::view::ChatModel>, source: ChatId) -> Seq<usize>
    decreases chats.len(),
{
    if chats.len() == 0 {
        Seq::empty()
    } else {
        let rest = forward_candidates(chats.drop_last(), source);
        if chats.last().id != source {
            rest.push((chats.len() - 1) as usize)
        } else {
            rest
        }
    }
}

pub open spec fn download_of(chat: ChatId, message: MessageId) -> spec_fn(crate::view::DownloadModel) -> bool {
    |d: crate::view::DownloadModel| d.chat == chat && d.message == message
}

pub open spec fn link_effect_of(link: LinkModel) -> EffectModel {
    match link.telegram_username {
        Some(username) => EffectModel::ResolveTelegramUsername { username },
        None => EffectModel::OpenExternalLink { url: link.url },
    }
}

/// The text an edit of `m` opens with: its body, or nothing for a photo whose body only
/// stands in for the picture.
pub open spec fn edit_text(m: MessageModel) -> Seq<char> {
    match m.media {
        Some(media) if media.kind == MediaKind::Photo && media.fallback_body => Seq::empty(),
        _ => m.body,
    }
}

impl AppModel {
    pub open spec fn cleared_selection(self) -> AppModel {
        self.with_view(ScreenModel { selected_messages: Seq::empty(), ..self.view })
    }

    /// Editing starts on the selected message when it is a sent message of the user. The
    /// composer opens with the message's text, or empty for a photo whose body only stands in
    /// for the picture.
    pub open spec fn began_edit(self) -> (AppModel, Option<EffectModel>) {
        match (self.active_message(), self.view.active_history_key()) {
            (Some(m), Some(key)) if editable(m) => {
                let text = edit_text(m);
                let s = AppModel { drafts: self.drafts.remove(key), ..self };
                (
                    s.with_view(
                        ScreenModel {
                            transcript_anchor: s.view.active_message,
                            active_message: None,
                            composer: ComposerModel {
                                text,
                                cursor: encode_utf8(text).len() as usize,
                                reply_to: None,
                                editing: Some(m.id),
                                attachments: Seq::empty(),
                            },
                            focus: Focus::Composer,
                            ..s.view
                        },
                    ),
                    Some(
                        EffectModel::SaveDraft {
                            chat: key.chat,
                            thread_root: key.thread,
                            text: Seq::empty(),
                            reply_to: None,
                        },
                    ),
                )
            },
            _ => (self, None),
        }
    }

    pub open spec fn began_previous_edit(self) -> (AppModel, Option<EffectModel>) {
        match last_index(self.view.messages, editable_message()) {
            Some(i) => self.with_view(ScreenModel { active_message: Some(i as usize), ..self.view }).began_edit(),
            None => (self, None),
        }
    }

    pub open spec fn finished_edit(self) -> AppModel {
        self.with_view(
            ScreenModel {
                composer: ComposerModel::blank(),
                active_message: None,
                transcript_anchor: None,
                focus: Focus::Composer,
                ..self.view
            },
        )
    }

    pub open spec fn cancelled_edit(self) -> AppModel {
        if self.view.composer.editing is Some {
            self.finished_edit()
        } else {
            self
        }
    }

    /// A failed edit of the shown chat comes back into the composer.
    pub open spec fn restored_failed_edit(
        self,
        chat: ChatId,
        message: MessageId,
        text: Seq<char>,
        attachments: Seq<AttachmentModel>,
    ) -> AppModel {
        if self.view.active_chat_id() != Some(chat) {
            self
        } else {
            self.with_view(
                ScreenModel {
                    transcript_anchor: self.view.history_position(message),
                    active_message: None,
                    composer: ComposerModel {
                        text,
                        cursor: encode_utf8(text).len() as usize,
                        reply_to: None,
                        editing: Some(message),
                        attachments,
                    },
                    focus: Focus::Composer,
                    ..self.view
                },
            )
        }
    }

    pub open spec fn opened_reaction_picker(self) -> AppModel {
        if self.view.active_message_id() is Some {
            self.with_view(
                ScreenModel {
                    reaction_picker: Some(ReactionPickerModel { selected: 0, options: reaction_labels() }),
                    ..self.view
                },
            )
        } else {
            self
        }
    }

    pub open spec fn applied_reaction_picker(self, action: Action) -> (AppModel, Option<EffectModel>) {
        match action {
            Action::MoveUp | Action::MoveDown => match self.view.reaction_picker {
                Some(picker) => match moved_index(
                    Some(picker.selected),
                    picker.options.len() as usize,
                    action == Action::MoveDown,
                ) {
                    Some(next) => (
                        self.with_view(
                            ScreenModel {
                                reaction_picker: Some(ReactionPickerModel { selected: next, ..picker }),
                                ..self.view
                            },
                        ),
                        None,
                    ),
                    None => (self, None),
                },
                None => (self, None),
            },
            Action::ConfirmReaction => match (
                self.view.active_chat_id(),
                self.view.active_message_id(),
                self.view.reaction_picker,
            ) {
                (Some(chat), Some(id), Some(picker)) => {
                    let s = self.with_view(ScreenModel { reaction_picker: None, ..self.view });
                    if picker.selected >= picker.options.len() {
                        (s, None)
                    } else {
                        let reaction = picker.options[picker.selected as int];
                        match first_index(self.view.messages, super::message_has_id(id)) {
                            Some(i) => {
                                let m = self.view.messages[i];
                                (
                                    s,
                                    Some(
                                        EffectModel::ReactMessage {
                                            chat,
                                            message: MessageModel {
                                                reactions: reacted(m.reactions, reaction),
                                                ..m
                                            },
                                            reaction,
                                        },
                                    ),
                                )
                            },
                            None => (s, None),
                        }
                    }
                },
                _ => (self, None),
            },
            Action::Cancel => (self.with_view(ScreenModel { reaction_picker: None, ..self.view }), None),
            _ => (self, None),
        }
    }

    pub open spec fn opened_forward_picker(self) -> AppModel {
        if self.view.selected_messages.len() == 0 {
            self
        } else {
            match self.view.active_chat_id() {
                None => self,
                Some(source) => self.with_view(
                    ScreenModel {
                        forward_picker: match first_index(self.view.chats, not_source(source)) {
                            Some(i) => Some(i as usize),
                            None => None,
                        },
                        ..self.view
                    },
                ),
            }
        }
    }

    pub open spec fn applied_forward_picker(self, action: Action) -> (AppModel, Option<EffectModel>) {
        match self.view.active_chat_id() {
            None => (self, None),
            Some(source) => match action {
                Action::MoveUp | Action::MoveDown => match self.view.forward_picker {
                    None => (self, None),
                    Some(current) => {
                        let candidates = forward_candidates(self.view.chats, source);
                        let position = match first_index(candidates, |c: usize| c == current) {
                            Some(p) => p as usize,
                            None => 0usize,
                        };
                        match moved_index(
                            Some(position),
                            candidates.len() as usize,
                            action == Action::MoveDown,
                        ) {
                            None => (self, None),
                            Some(next) => (
                                self.with_view(
                                    ScreenModel {
                                        forward_picker: Some(candidates[next as int]),
                                        ..self.view
                                    },
                                ),
                                None,
                            ),
                        }
                    },
                },
                Action::ConfirmForward => match self.view.forward_picker {
                    Some(i) if i < self.view.chats.len() && self.view.selected_messages.len() > 0 => (
                        self.with_view(ScreenModel { forward_picker: None, ..self.view }).cleared_selection(),
                        Some(
                            EffectModel::ForwardMessages {
                                source,
                                destination: self.view.chats[i as int].id,
                                messages: self.view.selected_messages,
                            },
                        ),
                    ),
                    _ => (self, None),
                },
                Action::Cancel => (self.with_view(ScreenModel { forward_picker: None, ..self.view }), None),
                _ => (self, None),
            },
        }
    }

    pub open spec fn applied_delete_confirmation(self, action: Action) -> (
        AppModel,
        Option<EffectModel>,
    ) {
        match action {
            Action::ConfirmDelete => match (self.view.active_chat_id(), self.view.delete_confirmation) {
                (Some(chat), Some(messages)) => (
                    self.with_view(ScreenModel { delete_confirmation: None, ..self.view }).cleared_selection(),
                    Some(EffectModel::DeleteMessages { chat, messages }),
                ),
                _ => (self, None),
            },
            Action::Cancel => (
                self.with_view(ScreenModel { delete_confirmation: None, ..self.view }),
                None,
            ),
            _ => (self, None),
        }
    }

    pub open spec fn opened_active_link(self) -> (AppModel, Option<EffectModel>) {
        match self.active_message() {
            Some(m) => match m.link {
                Some(link) => if link.suspicious {
                    (self.with_view(ScreenModel { link_confirmation: Some(link), ..self.view }), None)
                } else {
                    (self, Some(link_effect_of(link)))
                },
                None => (self, None),
            },
            None => (self, None),
        }
    }

    pub open spec fn confirmed_active_link(self) -> (AppModel, Option<EffectModel>) {
        match self.view.link_confirmation {
            Some(link) => (
                self.with_view(ScreenModel { link_confirmation: None, ..self.view }),
                Some(link_effect_of(link)),
            ),
            None => (self, None),
        }
    }

    pub open spec fn active_media_download(self) -> Option<EffectModel> {
        match (self.view.active_chat_id(), self.active_message()) {
            (Some(chat), Some(m)) if has_remote_media(m) => Some(
                EffectModel::DownloadMedia { chat, message: m.id, destination: None },
            ),
            _ => None,
        }
    }

    pub open spec fn opened_save_as(self) -> AppModel {
        match self.active_message() {
            Some(m) if has_remote_media(m) => self.with_view(
                ScreenModel { save_as: Some(m.media.unwrap().title), ..self.view },
            ),
            _ => self,
        }
    }

    pub open spec fn confirmed_save_as(self) -> (AppModel, Option<EffectModel>) {
        match self.view.save_as {
            None => (self, None),
            Some(destination) => {
                let s = self.with_view(ScreenModel { save_as: None, ..self.view });
                match (self.view.active_chat_id(), self.view.active_message_id()) {
                    (Some(chat), Some(message)) if destination.len() > 0 => (
                        s,
                        Some(
                            EffectModel::DownloadMedia {
                                chat,
                                message,
                                destination: Some(destination),
                            },
                        ),
                    ),
                    _ => (s, None),
                }
            },
        }
    }

    pub open spec fn applied_save_as_action(self, action: Action) -> (AppModel, Option<EffectModel>) {
        match action {
            Action::ConfirmSaveAs => self.confirmed_save_as(),
            Action::Cancel | Action::SaveAs => (
                self.with_view(ScreenModel { save_as: None, ..self.view }),
                None,
            ),
            _ => (self, None),
        }
    }

    /// Opening the download of the selected message in the shown chat.
    pub open spec fn active_download_opening(self) -> Option<EffectModel> {
        match (self.view.active_message_id(), self.view.active_chat_id()) {
            (Some(message), Some(chat)) => match first_index(
                self.view.downloads,
                download_of(chat, message),
            ) {
                Some(i) => Some(
                    EffectModel::OpenDownload {
                        download: self.view.downloads[i].id,
                        reveal: self.view.downloads[i].reveal_only,
                    },
                ),
                None => None,
            },
            _ => None,
        }
    }

    pub open spec fn active_pin_toggle(self) -> Option<EffectModel> {
        match (self.view.active_chat_id(), self.active_message()) {
            (Some(chat), Some(m)) if m.id.0 > 0 => Some(
                EffectModel::SetMessagePinned {
                    chat,
                    message: MessageModel { pinned: !m.pinned, ..m },
                    pinned: !m.pinned,
                },
            ),
            _ => None,
        }
    }

    /// The composer's text is saved as the draft when the user writes a plain message.
    pub open spec fn draft_effect(self) -> Option<EffectModel> {
        match self.view.active_history_key() {
            Some(key) if self.view.focus == Focus::Composer && self.view.composer.editing is None
                && !self.view.poll_composer => Some(
                EffectModel::SaveDraft {
                    chat: key.chat,
                    thread_root: key.thread,
                    text: self.view.composer.text,
                    reply_to: self.view.composer.reply_to,
                },
            ),
            _ => None,
        }
    }
}

impl App {
    pub fn clear_message_selection(&mut self)
        ensures
            final(self)@ == old(self)@.cleared_selection(),
    {
        self.view.selected_messages = Vec::new();
    }

    pub fn begin_edit(&mut self) -> (r: Option<Effect>)
        ensures
            (final(self)@, r.deep_view()) == old(self)@.began_edit(),
    {
        let index = match self.view.active_message {
            Some(i) => if i < self.view.messages.len() {
                i
            } else {
                return None;
            },
            None => return None,
        };
        let m = &self.view.messages[index];
        if !(m.direction == crate::view::MessageDirection::Outgoing && m.id.0 > 0) {
            return None;
        }
        let id = m.id;
        let photo_fallback = match &m.details.media {
            Some(media) => media.kind == MediaKind::Photo && media.fallback_body,
            None => false,
        };
        let text = if photo_fallback {
            String::new()
        } else {
            m.body.clone()
        };
        let key = match self.active_history_key() {
            Some(k) => k,
            None => return None,
        };
        self.drafts.remove(&key);
        self.view.transcript_anchor = self.view.active_message;
        self.view.active_message = None;
        let cursor = text.as_str().as_bytes().len();
        self.view.composer = ComposerView {
            text,
            cursor,
            reply_to: None,
            editing: Some(id),
            attachments: Vec::new(),
        };
        self.view.focus = Focus::Composer;
        proof {
            assert(self@.view.composer.attachments =~= Seq::<AttachmentModel>::empty());
        }
        Some(
            Effect::SaveDraft {
                chat: key.chat,
                thread_root: key.thread,
                text: String::new(),
                reply_to: None,
            },
        )
    }

    pub fn begin_previous_edit(&mut self) -> (r: Option<Effect>)
        ensures
            (final(self)@, r.deep_view()) == old(self)@.began_previous_edit(),
    {
        let ghost s = self@.view.messages;
        let ghost p = editable_message();
        let mut i = self.view.messages.len();
        while i > 0
            invariant
                s == self@.view.messages,
                self@ == old(self)@,
                p == editable_message(),
                i <= s.len(),
                forall|j: int| i <= j < s.len() ==> !p(s[j]),
            decreases i,
        {
            let m = &self.view.messages[i - 1];
            if m.direction == crate::view::MessageDirection::Outgoing && m.id.0 > 0 {
                proof {
                    lemma_last_index_is(s, p, i - 1);
                }
                self.view.active_message = Some(i - 1);
                return self.begin_edit();
            }
            i = i - 1;
        }
        proof {
            lemma_last_index_none(s, p);
        }
        None
    }

    pub fn finish_edit(&mut self)
        ensures
            final(self)@ == old(self)@.finished_edit(),
    {
        self.view.composer = ComposerView::blank();
        self.view.active_message = None;
        self.view.transcript_anchor = None;
        self.view.focus = Focus::Composer;
    }

    pub fn cancel_edit(&mut self)
        ensures
            final(self)@ == old(self)@.cancelled_edit(),
    {
        if self.view.composer.editing.is_some() {
            self.finish_edit();
        }
    }

    pub fn restore_failed_edit(
        &mut self,
        chat: ChatId,
        message: MessageId,
        text: String,
        attachments: Vec<AttachmentView>,
    )
        ensures
            final(self)@ == old(self)@.restored_failed_edit(
                chat,
                message,
                text@,
                attachments.deep_view(),
            ),
    {
        let active = match self.active_chat_id() {
            Some(c) => c.0 == chat.0,
            None => false,
        };
        if !active {
            return ;
        }
        self.view.transcript_anchor = self.history_position(message);
        self.view.active_message = None;
        let cursor = text.as_str().as_bytes().len();
        self.view.composer = ComposerView { text, cursor, reply_to: None, editing: Some(message), attachments };
        self.view.focus = Focus::Composer;
    }

    pub fn open_reaction_picker(&mut self)
        ensures
            final(self)@ == old(self)@.opened_reaction_picker(),
    {
        if self.active_message_id().is_some() {
            let options = vec![
                "👍".to_owned(),
                "❤️".to_owned(),
                "🔥".to_owned(),
                "👏".to_owned(),
                "😁".to_owned(),
                "🤔".to_owned(),
            ];
            let picker = ReactionPickerView { selected: 0, options };
            proof {
                assert(picker.deep_view().options =~= reaction_labels());
            }
            self.view.reaction_picker = Some(picker);
        }
    }
}

impl App {
    fn react(reactions: &Vec<ReactionView>, reaction: &String) -> (r: Vec<ReactionView>)
        ensures
            r.deep_view() == reacted(reactions.deep_view(), reaction@),
    {
        let ghost s = reactions.deep_view();
        let mut out: Vec<ReactionView> = Vec::new();
        let mut found: Option<usize> = None;
        let mut already = false;
        let mut i: usize = 0;
        while i < reactions.len()
            invariant
                s == reactions.deep_view(),
                i <= s.len(),
                out.deep_view() == s.take(i as int).map_values(|r: ReactionModel| cleared(r)),
                match found {
                    Some(f) => f < i && s[f as int].label == reaction@ && forall|j: int|
                        0 <= j < f ==> s[j].label != reaction@,
                    None => forall|j: int| 0 <= j < i ==> s[j].label != reaction@,
                },
                already == exists|j: int| 0 <= j < i && s[j].label == reaction@ && s[j].chosen,
            decreases s.len() - i,
        {
            let r = &reactions[i];
            let same = r.label == *reaction;
            if same && r.chosen {
                already = true;
            }
            if same && found.is_none() {
                found = Some(i);
            }
            let ghost before = out.deep_view();
            out.push(ReactionView { label: r.label.clone(), count: r.count, chosen: false });
            proof {
                assert(out.deep_view() =~= before.push(cleared(s[i as int])));
                assert(s.take(i as int + 1).map_values(|r: ReactionModel| cleared(r)) =~= s.take(
                    i as int,
                ).map_values(|r: ReactionModel| cleared(r)).push(cleared(s[i as int])));
                if !(same && r.chosen) {
                    assert forall|j: int|
                        0 <= j < i + 1 && s[j].label == reaction@ && s[j].chosen implies j < i by {}
                }
            }
            i = i + 1;
        }
        proof {
            assert(s.take(s.len() as int) =~= s);
            match found {
                Some(f) => lemma_first_index_is(s, labelled(reaction@), f as int),
                None => lemma_first_index_none(s, labelled(reaction@)),
            }
        }
        match found {
            Some(f) => {
                let count = reactions[f].count;
                let label = reactions[f].label.clone();
                let new_count = if already || count == u32::MAX {
                    count
                } else {
                    count + 1
                };
                let ghost before = out.deep_view();
                out.set(f, ReactionView { label, count: new_count, chosen: true });
                proof {
                    assert(out.deep_view() =~= before.update(
                        f as int,
                        ReactionModel { count: new_count, chosen: true, ..before[f as int] },
                    ));
                }
            },
            None => {
                let ghost before = out.deep_view();
                out.push(ReactionView { label: reaction.clone(), count: 1, chosen: true });
                proof {
                    assert(out.deep_view() =~= before.push(
                        ReactionModel { label: reaction@, count: 1, chosen: true },
                    ));
                }
            },
        }
        out
    }

    pub fn apply_reaction_picker(&mut self, action: Action) -> (r: Option<Effect>)
        ensures
            (final(self)@, r.deep_view()) == old(self)@.applied_reaction_picker(action),
    {
        match action {
            Action::MoveUp | Action::MoveDown => {
                let down = action == Action::MoveDown;
                match &mut self.view.reaction_picker {
                    Some(picker) => {
                        match move_index(Some(picker.selected), picker.options.len(), down) {
                            Some(next) => {
                                picker.selected = next;
                            },
                            None => {},
                        }
                    },
                    None => {},
                }
                None
            },
            Action::ConfirmReaction => {
                let chat = match self.active_chat_id() {
                    Some(c) => c,
                    None => return None,
                };
                let id = match self.active_message_id() {
                    Some(m) => m,
                    None => return None,
                };
                let picker = match self.view.reaction_picker.take() {
                    Some(p) => p,
                    None => return None,
                };
                if picker.selected >= picker.options.len() {
                    return None;
                }
                let reaction = picker.options[picker.selected].clone();
                let index = match self.history_position(id) {
                    Some(i) => i,
                    None => return None,
                };
                proof {
                    lemma_first_index(old(self)@.view.messages, super::message_has_id(id));
                }
                let m = &self.view.messages[index];
                let reactions = Self::react(&m.details.reactions, &reaction);
                let mut message = m.clone();
                message.details.reactions = reactions;
                Some(Effect::ReactMessage { chat, message: Box::new(message), reaction })
            },
            Action::Cancel => {
                self.view.reaction_picker = None;
                None
            },
            _ => None,
        }
    }

    pub fn open_forward_picker(&mut self)
        ensures
            final(self)@ == old(self)@.opened_forward_picker(),
    {
        if self.view.selected_messages.len() == 0 {
            return ;
        }
        let source = match self.active_chat_id() {
            Some(c) => c,
            None => return ,
        };
        let ghost s = self@.view.chats;
        let mut i: usize = 0;
        while i < self.view.chats.len()
            invariant
                s == self@.view.chats,
                self@ == old(self)@,
                old(self)@.view.selected_messages.len() > 0,
                old(self)@.view.active_chat_id() == Some(source),
                i <= s.len(),
                forall|j: int| 0 <= j < i ==> !not_source(source)(s[j]),
            decreases s.len() - i,
        {
            if self.view.chats[i].id.0 != source.0 {
                proof {
                    assert(not_source(source)(s[i as int]));
                    lemma_first_index_is(s, not_source(source), i as int);
                    assert(first_index(old(self)@.view.chats, not_source(source)) == Some(i as int));
                }
                self.view.forward_picker = Some(i);
                return ;
            }
            i = i + 1;
        }
        proof {
            lemma_first_index_none(s, not_source(source));
        }
        self.view.forward_picker = None;
    }

    fn forward_candidates(&self, source: ChatId) -> (r: Vec<usize>)
        ensures
            r@ == forward_candidates(self@.view.chats, source),
            forall|k: int| 0 <= k < r@.len() ==> r@[k] < self.view.chats.len(),
    {
        let ghost s = self@.view.chats;
        let mut r: Vec<usize> = Vec::new();
        let mut i: usize = 0;
        while i < self.view.chats.len()
            invariant
                s == self@.view.chats,
                i <= s.len(),
                r@ == forward_candidates(s.take(i as int), source),
                forall|k: int| 0 <= k < r@.len() ==> r@[k] < i,
            decreases s.len() - i,
        {
            proof {
                assert(s.take(i as int + 1).drop_last() =~= s.take(i as int));
            }
            if self.view.chats[i].id.0 != source.0 {
                r.push(i);
            }
            i = i + 1;
        }
        proof {
            assert(s.take(s.len() as int) =~= s);
        }
        r
    }

    pub fn apply_forward_picker(&mut self, action: Action) -> (r: Option<Effect>)
        ensures
            (final(self)@, r.deep_view()) == old(self)@.applied_forward_picker(action),
    {
        let source = match self.active_chat_id() {
            Some(c) => c,
            None => return None,
        };
        match action {
            Action::MoveUp | Action::MoveDown => {
                let forward = action == Action::MoveDown;
                let current = match self.view.forward_picker {
                    Some(c) => c,
                    None => return None,
                };
                let candidates = self.forward_candidates(source);
                let ghost cs = candidates@;
                let mut position: usize = 0;
                let mut k: usize = 0;
                let mut found = false;
                while k < candidates.len()
                    invariant
                        cs == candidates@,
                        k <= cs.len(),
                        !found ==> position == 0,
                        found ==> first_index(cs, |c: usize| c == current) == Some(position as int),
                        !found ==> forall|j: int| 0 <= j < k ==> cs[j] != current,
                    decreases cs.len() - k,
                {
                    if !found && candidates[k] == current {
                        proof {
                            lemma_first_index_is(cs, |c: usize| c == current, k as int);
                        }
                        position = k;
                        found = true;
                    }
                    k = k + 1;
                }
                if !found {
                    proof {
                        lemma_first_index_none(cs, |c: usize| c == current);
                    }
                }
                let next = match move_index(Some(position), candidates.len(), forward) {
                    Some(n) => n,
                    None => return None,
                };
                self.view.forward_picker = Some(candidates[next]);
                None
            },
            Action::ConfirmForward => {
                let index = match self.view.forward_picker {
                    Some(i) => i,
                    None => return None,
                };
                if index >= self.view.chats.len() {
                    return None;
                }
                let destination = self.view.chats[index].id;
                if self.view.selected_messages.len() == 0 {
                    return None;
                }
                let messages = self.view.selected_messages.clone();
                proof {
                    assert(messages@ =~= old(self)@.view.selected_messages);
                }
                self.view.forward_picker = None;
                self.clear_message_selection();
                Some(Effect::ForwardMessages { source, destination, messages })
            },
            Action::Cancel => {
                self.view.forward_picker = None;
                None
            },
            _ => None,
        }
    }

    pub fn apply_delete_confirmation(&mut self, action: Action) -> (r: Option<Effect>)
        ensures
            (final(self)@, r.deep_view()) == old(self)@.applied_delete_confirmation(action),
    {
        match action {
            Action::ConfirmDelete => {
                let chat = match self.active_chat_id() {
                    Some(c) => c,
                    None => return None,
                };
                let messages = match self.view.delete_confirmation.take() {
                    Some(m) => m,
                    None => return None,
                };
                proof {
                    assert(messages@ =~= messages.deep_view());
                }
                self.clear_message_selection();
                Some(Effect::DeleteMessages { chat, messages })
            },
            Action::Cancel => {
                self.view.delete_confirmation = None;
                None
            },
            _ => None,
        }
    }

    pub fn link_effect(link: LinkTarget) -> (r: Option<Effect>)
        ensures
            r.deep_view() == Some(link_effect_of(link.deep_view())),
    {
        match link.telegram_username {
            Some(username) => Some(Effect::ResolveTelegramUsername { username }),
            None => Some(Effect::OpenExternalLink { url: link.url }),
        }
    }

    pub fn open_active_link(&mut self) -> (r: Option<Effect>)
        ensures
            (final(self)@, r.deep_view()) == old(self)@.opened_active_link(),
    {
        let index = match self.view.active_message {
            Some(i) => if i < self.view.messages.len() {
                i
            } else {
                return None;
            },
            None => return None,
        };
        let link = match &self.view.messages[index].details.link {
            Some(l) => l.clone(),
            None => return None,
        };
        if link.suspicious {
            self.view.link_confirmation = Some(link);
            return None;
        }
        Self::link_effect(link)
    }

    pub fn confirm_active_link(&mut self) -> (r: Option<Effect>)
        ensures
            (final(self)@, r.deep_view()) == old(self)@.confirmed_active_link(),
    {
        match self.view.link_confirmation.take() {
            Some(link) => Self::link_effect(link),
            None => None,
        }
    }

    pub fn download_active_media(&self) -> (r: Option<Effect>)
        ensures
            r.deep_view() == self@.active_media_download(),
    {
        let chat = match self.active_chat_id() {
            Some(c) => c,
            None => return None,
        };
        let index = match self.view.active_message {
            Some(i) => if i < self.view.messages.len() {
                i
            } else {
                return None;
            },
            None => return None,
        };
        let message = &self.view.messages[index];
        let remote = match &message.details.media {
            Some(media) => media.remote_id.is_some(),
            None => false,
        };
        if !remote {
            return None;
        }
        Some(Effect::DownloadMedia { chat, message: message.id, destination: None })
    }

    pub fn open_save_as(&mut self)
        ensures
            final(self)@ == old(self)@.opened_save_as(),
    {
        let index = match self.view.active_message {
            Some(i) => if i < self.view.messages.len() {
                i
            } else {
                return ;
            },
            None => return ,
        };
        let name = match &self.view.messages[index].details.media {
            Some(media) => match media.remote_id {
                Some(_) => media.title.clone(),
                None => return ,
            },
            None => return ,
        };
        self.view.save_as = Some(SaveAsView { destination: name });
    }

    pub fn confirm_save_as(&mut self) -> (r: Option<Effect>)
        ensures
            (final(self)@, r.deep_view()) == old(self)@.confirmed_save_as(),
    {
        let destination = match self.view.save_as.take() {
            Some(s) => s.destination,
            None => return None,
        };
        if destination.as_str().is_empty() {
            return None;
        }
        let chat = match self.active_chat_id() {
            Some(c) => c,
            None => return None,
        };
        let message = match self.active_message_id() {
            Some(m) => m,
            None => return None,
        };
        Some(Effect::DownloadMedia { chat, message, destination: Some(destination) })
    }

    pub fn apply_save_as_action(&mut self, action: Action) -> (r: Option<Effect>)
        ensures
            (final(self)@, r.deep_view()) == old(self)@.applied_save_as_action(action),
    {
        match action {
            Action::ConfirmSaveAs => self.confirm_save_as(),
            Action::Cancel | Action::SaveAs => {
                self.view.save_as = None;
                None
            },
            _ => None,
        }
    }

    pub fn open_download(&self) -> (r: Option<Effect>)
        ensures
            r.deep_view() == self@.active_download_opening(),
    {
        let active = match self.active_message_id() {
            Some(m) => m,
            None => return None,
        };
        let chat = match self.active_chat_id() {
            Some(c) => c,
            None => return None,
        };
        let ghost d = self@.view.downloads;
        let ghost p = download_of(chat, active);
        let mut i: usize = 0;
        while i < self.view.downloads.len()
            invariant
                d == self@.view.downloads,
                p == download_of(chat, active),
                self@.view.active_message_id() == Some(active),
                self@.view.active_chat_id() == Some(chat),
                i <= d.len(),
                forall|j: int| 0 <= j < i ==> !p(d[j]),
            decreases d.len() - i,
        {
            let download = &self.view.downloads[i];
            if download.chat.0 == chat.0 && download.message.0 == active.0 {
                proof {
                    lemma_first_index_is(d, p, i as int);
                }
                return Some(Effect::OpenDownload { download: download.id, reveal: download.reveal_only });
            }
            i = i + 1;
        }
        proof {
            lemma_first_index_none(d, p);
        }
        None
    }

    pub fn toggle_active_pin(&self) -> (r: Option<Effect>)
        ensures
            r.deep_view() == self@.active_pin_toggle(),
    {
        let chat = match self.active_chat_id() {
            Some(c) => c,
            None => return None,
        };
        let index = match self.view.active_message {
            Some(i) => if i < self.view.messages.len() {
                i
            } else {
                return None;
            },
            None => return None,
        };
        let mut message = self.view.messages[index].clone();
        if message.id.0 <= 0 {
            return None;
        }
        let pinned = !message.details.pinned;
        message.details.pinned = pinned;
        Some(Effect::SetMessagePinned { chat, message: Box::new(message), pinned })
    }

    pub fn draft_effect(&self) -> (r: Option<Effect>)
        ensures
            r.deep_view() == self@.draft_effect(),
    {
        let key = match self.active_history_key() {
            Some(k) => k,
            None => return None,
        };
        if self.view.focus == Focus::Composer && self.view.composer.editing.is_none()
            && !self.view.poll_composer {
            Some(
                Effect::SaveDraft {
                    chat: key.chat,
                    thread_root: key.thread,
                    text: self.view.composer.text.clone(),
                    reply_to: self.view.composer.reply_to,
                },
            )
        } else {
            None
        }
    }
}

} // verus!
