use vstd::prelude::*;

use super::{App, AppModel, MediaPreviewLoadsModel};
use crate::ids::{ChatId, KeyEq, PreviewKey};

use crate::view::{DownloadModel, Effect, EffectModel, MediaKind, MediaPreviewView, MessageModel, ScreenModel};

verus! {

broadcast use vstd::seq_lib::group_seq_properties;

pub const MAX_QUEUED_PREVIEWS: usize = 8;

pub const MAX_RETAINED_PREVIEWS: usize = 64;

pub const CHAT_WINDOW_RADIUS: usize = 8;

pub const MAX_QUEUED_AVATARS: usize = 12;

/// The first `n` elements, or all of them when there are fewer.
pub open spec fn capped<T>(s: Seq<T>, n: nat) -> Seq<T> {
    if s.len() <= n {
        s
    } else {
        s.take(n as int)
    }
}

pub proof fn lemma_capped_push<T>(s: Seq<T>, x: T, n: nat)
    ensures
        capped(s.push(x), n) == if s.len() < n {
            s.push(x)
        } else {
            capped(s, n)
        },
        capped(s, n).len() < n <==> s.len() < n,
        s.len() < n ==> capped(s, n) == s,
{
    if s.len() >= n {
        assert(s.push(x).take(n as int) =~= s.take(n as int));
    }
}

/// The message carries media with a remote copy that renders as a picture.
pub open spec fn previewable(m: MessageModel) -> bool {
    match m.media {
        Some(media) => media.remote_id is Some && (media.kind == MediaKind::Photo || media.kind
            == MediaKind::Animation || media.kind == MediaKind::Sticker),
        None => false,
    }
}

pub open spec fn preview_key_in(chat: ChatId) -> spec_fn(MessageModel) -> PreviewKey {
    |m: MessageModel| PreviewKey { chat, message: m.id }
}

pub open spec fn other_preview(key: PreviewKey) -> spec_fn(PreviewKey) -> bool {
    |k: PreviewKey| k != key
}

pub open spec fn has_preview_download(downloads: Seq<DownloadModel>, key: PreviewKey) -> bool {
    exists|i: int|
        0 <= i < downloads.len() && downloads[i].chat == key.chat && downloads[i].message
            == key.message && downloads[i].has_preview
}

impl AppModel {
    pub open spec fn with_previews(self, loads: MediaPreviewLoadsModel) -> AppModel {
        AppModel { media_preview_loads: loads, ..self }
    }

    /// A preview of `m` in `chat` is worth queueing: not loading, not held, not downloaded.
    pub open spec fn wants_preview(self, chat: ChatId, m: MessageModel) -> bool {
        let key = PreviewKey { chat, message: m.id };
        &&& previewable(m)
        &&& self.media_preview_loads.active != Some(key)
        &&& !self.view.media_previews.contains(key)
        &&& !has_preview_download(self.view.downloads, key)
    }

    pub open spec fn wants_preview_in(self, chat: ChatId) -> spec_fn(MessageModel) -> bool {
        |m: MessageModel| self.wants_preview(chat, m)
    }

    /// Newest first, at most `MAX_QUEUED_PREVIEWS` previews of the shown chat.
    pub open spec fn queued_active_media_previews(self) -> AppModel {
        match self.view.active_chat_id() {
            None => self.with_previews(
                MediaPreviewLoadsModel { queued: Seq::empty(), ..self.media_preview_loads },
            ),
            Some(chat) => self.with_previews(
                MediaPreviewLoadsModel {
                    queued: capped(
                        self.view.messages.reverse().filter(self.wants_preview_in(chat)).map_values(
                            preview_key_in(chat),
                        ),
                        MAX_QUEUED_PREVIEWS as nat,
                    ),
                    ..self.media_preview_loads
                },
            ),
        }
    }

    pub open spec fn next_media_preview(self) -> (AppModel, Option<EffectModel>) {
        if self.media_preview_loads.active is Some || self.media_preview_loads.queued.len() == 0 {
            (self, None)
        } else {
            let key = self.media_preview_loads.queued[0];
            (
                self.with_previews(
                    MediaPreviewLoadsModel {
                        active: Some(key),
                        queued: self.media_preview_loads.queued.drop_first(),
                    },
                ),
                Some(EffectModel::LoadMediaPreview { chat: key.chat, message: key.message }),
            )
        }
    }

    /// The finished preview frees the slot for the next preview, else for background history.
    pub open spec fn completed_media_preview(self, key: PreviewKey) -> (AppModel, Option<EffectModel>) {
        if self.media_preview_loads.active != Some(key) {
            (self, None)
        } else {
            let s = self.with_previews(
                MediaPreviewLoadsModel { active: None, ..self.media_preview_loads },
            );
            let (s2, e) = s.next_media_preview();
            if e is Some {
                (s2, e)
            } else if s2.history_loads.active is Some {
                (s2, None)
            } else {
                s2.next_background_history()
            }
        }
    }

    /// The preview replaces an older one of the same message; only the newest are retained.
    pub open spec fn stored_media_preview(self, key: PreviewKey) -> AppModel {
        let kept = self.view.media_previews.filter(other_preview(key)).push(key);
        AppModel {
            view: ScreenModel {
                media_previews: if kept.len() > MAX_RETAINED_PREVIEWS {
                    kept.drop_first()
                } else {
                    kept
                },
                ..self.view
            },
            ..self
        }
    }
}

fn contains_preview(previews: &Vec<MediaPreviewView>, key: PreviewKey) -> (r: bool)
    ensures
        r == previews.deep_view().contains(key),
{
    let ghost s = previews.deep_view();
    let mut i: usize = 0;
    while i < previews.len()
        invariant
            s == previews.deep_view(),
            i <= s.len(),
            forall|j: int| 0 <= j < i ==> s[j] != key,
        decreases s.len() - i,
    {
        if previews[i].chat.0 == key.chat.0 && previews[i].message.0 == key.message.0 {
            assert(s[i as int] == key);
            return true;
        }
        i = i + 1;
    }
    false
}

impl App {
    fn downloaded_preview(&self, key: PreviewKey) -> (r: bool)
        ensures
            r == has_preview_download(self@.view.downloads, key),
    {
        let ghost s = self@.view.downloads;
        let mut i: usize = 0;
        while i < self.view.downloads.len()
            invariant
                s == self@.view.downloads,
                i <= s.len(),
                forall|j: int|
                    0 <= j < i ==> !(s[j].chat == key.chat && s[j].message == key.message
                        && s[j].has_preview),
            decreases s.len() - i,
        {
            let d = &self.view.downloads[i];
            if d.chat.0 == key.chat.0 && d.message.0 == key.message.0 && d.has_preview {
                assert(s[i as int].chat == key.chat && s[i as int].message == key.message
                    && s[i as int].has_preview);
                return true;
            }
            i = i + 1;
        }
        false
    }

    fn wants_preview(&self, chat: ChatId, index: usize) -> (r: bool)
        requires
            index < self.view.messages.len(),
        ensures
            r == self@.wants_preview(chat, self@.view.messages[index as int]),
    {
        let m = &self.view.messages[index];
        let key = PreviewKey { chat, message: m.id };
        let previewable = match &m.details.media {
            Some(media) => media.remote_id.is_some() && (media.kind == MediaKind::Photo
                || media.kind == MediaKind::Animation || media.kind == MediaKind::Sticker),
            None => false,
        };
        if !previewable {
            return false;
        }
        let loading = match self.media_preview_loads.active {
            Some(active) => active.chat.0 == key.chat.0 && active.message.0 == key.message.0,
            None => false,
        };
        !loading && !contains_preview(&self.view.media_previews, key) && !self.downloaded_preview(
            key,
        )
    }

    pub fn queue_active_media_previews(&mut self)
        ensures
            final(self)@ == old(self)@.queued_active_media_previews(),
    {
        let ghost old0 = self@;
        self.media_preview_loads.queued.clear();
        let chat = match self.active_chat_id() {
            Some(chat) => chat,
            None => return ,
        };
        let ghost s0 = self@;
        let ghost pred = old0.wants_preview_in(chat);
        let ghost f = preview_key_in(chat);
        let ghost rev = s0.view.messages.reverse();
        let len = self.view.messages.len();
        let mut queued: Vec<PreviewKey> = Vec::new();
        let mut k: usize = 0;
        while k < len
            invariant
                len == s0.view.messages.len(),
                self@ == s0,
                rev == s0.view.messages.reverse(),
                pred == old0.wants_preview_in(chat),
                f == preview_key_in(chat),
                s0 == (AppModel { media_preview_loads: MediaPreviewLoadsModel { queued: Seq::empty(), ..old0.media_preview_loads }, ..old0 }),
                k <= len,
                queued@ == capped(
                    rev.take(k as int).filter(pred).map_values(f),
                    MAX_QUEUED_PREVIEWS as nat,
                ),
            decreases len - k,
        {
            let index = len - 1 - k;
            let wanted = self.wants_preview(chat, index);
            proof {
                let m = s0.view.messages[index as int];
                assert(s0.wants_preview(chat, m) == pred(m));
                assert(rev.take(k as int + 1) =~= rev.take(k as int).push(m));
                rev.take(k as int).lemma_filter_push(m, pred);
                let before = rev.take(k as int).filter(pred);
                assert(before.push(m).map_values(f) =~= before.map_values(f).push(f(m)));
                lemma_capped_push(before.map_values(f), f(m), MAX_QUEUED_PREVIEWS as nat);
            }
            if wanted && queued.len() < MAX_QUEUED_PREVIEWS {
                queued.push(PreviewKey { chat, message: self.view.messages[index].id });
            }
            k = k + 1;
        }
        proof {
            assert(rev.take(len as int) =~= rev);
        }
        self.media_preview_loads.queued = queued;
    }

    pub fn request_next_media_preview(&mut self) -> (r: Option<Effect>)
        ensures
            (final(self)@, r.deep_view()) == old(self)@.next_media_preview(),
    {
        if self.media_preview_loads.active.is_some() || self.media_preview_loads.queued.len()
            == 0 {
            return None;
        }
        let key = self.media_preview_loads.queued.remove(0);
        self.media_preview_loads.active = Some(key);
        Some(Effect::LoadMediaPreview { chat: key.chat, message: key.message })
    }

    pub fn complete_media_preview(&mut self, key: PreviewKey) -> (r: Option<Effect>)
        requires
            old(self)@.background_wf(),
        ensures
            (final(self)@, r.deep_view()) == old(self)@.completed_media_preview(key),
    {
        let active = match self.media_preview_loads.active {
            Some(a) => a.chat.0 == key.chat.0 && a.message.0 == key.message.0,
            None => false,
        };
        if !active {
            return None;
        }
        self.media_preview_loads.active = None;
        let next = self.request_next_media_preview();
        if next.is_some() {
            return next;
        }
        if self.history_load_is_active() {
            return None;
        }
        self.request_next_background_history()
    }

    pub fn store_media_preview(&mut self, preview: MediaPreviewView)
        ensures
            final(self)@ == old(self)@.stored_media_preview(preview.deep_view()),
    {
        let key = PreviewKey { chat: preview.chat, message: preview.message };
        let ghost before = self@.view.media_previews;
        let ghost pred = other_preview(key);
        let mut kept: Vec<MediaPreviewView> = Vec::new();
        let mut rest: Vec<MediaPreviewView> = Vec::new();
        std::mem::swap(&mut rest, &mut self.view.media_previews);
        let mut i: usize = 0;
        let n = rest.len();
        let ghost all = rest.deep_view();
        while rest.len() > 0
            invariant
                all == before,
                pred == other_preview(key),
                rest.len() + i == n,
                n == all.len(),
                rest.deep_view() == all.skip(i as int),
                kept.deep_view() == all.take(i as int).filter(pred),
            decreases rest.len(),
        {
            proof {
                all.lemma_take_succ_push(i as int);
                all.take(i as int).lemma_filter_push(all[i as int], pred);
            }
            let ghost r = rest.deep_view();
            let e = rest.remove(0);
            proof {
                assert(rest.deep_view() =~= all.skip(i as int + 1));
                assert(e.deep_view() == all[i as int]);
            }
            if !(e.chat.0 == key.chat.0 && e.message.0 == key.message.0) {
                let ghost k0 = kept.deep_view();
                kept.push(e);
                proof {
                    assert(kept.deep_view() =~= k0.push(all[i as int]));
                }
            }
            i = i + 1;
        }
        proof {
            assert(all.take(n as int) =~= all);
        }
        let ghost k1 = kept.deep_view();
        kept.push(preview);
        proof {
            assert(kept.deep_view() =~= k1.push(key));
        }
        if kept.len() > MAX_RETAINED_PREVIEWS {
            kept.remove(0);
            proof {
                assert(kept.deep_view() =~= k1.push(key).drop_first());
            }
        }
        self.view.media_previews = kept;
    }
}

} // verus!
