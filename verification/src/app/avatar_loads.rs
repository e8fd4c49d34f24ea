use vstd::prelude::*;

use super::media_loads::{capped, lemma_capped_push, CHAT_WINDOW_RADIUS, MAX_QUEUED_AVATARS};
use super::{App, AppModel, AvatarLoads, AvatarLoadsModel};
use crate::ids::{AvatarId, AvatarRef, ChatId, KeyEq};
use crate::vecset::{set_insert, vec_contains};
use crate::view::{AvatarView, ChatModel, Effect, EffectModel, MessageModel, ScreenModel};

verus! {

broadcast use vstd::seq_lib::group_seq_properties;

/// Peers shown in a stretch of the chat list: each chat, then the sender of its preview.
pub open spec fn window_peers(chats: Seq<ChatModel>) -> Seq<ChatId>
    decreases chats.len(),
{
    if chats.len() == 0 {
        Seq::empty()
    } else {
        let rest = window_peers(chats.drop_last());
        let c = chats.last();
        match c.preview_sender_peer {
            Some(p) => rest.push(c.id).push(p),
            None => rest.push(c.id),
        }
    }
}

/// Senders of the given messages, in order, skipping messages without a sender peer.
pub open spec fn sender_peers(messages: Seq<MessageModel>) -> Seq<ChatId>
    decreases messages.len(),
{
    if messages.len() == 0 {
        Seq::empty()
    } else {
        let rest = sender_peers(messages.drop_last());
        match messages.last().sender_peer {
            Some(p) => rest.push(p),
            None => rest,
        }
    }
}

/// The first occurrence of each element, in order.
pub open spec fn dedup<T>(s: Seq<T>) -> Seq<T>
    decreases s.len(),
{
    if s.len() == 0 {
        s
    } else {
        let d = dedup(s.drop_last());
        if s.drop_last().contains(s.last()) {
            d
        } else {
            d.push(s.last())
        }
    }
}

pub proof fn lemma_dedup_contains<T>(s: Seq<T>, x: T)
    ensures
        dedup(s).contains(x) <==> s.contains(x),
    decreases s.len(),
{
    if s.len() > 0 {
        lemma_dedup_contains(s.drop_last(), x);
        assert(s =~= s.drop_last().push(s.last()));
        if dedup(s).contains(x) && !s.drop_last().contains(s.last()) && x != s.last() {
            let d = dedup(s.drop_last());
            let k = choose|k: int| 0 <= k < d.push(s.last()).len() && d.push(s.last())[k] == x;
            assert(d[k] == x);
        }
    }
}

pub open spec fn with_peer(peer: ChatId) -> spec_fn(AvatarRef) -> bool {
    |a: AvatarRef| a.peer != peer
}

impl AppModel {
    pub open spec fn with_avatars(self, loads: AvatarLoadsModel) -> AppModel {
        AppModel { avatar_loads: loads, ..self }
    }

    /// Peers whose avatars are visible: the chat list around the selection, the senders of
    /// the shown messages (newest first), and the Saved Messages dialogs.
    pub open spec fn visible_peers(self) -> Seq<ChatId> {
        let window = match self.view.active_chat {
            Some(active) => {
                let start = if active >= CHAT_WINDOW_RADIUS {
                    active - CHAT_WINDOW_RADIUS
                } else {
                    0
                };
                let end = if active + CHAT_WINDOW_RADIUS + 1 <= self.view.chats.len() {
                    active + CHAT_WINDOW_RADIUS + 1
                } else {
                    self.view.chats.len() as int
                };
                window_peers(self.view.chats.subrange(start as int, end))
            },
            None => Seq::empty(),
        };
        window + sender_peers(self.view.messages.reverse()) + self.view.saved_dialogs
    }

    pub open spec fn has_avatar(self) -> spec_fn(ChatId) -> bool {
        |p: ChatId| self.avatar_peers.contains_key(p)
    }

    pub open spec fn avatar_ref(self) -> spec_fn(ChatId) -> AvatarRef {
        |p: ChatId| AvatarRef { peer: p, id: self.avatar_peers[p] }
    }

    /// An avatar is worth queueing when it is not loading, did not fail, and is not shown.
    pub open spec fn wants_avatar(self) -> spec_fn(AvatarRef) -> bool {
        |a: AvatarRef|
            self.avatar_loads.active != Some(a) && !self.avatar_loads.failed.contains(a)
                && !self.view.avatars.contains(a)
    }

    pub open spec fn queued_visible_avatars(self) -> AppModel {
        let candidates = dedup(
            self.visible_peers().filter(self.has_avatar()).map_values(self.avatar_ref()),
        );
        self.with_avatars(
            AvatarLoadsModel {
                queued: capped(candidates.filter(self.wants_avatar()), MAX_QUEUED_AVATARS as nat),
                ..self.avatar_loads
            },
        )
    }

    pub open spec fn next_avatar(self) -> (AppModel, Option<EffectModel>) {
        if self.avatar_loads.active is Some || self.avatar_loads.queued.len() == 0 {
            (self, None)
        } else {
            let avatar = self.avatar_loads.queued[0];
            (
                self.with_avatars(
                    AvatarLoadsModel {
                        active: Some(avatar),
                        queued: self.avatar_loads.queued.drop_first(),
                        ..self.avatar_loads
                    },
                ),
                Some(EffectModel::LoadAvatar { avatar }),
            )
        }
    }

    /// A finished avatar is shown when it is still the peer's avatar, remembered as failed
    /// when it did not load; then the next avatar, pending read or background load follows.
    pub open spec fn completed_avatar(self, avatar: AvatarRef, loaded: Option<AvatarRef>) -> (
        AppModel,
        Option<EffectModel>,
    ) {
        if self.avatar_loads.active != Some(avatar) {
            (self, None)
        } else {
            let current = self.avatar_peers.contains_key(avatar.peer) && self.avatar_peers[avatar.peer]
                == avatar.id;
            let s0 = self.with_avatars(AvatarLoadsModel { active: None, ..self.avatar_loads });
            let s1 = match loaded {
                Some(shown) if current => AppModel {
                    view: ScreenModel {
                        avatars: s0.view.avatars.filter(with_peer(shown.peer)).push(shown),
                        ..s0.view
                    },
                    ..s0
                },
                _ => if current {
                    s0.with_avatars(
                        AvatarLoadsModel {
                            failed: s0.avatar_loads.failed.insert(avatar),
                            ..s0.avatar_loads
                        },
                    )
                } else {
                    s0
                },
            };
            let (s2, e2) = s1.next_avatar();
            if e2 is Some {
                (s2, e2)
            } else {
                let (s3, e3) = s2.taken_pending_read();
                if e3 is Some {
                    (s3, e3)
                } else {
                    s3.next_background_history()
                }
            }
        }
    }

    /// Avatars of `peer` leave the queue and the failed set.
    pub open spec fn invalidated_avatars(self, peer: ChatId) -> AppModel {
        self.with_avatars(
            AvatarLoadsModel {
                queued: self.avatar_loads.queued.filter(with_peer(peer)),
                failed: self.avatar_loads.failed.filter(with_peer(peer)),
                ..self.avatar_loads
            },
        )
    }

    /// The peer's avatar changed: stale pictures go and the visible avatars are queued again.
    pub open spec fn updated_avatar(self, peer: ChatId, id: Option<AvatarId>) -> (
        AppModel,
        Option<EffectModel>,
    ) {
        let s = AppModel {
            avatar_peers: match id {
                Some(id) => self.avatar_peers.insert(peer, id),
                None => self.avatar_peers.remove(peer),
            },
            view: ScreenModel {
                avatars: self.view.avatars.filter(
                    |a: AvatarRef| a.peer != peer || id == Some(a.id),
                ),
                ..self.view
            },
            ..self
        };
        s.invalidated_avatars(peer).queued_visible_avatars().next_avatar()
    }
}

impl App {
    fn shows_avatar(&self, avatar: AvatarRef) -> (r: bool)
        ensures
            r == self@.view.avatars.contains(avatar),
    {
        let ghost s = self@.view.avatars;
        let mut i: usize = 0;
        while i < self.view.avatars.len()
            invariant
                s == self@.view.avatars,
                i <= s.len(),
                forall|j: int| 0 <= j < i ==> s[j] != avatar,
            decreases s.len() - i,
        {
            if self.view.avatars[i].avatar.same(&avatar) {
                assert(s[i as int] == avatar);
                return true;
            }
            i = i + 1;
        }
        false
    }

    fn visible_peers(&self) -> (peers: Vec<ChatId>)
        requires
            self@.selection_wf(),
        ensures
            peers@ == self@.visible_peers(),
    {
        let ghost m = self@;
        let mut peers: Vec<ChatId> = Vec::new();
        let ghost window: Seq<ChatId> = Seq::empty();
        if let Some(active) = self.view.active_chat {
            let len = self.view.chats.len();
            let start = if active >= CHAT_WINDOW_RADIUS {
                active - CHAT_WINDOW_RADIUS
            } else {
                0
            };
            let end = if len - active >= CHAT_WINDOW_RADIUS + 1 {
                active + CHAT_WINDOW_RADIUS + 1
            } else {
                len
            };
            let mut j = start;
            while j < end
                invariant
                    m == self@,
                    start <= j <= end <= len,
                    len == m.view.chats.len(),
                    peers@ == window_peers(m.view.chats.subrange(start as int, j as int)),
                decreases end - j,
            {
                proof {
                    assert(m.view.chats.subrange(start as int, j as int + 1).drop_last()
                        =~= m.view.chats.subrange(start as int, j as int));
                }
                let chat = &self.view.chats[j];
                peers.push(chat.id);
                if let Some(p) = chat.preview_sender_peer {
                    peers.push(p);
                }
                j = j + 1;
            }
            proof {
                window = peers@;
            }
        }
        assert(window == match m.view.active_chat {
            Some(active) => {
                let start = if active >= CHAT_WINDOW_RADIUS {
                    active - CHAT_WINDOW_RADIUS
                } else {
                    0
                };
                let end = if active + CHAT_WINDOW_RADIUS + 1 <= m.view.chats.len() {
                    active + CHAT_WINDOW_RADIUS + 1
                } else {
                    m.view.chats.len() as int
                };
                window_peers(m.view.chats.subrange(start as int, end))
            },
            None => Seq::<ChatId>::empty(),
        });
        let ghost rev = m.view.messages.reverse();
        let count = self.view.messages.len();
        let mut k: usize = 0;
        while k < count
            invariant
                m == self@,
                count == m.view.messages.len(),
                rev == m.view.messages.reverse(),
                k <= count,
                peers@ == window + sender_peers(rev.take(k as int)),
            decreases count - k,
        {
            proof {
                assert(rev.take(k as int + 1).drop_last() =~= rev.take(k as int));
            }
            if let Some(p) = self.view.messages[count - 1 - k].details.sender_peer {
                peers.push(p);
            }
            k = k + 1;
        }
        proof {
            assert(rev.take(count as int) =~= rev);
        }
        let ghost middle = peers@;
        let mut d: usize = 0;
        while d < self.view.saved_dialogs.len()
            invariant
                m == self@,
                d <= m.view.saved_dialogs.len(),
                peers@ == middle + m.view.saved_dialogs.take(d as int),
            decreases m.view.saved_dialogs.len() - d,
        {
            peers.push(self.view.saved_dialogs[d].peer);
            proof {
                assert(m.view.saved_dialogs.take(d as int + 1) =~= m.view.saved_dialogs.take(
                    d as int,
                ).push(m.view.saved_dialogs[d as int]));
            }
            d = d + 1;
        }
        proof {
            assert(m.view.saved_dialogs.take(m.view.saved_dialogs.len() as int)
                =~= m.view.saved_dialogs);
        }
        peers
    }

    pub fn queue_visible_avatars(&mut self)
        requires
            old(self)@.selection_wf(),
        ensures
            final(self)@ == old(self)@.queued_visible_avatars(),
    {
        let ghost m = self@;
        let peers = self.visible_peers();
        let ghost has = m.has_avatar();
        let ghost aref = m.avatar_ref();
        let ghost wants = m.wants_avatar();
        let mut seen: Vec<AvatarRef> = Vec::new();
        let mut queued: Vec<AvatarRef> = Vec::new();
        let mut i: usize = 0;
        while i < peers.len()
            invariant
                m == self@,
                has == m.has_avatar(),
                aref == m.avatar_ref(),
                wants == m.wants_avatar(),
                i <= peers.len(),
                seen@ == dedup(peers@.take(i as int).filter(has).map_values(aref)),
                queued@ == capped(seen@.filter(wants), MAX_QUEUED_AVATARS as nat),
            decreases peers.len() - i,
        {
            let p = peers[i];
            let ghost c = peers@.take(i as int).filter(has).map_values(aref);
            proof {
                peers@.lemma_take_succ_push(i as int);
                peers@.take(i as int).lemma_filter_push(p, has);
                let f = peers@.take(i as int).filter(has);
                assert(f.push(p).map_values(aref) =~= c.push(aref(p)));
                assert(c.push(aref(p)).drop_last() =~= c);
                lemma_dedup_contains(c, aref(p));
            }
            if let Some(id) = self.avatar_peers.get(&p) {
                let a = AvatarRef { peer: p, id: *id };
                if !vec_contains(&seen, &a) {
                    let ghost before = seen@;
                    seen.push(a);
                    let loaded = self.shows_avatar(a);
                    let failed = vec_contains(&self.avatar_loads.failed, &a);
                    let loading = match self.avatar_loads.active {
                        Some(active) => active.same(&a),
                        None => false,
                    };
                    proof {
                        before.lemma_filter_push(a, wants);
                        lemma_capped_push(before.filter(wants), a, MAX_QUEUED_AVATARS as nat);
                    }
                    if !loading && !failed && !loaded && queued.len() < MAX_QUEUED_AVATARS {
                        queued.push(a);
                    }
                }
            }
            i = i + 1;
        }
        proof {
            assert(peers@.take(peers@.len() as int) =~= peers@);
        }
        self.avatar_loads.queued = queued;
    }

    pub fn request_next_avatar(&mut self) -> (r: Option<Effect>)
        ensures
            (final(self)@, r.deep_view()) == old(self)@.next_avatar(),
    {
        if self.avatar_loads.active.is_some() || self.avatar_loads.queued.len() == 0 {
            return None;
        }
        let avatar = self.avatar_loads.queued.remove(0);
        self.avatar_loads.active = Some(avatar);
        Some(Effect::LoadAvatar { avatar })
    }

    pub fn complete_avatar(&mut self, avatar_ref: AvatarRef, loaded: Option<AvatarView>) -> (r:
        Option<Effect>)
        requires
            old(self)@.background_wf(),
        ensures
            (final(self)@, r.deep_view()) == old(self)@.completed_avatar(
                avatar_ref,
                loaded.deep_view(),
            ),
    {
        let active = match self.avatar_loads.active {
            Some(a) => a.same(&avatar_ref),
            None => false,
        };
        if !active {
            return None;
        }
        self.avatar_loads.active = None;
        let current = match self.avatar_peers.get(&avatar_ref.peer) {
            Some(id) => id.0 == avatar_ref.id.0,
            None => false,
        };
        match loaded {
            Some(avatar) if current => {
                let shown = avatar.avatar;
                let mut kept: Vec<AvatarView> = Vec::new();
                let mut rest: Vec<AvatarView> = Vec::new();
                std::mem::swap(&mut rest, &mut self.view.avatars);
                let ghost all = rest.deep_view();
                let ghost pred = with_peer(shown.peer);
                let n = rest.len();
                let mut i: usize = 0;
                while rest.len() > 0
                    invariant
                        pred == with_peer(shown.peer),
                        rest.len() + i == n,
                        n == all.len(),
                        rest.deep_view() == all.skip(i as int),
                        kept.deep_view() == all.take(i as int).filter(pred),
                    decreases rest.len(),
                {
                    proof {
                        all.lemma_take_succ_push(i as int);
                        all.take(i as int).lemma_filter_push(all[i as int], pred);
                    }
                    let e = rest.remove(0);
                    proof {
                        assert(rest.deep_view() =~= all.skip(i as int + 1));
                    }
                    if e.avatar.peer.0 != shown.peer.0 {
                        let ghost k0 = kept.deep_view();
                        kept.push(e);
                        proof {
                            assert(kept.deep_view() =~= k0.push(all[i as int]));
                        }
                    }
                    i = i + 1;
                }
                proof {
                    assert(all.take(n as int) =~= all);
                }
                let ghost k1 = kept.deep_view();
                kept.push(avatar);
                proof {
                    assert(kept.deep_view() =~= k1.push(shown));
                }
                self.view.avatars = kept;
            },
            _ => {
                if current {
                    set_insert(&mut self.avatar_loads.failed, avatar_ref);
                }
            },
        }
        let next = self.request_next_avatar();
        if next.is_some() {
            return next;
        }
        let read = self.take_pending_read();
        if read.is_some() {
            return read;
        }
        self.request_next_background_history()
    }

    pub fn update_avatar(&mut self, peer: ChatId, id: Option<AvatarId>) -> (r: Option<Effect>)
        requires
            old(self)@.selection_wf(),
        ensures
            (final(self)@, r.deep_view()) == old(self)@.updated_avatar(peer, id),
    {
        match id {
            Some(id) => {
                self.avatar_peers.insert(peer, id);
            },
            None => {
                self.avatar_peers.remove(&peer);
            },
        }
        let ghost keep = |a: AvatarRef| a.peer != peer || id == Some(a.id);
        let mut kept: Vec<AvatarView> = Vec::new();
        let mut rest: Vec<AvatarView> = Vec::new();
        std::mem::swap(&mut rest, &mut self.view.avatars);
        let ghost all = rest.deep_view();
        let n = rest.len();
        let mut i: usize = 0;
        while rest.len() > 0
            invariant
                keep == (|a: AvatarRef| a.peer != peer || id == Some(a.id)),
                rest.len() + i == n,
                n == all.len(),
                rest.deep_view() == all.skip(i as int),
                kept.deep_view() == all.take(i as int).filter(keep),
            decreases rest.len(),
        {
            proof {
                all.lemma_take_succ_push(i as int);
                all.take(i as int).lemma_filter_push(all[i as int], keep);
            }
            let e = rest.remove(0);
            proof {
                assert(rest.deep_view() =~= all.skip(i as int + 1));
            }
            let same_id = match id {
                Some(x) => x.0 == e.avatar.id.0,
                None => false,
            };
            if e.avatar.peer.0 != peer.0 || same_id {
                let ghost k0 = kept.deep_view();
                kept.push(e);
                proof {
                    assert(kept.deep_view() =~= k0.push(all[i as int]));
                }
            }
            i = i + 1;
        }
        proof {
            assert(all.take(n as int) =~= all);
        }
        self.view.avatars = kept;
        self.avatar_loads.invalidate(peer);
        self.queue_visible_avatars();
        self.request_next_avatar()
    }
}

impl AvatarLoads {
    pub fn invalidate(&mut self, peer: ChatId)
        ensures
            final(self).deep_view() == (AvatarLoadsModel {
                queued: old(self).deep_view().queued.filter(with_peer(peer)),
                failed: old(self).deep_view().failed.filter(with_peer(peer)),
                ..old(self).deep_view()
            }),
    {
        let ghost q = self.queued@;
        let ghost f = self.failed@;
        self.queued = retain_other_peers(&self.queued, peer);
        self.failed = retain_other_peers(&self.failed, peer);
        proof {
            assert forall|a: AvatarRef| self.failed@.to_set().contains(a) <==> f.to_set().filter(
                with_peer(peer),
            ).contains(a) by {
                crate::seqs::lemma_filter_contains_iff(f, with_peer(peer), a);
            }
            assert(self.failed@.to_set() =~= f.to_set().filter(with_peer(peer)));
        }
    }
}

fn retain_other_peers(v: &Vec<AvatarRef>, peer: ChatId) -> (r: Vec<AvatarRef>)
    ensures
        r@ == v@.filter(with_peer(peer)),
{
    let ghost pred = with_peer(peer);
    let mut kept: Vec<AvatarRef> = Vec::new();
    let mut i: usize = 0;
    while i < v.len()
        invariant
            pred == with_peer(peer),
            i <= v.len(),
            kept@ == v@.take(i as int).filter(pred),
        decreases v.len() - i,
    {
        proof {
            v@.lemma_take_succ_push(i as int);
            v@.take(i as int).lemma_filter_push(v@[i as int], pred);
        }
        if v[i].peer.0 != peer.0 {
            kept.push(v[i]);
        }
        i = i + 1;
    }
    proof {
        assert(v@.take(v@.len() as int) =~= v@);
    }
    kept
}

} // verus!

verus! {

impl AppModel {
    /// A finished history load starts the queued foreground load, else the next preview,
    /// avatar, background chat or pending read receipt.
    pub open spec fn completed_history_load(self, key: crate::ids::HistoryKey, refreshed: bool) -> (
        AppModel,
        Option<EffectModel>,
    ) {
        let s1 = if refreshed && key.thread is None {
            self.with_loads(
                super::HistoryLoadsModel {
                    refreshed_chats: self.history_loads.refreshed_chats.insert(key.chat),
                    ..self.history_loads
                },
            )
        } else {
            self
        };
        if s1.history_loads.active != Some(key) {
            (s1, None)
        } else {
            let shown = s1.view.active_history_key() == Some(key);
            let s2 = AppModel {
                view: if shown {
                    ScreenModel { chat_loading: crate::view::ChatLoadingState::Idle, ..s1.view }
                } else {
                    s1.view
                },
                history_loads: super::HistoryLoadsModel {
                    active: None,
                    active_baseline: Set::empty(),
                    queued: None,
                    ..s1.history_loads
                },
                ..s1
            };
            let (s3, e3) = match s1.history_loads.queued {
                Some(q) if !s2.history_was_refreshed(q) => s2.started_history_load(q),
                _ => (s2, None),
            };
            if e3 is Some {
                (s3, e3)
            } else {
                s3.next_idle_work()
            }
        }
    }

    /// Work picked up when the foreground is idle: a preview, an avatar, a background chat,
    /// then a pending read receipt.
    pub open spec fn next_idle_work(self) -> (AppModel, Option<EffectModel>) {
        let (s4, e4) = self.next_media_preview();
        if e4 is Some {
            (s4, e4)
        } else {
            let (s5, e5) = s4.next_avatar();
            if e5 is Some {
                (s5, e5)
            } else {
                let (s6, e6) = s5.next_background_history();
                if e6 is Some {
                    (s6, e6)
                } else {
                    s6.taken_pending_read()
                }
            }
        }
    }
}

impl App {
    pub fn complete_history_load(&mut self, key: crate::ids::HistoryKey, refreshed: bool) -> (r:
        Option<Effect>)
        requires
            old(self)@.background_wf(),
        ensures
            (final(self)@, r.deep_view()) == old(self)@.completed_history_load(key, refreshed),
    {
        if refreshed && key.thread.is_none() {
            set_insert(&mut self.history_loads.refreshed_chats, key.chat);
        }
        let active = match self.history_loads.active {
            Some(a) => a.same(&key),
            None => false,
        };
        if !active {
            return None;
        }
        let shown = match self.active_history_key() {
            Some(k) => k.same(&key),
            None => false,
        };
        if shown {
            self.view.chat_loading = crate::view::ChatLoadingState::Idle;
        }
        self.history_loads.active = None;
        crate::vecset::set_clear(&mut self.history_loads.active_baseline);
        let queued = self.history_loads.queued;
        self.history_loads.queued = None;
        let foreground = match queued {
            Some(q) => if !self.history_was_refreshed(q) {
                self.start_history_load(q)
            } else {
                None
            },
            None => None,
        };
        if foreground.is_some() {
            return foreground;
        }
        self.request_idle_work()
    }

    fn request_idle_work(&mut self) -> (r: Option<Effect>)
        requires
            old(self)@.background_wf(),
        ensures
            (final(self)@, r.deep_view()) == old(self)@.next_idle_work(),
    {
        let preview = self.request_next_media_preview();
        if preview.is_some() {
            return preview;
        }
        let avatar = self.request_next_avatar();
        if avatar.is_some() {
            return avatar;
        }
        let background = self.request_next_background_history();
        if background.is_some() {
            return background;
        }
        self.take_pending_read()
    }
}

} // verus!
