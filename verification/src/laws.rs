use vstd::prelude::*;

use crate::app::avatar_loads::dedup;
use crate::app::chat_reconciliation::{other_id, upserted};
use crate::app::media_loads::{capped, other_preview, MAX_QUEUED_AVATARS, MAX_QUEUED_PREVIEWS, MAX_RETAINED_PREVIEWS};
use crate::app::navigation::moved_index;
use crate::app::reconciliation::not_listed;
use crate::app::{chat_has_id, message_has_id, AppModel, HistoryLoadsModel};
use crate::ids::{ChatId, HistoryKey, MessageId, PreviewKey};
use crate::outbox::wait_seconds;
use crate::preview_cache::{le_value, preview_bytes, preview_fields};
use crate::app::reconnection::{kept_unsent, merged_histories, pending_histories, unsent};
use crate::protocol::Bootstrap;
use crate::app::messaging::pending_match;
use crate::app::reconciliation::HistoryOpModel;
use crate::app::folder_membership::{lemma_sorted_distinct, membership_folders, other_folder, strictly_increasing};
use crate::seqs::{first_index, lemma_filter_contains_iff, lemma_first_index};
use crate::text::trimmed_end;
use crate::app::folder_reconciliation::{other_details_id, other_folder_id, other_folder_number};
use crate::app::editing::{labelled, reacted};
use crate::app::unread::{id_of, incoming, unread_boundary_of};
use crate::view::{EffectModel, Focus, FolderModel, MediaKind, MessageDirection, MessageModel, ReactionModel, TextEntityModel};
use vstd::utf8::encode_utf8;

verus! {

broadcast use vstd::seq_lib::group_seq_properties;

/// Leaving a history keeps its draft: the composer saved as the draft of the shown history
/// is the composer that restoring the draft brings back.
pub proof fn law_saved_draft_is_restored(s: AppModel)
    requires
        s.view.active_history_key() is Some,
        s.view.composer.editing is None,
        !s.view.poll_composer,
    ensures
        s.saved_draft().restored_draft().view.composer == s.view.composer,
{
}

/// The anchor saved for the shown history is the one remembered for it.
pub proof fn law_saved_anchor_is_remembered(s: AppModel)
    requires
        s.view.active_history_key() is Some,
    ensures
        s.saved_transcript_anchor().remembered_anchor() == s.view.transcript_anchor_id(),
{
}

/// Moving a selection up or down a list never leaves the list, and selects nothing only in
/// an empty list.
pub proof fn law_moved_index_in_range(current: Option<usize>, length: usize, forward: bool)
    ensures
        moved_index(current, length, forward) is None <==> length == 0,
        moved_index(current, length, forward) matches Some(i) ==> i < length,
{
}

/// Moving a selection steps one place at a time: up from a selection below the top reaches
/// the entry just above it, down from a selection above the bottom reaches the entry just
/// below it, and at either end (or past the bottom) the selection stops at that end. With no
/// selection the first entry counts as selected.
pub proof fn law_move_index_steps_by_one(c: usize, length: usize)
    requires
        length > 0,
    ensures
        0 < c < length ==> moved_index(Some(c), length, false) == Some((c - 1) as usize),
        c == 0 ==> moved_index(Some(c), length, false) == Some(0usize),
        c + 1 < length ==> moved_index(Some(c), length, true) == Some((c + 1) as usize),
        c + 1 >= length ==> moved_index(Some(c), length, true) == Some((length - 1) as usize),
        c >= length && length >= 2 ==> moved_index(Some(c), length, false) == Some((length - 2) as usize),
        moved_index(None, length, false) == Some(0usize),
        moved_index(None, length, true) == moved_index(Some(0), length, true),
{
}

/// After the chat list is rebuilt for the active folder, the selection points into it, a
/// non-empty list has a selection, and a preferred chat that is listed stays selected.
pub proof fn law_folder_chats_keep_a_valid_selection(s: AppModel, preferred: Option<ChatId>)
    requires
        s.all_chats.len() <= usize::MAX,
    ensures
        s.refreshed_folder_chats(preferred).selection_wf(),
        s.refreshed_folder_chats(preferred).view.chats.len() > 0
            ==> s.refreshed_folder_chats(preferred).view.active_chat is Some,
        forall|i: int|
            0 <= i < s.refreshed_folder_chats(preferred).view.chats.len() && preferred == Some(
                (#[trigger] s.refreshed_folder_chats(preferred).view.chats[i]).id,
            ) ==> s.refreshed_folder_chats(preferred).view.active_chat_id() == preferred,
{
    let r = s.refreshed_folder_chats(preferred);
    let chats = r.view.chats;
    s.all_chats.lemma_filter_len(crate::app::navigation::in_folder(s.view.active_folder_id()));
    if let Some(chat) = preferred {
        lemma_first_index(chats, chat_has_id(chat));
    }
    assert forall|i: int| 0 <= i < chats.len() && preferred == Some(#[trigger] chats[i].id) implies r.view.active_chat_id()
        == preferred by {
        let chat = chats[i].id;
        lemma_first_index(chats, chat_has_id(chat));
        assert(chat_has_id(chat)(chats[i]));
        let f = first_index(chats, chat_has_id(chat)).unwrap();
        assert(chat_has_id(chat)(chats[f]));
        assert(r.view.active_chat == Some(f as usize));
        assert(chats[(f as usize) as int].id == chat);
    }
}

/// The outbox waits for nothing once the deadline has passed, and otherwise for the whole
/// difference in seconds (which saturates at the largest `i64`).
pub proof fn law_wait_is_zero_exactly_when_due(now: i64, available_at: i64)
    ensures
        wait_seconds(now, available_at) == 0 <==> available_at <= now,
        available_at > now && available_at - now <= i64::MAX ==> wait_seconds(now, available_at)
            == available_at - now,
        available_at - now > i64::MAX ==> wait_seconds(now, available_at) == i64::MAX,
{
}

/// Storing a message in a history leaves exactly one message with its id, the stored one, and
/// keeps every other message in its order.
pub proof fn law_upsert_keeps_one_copy(h: Seq<MessageModel>, m: MessageModel)
    ensures
        upserted(h, m).filter(message_has_id(m.id)) == seq![m],
        upserted(h, m).filter(other_id(m.id)) == h.filter(other_id(m.id)),
{
    let p = message_has_id(m.id);
    let q = other_id(m.id);
    lemma_first_index(h, p);
    match first_index(h, p) {
        Some(i) => {
            let a = h.take(i);
            let rest = h.skip(i + 1).filter(q);
            lemma_filter_none(a, p);
            lemma_filter_all(a, q);
            lemma_filter_none(rest, p);
            lemma_filter_all(rest, q);
            lemma_filter_append(a.push(m), rest, p);
            lemma_filter_append(a.push(m), rest, q);
            a.lemma_filter_push(m, p);
            a.lemma_filter_push(m, q);
            assert(h =~= a + (seq![h[i]] + h.skip(i + 1)));
            lemma_filter_append(a, seq![h[i]] + h.skip(i + 1), q);
            lemma_filter_append(seq![h[i]], h.skip(i + 1), q);
            lemma_filter_idempotent(h.skip(i + 1), q);
            assert(seq![h[i]].filter(q) =~= Seq::<MessageModel>::empty()) by {
                Seq::<MessageModel>::empty().lemma_filter_push(h[i], q);
                assert(seq![h[i]] =~= Seq::<MessageModel>::empty().push(h[i]));
            }
        },
        None => {
            lemma_filter_all(h, q);
            lemma_filter_none(h, p);
            h.lemma_filter_push(m, p);
            h.lemma_filter_push(m, q);
        },
    }
}

/// No element passes a filter that rejects them all.
proof fn lemma_filter_none<T>(s: Seq<T>, p: spec_fn(T) -> bool)
    requires
        forall|j: int| 0 <= j < s.len() ==> !p(#[trigger] s[j]),
    ensures
        s.filter(p) == Seq::<T>::empty(),
    decreases s.len(),
{
    reveal(Seq::filter);
    if s.len() > 0 {
        lemma_filter_none(s.drop_last(), p);
    }
    assert(s.filter(p) =~= Seq::<T>::empty());
}

/// A filter that every element passes keeps the sequence.
proof fn lemma_filter_all<T>(s: Seq<T>, p: spec_fn(T) -> bool)
    requires
        forall|j: int| 0 <= j < s.len() ==> p(#[trigger] s[j]),
    ensures
        s.filter(p) == s,
    decreases s.len(),
{
    reveal(Seq::filter);
    if s.len() > 0 {
        lemma_filter_all(s.drop_last(), p);
        assert(s.drop_last().push(s.last()) =~= s);
    }
    assert(s.filter(p) =~= s);
}

proof fn lemma_filter_append<T>(a: Seq<T>, b: Seq<T>, p: spec_fn(T) -> bool)
    ensures
        (a + b).filter(p) == a.filter(p) + b.filter(p),
{
    Seq::filter_distributes_over_add(a, b, p);
}

proof fn lemma_filter_idempotent<T>(s: Seq<T>, p: spec_fn(T) -> bool)
    ensures
        s.filter(p).filter(p) == s.filter(p),
{
    let f = s.filter(p);
    assert forall|j: int| 0 <= j < f.len() implies p(#[trigger] f[j]) by {
        s.lemma_filter_pred(p, j);
    }
    lemma_filter_all(f, p);
}

/// Deleted messages are gone from every history the deletion covers.
pub proof fn law_deleted_messages_are_gone(
    s: AppModel,
    chat: Option<ChatId>,
    ids: Seq<MessageId>,
    key: HistoryKey,
    i: int,
)
    requires
        s.histories.contains_key(key),
        chat is None || key.chat == chat.unwrap(),
        0 <= i < s.messages_deleted(chat, ids).histories[key].len(),
    ensures
        !ids.contains(s.messages_deleted(chat, ids).histories[key][i].id),
{
    let h = s.histories[key];
    let kept = h.filter(not_listed(ids));
    assert(s.messages_deleted(chat, ids).histories[key] == kept);
    h.lemma_filter_pred(not_listed(ids), i);
}

/// At most `MAX_QUEUED_PREVIEWS` media previews wait to be loaded.
pub proof fn law_preview_queue_is_bounded(s: AppModel)
    ensures
        s.queued_active_media_previews().media_preview_loads.queued.len() <= MAX_QUEUED_PREVIEWS,
{
}

pub open spec fn same_preview(key: PreviewKey) -> spec_fn(PreviewKey) -> bool {
    |k: PreviewKey| k == key
}

/// The retained previews stay within `MAX_RETAINED_PREVIEWS`, and a stored preview is the
/// newest one retained, held once.
pub proof fn law_stored_preview_is_retained_once(s: AppModel, key: PreviewKey)
    requires
        s.view.media_previews.len() <= MAX_RETAINED_PREVIEWS,
    ensures
        s.stored_media_preview(key).view.media_previews.len() <= MAX_RETAINED_PREVIEWS,
        s.stored_media_preview(key).view.media_previews.last() == key,
        s.stored_media_preview(key).view.media_previews.filter(same_preview(key)).len() == 1,
{
    let kept0 = s.view.media_previews.filter(other_preview(key));
    let kept = kept0.push(key);
    let q = same_preview(key);
    assert forall|j: int| 0 <= j < kept0.len() implies !q(#[trigger] kept0[j]) by {
        s.view.media_previews.lemma_filter_pred(other_preview(key), j);
    }
    lemma_filter_none(kept0, q);
    kept0.lemma_filter_push(key, q);
    if kept.len() > MAX_RETAINED_PREVIEWS {
        assert(kept =~= seq![kept[0]] + kept.drop_first());
        lemma_filter_append(seq![kept[0]], kept.drop_first(), q);
        assert(seq![kept[0]] =~= Seq::<PreviewKey>::empty().push(kept[0]));
        Seq::<PreviewKey>::empty().lemma_filter_push(kept[0], q);
    }
}

/// No element occurs twice in a deduplicated sequence.
pub proof fn lemma_dedup_no_duplicates<T>(s: Seq<T>)
    ensures
        dedup(s).no_duplicates(),
    decreases s.len(),
{
    if s.len() > 0 {
        lemma_dedup_no_duplicates(s.drop_last());
        crate::app::avatar_loads::lemma_dedup_contains(s.drop_last(), s.last());
    }
}

/// A filter keeps a sequence free of duplicates.
proof fn lemma_filter_no_duplicates<T>(s: Seq<T>, p: spec_fn(T) -> bool)
    requires
        s.no_duplicates(),
    ensures
        s.filter(p).no_duplicates(),
    decreases s.len(),
{
    reveal(Seq::filter);
    if s.len() > 0 {
        let d = s.drop_last();
        assert(d.no_duplicates());
        lemma_filter_no_duplicates(d, p);
        if p(s.last()) {
            lemma_filter_contains_iff(d, p, s.last());
            assert(!d.contains(s.last())) by {
                if d.contains(s.last()) {
                    let k = choose|k: int| 0 <= k < d.len() && d[k] == s.last();
                    assert(s[k] == s[s.len() - 1]);
                }
            }
        }
    }
}

/// The avatar queue holds at most `MAX_QUEUED_AVATARS` avatars, each once, none of them loading,
/// failed or already shown.
pub proof fn law_avatar_queue_is_bounded_and_distinct(s: AppModel)
    ensures
        s.queued_visible_avatars().avatar_loads.queued.len() <= MAX_QUEUED_AVATARS,
        s.queued_visible_avatars().avatar_loads.queued.no_duplicates(),
        forall|j: int|
            0 <= j < s.queued_visible_avatars().avatar_loads.queued.len() ==> (#[trigger] s.wants_avatar()(
                s.queued_visible_avatars().avatar_loads.queued[j],
            )),
{
    let candidates = dedup(s.visible_peers().filter(s.has_avatar()).map_values(s.avatar_ref()));
    let wanted = candidates.filter(s.wants_avatar());
    lemma_dedup_no_duplicates(s.visible_peers().filter(s.has_avatar()).map_values(s.avatar_ref()));
    lemma_filter_no_duplicates(candidates, s.wants_avatar());
    let q = capped(wanted, MAX_QUEUED_AVATARS as nat);
    assert(q.len() <= wanted.len());
    assert forall|j: int| 0 <= j < q.len() implies #[trigger] s.wants_avatar()(q[j]) by {
        candidates.lemma_filter_pred(s.wants_avatar(), j);
        assert(q[j] == wanted[j]);
    }
    if wanted.len() > MAX_QUEUED_AVATARS {
        assert forall|a: int, b: int| 0 <= a < b < q.len() implies q[a] != q[b] by {
            assert(q[a] == wanted[a] && q[b] == wanted[b]);
        }
    }
}

/// A preview written to the cache reads back as it was written.
pub proof fn law_preview_cache_round_trip(width: u16, height: u16, rgba: Seq<u8>)
    ensures
        preview_fields(preview_bytes(width, height, rgba)) == Some((width, height, rgba)),
{
    let b = preview_bytes(width, height, rgba);
    assert(b.skip(4) =~= rgba);
    assert(le_value((width % 256) as u8, (width / 256) as u8) == width);
    assert(le_value((height % 256) as u8, (height / 256) as u8) == height);
}

/// An unsent message stays in a history that keeps the unsent messages, when no other
/// message there has its id.
proof fn lemma_kept_unsent_contains(r: Seq<MessageModel>, p: Seq<MessageModel>, x: MessageModel)
    requires
        p.contains(x),
        forall|y: MessageModel| p.contains(y) && y.id == x.id ==> y == x,
    ensures
        kept_unsent(r, p).contains(x),
    decreases p.len(),
{
    let last = p.last();
    if last == x {
        assert(kept_unsent(r, p).last() == x);
    } else {
        let d = p.drop_last();
        assert(p =~= d.push(last));
        assert(d.contains(x)) by {
            let k = choose|k: int| 0 <= k < p.len() && p[k] == x;
            assert(k < p.len() - 1);
            assert(d[k] == x);
        }
        assert forall|y: MessageModel| d.contains(y) && y.id == x.id implies y == x by {
            let k = choose|k: int| 0 <= k < d.len() && d[k] == y;
            assert(p[k] == y);
            assert(p.contains(y));
        }
        assert(p.contains(last)) by {
            assert(p[p.len() - 1] == last);
        }
        lemma_kept_unsent_contains(r, d, x);
        lemma_filter_contains_iff(kept_unsent(r, d), other_id(last.id), x);
        let f = kept_unsent(r, d).filter(other_id(last.id));
        let k = choose|k: int| 0 <= k < f.len() && f[k] == x;
        assert(f.push(last)[k] == x);
    }
}

/// Drafts survive a reconnection: a draft the user had is the draft after it, unless a message
/// of that history is still in flight (its composer went with the message).
pub proof fn law_drafts_survive_reconnection(s: AppModel, b: Bootstrap, key: HistoryKey)
    requires
        s.drafts.contains_key(key),
        !pending_histories(s.pending_drafts).contains(key),
    ensures
        s.connection_merged(b).drafts.contains_key(key),
        s.connection_merged(b).drafts[key] == s.drafts[key],
{
}

/// Unsent messages survive a reconnection: a pending or failed message of a history is still
/// in that history afterwards, when no other message of the history has its id.
pub proof fn law_unsent_messages_survive_reconnection(s: AppModel, b: Bootstrap, key: HistoryKey, i: int)
    requires
        s.histories.contains_key(key),
        0 <= i < s.histories[key].len(),
        unsent()(s.histories[key][i]),
        forall|j: int|
            0 <= j < s.histories[key].len() && j != i ==> (#[trigger] s.histories[key][j]).id
                != s.histories[key][i].id,
    ensures
        s.connection_merged(b).histories.contains_key(key),
        s.connection_merged(b).histories[key].contains(s.histories[key][i]),
{
    let h = s.histories[key];
    let x = h[i];
    let f = h.filter(unsent());
    let fresh = AppModel { drafts: Map::empty(), histories: Map::empty(), ..s }.bootstrap_replaced(b).histories;
    assert(s.connection_merged(b).histories == merged_histories(fresh, s.histories));
    lemma_filter_contains_iff(h, unsent(), x);
    assert(h.contains(x)) by {
        assert(h[i] == x);
    }
    assert forall|y: MessageModel| f.contains(y) && y.id == x.id implies y == x by {
        lemma_filter_contains_iff(h, unsent(), y);
        let k = choose|k: int| 0 <= k < h.len() && h[k] == y;
        if k != i {
            assert(h[k].id != h[i].id);
        }
    }
    lemma_kept_unsent_contains(if fresh.contains_key(key) { fresh[key] } else { Seq::empty() }, f, x);
}

/// A chat's folder list stays increasing and free of repeats; afterwards the chat is in
/// the folder exactly when it was included, archiving moves it between the main list (0) and
/// the archive (-1), and its other folders stay.
pub proof fn law_folder_membership(folders: Seq<i32>, folder: i32, included: bool, other: i32)
    ensures
        strictly_increasing(membership_folders(folders, folder, included)),
        folder != -1 ==> (membership_folders(folders, folder, included).contains(folder) <==> included),
        folder == -1 ==> (membership_folders(folders, folder, included).contains(-1i32) <==> included),
        folder == -1 ==> (membership_folders(folders, folder, included).contains(0i32) <==> !included),
        other != folder && !(folder == -1 && other == 0) ==> (membership_folders(
            folders,
            folder,
            included,
        ).contains(other) <==> folders.contains(other)),
{
    let kept = folders.filter(other_folder(folder));
    let changed = if folder == -1 {
        kept.filter(other_folder(0)).push(if included { -1i32 } else { 0i32 })
    } else if included {
        kept.push(folder)
    } else {
        kept
    };
    lemma_sorted_distinct(changed);
    let r = membership_folders(folders, folder, included);
    assert(r == crate::app::folder_membership::sorted_distinct(changed));
    assert forall|x: i32| #[trigger] r.contains(x) <==> changed.contains(x) by {
        assert(r.to_set().contains(x) == changed.to_set().contains(x));
    }
    assert forall|x: i32| #[trigger] kept.contains(x) <==> folders.contains(x) && x != folder by {
        lemma_filter_contains_iff(folders, other_folder(folder), x);
    }
    let k0 = kept.filter(other_folder(0));
    assert forall|x: i32| #[trigger] k0.contains(x) <==> kept.contains(x) && x != 0 by {
        lemma_filter_contains_iff(kept, other_folder(0), x);
    }
    let v: i32 = if included { -1i32 } else { 0i32 };
    assert forall|x: i32| #[trigger] k0.push(v).contains(x) <==> k0.contains(x) || x == v by {
        if k0.push(v).contains(x) && x != v {
            let q = choose|q: int| 0 <= q < k0.push(v).len() && k0.push(v)[q] == x;
            assert(k0[q] == x);
        }
        if k0.contains(x) {
            let q = choose|q: int| 0 <= q < k0.len() && k0[q] == x;
            assert(k0.push(v)[q] == x);
        }
        if x == v {
            assert(k0.push(v)[k0.len() as int] == x);
        }
    }
    assert forall|x: i32| #[trigger] kept.push(folder).contains(x) <==> kept.contains(x) || x == folder by {
        if kept.push(folder).contains(x) && x != folder {
            let q = choose|q: int| 0 <= q < kept.push(folder).len() && kept.push(folder)[q] == x;
            assert(kept[q] == x);
        }
        if kept.contains(x) {
            let q = choose|q: int| 0 <= q < kept.len() && kept[q] == x;
            assert(kept.push(folder)[q] == x);
        }
        if x == folder {
            assert(kept.push(folder)[kept.len() as int] == x);
        }
    }
    assert(r.contains(other) == changed.contains(other));
    assert(r.contains(folder) == changed.contains(folder));
    assert(r.contains(-1i32) == changed.contains(-1i32));
    assert(r.contains(0i32) == changed.contains(0i32));
}

/// An acknowledged message takes its server id: afterwards no history of the chat holds a
/// message with the local id.
pub proof fn law_acknowledged_local_id_is_gone(
    s: AppModel,
    chat: ChatId,
    local_id: MessageId,
    server_id: MessageId,
    key: HistoryKey,
    i: int,
)
    requires
        local_id != server_id,
        key.chat == chat,
        s.histories.contains_key(key),
        0 <= i < s.message_acknowledged(chat, local_id, server_id).histories[key].len(),
    ensures
        s.message_acknowledged(chat, local_id, server_id).histories[key][i].id != local_id,
{
    let op = HistoryOpModel::Acknowledge { chat, local_id, server_id };
    let after = s.rewritten_histories(op);
    assert(after.histories[key] == s.histories[key].map_values(op.message_rewriter()));
    assert(s.message_acknowledged(chat, local_id, server_id).histories == after.histories);
}

/// An arriving message is kept: afterwards a stored history of its chat holds it.
pub proof fn law_added_message_is_stored(s: AppModel, chat: ChatId, m: MessageModel)
    ensures
        exists|k: HistoryKey|
            k.chat == chat && #[trigger] s.message_added(chat, m).0.histories.contains_key(k)
                && s.message_added(chat, m).0.histories[k].contains(m),
{
    let incoming = m.direction == crate::view::MessageDirection::Incoming;
    let active = s.view.active_chat_id() == Some(chat);
    let was_latest = active && s.view.at_latest();
    let visibly_read = active && s.view.focus != crate::view::Focus::Chats && was_latest;
    let increment: u32 = if incoming && !visibly_read { 1 } else { 0 };
    let root = HistoryKey { chat, thread: None, saved_peer: None };
    let s1 = if increment > 0 && m.thread_root is None && !s.unread_boundaries.contains_key(root) {
        s.with_boundaries(s.unread_boundaries.insert(root, m.id))
    } else {
        s
    };
    let s2 = s1.changed_chat(chat, crate::app::chat_reconciliation::ChatChangeModel::Added { body: m.body, unread_increment: increment });
    let (s3, reconciled) = s2.pending_message_reconciled(chat, m);
    let s4 = s2.added_message_stored(chat, m).0;
    assert(s.message_added(chat, m).0.histories == s4.histories);
    if reconciled {
        let k = choose|k: HistoryKey|
            #[trigger] s2.histories.contains_key(k) && k.chat == chat && crate::seqs::last_index(
                s2.histories[k],
                pending_match(m),
            ) is Some;
        let h = s2.histories[k];
        crate::seqs::lemma_last_index(h, pending_match(m));
        let j = crate::seqs::last_index(h, pending_match(m)).unwrap();
        assert(s4.histories[k] == h.update(j, m));
        assert(s4.histories[k][j] == m);
        assert(s4.histories.contains_key(k));
    } else {
        let h1 = crate::app::messaging::appended_at(s3.histories, root, m);
        let last = h1[root];
        assert(last[last.len() - 1] == m);
        match m.thread_root {
            Some(r) => {
                let tk = HistoryKey { chat, thread: Some(r), saved_peer: None };
                assert(tk != root);
                assert(s4.histories[root] == last);
                assert(s4.histories.contains_key(root));
            },
            None => {
                assert(s4.histories[root] == last);
                assert(s4.histories.contains_key(root));
            },
        }
    }
}

/// A read receipt from the other side marks read exactly the outgoing messages up to the
/// given id, in every history of the chat, and changes nothing else in them.
pub proof fn law_read_receipt_marks_outgoing_up_to(
    s: AppModel,
    chat: ChatId,
    max_id: MessageId,
    key: HistoryKey,
    i: int,
)
    requires
        key.chat == chat,
        s.histories.contains_key(key),
        0 <= i < s.histories[key].len(),
    ensures
        ({
            let before = s.histories[key][i];
            let after = s.rewritten_histories(HistoryOpModel::Read { chat, max_id }).histories[key][i];
            &&& after.delivery == if before.direction == crate::view::MessageDirection::Outgoing
                && before.id.0 <= max_id.0 {
                crate::view::DeliveryState::Read
            } else {
                before.delivery
            }
            &&& after == (MessageModel { delivery: after.delivery, ..before })
        }),
{
}

/// After a (re)connection at most `BACKGROUND_HISTORY_LIMIT` chats are refreshed in the
/// background, never more than there are other chats, and the cursor points into the list.
pub proof fn law_background_refresh_is_bounded(s: AppModel)
    ensures
        s.background_history_reset().history_loads.background_remaining
            <= crate::app::history_loading::BACKGROUND_HISTORY_LIMIT,
        s.background_history_reset().history_loads.background_remaining <= s.all_chats.len(),
        s.background_history_reset().background_wf(),
{
    if let Some(chat) = s.view.active_chat_id() {
        lemma_first_index(s.all_chats, chat_has_id(chat));
    }
}

/// A sent message that the server refuses gives its composer back: where the history had no
/// other draft meanwhile, the draft after the refusal is the composer that was sent, and the
/// kept copy is gone.
pub proof fn law_refused_message_returns_its_composer(
    s: AppModel,
    formatted: Seq<char>,
    entities: Seq<TextEntityModel>,
    reason: Seq<char>,
)
    requires
        s.view.composer.editing is None,
        s.view.active_history_key() is Some,
        trimmed_end(s.view.composer.text).len() > 0 || s.view.composer.attachments.len() > 0,
    ensures
        ({
            let key = s.view.active_history_key().unwrap();
            let (sent, effect) = s.message_sent(formatted, entities);
            &&& effect matches Some(EffectModel::SendMessage { chat, thread_root, saved_peer, text, local_id, .. })
            &&& sent.pending_drafts.contains_key(local_id)
            &&& sent.pending_drafts[local_id].composer == s.view.composer
            &&& ({
                let (refused, _) = sent.send_failed(chat, local_id, thread_root, saved_peer, text, reason);
                &&& refused.drafts.contains_key(key)
                &&& refused.drafts[key] == s.view.composer
                &&& !refused.pending_drafts.contains_key(local_id)
            })
        }),
{
    let key = s.view.active_history_key().unwrap();
    let (sent, effect) = s.message_sent(formatted, entities);
    assert(!sent.drafts.contains_key(key));
}

/// A deleted folder is gone: no listed folder, no folder details and no chat's folder list
/// names it afterwards, and every other folder stays listed.
pub proof fn law_deleted_folder_is_gone(s: AppModel, id: i32)
    ensures
        ({
            let t = s.folder_removed(id);
            &&& forall|i: int| 0 <= i < t.view.folders.len() ==> t.view.folders[i].id != id
            &&& forall|i: int| 0 <= i < t.view.folder_details.len() ==> t.view.folder_details[i].id != id
            &&& forall|c: int| 0 <= c < t.all_chats.len() ==> !t.all_chats[c].folders.contains(id)
            &&& forall|f: FolderModel| s.view.folders.contains(f) && f.id != id ==> t.view.folders.contains(f)
        }),
{
    let t = s.folder_removed(id);
    let folders = s.view.folders.filter(other_folder_id(id));
    let details = s.view.folder_details.filter(other_details_id(id));
    assert(t.view.folders == folders);
    assert(t.view.folder_details == details);
    assert forall|i: int| 0 <= i < folders.len() implies folders[i].id != id by {
        lemma_filter_contains_iff(s.view.folders, other_folder_id(id), folders[i]);
        assert(folders.contains(folders[i]));
    }
    assert forall|i: int| 0 <= i < details.len() implies details[i].id != id by {
        lemma_filter_contains_iff(s.view.folder_details, other_details_id(id), details[i]);
        assert(details.contains(details[i]));
    }
    assert forall|c: int| 0 <= c < t.all_chats.len() implies !t.all_chats[c].folders.contains(id) by {
        let before = s.all_chats[c].folders;
        let after = before.filter(other_folder_number(id));
        assert(t.all_chats[c].folders == after);
        lemma_filter_contains_iff(before, other_folder_number(id), id);
    }
    assert forall|f: FolderModel| s.view.folders.contains(f) && f.id != id implies t.view.folders.contains(f) by {
        lemma_filter_contains_iff(s.view.folders, other_folder_id(id), f);
    }
}

/// Send asks for the draft to be formatted exactly when the composer can be sent; handing the
/// formatted text back to the same state then sends the message (or saves the edit), and on a
/// state that cannot be sent it changes nothing.
pub proof fn law_requested_send_goes_out(s: AppModel, formatted: Seq<char>, entities: Seq<TextEntityModel>)
    ensures
        (s.send_requested() is Some) == s.send_ready(),
        s.send_ready() ==> s.message_sent(formatted, entities).1 is Some,
        !s.send_ready() ==> s.message_sent(formatted, entities) == (s, None::<EffectModel>),
{
}

/// A step of the background refresh never raises the number of chats left, keeps the cursor in
/// the chat list, leaves the chats and the refreshed set alone, and loads (or queues) only a
/// listed chat that was not refreshed yet.
pub proof fn law_background_step_loads_only_unrefreshed_chats(s: AppModel)
    requires
        s.background_wf(),
    ensures
        ({
            let (t, e) = s.next_background_history();
            &&& t.history_loads.background_remaining <= s.history_loads.background_remaining
            &&& t.background_wf()
            &&& t.all_chats == s.all_chats
            &&& t.history_loads.refreshed_chats == s.history_loads.refreshed_chats
            &&& (e is Some ==> (e matches Some(EffectModel::LoadChat { chat, .. }) && !s.history_loads.refreshed_chats.contains(chat)
                && exists|i: int| 0 <= i < s.all_chats.len() && s.all_chats[i].id == chat))
        }),
    decreases s.history_loads.background_remaining,
{
    if s.history_loads.background_remaining > 0 {
        let index = s.history_loads.background_cursor;
        let n = s.all_chats.len() as int;
        assert(0 <= (index + 1) % n < n) by (nonlinear_arith)
            requires
                0 <= index < n,
        ;
        let s2 = s.with_loads(
            HistoryLoadsModel {
                background_cursor: ((index + 1) % n) as usize,
                background_remaining: (s.history_loads.background_remaining - 1) as usize,
                ..s.history_loads
            },
        );
        let key = HistoryKey { chat: s.all_chats[index as int].id, thread: None, saved_peer: None };
        if s2.history_was_refreshed(key) {
            law_background_step_loads_only_unrefreshed_chats(s2);
        } else {
            assert(0 <= index < n && s.all_chats[index as int].id == key.chat);
        }
    }
}

/// Picking a reaction counts the user once: the reactions keep their labels and order; only
/// the picked one is the user's afterwards; the picked label's count grows by one (saturating)
/// unless it was already the user's reaction, when it stays; every other count stays; a label
/// that was not there yet is added with a count of one.
pub proof fn law_reaction_counted_once(rs: Seq<ReactionModel>, label: Seq<char>)
    ensures
        ({
            let out = reacted(rs, label);
            let listed = exists|i: int| 0 <= i < rs.len() && rs[i].label == label;
            let already = exists|i: int| 0 <= i < rs.len() && rs[i].label == label && rs[i].chosen;
            &&& out.len() == rs.len() + if listed {
                0int
            } else {
                1int
            }
            &&& forall|j: int| 0 <= j < rs.len() ==> (#[trigger] out[j]).label == rs[j].label
            &&& forall|j: int| 0 <= j < rs.len() && rs[j].label != label ==> (#[trigger] out[j]).count
                == rs[j].count && !out[j].chosen
            &&& forall|j: int|
                0 <= j < rs.len() && rs[j].label == label && (forall|k: int|
                    0 <= k < j ==> rs[k].label != label) ==> (#[trigger] out[j]).chosen && out[j].count
                    == if already || rs[j].count == u32::MAX {
                    rs[j].count
                } else {
                    (rs[j].count + 1) as u32
                }
            &&& !listed ==> out[rs.len() as int] == ReactionModel { label, count: 1, chosen: true }
        }),
{
    lemma_first_index(rs, labelled(label));
    let out = reacted(rs, label);
    match first_index(rs, labelled(label)) {
        Some(i) => {
            assert forall|j: int|
                0 <= j < rs.len() && rs[j].label == label && (forall|k: int|
                    0 <= k < j ==> rs[k].label != label) implies j == i by {
                if j < i {
                } else if j > i {
                    assert(rs[i].label == label);
                }
            }
        },
        None => {},
    }
}

/// Editing a sent message opens the composer with exactly its text, the cursor at the end, and
/// the edit on that message; only a photo whose text merely stands in for the picture opens an
/// empty composer.
pub proof fn law_edit_opens_with_the_body(s: AppModel, i: usize)
    requires
        s.view.active_message == Some(i),
        i < s.view.messages.len(),
        s.view.messages[i as int].direction == MessageDirection::Outgoing,
        s.view.messages[i as int].id.0 > 0,
        s.view.active_history_key() is Some,
    ensures
        ({
            let m = s.view.messages[i as int];
            let c = s.began_edit().0.view.composer;
            let photo_stand_in = m.media matches Some(media) && media.kind == MediaKind::Photo
                && media.fallback_body;
            let (t, e) = s.began_edit();
            let key = s.view.active_history_key().unwrap();
            &&& c.editing == Some(m.id)
            &&& c.reply_to is None && c.attachments.len() == 0
            &&& t.view.transcript_anchor == Some(i) && t.view.active_message is None
            &&& t.view.focus == Focus::Composer
            &&& !t.drafts.contains_key(key)
            &&& forall|k: HistoryKey| k != key ==> t.drafts.contains_key(k) == s.drafts.contains_key(k)
            &&& t.histories == s.histories && t.all_chats == s.all_chats
            &&& e == Some(EffectModel::SaveDraft { chat: key.chat, thread_root: key.thread, text: Seq::empty(), reply_to: None })
            &&& !photo_stand_in ==> c.text == m.body && c.cursor == encode_utf8(m.body).len() as usize
            &&& photo_stand_in ==> c.text.len() == 0 && c.cursor == 0
        }),
{
    let m = s.view.messages[i as int];
    assert(s.active_message() == Some(m));
    assert(encode_utf8(Seq::<char>::empty()).len() == 0);
}

/// The `k`-th element that a filter keeps stands at some position `p` of the sequence, and from
/// `p` on the filter keeps exactly the elements from the `k`-th on.
proof fn lemma_filter_position<T>(s: Seq<T>, pred: spec_fn(T) -> bool, k: int)
    requires
        0 <= k < s.filter(pred).len(),
    ensures
        exists|p: int|
            0 <= p < s.len() && s[p] == s.filter(pred)[k] && pred(s[p]) && s.skip(p).filter(pred).len()
                == s.filter(pred).len() - k,
    decreases s.len(),
{
    let t = s.drop_last();
    let x = s.last();
    assert(s =~= t.push(x));
    t.lemma_filter_push(x, pred);
    let ft = t.filter(pred);
    if k < ft.len() {
        lemma_filter_position(t, pred, k);
        let p = choose|p: int|
            0 <= p < t.len() && t[p] == ft[k] && pred(t[p]) && t.skip(p).filter(pred).len() == ft.len() - k;
        assert(s.skip(p) =~= t.skip(p).push(x));
        t.skip(p).lemma_filter_push(x, pred);
        assert(s[p] == t[p]);
        assert(s.filter(pred)[k] == ft[k]);
    } else {
        let p = t.len() as int;
        assert(pred(x));
        assert(s.skip(p) =~= Seq::<T>::empty().push(x));
        Seq::<T>::empty().lemma_filter_push(x, pred);
        assert(Seq::<T>::empty().filter(pred) =~= Seq::<T>::empty());
        assert(s[p] == x);
    }
}

/// The unread divider sits where the unread messages begin: when the history holds at least
/// `unread` incoming messages, it is the id of an incoming message from which on exactly
/// `unread` incoming messages follow (itself included); with fewer, it is the id of an incoming
/// message from which on all of them follow; with none, or nothing unread, there is no divider.
pub proof fn law_unread_boundary_counts_unread(messages: Seq<MessageModel>, unread: u32)
    ensures
        ({
            let total = messages.filter(incoming()).len();
            let b = unread_boundary_of(messages, unread);
            &&& (unread == 0 || total == 0) ==> b is None
            &&& (unread > 0 && total > 0) ==> exists|p: int|
                0 <= p < messages.len() && b == Some(messages[p].id) && messages[p].direction
                    == MessageDirection::Incoming && messages.skip(p).filter(incoming()).len() == if unread
                    <= total {
                    unread as int
                } else {
                    total as int
                }
        }),
{
    let f = messages.filter(incoming());
    let total = f.len();
    if unread > 0 && total > 0 {
        let k: int = if unread <= total {
            total - unread
        } else {
            0
        };
        lemma_filter_position(messages, incoming(), k);
        let ids = f.map_values(id_of());
        assert(ids[k] == f[k].id);
    }
}

} // verus!
