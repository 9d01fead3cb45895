//! What holds of every run of a track import.

use crate::batch::MAX_CONCURRENT_SEARCHES;
use crate::csv::TrackText;
use crate::score::{
    is_number, law_leader_is_first_greatest, law_scores_compare_as_numbers, leader, score_value,
    too_low, MIN_SCORE_BITS,
};
use crate::search::{merged, result_texts, scores_of, GroupText};
use crate::text::{decimal, opt_text, texts};
use crate::track::{
    accepted, describe, entries_for, fresh, items_of, refused, sources_of, track_next, track_start,
    ActionText, EffectText, EntryText, PhaseText, ProgressEntry, ProgressState, QueuedDownload,
    QueuedText, ReplyText, SearchTrack, SearchTrackText, StateText, StepText, TrackAction,
    TrackEffect, TrackModel, TrackReply, TrackStep,
};
use vstd::prelude::*;

verus! {

/// The state after a series of replies and all effects on the way, or nothing if some reply was
/// refused.
pub open spec fn track_run<I>(m: TrackModel<I>, replies: Seq<ReplyText<I>>) -> Option<
    (TrackModel<I>, Seq<EffectText>),
>
    decreases replies.len(),
{
    if replies.len() == 0 {
        Some((m, seq![]))
    } else {
        match track_run(m, replies.drop_last()) {
            Some((before, effects)) => match track_next(before, replies.last()) {
                Some((after, step)) => Some((after, effects + step.effects)),
                None => None,
            },
            None => None,
        }
    }
}

/// How often the search permit is given back.
pub open spec fn releases(effects: Seq<EffectText>) -> nat
    decreases effects.len(),
{
    if effects.len() == 0 {
        0
    } else {
        releases(effects.drop_last()) + if effects.last() is ReleasePermit {
            1nat
        } else {
            0
        }
    }
}

/// How often a search permit is granted.
pub open spec fn grants<I>(replies: Seq<ReplyText<I>>) -> nat
    decreases replies.len(),
{
    if replies.len() == 0 {
        0
    } else {
        grants(replies.drop_last()) + if replies.last() == ReplyText::<I>::Permit(true) {
            1nat
        } else {
            0
        }
    }
}

/// Whether an import holds its search permit.
pub open spec fn holds_permit<I>(phase: PhaseText<I>) -> bool {
    match phase {
        PhaseText::Granted => true,
        PhaseText::Probing => true,
        PhaseText::Searching => true,
        PhaseText::CreatingFolder { items } => true,
        PhaseText::Opening { items } => true,
        PhaseText::Queueing => true,
        _ => false,
    }
}

/// Whether an import has not yet got to its search permit.
pub open spec fn before_permit<I>(phase: PhaseText<I>) -> bool {
    phase is Starting || phase is Ensuring || phase is Waiting
}

/// How many replies an import can still take.
pub open spec fn replies_left<I>(phase: PhaseText<I>) -> nat {
    match phase {
        PhaseText::Starting => 14,
        PhaseText::Ensuring => 13,
        PhaseText::Waiting => 12,
        PhaseText::Granted => 11,
        PhaseText::Probing => 10,
        PhaseText::Searching => 9,
        PhaseText::CreatingFolder { items } => 8,
        PhaseText::Opening { items } => 7,
        PhaseText::Queueing => 6,
        PhaseText::Monitoring => 5,
        PhaseText::Imported => 4,
        PhaseText::Settling => 3,
        PhaseText::Locating => 2,
        PhaseText::Updating => 1,
        PhaseText::Finished => 0,
    }
}

proof fn lemma_releases_concat(a: Seq<EffectText>, b: Seq<EffectText>)
    ensures
        releases(a + b) == releases(a) + releases(b),
    decreases b.len(),
{
    if b.len() == 0 {
        assert(a + b =~= a);
    } else {
        assert((a + b).drop_last() =~= a + b.drop_last());
        lemma_releases_concat(a, b.drop_last());
    }
}

/// One step gives the permit back exactly if it stops holding it.
proof fn lemma_step_permit<I>(m: TrackModel<I>, reply: ReplyText<I>)
    requires
        track_next(m, reply) is Some,
    ensures
        ({
            let (after, step) = track_next(m, reply)->0;
            &&& releases(step.effects) == if holds_permit(m.phase) && !holds_permit(after.phase) {
                1nat
            } else {
                0
            }
            &&& !holds_permit(m.phase) && holds_permit(after.phase) <==> reply
                == ReplyText::<I>::Permit(true)
            &&& reply == ReplyText::<I>::Permit(true) ==> m.phase is Waiting
            &&& !before_permit(m.phase) ==> !before_permit(after.phase)
            &&& m.phase is Waiting ==> !before_permit(after.phase)
        }),
{
    reveal_with_fuel(releases, 5);
    let (after, step) = track_next(m, reply)->0;
    let e = step.effects;
    if e.len() > 0 {
        let e1 = e.drop_last();
        if e1.len() > 0 {
            let e2 = e1.drop_last();
            if e2.len() > 0 {
                let e3 = e2.drop_last();
                assert(e3.len() <= 1);
            }
        }
    }
}

/// The search permit of a track is given back exactly once if it was granted, and never otherwise:
/// whatever the replies, grants and releases differ by whether the permit is held, at most one is
/// granted, and a finished import holds none.
pub proof fn law_permit_is_returned<I>(
    track: TrackText,
    batch_id: Seq<char>,
    backend_count: nat,
    replies: Seq<ReplyText<I>>,
)
    requires
        track_run(fresh::<I>(track, batch_id, backend_count), replies) is Some,
    ensures
        ({
            let (m, effects) = track_run(fresh::<I>(track, batch_id, backend_count), replies)->0;
            &&& grants(replies) == releases(effects) + if holds_permit(m.phase) {
                1nat
            } else {
                0
            }
            &&& grants(replies) <= 1
            &&& before_permit(m.phase) ==> grants(replies) == 0
            &&& m.phase is Finished ==> releases(effects) == grants(replies)
        }),
    decreases replies.len(),
{
    if replies.len() > 0 {
        let m0 = fresh::<I>(track, batch_id, backend_count);
        law_permit_is_returned(track, batch_id, backend_count, replies.drop_last());
        let (before, effects) = track_run(m0, replies.drop_last())->0;
        let step = (track_next(before, replies.last())->0).1;
        lemma_step_permit(before, replies.last());
        lemma_releases_concat(effects, step.effects);
    }
}

/// Whether an effect names the given batch; progress entries also name its label.
pub open spec fn of_batch(effect: EffectText, batch_id: Seq<char>, label: Seq<char>) -> bool {
    match effect {
        EffectText::Searching { batch_id: id, query, .. } => id == batch_id && query == label,
        EffectText::Failed { batch_id: id, .. } => id == batch_id,
        EffectText::ScoringResults { batch_id: id, .. } => id == batch_id,
        EffectText::PickedSource { batch_id: id, .. } => id == batch_id,
        EffectText::Downloading { batch_id: id } => id == batch_id,
        EffectText::Progress { entries } => forall|i: int|
            0 <= i < entries.len() ==> (#[trigger] entries[i]).batch_id == batch_id
                && entries[i].batch_label == label,
        EffectText::ReleasePermit => true,
    }
}

/// An import keeps its track, its batch id and its number of backends.
proof fn lemma_step_keeps_job<I>(m: TrackModel<I>, reply: ReplyText<I>)
    requires
        track_next(m, reply) is Some,
    ensures
        (track_next(m, reply)->0).0.track == m.track,
        (track_next(m, reply)->0).0.batch_id == m.batch_id,
        (track_next(m, reply)->0).0.backend_count == m.backend_count,
        forall|i: int|
            0 <= i < (track_next(m, reply)->0).1.effects.len() ==> of_batch(
                #[trigger] (track_next(m, reply)->0).1.effects[i],
                m.batch_id,
                describe(m.track),
            ),
{
}

/// Every report of a track import carries its batch id, and every search announcement and progress
/// entry its label, artist and title; the import keeps its track and batch id throughout.
pub proof fn law_reports_name_their_batch<I>(m0: TrackModel<I>, replies: Seq<ReplyText<I>>)
    requires
        track_run(m0, replies) is Some,
    ensures
        ({
            let (m, effects) = track_run(m0, replies)->0;
            &&& m.track == m0.track
            &&& m.batch_id == m0.batch_id
            &&& m.backend_count == m0.backend_count
            &&& forall|i: int|
                0 <= i < effects.len() ==> of_batch(
                    #[trigger] effects[i],
                    m0.batch_id,
                    describe(m0.track),
                )
        }),
    decreases replies.len(),
{
    if replies.len() > 0 {
        law_reports_name_their_batch(m0, replies.drop_last());
        let before = (track_run(m0, replies.drop_last())->0).0;
        lemma_step_keeps_job(before, replies.last());
        let earlier = (track_run(m0, replies.drop_last())->0).1;
        let step = (track_next(before, replies.last())->0).1;
        assert forall|i: int| 0 <= i < (earlier + step.effects).len() implies of_batch(
            #[trigger] (earlier + step.effects)[i],
            m0.batch_id,
            describe(m0.track),
        ) by {
            if i >= earlier.len() {
                assert((earlier + step.effects)[i] == step.effects[i - earlier.len()]);
            }
        }
    }
}

/// A track import takes at most fourteen replies, and none once it is finished.
pub proof fn law_import_ends<I>(m0: TrackModel<I>, replies: Seq<ReplyText<I>>)
    requires
        track_run(m0, replies) is Some,
    ensures
        replies.len() + replies_left((track_run(m0, replies)->0).0.phase) <= replies_left(m0.phase),
        replies.len() <= 14,
        m0.phase is Finished ==> replies.len() == 0,
    decreases replies.len(),
{
    if replies.len() > 0 {
        law_import_ends(m0, replies.drop_last());
        let before = (track_run(m0, replies.drop_last())->0).0;
        assert(replies_left((track_next(before, replies.last())->0).0.phase) < replies_left(
            before.phase,
        ));
    }
}

/// Whether nothing but the giving back of the permit follows a failure in a list of effects.
pub open spec fn failure_is_last(effects: Seq<EffectText>) -> bool {
    forall|i: int, j: int|
        0 <= i < j < effects.len() && (#[trigger] effects[i]) is Failed ==> (
        #[trigger] effects[j]) is ReleasePermit
}

/// A failure ends a track import: once one is reported the import is finished, and nothing is
/// reported after it.
pub proof fn law_failure_is_final<I>(m0: TrackModel<I>, replies: Seq<ReplyText<I>>)
    requires
        track_run(m0, replies) is Some,
    ensures
        failure_is_last((track_run(m0, replies)->0).1),
        forall|i: int|
            0 <= i < (track_run(m0, replies)->0).1.len() && (#[trigger] (track_run(
                m0,
                replies,
            )->0).1[i]) is Failed ==> (track_run(m0, replies)->0).0.phase is Finished,
    decreases replies.len(),
{
    if replies.len() > 0 {
        law_failure_is_final(m0, replies.drop_last());
        let (before, earlier) = track_run(m0, replies.drop_last())->0;
        let (after, step) = track_next(before, replies.last())->0;
        let all = earlier + step.effects;
        assert(before.phase !is Finished);
        assert(failure_is_last(step.effects));
        assert forall|i: int| 0 <= i < all.len() && (#[trigger] all[i]) is Failed implies i
            >= earlier.len() && after.phase is Finished by {
            if i < earlier.len() {
                assert(earlier[i] == all[i]);
            } else {
                assert(step.effects[i - earlier.len()] == all[i]);
            }
        }
        assert forall|i: int, j: int|
            0 <= i < j < all.len() && (#[trigger] all[i]) is Failed implies (
        #[trigger] all[j]) is ReleasePermit by {
            assert(step.effects[i - earlier.len()] == all[i]);
            assert(step.effects[j - earlier.len()] == all[j]);
        }
    }
}

/// A source is only ever picked if its score is not too low.
pub proof fn law_picked_source_scores_well<I>(m0: TrackModel<I>, replies: Seq<ReplyText<I>>)
    requires
        track_run(m0, replies) is Some,
    ensures
        forall|i: int|
            0 <= i < (track_run(m0, replies)->0).1.len() ==> ((#[trigger] (track_run(
                m0,
                replies,
            )->0).1[i]) matches EffectText::PickedSource { score, .. } ==> !too_low(score)),
    decreases replies.len(),
{
    if replies.len() > 0 {
        law_picked_source_scores_well(m0, replies.drop_last());
        let (before, earlier) = track_run(m0, replies.drop_last())->0;
        let step = (track_next(before, replies.last())->0).1;
        let all = earlier + step.effects;
        assert forall|i: int| 0 <= i < all.len() implies ((
        #[trigger] all[i]) matches EffectText::PickedSource { score, .. } ==> !too_low(score)) by {
            if i < earlier.len() {
                assert(earlier[i] == all[i]);
            } else {
                assert(step.effects[i - earlier.len()] == all[i]);
            }
        }
    }
}

/// A cancelled import reports nothing more and finishes; at most it gives its permit back.
pub proof fn law_cancelled_import_is_silent<I>(m: TrackModel<I>)
    requires
        track_next(m, ReplyText::<I>::Cancelled(true)) is Some,
    ensures
        ({
            let (after, step) = track_next(m, ReplyText::<I>::Cancelled(true))->0;
            &&& after.phase is Finished
            &&& step.action is Finish
            &&& forall|i: int|
                0 <= i < step.effects.len() ==> (#[trigger] step.effects[i]) is ReleasePermit
        }),
{
}

/// Without a playlist a track is searched, downloaded and monitored all the same: up to the end of
/// the downloads, no step depends on whether there is one.
pub proof fn law_download_does_not_need_playlist<I>(
    m: TrackModel<I>,
    other: Option<Seq<char>>,
    reply: ReplyText<I>,
)
    requires
        before_permit(m.phase) || holds_permit(m.phase),
        track_next(m, reply) is Some,
    ensures
        ({
            let (after, step) = track_next(m, reply)->0;
            &&& track_next(TrackModel { playlist_id: other, ..m }, reply) is Some
            &&& (track_next(TrackModel { playlist_id: other, ..m }, reply)->0).1 == step
            &&& (track_next(TrackModel { playlist_id: other, ..m }, reply)->0).0.phase
                == after.phase
        }),
{
}

/// Only the playlist that was ensured for a track is ever updated, with exactly the song that was
/// found.
pub proof fn law_only_own_playlist_is_updated<I>(m: TrackModel<I>, reply: ReplyText<I>)
    requires
        track_next(m, reply) is Some,
        (track_next(m, reply)->0).1.action is UpdatePlaylist,
    ensures
        m.playlist_id is Some,
        reply matches ReplyText::Song(Some(song)) && (track_next(m, reply)->0).1.action == (
        ActionText::<I>::UpdatePlaylist {
            playlist_id: m.playlist_id->0,
            song_ids: seq![song],
        }),
{
}

/// Every queued download is either refused, with an error, or accepted, without one; none is lost
/// and none counted twice.
pub proof fn law_downloads_are_partitioned(queued: Seq<QueuedText>)
    ensures
        refused(queued).len() + accepted(queued).len() == queued.len(),
        forall|i: int| 0 <= i < refused(queued).len() ==> (#[trigger] refused(queued)[i]).error is Some,
        forall|i: int| 0 <= i < accepted(queued).len() ==> (#[trigger] accepted(
            queued,
        )[i]).error is None,
        forall|q: QueuedText|
            queued.contains(q) ==> #[trigger] refused(queued).contains(q) || accepted(
                queued,
            ).contains(q),
    decreases queued.len(),
{
    if queued.len() > 0 {
        law_downloads_are_partitioned(queued.drop_last());
        let last = queued.last();
        let front = queued.drop_last();
        assert forall|q: QueuedText| queued.contains(q) implies #[trigger] refused(
            queued,
        ).contains(q) || accepted(queued).contains(q) by {
            if front.contains(q) {
                if refused(front).contains(q) {
                    let k = choose|k: int| 0 <= k < refused(front).len() && refused(front)[k] == q;
                    assert(refused(queued)[k] == q);
                } else {
                    let k = choose|k: int|
                        0 <= k < accepted(front).len() && accepted(front)[k] == q;
                    assert(accepted(queued)[k] == q);
                }
            } else {
                let k = choose|k: int| 0 <= k < queued.len() && queued[k] == q;
                assert(k == queued.len() - 1) by {
                    if k < front.len() {
                        assert(front[k] == q);
                    }
                }
                if last.error is Some {
                    assert(refused(queued)[refused(queued).len() - 1] == q);
                } else {
                    assert(accepted(queued)[accepted(queued).len() - 1] == q);
                }
            }
        }
    }
}

/// Track imports that run side by side, and the search permits that are free.
pub struct SearchPool<I> {
    pub imports: Seq<TrackModel<I>>,
    pub free_permits: nat,
}

/// How many imports hold a search permit.
pub open spec fn holders<I>(imports: Seq<TrackModel<I>>) -> nat
    decreases imports.len(),
{
    if imports.len() == 0 {
        0
    } else {
        holders(imports.drop_last()) + if holds_permit(imports.last().phase) {
            1nat
        } else {
            0
        }
    }
}

/// The pool after a reply to one of its imports, or nothing if the import refuses it or if a permit
/// is to be granted and none is free. A grant takes a permit, and every release frees one.
pub open spec fn pool_next<I>(pool: SearchPool<I>, which: int, reply: ReplyText<I>) -> Option<
    SearchPool<I>,
> {
    let granted = if reply == ReplyText::<I>::Permit(true) {
        1nat
    } else {
        0
    };
    if which < 0 || which >= pool.imports.len() || granted > pool.free_permits {
        None
    } else {
        match track_next(pool.imports[which], reply) {
            Some((after, step)) => Some(
                SearchPool {
                    imports: pool.imports.update(which, after),
                    free_permits: (pool.free_permits - granted + releases(step.effects)) as nat,
                },
            ),
            None => None,
        }
    }
}

/// The pool after a series of replies, each to one of its imports.
pub open spec fn pool_run<I>(pool: SearchPool<I>, replies: Seq<(int, ReplyText<I>)>) -> Option<
    SearchPool<I>,
>
    decreases replies.len(),
{
    if replies.len() == 0 {
        Some(pool)
    } else {
        match pool_run(pool, replies.drop_last()) {
            Some(before) => pool_next(before, replies.last().0, replies.last().1),
            None => None,
        }
    }
}

proof fn lemma_holders_update<I>(imports: Seq<TrackModel<I>>, which: int, after: TrackModel<I>)
    requires
        0 <= which < imports.len(),
    ensures
        holders(imports.update(which, after)) + (if holds_permit(imports[which].phase) {
            1int
        } else {
            0
        }) == holders(imports) + (if holds_permit(after.phase) {
            1int
        } else {
            0
        }),
    decreases imports.len(),
{
    let updated = imports.update(which, after);
    if which == imports.len() - 1 {
        assert(updated.drop_last() =~= imports.drop_last());
    } else {
        assert(updated.drop_last() =~= imports.drop_last().update(which, after));
        lemma_holders_update(imports.drop_last(), which, after);
    }
}

proof fn lemma_idle_imports<I>(imports: Seq<TrackModel<I>>)
    requires
        forall|i: int| 0 <= i < imports.len() ==> !holds_permit((#[trigger] imports[i]).phase),
    ensures
        holders(imports) == 0,
    decreases imports.len(),
{
    if imports.len() > 0 {
        assert(!holds_permit(imports[imports.len() - 1].phase));
        assert forall|i: int| 0 <= i < imports.drop_last().len() implies !holds_permit(
            (#[trigger] imports.drop_last()[i]).phase,
        ) by {
            assert(imports.drop_last()[i] == imports[i]);
        }
        lemma_idle_imports(imports.drop_last());
    }
}

/// No more searches run at once than there are permits, and no permit is lost: whatever the imports
/// of a batch are told, and in whatever order, the free permits and the held ones are together as
/// many as at the start, and once all imports are finished every permit is free again.
pub proof fn law_searches_are_limited<I>(
    pool: SearchPool<I>,
    replies: Seq<(int, ReplyText<I>)>,
)
    requires
        forall|i: int| 0 <= i < pool.imports.len() ==> (#[trigger] pool.imports[i]).phase is Starting,
        pool_run(pool, replies) is Some,
    ensures
        ({
            let after = pool_run(pool, replies)->0;
            &&& after.imports.len() == pool.imports.len()
            &&& after.free_permits + holders(after.imports) == pool.free_permits
            &&& (forall|i: int|
                0 <= i < after.imports.len() ==> (#[trigger] after.imports[i]).phase is Finished)
                ==> after.free_permits == pool.free_permits
        }),
    decreases replies.len(),
{
    let after = pool_run(pool, replies)->0;
    if replies.len() == 0 {
        lemma_idle_imports(pool.imports);
    } else {
        law_searches_are_limited(pool, replies.drop_last());
        let before = pool_run(pool, replies.drop_last())->0;
        let (which, reply) = replies.last();
        lemma_step_permit(before.imports[which], reply);
        lemma_holders_update(
            before.imports,
            which,
            (track_next(before.imports[which], reply)->0).0,
        );
    }
    if forall|i: int|
        0 <= i < after.imports.len() ==> (#[trigger] after.imports[i]).phase is Finished {
        lemma_idle_imports(after.imports);
    }
}

/// A batch that begins with its search permits never has more searches running at once than that,
/// whatever its imports are told, and in whatever order.
pub proof fn law_batch_searches_are_limited<I>(
    pool: SearchPool<I>,
    replies: Seq<(int, ReplyText<I>)>,
)
    requires
        pool.free_permits == MAX_CONCURRENT_SEARCHES,
        forall|i: int| 0 <= i < pool.imports.len() ==> (#[trigger] pool.imports[i]).phase is Starting,
        pool_run(pool, replies) is Some,
    ensures
        holders((pool_run(pool, replies)->0).imports) <= MAX_CONCURRENT_SEARCHES,
{
    law_searches_are_limited(pool, replies);
}

/// How many effects announce a search.
pub open spec fn announcements(effects: Seq<EffectText>) -> nat
    decreases effects.len(),
{
    if effects.len() == 0 {
        0
    } else {
        announcements(effects.drop_last()) + if effects.last() is Searching {
            1nat
        } else {
            0
        }
    }
}

/// How many effects report a failure.
pub open spec fn failures(effects: Seq<EffectText>) -> nat
    decreases effects.len(),
{
    if effects.len() == 0 {
        0
    } else {
        failures(effects.drop_last()) + if effects.last() is Failed {
            1nat
        } else {
            0
        }
    }
}

/// How many effects report that a download has begun.
pub open spec fn download_reports(effects: Seq<EffectText>) -> nat
    decreases effects.len(),
{
    if effects.len() == 0 {
        0
    } else {
        download_reports(effects.drop_last()) + if effects.last() is Downloading {
            1nat
        } else {
            0
        }
    }
}

/// Whether a reply tells of a download that was queued without an error.
pub open spec fn queues_some<I>(reply: ReplyText<I>) -> bool {
    reply matches ReplyText::Queued(Ok(queued)) && exists|k: int|
        0 <= k < queued.len() && (#[trigger] queued[k]).error is None
}

/// Whether some reply tells of a download that was queued without an error.
pub open spec fn some_queued<I>(replies: Seq<ReplyText<I>>) -> bool {
    exists|i: int| 0 <= i < replies.len() && queues_some(#[trigger] replies[i])
}

proof fn lemma_reports_concat(a: Seq<EffectText>, b: Seq<EffectText>)
    ensures
        announcements(a + b) == announcements(a) + announcements(b),
        failures(a + b) == failures(a) + failures(b),
        download_reports(a + b) == download_reports(a) + download_reports(b),
    decreases b.len(),
{
    if b.len() == 0 {
        assert(a + b =~= a);
    } else {
        assert((a + b).drop_last() =~= a + b.drop_last());
        lemma_reports_concat(a, b.drop_last());
    }
}

/// Some download is accepted exactly if one was queued without an error.
proof fn lemma_accepted(queued: Seq<QueuedText>)
    ensures
        accepted(queued).len() > 0 <==> exists|k: int|
            0 <= k < queued.len() && (#[trigger] queued[k]).error is None,
    decreases queued.len(),
{
    if queued.len() > 0 {
        let front = queued.drop_last();
        lemma_accepted(front);
        if queued.last().error is None {
            assert(queued[queued.len() - 1].error is None);
        } else {
            if exists|k: int| 0 <= k < queued.len() && (#[trigger] queued[k]).error is None {
                let k = choose|k: int| 0 <= k < queued.len() && (#[trigger] queued[k]).error is None;
                assert(front[k].error is None);
            }
            if exists|k: int| 0 <= k < front.len() && (#[trigger] front[k]).error is None {
                let k = choose|k: int| 0 <= k < front.len() && (#[trigger] front[k]).error is None;
                assert(queued[k].error is None);
            }
        }
    }
}

/// What one step reports.
proof fn lemma_step_reports<I>(m: TrackModel<I>, reply: ReplyText<I>)
    requires
        track_next(m, reply) is Some,
    ensures
        ({
            let (after, step) = track_next(m, reply)->0;
            let searches = m.phase is Granted && after.phase is Probing;
            &&& announcements(step.effects) == if searches {
                1nat
            } else {
                0
            }
            &&& download_reports(step.effects) == if queues_some(reply) {
                1nat
            } else {
                0
            }
            &&& failures(step.effects) == if holds_permit(m.phase) && m.phase !is Granted
                && after.phase is Finished {
                1nat
            } else {
                0
            }
            &&& queues_some(reply) <==> m.phase is Queueing && after.phase is Monitoring
        }),
{
    reveal_with_fuel(announcements, 5);
    reveal_with_fuel(failures, 5);
    reveal_with_fuel(download_reports, 5);
    match reply {
        ReplyText::Queued(Ok(queued)) => {
            lemma_accepted(queued);
        },
        _ => {},
    }
    let e = (track_next(m, reply)->0).1.effects;
    if e.len() > 0 {
        let e1 = e.drop_last();
        if e1.len() > 0 {
            let e2 = e1.drop_last();
            if e2.len() > 0 {
                let e3 = e2.drop_last();
                assert(e3.len() <= 1);
            }
        }
    }
}

/// What an import in a phase has reported so far.
spec fn reports_fit<I>(
    phase: PhaseText<I>,
    effects: Seq<EffectText>,
    replies: Seq<ReplyText<I>>,
) -> bool {
    let searched = announcements(effects);
    let failed = failures(effects);
    let downloading = download_reports(effects);
    &&& searched <= 1
    &&& downloading == if some_queued(replies) {
        1nat
    } else {
        0
    }
    &&& if phase is Finished {
        failed + downloading == searched
    } else if before_permit(phase) || phase is Granted {
        searched == 0 && failed == 0 && downloading == 0
    } else if holds_permit(phase) {
        searched == 1 && failed == 0 && downloading == 0
    } else {
        searched == 1 && failed == 0 && downloading == 1
    }
}

proof fn lemma_reports_fit<I>(
    track: TrackText,
    batch_id: Seq<char>,
    backend_count: nat,
    replies: Seq<ReplyText<I>>,
)
    requires
        track_run(fresh::<I>(track, batch_id, backend_count), replies) is Some,
    ensures
        ({
            let (m, effects) = track_run(fresh::<I>(track, batch_id, backend_count), replies)->0;
            reports_fit(m.phase, effects, replies)
        }),
    decreases replies.len(),
{
    if replies.len() > 0 {
        let m0 = fresh::<I>(track, batch_id, backend_count);
        let front = replies.drop_last();
        let last = replies.last();
        lemma_reports_fit(track, batch_id, backend_count, front);
        let (before, effects) = track_run(m0, front)->0;
        let step = (track_next(before, last)->0).1;
        lemma_step_reports(before, last);
        lemma_reports_concat(effects, step.effects);
        assert(some_queued(replies) <==> some_queued(front) || queues_some(last)) by {
            if some_queued(front) {
                let i = choose|i: int| 0 <= i < front.len() && queues_some(#[trigger] front[i]);
                assert(queues_some(replies[i]));
            }
            if queues_some(last) {
                assert(queues_some(replies[replies.len() - 1]));
            }
            if some_queued(replies) && !queues_some(last) {
                let i = choose|i: int| 0 <= i < replies.len() && queues_some(#[trigger] replies[i]);
                assert(queues_some(front[i]));
            }
        }
    }
}

/// A search that is announced has one outcome: a finished import that announced its search, which
/// it does at most once, has reported exactly one of a failure and the beginning of a download, and
/// one that did not has reported neither. A download is reported exactly if some download was queued
/// without an error.
pub proof fn law_search_has_one_outcome<I>(
    track: TrackText,
    batch_id: Seq<char>,
    backend_count: nat,
    replies: Seq<ReplyText<I>>,
)
    requires
        track_run(fresh::<I>(track, batch_id, backend_count), replies) is Some,
    ensures
        ({
            let (m, effects) = track_run(fresh::<I>(track, batch_id, backend_count), replies)->0;
            &&& announcements(effects) <= 1
            &&& m.phase is Finished ==> failures(effects) + download_reports(effects)
                == announcements(effects)
            &&& download_reports(effects) == if some_queued(replies) {
                1nat
            } else {
                0
            }
        }),
{
    lemma_reports_fit(track, batch_id, backend_count, replies);
}

/// The state of an import after a series of replies and all its steps, the first one included, or
/// nothing if some reply was refused.
pub open spec fn track_steps<I>(
    track: TrackText,
    batch_id: Seq<char>,
    backend_count: nat,
    replies: Seq<ReplyText<I>>,
) -> Option<(TrackModel<I>, Seq<StepText<I>>)>
    decreases replies.len(),
{
    if replies.len() == 0 {
        let (m, step) = track_start::<I>(track, batch_id, backend_count);
        Some((m, seq![step]))
    } else {
        match track_steps(track, batch_id, backend_count, replies.drop_last()) {
            Some((before, steps)) => match track_next(before, replies.last()) {
                Some((after, step)) => Some((after, steps.push(step))),
                None => None,
            },
            None => None,
        }
    }
}

/// Whether a reply is one to an action.
pub open spec fn answers<I>(action: ActionText<I>, reply: ReplyText<I>) -> bool {
    match action {
        ActionText::CheckCancelled => reply is Cancelled,
        ActionText::EnsurePlaylist { name } => reply is Playlist,
        ActionText::AcquirePermit => reply is Permit,
        ActionText::ProbeBackends => reply is Backends,
        ActionText::Search { track } => reply is Results,
        ActionText::CreateFolder => reply is Folder,
        ActionText::OpenBackend => reply is Backend,
        ActionText::Download { items } => reply is Queued,
        ActionText::Monitor { sources, filenames, batch_id, batch_label } => reply is Monitored,
        ActionText::Settle { delay_ms } => reply is Settled,
        ActionText::FindSong => reply is Song,
        ActionText::UpdatePlaylist { playlist_id, song_ids } => reply is Updated,
        ActionText::Finish => false,
    }
}

/// An import takes exactly the replies to its last action, and none once it is finished; its first
/// action is to look whether the batch was cancelled.
pub proof fn law_import_takes_answers_only<I>(
    track: TrackText,
    batch_id: Seq<char>,
    backend_count: nat,
    replies: Seq<ReplyText<I>>,
)
    requires
        track_steps(track, batch_id, backend_count, replies) is Some,
    ensures
        ({
            let (m, steps) = track_steps(track, batch_id, backend_count, replies)->0;
            &&& steps.len() == replies.len() + 1
            &&& steps[0].action is CheckCancelled && steps[0].effects.len() == 0
            &&& forall|reply: ReplyText<I>| #[trigger]
                track_next(m, reply) is Some <==> answers(steps.last().action, reply)
        }),
    decreases replies.len(),
{
    if replies.len() > 0 {
        law_import_takes_answers_only(track, batch_id, backend_count, replies.drop_last());
    }
}

/// An import asks for what its own entry names, and for nothing else: for the entry's playlist, and
/// at the backends for the entry's title and artist, whether or not it names an album, and for the
/// entry's album exactly if it names one, under an id made of the entry's row. It waits five seconds
/// where it waits.
pub proof fn law_import_asks_for_its_own_track<I>(
    track: TrackText,
    batch_id: Seq<char>,
    backend_count: nat,
    replies: Seq<ReplyText<I>>,
)
    requires
        track_steps(track, batch_id, backend_count, replies) is Some,
    ensures
        ({
            let (m, steps) = track_steps(track, batch_id, backend_count, replies)->0;
            &&& m.track == track && m.batch_id == batch_id && m.backend_count == backend_count
            &&& forall|k: int|
                0 <= k < steps.len() && (#[trigger] steps[k]).action is Search ==> {
                    let wanted = steps[k].action->track;
                    &&& wanted.title == track.track_name
                    &&& wanted.artist == track.artist
                    &&& wanted.album_title is Some <==> track.album.len() > 0
                    &&& wanted.album_title is Some ==> wanted.album_title->0 == track.album
                    &&& wanted.id == "csv-import-"@ + decimal(track.row_index)
                }
            &&& forall|k: int|
                0 <= k < steps.len() && (#[trigger] steps[k]).action is EnsurePlaylist
                    ==> steps[k].action->name == track.playlist_name
            &&& forall|k: int|
                0 <= k < steps.len() && (#[trigger] steps[k]).action is Settle
                    ==> steps[k].action->delay_ms == 5_000
        }),
    decreases replies.len(),
{
    if replies.len() > 0 {
        let front = replies.drop_last();
        law_import_asks_for_its_own_track(track, batch_id, backend_count, front);
        let (before, earlier) = track_steps(track, batch_id, backend_count, front)->0;
        lemma_step_keeps_job(before, replies.last());
    }
}

/// Whether a group is the first of those with the greatest score.
pub open spec fn is_first_greatest<I>(groups: Seq<GroupText<I>>, best: int) -> bool {
    &&& 0 <= best < groups.len()
    &&& forall|i: int|
        0 <= i < groups.len() ==> score_value((#[trigger] groups[i]).score) <= score_value(
            groups[best].score,
        )
    &&& forall|i: int|
        0 <= i < best ==> score_value((#[trigger] groups[i]).score) < score_value(
            groups[best].score,
        )
}

/// Whether the scores of all groups are numbers.
pub open spec fn all_numbers<I>(groups: Seq<GroupText<I>>) -> bool {
    forall|i: int| 0 <= i < groups.len() ==> is_number((#[trigger] groups[i]).score)
}

proof fn lemma_leader_is_first_greatest<I>(groups: Seq<GroupText<I>>)
    requires
        groups.len() > 0,
        all_numbers(groups),
    ensures
        is_first_greatest(groups, leader(scores_of(groups))),
{
    let scores = scores_of(groups);
    assert forall|i: int| 0 <= i < scores.len() implies crate::score::score_place(
        #[trigger] scores[i],
    ) is Some by {
        assert(is_number(groups[i].score));
    }
    law_leader_is_first_greatest(scores);
    let lead = leader(scores);
    assert(is_number(groups[lead].score));
    assert forall|i: int| 0 <= i < groups.len() implies score_value((#[trigger] groups[i]).score)
        <= score_value(groups[lead].score) by {
        assert(scores[i] == groups[i].score);
        law_scores_compare_as_numbers(groups[i].score, groups[lead].score);
    }
    assert forall|i: int| 0 <= i < lead implies score_value((#[trigger] groups[i]).score)
        < score_value(groups[lead].score) by {
        assert(scores[i] == groups[i].score);
        law_scores_compare_as_numbers(groups[lead].score, groups[i].score);
    }
}

proof fn lemma_leader_in_range(scores: Seq<u64>)
    requires
        scores.len() > 0,
    ensures
        0 <= leader(scores) < scores.len(),
    decreases scores.len(),
{
    if scores.len() > 1 {
        lemma_leader_in_range(scores.drop_last());
    }
}

/// Whether the items are those of one of the groups that were found, the first of the greatest score
/// if all scores are numbers, and the effects report that very group as the source that was picked.
pub open spec fn is_pick<I>(
    results: Seq<Seq<GroupText<I>>>,
    items: Seq<I>,
    effects: Seq<EffectText>,
    batch_id: Seq<char>,
) -> bool {
    let all = merged(results);
    exists|best: int|
        0 <= best < all.len() && items == (#[trigger] all[best]).items && (all_numbers(all)
            ==> is_first_greatest(all, best)) && effects.contains(
            EffectText::PickedSource {
                batch_id,
                source: all[best].source,
                score: all[best].score,
                quality: all[best].quality,
                track_count: all[best].items.len(),
            },
        )
}

/// The items that an import is about to download, if it is.
spec fn items_in_hand<I>(phase: PhaseText<I>, action: ActionText<I>) -> Option<Seq<I>> {
    match phase {
        PhaseText::CreatingFolder { items } => Some(items),
        PhaseText::Opening { items } => Some(items),
        _ => match action {
            ActionText::Download { items } => Some(items),
            _ => None,
        },
    }
}

proof fn lemma_pick<I>(m: TrackModel<I>, results: Seq<Seq<GroupText<I>>>)
    requires
        m.phase is Searching,
    ensures
        ({
            let (after, step) = track_next(m, ReplyText::Results(results))->0;
            &&& track_next(m, ReplyText::Results(results)) is Some
            &&& after.phase is Finished || (after.phase is CreatingFolder && is_pick(
                results,
                after.phase->CreatingFolder_items,
                step.effects,
                m.batch_id,
            ))
            &&& step.action !is Download
        }),
{
    let all = merged(results);
    let (after, step) = track_next(m, ReplyText::Results(results))->0;
    if after.phase is CreatingFolder {
        let best = leader(scores_of(all));
        lemma_leader_in_range(scores_of(all));
        if all_numbers(all) {
            lemma_leader_is_first_greatest(all);
        }
        assert(step.effects[1] == EffectText::PickedSource {
            batch_id: m.batch_id,
            source: all[best].source,
            score: all[best].score,
            quality: all[best].quality,
            track_count: all[best].items.len(),
        });
        assert(all[best].items == after.phase->CreatingFolder_items);
    }
}

proof fn lemma_items_in_hand<I>(
    track: TrackText,
    batch_id: Seq<char>,
    backend_count: nat,
    replies: Seq<ReplyText<I>>,
)
    requires
        track_steps(track, batch_id, backend_count, replies) is Some,
    ensures
        ({
            let (m, steps) = track_steps(track, batch_id, backend_count, replies)->0;
            &&& m.phase !is Finished ==> replies.len() + replies_left(m.phase) == 14
            &&& steps.len() == replies.len() + 1
            &&& items_in_hand(m.phase, steps.last().action) matches Some(items) ==> {
                &&& 6 <= replies.len()
                &&& replies[5] is Results
                &&& is_pick(replies[5]->Results_0, items, steps[6].effects, batch_id)
            }
        }),
    decreases replies.len(),
{
    if replies.len() > 0 {
        let front = replies.drop_last();
        let last = replies.last();
        lemma_items_in_hand(track, batch_id, backend_count, front);
        law_import_asks_for_its_own_track(track, batch_id, backend_count, front);
        let (before, earlier) = track_steps(track, batch_id, backend_count, front)->0;
        let (m, steps) = track_steps(track, batch_id, backend_count, replies)->0;
        match last {
            ReplyText::Results(results) => {
                lemma_pick(before, results);
            },
            _ => {},
        }
        if front.len() >= 6 {
            assert(front[5] == replies[5]);
            assert(earlier[6] == steps[6]);
        }
    }
}

/// What is downloaded is what was picked: in every run the items that an import asks to be queued are
/// exactly those of one group among all that the searches found, the first of those with the greatest
/// score, and it is that group whose source, score, quality and number of items were reported. With
/// scores that are not numbers among the others it is some group, the same in both places.
pub proof fn law_download_is_of_the_picked_group<I>(
    track: TrackText,
    batch_id: Seq<char>,
    backend_count: nat,
    replies: Seq<ReplyText<I>>,
    k: int,
)
    requires
        track_steps(track, batch_id, backend_count, replies) is Some,
        0 <= k < (track_steps(track, batch_id, backend_count, replies)->0).1.len(),
        (track_steps(track, batch_id, backend_count, replies)->0).1[k].action is Download,
    ensures
        ({
            let steps = (track_steps(track, batch_id, backend_count, replies)->0).1;
            &&& 6 < k
            &&& replies[5] is Results
            &&& is_pick(
                replies[5]->Results_0,
                steps[k].action->Download_items,
                steps[6].effects,
                batch_id,
            )
        }),
    decreases replies.len(),
{
    let steps = (track_steps(track, batch_id, backend_count, replies)->0).1;
    lemma_items_in_hand(track, batch_id, backend_count, replies);
    if k < steps.len() - 1 {
        let front = replies.drop_last();
        let earlier = (track_steps(track, batch_id, backend_count, front)->0).1;
        lemma_items_in_hand(track, batch_id, backend_count, front);
        assert(earlier[k] == steps[k]);
        law_download_is_of_the_picked_group(track, batch_id, backend_count, front, k);
        assert(front[5] == replies[5]);
        assert(earlier[6] == steps[6]);
    } else if replies.len() > 0 {
        let before = (track_steps(track, batch_id, backend_count, replies.drop_last())->0).0;
        assert(before.phase is Opening);
        lemma_items_in_hand(track, batch_id, backend_count, replies.drop_last());
    }
}

/// The downloads without an error, in order.
pub open spec fn without_error(queued: Seq<QueuedText>) -> Seq<QueuedText> {
    queued.filter(|q: QueuedText| q.error is None)
}

/// The downloads with an error, in order.
pub open spec fn with_error(queued: Seq<QueuedText>) -> Seq<QueuedText> {
    queued.filter(|q: QueuedText| q.error is Some)
}

proof fn lemma_sorted_out(queued: Seq<QueuedText>)
    ensures
        accepted(queued) == without_error(queued),
        refused(queued) == with_error(queued),
    decreases queued.len(),
{
    reveal(Seq::filter);
    if queued.len() > 0 {
        lemma_sorted_out(queued.drop_last());
    }
}

/// The report of downloads that were queued, each with its size.
pub open spec fn queued_report(
    downloads: Seq<QueuedText>,
    batch_id: Seq<char>,
    label: Seq<char>,
) -> EffectText {
    EffectText::Progress {
        entries: Seq::new(
            downloads.len(),
            |i: int|
                EntryText {
                    id: downloads[i].id,
                    source: downloads[i].source,
                    item: downloads[i].item,
                    state: StateText::Queued { size: downloads[i].size },
                    batch_id,
                    batch_label: label,
                },
        ),
    }
}

/// The report of downloads that could not be queued, each with its error.
pub open spec fn refused_report(
    downloads: Seq<QueuedText>,
    batch_id: Seq<char>,
    label: Seq<char>,
) -> EffectText {
    EffectText::Progress {
        entries: Seq::new(
            downloads.len(),
            |i: int|
                EntryText {
                    id: downloads[i].id,
                    source: downloads[i].source,
                    item: downloads[i].item,
                    state: StateText::Failed { error: downloads[i].error->0 },
                    batch_id,
                    batch_label: label,
                },
        ),
    }
}

/// An import that goes well: what it is about, and what it is told.
pub struct GoodImport<I> {
    pub track: TrackText,
    pub batch_id: Seq<char>,
    pub backend_count: nat,
    pub playlist_id: Option<Seq<char>>,
    pub available: nat,
    pub results: Seq<Seq<GroupText<I>>>,
    /// The place of the best group among all that were found
    pub best: int,
    pub queued: Seq<QueuedText>,
    pub song_id: Seq<char>,
}

/// Whether an import goes well: some backend is available, the best group found is good enough, and
/// some download is queued.
pub open spec fn goes_well<I>(g: GoodImport<I>) -> bool {
    let all = merged(g.results);
    &&& g.available > 0
    &&& all_numbers(all)
    &&& is_first_greatest(all, g.best)
    &&& score_value(all[g.best].score) >= score_value(MIN_SCORE_BITS)
    &&& without_error(g.queued).len() > 0
}

/// What an import that goes well is told, one reply after the other.
pub open spec fn good_replies<I>(g: GoodImport<I>) -> Seq<ReplyText<I>> {
    seq![
        ReplyText::Cancelled(false),
        ReplyText::Playlist(g.playlist_id),
        ReplyText::Permit(true),
        ReplyText::Cancelled(false),
        ReplyText::Backends(g.available),
        ReplyText::Results(g.results),
        ReplyText::Folder(Ok(())),
        ReplyText::Backend(Ok(())),
        ReplyText::Queued(Ok(g.queued)),
        ReplyText::Monitored,
        ReplyText::Cancelled(false),
        ReplyText::Settled,
        ReplyText::Song(Some(g.song_id)),
        ReplyText::Updated,
    ]
}

/// Artist and title, as an import is named in reports.
pub open spec fn artist_and_title(track: TrackText) -> Seq<char> {
    track.artist + " - "@ + track.track_name
}

/// The report of the scores.
pub open spec fn scoring_report<I>(g: GoodImport<I>) -> EffectText {
    EffectText::ScoringResults {
        batch_id: g.batch_id,
        result_count: merged(g.results).len(),
        best_score: merged(g.results)[g.best].score,
    }
}

/// What an import reports when it gives the permit back after the queueing: that, and the downloads
/// with an error if there are any.
pub open spec fn queueing_reports<I>(g: GoodImport<I>) -> Seq<EffectText> {
    let bad = with_error(g.queued);
    if bad.len() == 0 {
        seq![EffectText::ReleasePermit]
    } else {
        seq![
            EffectText::ReleasePermit,
            refused_report(bad, g.batch_id, artist_and_title(g.track)),
        ]
    }
}

/// The step of an import that goes well after so many replies.
pub open spec fn good_step<I>(g: GoodImport<I>, k: int) -> StepText<I> {
    let label = artist_and_title(g.track);
    let all = merged(g.results);
    let group = all[g.best];
    let good = without_error(g.queued);
    if k == 0 {
        StepText { effects: seq![], action: ActionText::CheckCancelled }
    } else if k == 1 {
        StepText {
            effects: seq![],
            action: ActionText::EnsurePlaylist { name: g.track.playlist_name },
        }
    } else if k == 2 {
        StepText { effects: seq![], action: ActionText::AcquirePermit }
    } else if k == 3 {
        StepText { effects: seq![], action: ActionText::CheckCancelled }
    } else if k == 4 {
        StepText {
            effects: seq![
                EffectText::Searching {
                    batch_id: g.batch_id,
                    query: label,
                    backend_count: g.backend_count,
                },
            ],
            action: ActionText::ProbeBackends,
        }
    } else if k == 5 {
        StepText {
            effects: seq![],
            action: ActionText::Search {
                track: SearchTrackText {
                    id: "csv-import-"@ + decimal(g.track.row_index),
                    title: g.track.track_name,
                    artist: g.track.artist,
                    album_title: if g.track.album.len() > 0 {
                        Some(g.track.album)
                    } else {
                        None
                    },
                },
            },
        }
    } else if k == 6 {
        StepText {
            effects: seq![
                scoring_report(g),
                EffectText::PickedSource {
                    batch_id: g.batch_id,
                    source: group.source,
                    score: group.score,
                    quality: group.quality,
                    track_count: group.items.len(),
                },
            ],
            action: ActionText::CreateFolder,
        }
    } else if k == 7 {
        StepText { effects: seq![], action: ActionText::OpenBackend }
    } else if k == 8 {
        StepText { effects: seq![], action: ActionText::Download { items: group.items } }
    } else if k == 9 {
        StepText {
            effects: queueing_reports(g) + seq![
                EffectText::Downloading { batch_id: g.batch_id },
                queued_report(good, g.batch_id, label),
            ],
            action: ActionText::Monitor {
                sources: Seq::new(good.len(), |i: int| good[i].source),
                filenames: Seq::new(good.len(), |i: int| good[i].item),
                batch_id: g.batch_id,
                batch_label: label,
            },
        }
    } else if k == 10 {
        StepText { effects: seq![], action: ActionText::CheckCancelled }
    } else if k == 11 {
        StepText { effects: seq![], action: ActionText::Settle { delay_ms: 5_000 } }
    } else if k == 12 {
        StepText { effects: seq![], action: ActionText::FindSong }
    } else if k == 13 {
        StepText {
            effects: seq![],
            action: ActionText::UpdatePlaylist {
                playlist_id: g.playlist_id->0,
                song_ids: seq![g.song_id],
            },
        }
    } else {
        StepText { effects: seq![], action: ActionText::Finish }
    }
}

/// The state of an import that goes well after so many replies.
spec fn good_model<I>(g: GoodImport<I>, k: int) -> TrackModel<I> {
    let items = merged(g.results)[g.best].items;
    let phase = if k == 0 {
        PhaseText::Starting
    } else if k == 1 {
        PhaseText::Ensuring
    } else if k == 2 {
        PhaseText::Waiting
    } else if k == 3 {
        PhaseText::Granted
    } else if k == 4 {
        PhaseText::Probing
    } else if k == 5 {
        PhaseText::Searching
    } else if k == 6 {
        PhaseText::CreatingFolder { items }
    } else if k == 7 {
        PhaseText::Opening { items }
    } else if k == 8 {
        PhaseText::Queueing
    } else if k == 9 {
        PhaseText::Monitoring
    } else if k == 10 {
        PhaseText::Imported
    } else if k == 11 {
        PhaseText::Settling
    } else if k == 12 {
        PhaseText::Locating
    } else if k == 13 {
        PhaseText::Updating
    } else {
        PhaseText::Finished
    };
    TrackModel {
        track: g.track,
        batch_id: g.batch_id,
        backend_count: g.backend_count,
        playlist_id: if k < 2 {
            None
        } else {
            g.playlist_id
        },
        phase,
    }
}

proof fn lemma_best_leads<I>(g: GoodImport<I>)
    requires
        all_numbers(merged(g.results)),
        is_first_greatest(merged(g.results), g.best),
    ensures
        g.best == leader(scores_of(merged(g.results))),
        too_low(merged(g.results)[g.best].score) <==> score_value(
            merged(g.results)[g.best].score,
        ) < score_value(MIN_SCORE_BITS),
{
    let all = merged(g.results);
    lemma_leader_is_first_greatest(all);
    let lead = leader(scores_of(all));
    if lead < g.best {
        assert(score_value(all[lead].score) < score_value(all[g.best].score));
    }
    if g.best < lead {
        assert(score_value(all[g.best].score) < score_value(all[lead].score));
    }
    assert(is_number(all[g.best].score));
    law_scores_compare_as_numbers(all[g.best].score, all[g.best].score);
}

proof fn lemma_queueing<I>(g: GoodImport<I>)
    ensures
        accepted(g.queued) == without_error(g.queued),
        refused(g.queued) == with_error(g.queued),
        ({
            let label = describe(g.track);
            let good = without_error(g.queued);
            let bad = with_error(g.queued);
            &&& (EffectText::Progress { entries: entries_for(bad, g.batch_id, label) })
                == refused_report(bad, g.batch_id, artist_and_title(g.track))
            &&& (EffectText::Progress { entries: entries_for(good, g.batch_id, label) })
                == queued_report(good, g.batch_id, artist_and_title(g.track))
            &&& sources_of(good) == Seq::new(good.len(), |i: int| good[i].source)
            &&& items_of(good) == Seq::new(good.len(), |i: int| good[i].item)
        }),
{
    let label = describe(g.track);
    let good = without_error(g.queued);
    let bad = with_error(g.queued);
    lemma_sorted_out(g.queued);
    law_downloads_are_partitioned(g.queued);
    assert(entries_for(bad, g.batch_id, label) =~= refused_report(
        bad,
        g.batch_id,
        artist_and_title(g.track),
    )->entries);
    assert(entries_for(good, g.batch_id, label) =~= queued_report(
        good,
        g.batch_id,
        artist_and_title(g.track),
    )->entries);
    assert(sources_of(good) =~= Seq::new(good.len(), |i: int| good[i].source));
    assert(items_of(good) =~= Seq::new(good.len(), |i: int| good[i].item));
}

proof fn lemma_good_step<I>(g: GoodImport<I>, k: int)
    requires
        goes_well(g),
        0 <= k < 14,
        g.playlist_id is None ==> k < 9,
    ensures
        track_next(good_model(g, k), good_replies(g)[k]) == Some(
            (good_model(g, k + 1), good_step(g, k + 1)),
        ),
{
    if k == 5 {
        lemma_best_leads(g);
    }
    if k == 8 {
        lemma_queueing(g);
        let next = track_next(good_model(g, k), good_replies(g)[k])->0;
        assert(next.1.effects =~= good_step(g, 9).effects);
        assert(next.1.action == good_step(g, 9).action);
    }
}

proof fn lemma_good_run<I>(g: GoodImport<I>, k: int)
    requires
        goes_well(g),
        0 <= k <= 14,
        g.playlist_id is None ==> k <= 9,
    ensures
        track_steps(g.track, g.batch_id, g.backend_count, good_replies(g).take(k)) == Some(
            (good_model(g, k), Seq::new((k + 1) as nat, |i: int| good_step(g, i))),
        ),
    decreases k,
{
    let replies = good_replies(g).take(k);
    let steps = Seq::new((k + 1) as nat, |i: int| good_step(g, i));
    if k == 0 {
        assert(steps =~= seq![good_step(g, 0)]);
    } else {
        lemma_good_run(g, k - 1);
        lemma_good_step(g, k - 1);
        let earlier = Seq::new(k as nat, |i: int| good_step(g, i));
        assert(replies.drop_last() =~= good_replies(g).take(k - 1));
        assert(replies.last() == good_replies(g)[k - 1]);
        assert(steps =~= earlier.push(good_step(g, k)));
    }
}

/// An import that goes well takes its steps in this order, whatever its entry, the groups and the
/// downloads are: it ensures the playlist, waits for a permit, searches, picks the best group, queues
/// its items, reports and monitors the downloads that were queued without an error, gives the permit
/// back before that, and adds the song to the playlist.
pub proof fn law_good_import_goes_like_this<I>(g: GoodImport<I>)
    requires
        goes_well(g),
        g.playlist_id is Some,
    ensures
        ({
            let run = track_steps(g.track, g.batch_id, g.backend_count, good_replies(g));
            &&& run is Some
            &&& (run->0).0.phase is Finished
            &&& (run->0).1 == Seq::new(15, |i: int| good_step(g, i))
        }),
{
    assert(good_replies(g).take(14) =~= good_replies(g));
    lemma_good_run(g, 14);
}

/// The last step of an import that goes well for so many replies and then gets another one.
pub open spec fn step_after<I>(g: GoodImport<I>, k: int, reply: ReplyText<I>) -> Option<
    StepText<I>,
> {
    match track_steps(
        g.track,
        g.batch_id,
        g.backend_count,
        good_replies(g).take(k).push(reply),
    ) {
        Some((m, steps)) => Some(steps.last()),
        None => None,
    }
}

proof fn lemma_step_after<I>(g: GoodImport<I>, k: int, reply: ReplyText<I>)
    requires
        goes_well(g),
        0 <= k < 14,
        g.playlist_id is None ==> k <= 9,
    ensures
        step_after(g, k, reply) == match track_next(good_model(g, k), reply) {
            Some((after, step)) => Some(step),
            None => None,
        },
{
    lemma_good_run(g, k);
    assert(good_replies(g).take(k).push(reply).drop_last() =~= good_replies(g).take(k));
}

/// A last step that reports a failure and gives the permit back.
pub open spec fn failed_step<I>(batch_id: Seq<char>, error: Seq<char>) -> StepText<I> {
    StepText {
        effects: seq![EffectText::Failed { batch_id, error }, EffectText::ReleasePermit],
        action: ActionText::Finish,
    }
}

/// What an import cannot do without ends it with a report of why, and the permit is given back: a
/// backend, the target folder, the download backend, the queueing. The cause is repeated whole.
pub proof fn law_failures_are_reported<I>(g: GoodImport<I>, cause: Seq<char>)
    requires
        goes_well(g),
    ensures
        step_after(g, 4, ReplyText::Backends(0)) == Some(
            failed_step::<I>(g.batch_id, "No download backends available"@),
        ),
        step_after(g, 6, ReplyText::Folder(Err(cause))) == Some(
            failed_step::<I>(g.batch_id, "Failed to create target directory: "@ + cause),
        ),
        step_after(g, 7, ReplyText::Backend(Err(cause))) == Some(
            failed_step::<I>(g.batch_id, "Download backend not available: "@ + cause),
        ),
        step_after(g, 8, ReplyText::Queued(Err(cause))) == Some(
            failed_step::<I>(g.batch_id, "Download queue failed: "@ + cause),
        ),
{
    lemma_step_after(g, 4, ReplyText::Backends(0));
    lemma_step_after(g, 6, ReplyText::Folder(Err(cause)));
    lemma_step_after(g, 7, ReplyText::Backend(Err(cause)));
    lemma_step_after(g, 8, ReplyText::Queued(Err(cause)));
}

/// Without a permit, after a cancellation at any of the three looks, and without a song, an import
/// ends without a report; it gives the permit back exactly where it holds one.
pub proof fn law_quiet_ends<I>(g: GoodImport<I>)
    requires
        goes_well(g),
        g.playlist_id is Some,
    ensures
        ({
            let over: StepText<I> = StepText { effects: seq![], action: ActionText::Finish };
            &&& step_after(g, 0, ReplyText::Cancelled(true)) == Some(over)
            &&& step_after(g, 2, ReplyText::Permit(false)) == Some(over)
            &&& step_after(g, 3, ReplyText::Cancelled(true)) == Some(
                StepText::<I> {
                    effects: seq![EffectText::ReleasePermit],
                    action: ActionText::Finish,
                },
            )
            &&& step_after(g, 10, ReplyText::Cancelled(true)) == Some(over)
            &&& step_after(g, 12, ReplyText::Song(None)) == Some(over)
        }),
{
    lemma_step_after(g, 0, ReplyText::Cancelled(true));
    lemma_step_after(g, 2, ReplyText::Permit(false));
    lemma_step_after(g, 3, ReplyText::Cancelled(true));
    lemma_step_after(g, 10, ReplyText::Cancelled(true));
    lemma_step_after(g, 12, ReplyText::Song(None));
}

/// Without a playlist an import takes the same steps up to the end of its downloads, and then is over.
pub proof fn law_import_without_playlist_downloads<I>(g: GoodImport<I>)
    requires
        goes_well(g),
        g.playlist_id is None,
    ensures
        ({
            let run = track_steps(g.track, g.batch_id, g.backend_count, good_replies(g).take(9));
            &&& run is Some
            &&& (run->0).1 == Seq::new(10, |i: int| good_step(g, i))
            &&& step_after(g, 9, ReplyText::Monitored) == Some(
                StepText::<I> { effects: seq![], action: ActionText::Finish },
            )
        }),
{
    lemma_good_run(g, 9);
    lemma_step_after(g, 9, ReplyText::Monitored);
}

/// Where the searches find nothing, the import ends with a report that says so. Where the best of
/// all groups has too low a score, it ends with the scores and a report that names the score and the
/// track, and nothing is picked.
pub proof fn law_poor_results_are_reported<I>(
    g: GoodImport<I>,
    results: Seq<Seq<GroupText<I>>>,
    best: int,
)
    requires
        goes_well(g),
    ensures
        merged(results).len() == 0 ==> step_after(g, 5, ReplyText::Results(results)) == Some(
            failed_step::<I>(g.batch_id, "No results found"@),
        ),
        all_numbers(merged(results)) && is_first_greatest(merged(results), best) && score_value(
            merged(results)[best].score,
        ) < score_value(MIN_SCORE_BITS) ==> step_after(g, 5, ReplyText::Results(results)) == Some(
            StepText::<I> {
                effects: seq![
                    EffectText::ScoringResults {
                        batch_id: g.batch_id,
                        result_count: merged(results).len(),
                        best_score: merged(results)[best].score,
                    },
                    EffectText::Failed {
                        batch_id: g.batch_id,
                        error: "Best match score "@ + merged(results)[best].score_text
                            + " too low for '"@ + artist_and_title(g.track) + "'"@,
                    },
                    EffectText::ReleasePermit,
                ],
                action: ActionText::Finish,
            },
        ),
{
    lemma_step_after(g, 5, ReplyText::Results(results));
    let other = GoodImport { results, best, ..g };
    if all_numbers(merged(results)) && is_first_greatest(merged(results), best) {
        lemma_best_leads(other);
    }
}

/// Where no download is queued without an error, those with one are reported, if there are any, then
/// the failure of them all, and the import ends; the permit is given back first.
pub proof fn law_refused_downloads_are_reported<I>(g: GoodImport<I>, queued: Seq<QueuedText>)
    requires
        goes_well(g),
        without_error(queued).len() == 0,
    ensures
        ({
            let other = GoodImport { queued, ..g };
            step_after(g, 8, ReplyText::Queued(Ok(queued))) == Some(
                StepText::<I> {
                    effects: queueing_reports(other) + seq![
                        EffectText::Failed {
                            batch_id: g.batch_id,
                            error: "All downloads failed to queue"@,
                        },
                    ],
                    action: ActionText::Finish,
                },
            )
        }),
{
    let other = GoodImport { queued, ..g };
    let reply = ReplyText::<I>::Queued(Ok(queued));
    lemma_step_after(g, 8, reply);
    lemma_queueing(other);
    let step = (track_next(good_model(g, 8), reply)->0).1;
    assert(step.effects =~= queueing_reports(other) + seq![
        EffectText::Failed { batch_id: g.batch_id, error: "All downloads failed to queue"@ },
    ]);
}

/// Groups that were found are only ever turned down for a score that is a number below the lowest
/// accepted; an import that does not turn them down goes on to download.
pub proof fn law_only_low_scores_are_turned_down<I>(
    g: GoodImport<I>,
    results: Seq<Seq<GroupText<I>>>,
)
    requires
        goes_well(g),
        merged(results).len() > 0,
    ensures
        ({
            let step = step_after(g, 5, ReplyText::Results(results))->0;
            &&& step_after(g, 5, ReplyText::Results(results)) is Some
            &&& step.action is Finish || step.action is CreateFolder
            &&& step.effects[0] is ScoringResults
            &&& step.action is Finish <==> is_number(step.effects[0]->best_score) && score_value(
                step.effects[0]->best_score,
            ) < score_value(MIN_SCORE_BITS)
        }),
{
    lemma_step_after(g, 5, ReplyText::Results(results));
    let best = merged(results)[leader(scores_of(merged(results)))];
    law_scores_compare_as_numbers(best.score, best.score);
}

/// What is stated of a search, of a download and of its progress holds of their fields.
pub proof fn law_views_of_downloads_are_faithful(
    search: SearchTrack,
    queued: QueuedDownload,
    entry: ProgressEntry,
)
    ensures
        search@.id == search.id@,
        search@.title == search.title@,
        search@.artist == search.artist@,
        search@.album_title == opt_text(search.album_title),
        queued@.id == queued.id@,
        queued@.source == queued.source@,
        queued@.item == queued.item@,
        queued@.size == queued.size,
        queued@.error == opt_text(queued.error),
        entry@.id == entry.id@,
        entry@.source == entry.source@,
        entry@.item == entry.item@,
        entry@.batch_id == entry.batch_id@,
        entry@.batch_label == entry.batch_label@,
        match entry.state {
            ProgressState::Failed { error } => entry@.state is Failed && entry@.state->error == error@,
            ProgressState::Queued { size } => entry@.state is Queued && entry@.state->size == size,
        },
{
}

/// What is stated of a step holds of its effects, one by one, and of its action.
pub proof fn law_views_of_steps_are_faithful<I>(step: TrackStep<I>, effect: TrackEffect)
    ensures
        step@.effects.len() == step.effects@.len(),
        forall|i: int|
            0 <= i < step.effects@.len() ==> #[trigger] step@.effects[i] == step.effects@[i]@,
        step@.action == step.action@,
        match effect {
            TrackEffect::Searching { batch_id, query, backend_count } => effect@
                == (EffectText::Searching {
                batch_id: batch_id@,
                query: query@,
                backend_count: backend_count as nat,
            }),
            TrackEffect::Failed { batch_id, error } => effect@ == (EffectText::Failed {
                batch_id: batch_id@,
                error: error@,
            }),
            TrackEffect::ScoringResults { batch_id, result_count, best_score } => effect@
                == (EffectText::ScoringResults {
                batch_id: batch_id@,
                result_count: result_count as nat,
                best_score,
            }),
            TrackEffect::PickedSource { batch_id, source, score, quality, track_count } => effect@
                == (EffectText::PickedSource {
                batch_id: batch_id@,
                source: source@,
                score,
                quality: quality@,
                track_count: track_count as nat,
            }),
            TrackEffect::Downloading { batch_id } => effect@ == (EffectText::Downloading {
                batch_id: batch_id@,
            }),
            TrackEffect::Progress { entries } => {
                &&& effect@ is Progress
                &&& effect@->entries.len() == entries@.len()
                &&& forall|i: int|
                    0 <= i < entries@.len() ==> #[trigger] effect@->entries[i] == entries@[i]@
            },
            TrackEffect::ReleasePermit => effect@ is ReleasePermit,
        },
{
}

/// What is stated of an action and of a reply holds of what they carry.
pub proof fn law_views_of_actions_are_faithful<I>(action: TrackAction<I>, reply: TrackReply<I>)
    ensures
        match action {
            TrackAction::CheckCancelled => action@ is CheckCancelled,
            TrackAction::EnsurePlaylist { name } => action@ is EnsurePlaylist && action@->name
                == name@,
            TrackAction::AcquirePermit => action@ is AcquirePermit,
            TrackAction::ProbeBackends => action@ is ProbeBackends,
            TrackAction::Search { track } => action@ is Search && action@->track == track@,
            TrackAction::CreateFolder => action@ is CreateFolder,
            TrackAction::OpenBackend => action@ is OpenBackend,
            TrackAction::Download { items } => action@ is Download && action@->Download_items
                == items@,
            TrackAction::Monitor { sources, filenames, batch_id, batch_label } => action@
                == (ActionText::<I>::Monitor {
                sources: texts(sources@),
                filenames: texts(filenames@),
                batch_id: batch_id@,
                batch_label: batch_label@,
            }),
            TrackAction::Settle { delay_ms } => action@ is Settle && action@->delay_ms == delay_ms,
            TrackAction::FindSong => action@ is FindSong,
            TrackAction::UpdatePlaylist { playlist_id, song_ids } => action@
                == (ActionText::<I>::UpdatePlaylist {
                playlist_id: playlist_id@,
                song_ids: texts(song_ids@),
            }),
            TrackAction::Finish => action@ is Finish,
        },
        match reply {
            TrackReply::Cancelled(c) => reply@ == ReplyText::<I>::Cancelled(c),
            TrackReply::Playlist(id) => reply@ == ReplyText::<I>::Playlist(opt_text(id)),
            TrackReply::Permit(granted) => reply@ == ReplyText::<I>::Permit(granted),
            TrackReply::Backends(n) => reply@ == ReplyText::<I>::Backends(n as nat),
            TrackReply::Results(results) => reply@ == ReplyText::Results(result_texts(results@)),
            TrackReply::Folder(created) => reply@ is Folder && (reply@->Folder_0 is Ok <==> created
                is Ok) && (created is Err ==> reply@->Folder_0->Err_0 == (created->Err_0)@),
            TrackReply::Backend(opened) => reply@ is Backend && (reply@->Backend_0 is Ok <==> opened
                is Ok) && (opened is Err ==> reply@->Backend_0->Err_0 == (opened->Err_0)@),
            TrackReply::Queued(Err(e)) => reply@ is Queued && reply@->Queued_0 is Err
                && reply@->Queued_0->Err_0 == e@,
            TrackReply::Queued(Ok(queued)) => {
                &&& reply@ is Queued && reply@->Queued_0 is Ok
                &&& reply@->Queued_0->Ok_0.len() == queued@.len()
                &&& forall|i: int|
                    0 <= i < queued@.len() ==> #[trigger] (reply@->Queued_0->Ok_0)[i] == queued@[i]@
            },
            TrackReply::Monitored => reply@ is Monitored,
            TrackReply::Settled => reply@ is Settled,
            TrackReply::Song(id) => reply@ == ReplyText::<I>::Song(opt_text(id)),
            TrackReply::Updated => reply@ is Updated,
        },
{
}

} // verus!
