//! Searching the download backends: the polling of one search, and what the searches found.

use crate::score::{leader, score_greater};
use vstd::prelude::*;

verus! {

/// How long a search may take before it is given up.
pub const SEARCH_TIMEOUT_MS: u64 = 120_000;

/// The pause before each poll of a search.
pub const SEARCH_POLL_INTERVAL_MS: u64 = 2_000;

/// A group of downloadable items that a search found. What an item is, is the backend's matter.
#[derive(Debug, Clone, PartialEq, Eq)]
pub struct DownloadGroup<I> {
    pub source: String,
    /// The match score, as the bits of a 64-bit IEEE 754 number
    pub score: u64,
    /// The match score in two decimals, for messages
    pub score_text: String,
    pub quality: String,
    pub items: Vec<I>,
}

/// What a group says.
pub struct GroupText<I> {
    pub source: Seq<char>,
    pub score: u64,
    pub score_text: Seq<char>,
    pub quality: Seq<char>,
    pub items: Seq<I>,
}

impl<I> View for DownloadGroup<I> {
    type V = GroupText<I>;

    open spec fn view(&self) -> GroupText<I> {
        GroupText {
            source: self.source@,
            score: self.score,
            score_text: self.score_text@,
            quality: self.quality@,
            items: self.items@,
        }
    }
}

/// What a list of groups says.
pub open spec fn group_texts<I>(groups: Seq<DownloadGroup<I>>) -> Seq<GroupText<I>> {
    groups.map_values(|g: DownloadGroup<I>| g@)
}

/// What the lists of groups say, list by list.
pub open spec fn result_texts<I>(results: Seq<Vec<DownloadGroup<I>>>) -> Seq<Seq<GroupText<I>>> {
    results.map_values(|r: Vec<DownloadGroup<I>>| group_texts(r@))
}

/// The scores of a list of groups.
pub open spec fn scores_of<I>(groups: Seq<GroupText<I>>) -> Seq<u64> {
    groups.map_values(|g: GroupText<I>| g.score)
}

/// All groups of all lists, in order.
pub open spec fn merged<I>(results: Seq<Seq<GroupText<I>>>) -> Seq<GroupText<I>>
    decreases results.len(),
{
    if results.len() == 0 {
        seq![]
    } else {
        results.first() + merged(results.drop_first())
    }
}

/// Puts the groups that the backends found into one list, backend by backend.
pub fn merge_results<I>(results: Vec<Vec<DownloadGroup<I>>>) -> (all: Vec<DownloadGroup<I>>)
    ensures
        group_texts(all@) == merged(result_texts(results@)),
{
    let mut rest = results;
    let mut all: Vec<DownloadGroup<I>> = Vec::new();
    proof {
        assert(group_texts(all@) + merged(result_texts(rest@)) =~= merged(result_texts(results@)));
    }
    while rest.len() > 0
        invariant
            group_texts(all@) + merged(result_texts(rest@)) == merged(result_texts(results@)),
        decreases rest.len(),
    {
        let ghost all_before = all@;
        let ghost rest_before = rest@;
        let mut found = rest.remove(0);
        let ghost first = found@;
        all.append(&mut found);
        proof {
            assert(result_texts(rest_before).first() == group_texts(first));
            assert(result_texts(rest_before).drop_first() =~= result_texts(rest@));
            assert(group_texts(all@) =~= group_texts(all_before) + group_texts(first));
            assert(group_texts(all@) + merged(result_texts(rest@)) =~= group_texts(all_before)
                + merged(result_texts(rest_before)));
        }
    }
    proof {
        assert(group_texts(all@) + merged(result_texts(rest@)) =~= group_texts(all@));
    }
    all
}

/// The index of the group with the leading score.
pub fn best_group<I>(groups: &Vec<DownloadGroup<I>>) -> (best: usize)
    requires
        groups.len() > 0,
    ensures
        best == leader(scores_of(group_texts(groups@))),
        best < groups.len(),
{
    let mut best: usize = 0;
    let mut i: usize = 1;
    let ghost scores = scores_of(group_texts(groups@));
    while i < groups.len()
        invariant
            1 <= i <= groups.len(),
            scores == scores_of(group_texts(groups@)),
            best == leader(scores.take(i as int)),
            best < i,
        decreases groups.len() - i,
    {
        proof {
            assert(scores.take(i + 1).drop_last() =~= scores.take(i as int));
            assert(scores[i as int] == groups@[i as int].score);
            assert(scores[best as int] == groups@[best as int].score);
        }
        if score_greater(groups[i].score, groups[best].score) {
            best = i;
        }
        i += 1;
    }
    proof {
        assert(scores.take(i as int) =~= scores);
    }
    best
}

/// What a backend says of a search when it is polled.
#[derive(Debug, Clone, Copy, PartialEq, Eq, Structural)]
pub enum SearchState {
    Completed,
    TimedOut,
    NotFound,
    InProgress,
}

/// What happened in a search.
pub enum SearchEvent<I> {
    /// The backend was asked to start; whether it did.
    Started(bool),
    /// The clock was read; how long ago the search started.
    Elapsed(u64),
    /// The backend was polled; the state and the groups found so far, or nothing on an error.
    Polled(Option<(SearchState, Vec<DownloadGroup<I>>)>),
}

/// What is to be done next in a search.
pub enum SearchAction<I> {
    /// Read the clock.
    ReadClock,
    /// Wait, then poll the backend.
    PauseAndPoll { delay_ms: u64 },
    /// The search is over with these groups.
    Finish { groups: Vec<DownloadGroup<I>> },
}

/// Whether `action` is what is to be done after `event`: a search that did not start, took too
/// long, is unknown or failed is over with nothing, one that ended is over with what was found,
/// and one in progress is polled again.
pub open spec fn search_follows<I>(event: SearchEvent<I>, action: SearchAction<I>) -> bool {
    match event {
        SearchEvent::Started(true) => action is ReadClock,
        SearchEvent::Elapsed(ms) => if ms < SEARCH_TIMEOUT_MS {
            action == (SearchAction::<I>::PauseAndPoll { delay_ms: SEARCH_POLL_INTERVAL_MS })
        } else {
            action matches SearchAction::Finish { groups } && groups@.len() == 0
        },
        SearchEvent::Polled(Some((SearchState::InProgress, _))) => action is ReadClock,
        SearchEvent::Polled(Some((SearchState::Completed, found))) => action == (
        SearchAction::Finish { groups: found }),
        SearchEvent::Polled(Some((SearchState::TimedOut, found))) => action == (
        SearchAction::Finish { groups: found }),
        _ => action matches SearchAction::Finish { groups } && groups@.len() == 0,
    }
}

/// Decides what is to be done next in a search.
pub fn search_next<I>(event: SearchEvent<I>) -> (action: SearchAction<I>)
    ensures
        search_follows(event, action),
{
    match event {
        SearchEvent::Started(started) => {
            if started {
                SearchAction::ReadClock
            } else {
                SearchAction::Finish { groups: Vec::new() }
            }
        },
        SearchEvent::Elapsed(ms) => {
            if ms >= SEARCH_TIMEOUT_MS {
                SearchAction::Finish { groups: Vec::new() }
            } else {
                SearchAction::PauseAndPoll { delay_ms: SEARCH_POLL_INTERVAL_MS }
            }
        },
        SearchEvent::Polled(Some((state, found))) => match state {
            SearchState::Completed => SearchAction::Finish { groups: found },
            SearchState::TimedOut => SearchAction::Finish { groups: found },
            SearchState::NotFound => SearchAction::Finish { groups: Vec::new() },
            SearchState::InProgress => SearchAction::ReadClock,
        },
        SearchEvent::Polled(None) => SearchAction::Finish { groups: Vec::new() },
    }
}

/// The groups of a list of searches are those of each search, one after the other: the groups of two
/// lists of searches are those of the first and then those of the second, those of one search are
/// what it found, and without a search there are none.
pub proof fn law_all_groups_are_kept<I>(
    first: Seq<Seq<GroupText<I>>>,
    second: Seq<Seq<GroupText<I>>>,
    found: Seq<GroupText<I>>,
)
    ensures
        merged(first + second) == merged(first) + merged(second),
        merged(seq![found]) == found,
        merged(Seq::<Seq<GroupText<I>>>::empty()).len() == 0,
    decreases first.len(),
{
    reveal_with_fuel(merged, 2);
    assert(seq![found].drop_first() =~= Seq::empty());
    assert(merged(seq![found]) =~= found);
    if first.len() == 0 {
        assert(first + second =~= second);
        assert(merged(first + second) =~= merged(first) + merged(second));
    } else {
        law_all_groups_are_kept(first.drop_first(), second, found);
        assert((first + second).drop_first() =~= first.drop_first() + second);
        assert(merged(first + second) =~= merged(first) + merged(second));
    }
}

/// A search gives exactly what it found: once the backend says that it is over, completed or timed
/// out, the groups of that answer, all of them and in order. An unknown search, a failed poll and a
/// search that did not start give none.
pub proof fn law_search_gives_what_it_found<I>(event: SearchEvent<I>, action: SearchAction<I>)
    requires
        search_follows(event, action),
    ensures
        event matches SearchEvent::Polled(Some((state, found))) ==> {
            &&& state is Completed || state is TimedOut ==> (action matches SearchAction::Finish {
                groups,
            } && group_texts(groups@) == group_texts(found@))
            &&& state is NotFound ==> (action matches SearchAction::Finish { groups }
                && groups@.len() == 0)
        },
        event == SearchEvent::<I>::Polled(None) || event == SearchEvent::<I>::Started(false) ==> (
        action matches SearchAction::Finish { groups } && groups@.len() == 0),
{
}

/// A search goes on exactly as long as the backend says that it is in progress and the time is not
/// up: it looks at the clock once it has started and after each such answer, and then either waits
/// and polls or is over with nothing.
pub proof fn law_search_goes_on_while_in_progress<I>(event: SearchEvent<I>, action: SearchAction<I>)
    requires
        search_follows(event, action),
    ensures
        action is ReadClock <==> event == SearchEvent::<I>::Started(true) || (
        event matches SearchEvent::Polled(Some((state, found))) && state is InProgress),
        action is PauseAndPoll <==> (event matches SearchEvent::Elapsed(ms)
            && ms < SEARCH_TIMEOUT_MS),
        action is PauseAndPoll ==> action->delay_ms == SEARCH_POLL_INTERVAL_MS,
        event matches SearchEvent::Elapsed(ms) ==> (ms >= SEARCH_TIMEOUT_MS ==> (
        action matches SearchAction::Finish { groups } && groups@.len() == 0)),
{
}

/// A search is polled at most sixty times: each poll comes after its pause, so once sixty are done
/// the time is up, and the next look at the clock ends the search with nothing.
pub proof fn law_search_polls_are_bounded<I>(polls: nat, elapsed_ms: u64, action: SearchAction<I>)
    requires
        elapsed_ms >= polls * SEARCH_POLL_INTERVAL_MS,
        search_follows(SearchEvent::Elapsed(elapsed_ms), action),
        action is PauseAndPoll,
    ensures
        polls < 60,
{
}

/// What is stated of a group holds of its fields, and what is stated of lists of groups of each group
/// in its place.
pub proof fn law_views_of_groups_are_faithful<I>(
    group: DownloadGroup<I>,
    results: Seq<Vec<DownloadGroup<I>>>,
)
    ensures
        group@.source == group.source@,
        group@.score == group.score,
        group@.score_text == group.score_text@,
        group@.quality == group.quality@,
        group@.items == group.items@,
        scores_of(seq![group@])[0] == group.score,
        result_texts(results).len() == results.len(),
        forall|i: int|
            0 <= i < results.len() ==> (#[trigger] result_texts(results)[i]).len()
                == results[i]@.len(),
        forall|i: int, j: int|
            0 <= i < results.len() && 0 <= j < results[i]@.len() ==> #[trigger] result_texts(
                results,
            )[i][j] == results[i]@[j]@,
{
}

} // verus!
