//! Library scans of the music server: when one is triggered, and how long it is waited for.

use vstd::prelude::*;

verus! {

/// The least time between two scans.
pub const SCAN_COOLDOWN_MS: u64 = 30_000;

/// The pause before each look at a scan's status.
pub const SCAN_POLL_INTERVAL_MS: u64 = 3_000;

/// How long a scan is waited for.
pub const SCAN_TIMEOUT_MS: u64 = 120_000;

/// What came of a wish for a scan.
#[derive(Debug, Clone, Copy, PartialEq, Eq, Structural)]
pub enum ScanOutcome {
    /// No scan was triggered.
    NotTriggered,
    /// A scan was triggered and completed.
    Completed,
    /// A scan was triggered, but was not seen to complete: the time was up, or its status could
    /// not be had.
    Unconfirmed,
}

impl ScanOutcome {
    /// Whether a scan was triggered and completed.
    pub fn triggered_and_completed(&self) -> (r: bool)
        ensures
            r == (*self is Completed),
    {
        match self {
            ScanOutcome::Completed => true,
            _ => false,
        }
    }
}

/// What happened on the way to a scan.
#[derive(Debug, Clone, Copy, PartialEq, Eq, Structural)]
pub enum ScanEvent {
    /// A scan is wished for: whether there is a music server, and how long ago the last scan was
    /// triggered, if there was one.
    Wanted { server_available: bool, since_last_ms: Option<u64> },
    /// The server was asked to start a scan; whether it did.
    Started(bool),
    /// The server was asked whether the scan is running, which may have failed; how long ago it was
    /// started.
    Polled { scanning: Option<bool>, elapsed_ms: u64 },
}

/// What is to be done on the way to a scan.
#[derive(Debug, Clone, Copy, PartialEq, Eq, Structural)]
pub enum ScanAction {
    /// Ask the server to start a scan.
    Start,
    /// Note the time as that of the last scan, then wait and ask for the status.
    RecordAndPoll { delay_ms: u64 },
    /// Wait and ask for the status.
    PauseAndPoll { delay_ms: u64 },
    /// Nothing is left to do.
    Finish(ScanOutcome),
}

/// What is to be done after an event.
pub open spec fn scan_follow(event: ScanEvent) -> ScanAction {
    match event {
        ScanEvent::Wanted { server_available, since_last_ms } => if server_available && (
        since_last_ms matches Some(ms) ==> ms >= SCAN_COOLDOWN_MS) {
            ScanAction::Start
        } else {
            ScanAction::Finish(ScanOutcome::NotTriggered)
        },
        ScanEvent::Started(true) => ScanAction::RecordAndPoll { delay_ms: SCAN_POLL_INTERVAL_MS },
        ScanEvent::Started(false) => ScanAction::Finish(ScanOutcome::NotTriggered),
        ScanEvent::Polled { scanning: Some(true), elapsed_ms } => if elapsed_ms < SCAN_TIMEOUT_MS {
            ScanAction::PauseAndPoll { delay_ms: SCAN_POLL_INTERVAL_MS }
        } else {
            ScanAction::Finish(ScanOutcome::Unconfirmed)
        },
        ScanEvent::Polled { scanning: Some(false), elapsed_ms } => ScanAction::Finish(
            ScanOutcome::Completed,
        ),
        ScanEvent::Polled { scanning: None, elapsed_ms } => ScanAction::Finish(
            ScanOutcome::Unconfirmed,
        ),
    }
}

/// Triggers a library scan if enough time has passed since the last one, and waits for it for a
/// limited time: decides what is to be done after an event.
pub fn trigger_scan_if_needed(event: ScanEvent) -> (action: ScanAction)
    ensures
        action == scan_follow(event),
{
    match event {
        ScanEvent::Wanted { server_available, since_last_ms } => {
            if !server_available {
                return ScanAction::Finish(ScanOutcome::NotTriggered);
            }
            match since_last_ms {
                Some(ms) => {
                    if ms < SCAN_COOLDOWN_MS {
                        return ScanAction::Finish(ScanOutcome::NotTriggered);
                    }
                },
                None => {},
            }
            ScanAction::Start
        },
        ScanEvent::Started(started) => {
            if started {
                ScanAction::RecordAndPoll { delay_ms: SCAN_POLL_INTERVAL_MS }
            } else {
                ScanAction::Finish(ScanOutcome::NotTriggered)
            }
        },
        ScanEvent::Polled { scanning, elapsed_ms } => match scanning {
            Some(true) => {
                if elapsed_ms < SCAN_TIMEOUT_MS {
                    ScanAction::PauseAndPoll { delay_ms: SCAN_POLL_INTERVAL_MS }
                } else {
                    ScanAction::Finish(ScanOutcome::Unconfirmed)
                }
            },
            Some(false) => ScanAction::Finish(ScanOutcome::Completed),
            None => ScanAction::Finish(ScanOutcome::Unconfirmed),
        },
    }
}

/// A wish for a scan: whether there is a music server, when it is asked how long ago the last scan
/// was, whether the server starts one if it is asked to, and the time that is noted if it does.
pub struct ScanWish {
    pub server_available: bool,
    pub asked_ms: u64,
    pub starts: bool,
    pub noted_ms: u64,
}

/// The times that are noted for the scans that a series of wishes triggers.
pub open spec fn scan_times(wishes: Seq<ScanWish>) -> Seq<u64>
    decreases wishes.len(),
{
    if wishes.len() == 0 {
        seq![]
    } else {
        let before = scan_times(wishes.drop_last());
        let wish = wishes.last();
        let since_last_ms = if before.len() == 0 {
            None
        } else {
            Some((wish.asked_ms - before.last()) as u64)
        };
        let first = scan_follow(
            ScanEvent::Wanted { server_available: wish.server_available, since_last_ms },
        );
        if first is Start && scan_follow(ScanEvent::Started(wish.starts)) is RecordAndPoll {
            before.push(wish.noted_ms)
        } else {
            before
        }
    }
}

/// Whether wishes are dealt with one after the other.
pub open spec fn one_by_one(wishes: Seq<ScanWish>) -> bool {
    &&& forall|i: int|
        0 <= i < wishes.len() ==> (#[trigger] wishes[i]).asked_ms <= wishes[i].noted_ms
    &&& forall|i: int, j: int|
        0 <= i < j < wishes.len() ==> (#[trigger] wishes[i]).noted_ms <= (
        #[trigger] wishes[j]).asked_ms
}

/// Every noted time is that of some wish.
proof fn lemma_times_are_noted(wishes: Seq<ScanWish>)
    ensures
        forall|i: int|
            0 <= i < scan_times(wishes).len() ==> exists|k: int|
                0 <= k < wishes.len() && (#[trigger] wishes[k]).noted_ms == #[trigger] scan_times(
                    wishes,
                )[i],
    decreases wishes.len(),
{
    if wishes.len() > 0 {
        let front = wishes.drop_last();
        let before = scan_times(front);
        let all = scan_times(wishes);
        lemma_times_are_noted(front);
        assert forall|i: int| 0 <= i < all.len() implies exists|k: int|
            0 <= k < wishes.len() && (#[trigger] wishes[k]).noted_ms == #[trigger] all[i] by {
            if i < before.len() {
                assert(all[i] == before[i]);
                let k = choose|k: int|
                    0 <= k < front.len() && (#[trigger] front[k]).noted_ms == before[i];
                assert(wishes[k].noted_ms == all[i]);
            } else {
                assert(wishes[wishes.len() - 1].noted_ms == all[i]);
            }
        }
    }
}

/// The server is not flooded with scans: any two that are triggered are at least the cooldown
/// apart, however many wishes there are.
pub proof fn law_scans_keep_their_distance(wishes: Seq<ScanWish>)
    requires
        one_by_one(wishes),
    ensures
        forall|i: int, j: int|
            0 <= i < j < scan_times(wishes).len() ==> (#[trigger] scan_times(wishes)[j]) - (
            #[trigger] scan_times(wishes)[i]) >= SCAN_COOLDOWN_MS,
    decreases wishes.len(),
{
    if wishes.len() > 0 {
        let front = wishes.drop_last();
        let before = scan_times(front);
        let all = scan_times(wishes);
        assert(one_by_one(front)) by {
            assert forall|i: int| 0 <= i < front.len() implies (#[trigger] front[i]).asked_ms
                <= front[i].noted_ms by {
                assert(front[i] == wishes[i]);
            }
            assert forall|i: int, j: int| 0 <= i < j < front.len() implies (
            #[trigger] front[i]).noted_ms <= (#[trigger] front[j]).asked_ms by {
                assert(front[i] == wishes[i] && front[j] == wishes[j]);
            }
        }
        law_scans_keep_their_distance(front);
        lemma_times_are_noted(front);
        if all.len() > before.len() && before.len() > 0 {
            let last = before.len() - 1;
            let k = choose|k: int|
                0 <= k < front.len() && (#[trigger] front[k]).noted_ms == before[last];
            let wish = wishes[wishes.len() - 1];
            assert(wishes[k].noted_ms == before.last());
            assert(before.last() <= wish.asked_ms);
            assert(all[before.len() as int] - before[last] >= SCAN_COOLDOWN_MS);
        }
        assert forall|i: int, j: int| 0 <= i < j < all.len() implies (#[trigger] all[j]) - (
        #[trigger] all[i]) >= SCAN_COOLDOWN_MS by {
            assert(all[i] == before[i]);
            if j < before.len() {
                assert(all[j] == before[j]);
            } else if i < before.len() - 1 {
                assert(before[before.len() - 1] - before[i] >= SCAN_COOLDOWN_MS);
            }
        }
    }
}

/// Without a music server no scan is triggered.
pub proof fn law_no_scan_without_server(since_last_ms: Option<u64>)
    ensures
        scan_follow(ScanEvent::Wanted { server_available: false, since_last_ms })
            == ScanAction::Finish(ScanOutcome::NotTriggered),
{
}

/// A scan is polled at most forty times: each look comes after its pause, and the fortieth, which
/// comes when the time is up, is the last whatever it shows.
pub proof fn law_scan_polls_are_bounded(polls: nat, scanning: Option<bool>, elapsed_ms: u64)
    requires
        elapsed_ms >= polls * SCAN_POLL_INTERVAL_MS,
        scan_follow(ScanEvent::Polled { scanning, elapsed_ms }) !is Finish,
    ensures
        polls < 40,
{
}

/// A scan is started exactly if there is a music server and no scan was triggered before or the last
/// one was at least thirty seconds ago.
pub proof fn law_scan_is_started_when_due(server_available: bool, since_last_ms: Option<u64>)
    ensures
        scan_follow(ScanEvent::Wanted { server_available, since_last_ms }) is Start
            <==> server_available && (since_last_ms is None || since_last_ms->0 >= 30_000),
        scan_follow(ScanEvent::Wanted { server_available, since_last_ms }) !is Start ==> scan_follow(
            ScanEvent::Wanted { server_available, since_last_ms },
        ) == ScanAction::Finish(ScanOutcome::NotTriggered),
{
}

/// A scan that the server has started is waited for, in looks three seconds apart, exactly as long as
/// the server says that it is running and two minutes have not passed. It has completed exactly if
/// the server says that it is not running any more, however long it took; a failed look leaves that
/// open. One that the server did not start is not waited for.
pub proof fn law_started_scan_is_waited_for(scanning: Option<bool>, elapsed_ms: u64)
    ensures
        ({
            let next = scan_follow(ScanEvent::Polled { scanning, elapsed_ms });
            let completed = ScanAction::Finish(ScanOutcome::Completed);
            &&& scan_follow(ScanEvent::Started(true)) == (ScanAction::RecordAndPoll {
                delay_ms: 3_000,
            })
            &&& scan_follow(ScanEvent::Started(false)) == ScanAction::Finish(
                ScanOutcome::NotTriggered,
            )
            &&& next !is Finish <==> scanning == Some(true) && elapsed_ms < 120_000
            &&& next !is Finish ==> next == (ScanAction::PauseAndPoll { delay_ms: 3_000 })
            &&& next == completed <==> scanning == Some(false)
            &&& next is Finish && next != completed ==> next == ScanAction::Finish(
                ScanOutcome::Unconfirmed,
            )
        }),
{
}

} // verus!
