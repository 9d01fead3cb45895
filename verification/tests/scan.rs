use csv_import::scan::{trigger_scan_if_needed, ScanAction, ScanEvent, ScanOutcome};

#[test]
fn no_scan_without_a_server() {
    let event = ScanEvent::Wanted { server_available: false, since_last_ms: None };
    assert_eq!(trigger_scan_if_needed(event), ScanAction::Finish(ScanOutcome::NotTriggered));
}

#[test]
fn the_cooldown_is_respected() {
    let wanted = |ms| ScanEvent::Wanted { server_available: true, since_last_ms: ms };
    assert_eq!(trigger_scan_if_needed(wanted(None)), ScanAction::Start);
    assert_eq!(
        trigger_scan_if_needed(wanted(Some(29_999))),
        ScanAction::Finish(ScanOutcome::NotTriggered)
    );
    assert_eq!(trigger_scan_if_needed(wanted(Some(30_000))), ScanAction::Start);
}

#[test]
fn a_scan_that_does_not_start_is_not_waited_for() {
    assert_eq!(
        trigger_scan_if_needed(ScanEvent::Started(false)),
        ScanAction::Finish(ScanOutcome::NotTriggered)
    );
    assert_eq!(
        trigger_scan_if_needed(ScanEvent::Started(true)),
        ScanAction::RecordAndPoll { delay_ms: 3_000 }
    );
}

#[test]
fn a_running_scan_is_polled_until_the_time_is_up() {
    let polled = |scanning, elapsed_ms| ScanEvent::Polled { scanning, elapsed_ms };
    assert_eq!(
        trigger_scan_if_needed(polled(Some(true), 119_999)),
        ScanAction::PauseAndPoll { delay_ms: 3_000 }
    );
    assert_eq!(
        trigger_scan_if_needed(polled(Some(true), 120_000)),
        ScanAction::Finish(ScanOutcome::Unconfirmed)
    );
    assert_eq!(
        trigger_scan_if_needed(polled(Some(false), 0)),
        ScanAction::Finish(ScanOutcome::Completed)
    );
    assert_eq!(
        trigger_scan_if_needed(polled(None, 0)),
        ScanAction::Finish(ScanOutcome::Unconfirmed)
    );
}

#[test]
fn only_a_completed_scan_counts_as_one() {
    assert!(ScanOutcome::Completed.triggered_and_completed());
    assert!(!ScanOutcome::Unconfirmed.triggered_and_completed());
    assert!(!ScanOutcome::NotTriggered.triggered_and_completed());
}

#[test]
fn a_scan_is_polled_at_most_forty_times() {
    let mut polls = 0u64;
    loop {
        polls += 1;
        let event = ScanEvent::Polled { scanning: Some(true), elapsed_ms: polls * 3_000 };
        if matches!(trigger_scan_if_needed(event), ScanAction::Finish(_)) {
            break;
        }
    }
    assert_eq!(polls, 40);
}

#[test]
fn scans_keep_their_distance() {
    let mut last: Option<u64> = None;
    let mut times = Vec::new();
    for now in [0u64, 10_000, 29_999, 30_500, 45_000, 60_499, 60_500, 200_000] {
        let since_last_ms = last.map(|t| now - t);
        let event = ScanEvent::Wanted { server_available: true, since_last_ms };
        if trigger_scan_if_needed(event) == ScanAction::Start {
            last = Some(now);
            times.push(now);
        }
    }
    assert_eq!(times, vec![0, 30_500, 60_500, 200_000]);
}
