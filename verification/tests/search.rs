use csv_import::score::{place_of, score_greater, score_too_low, MIN_SCORE_BITS};
use csv_import::search::{
    best_group, merge_results, search_next, DownloadGroup, SearchAction, SearchEvent, SearchState,
};

const SCORES: [f64; 14] = [
    0.0,
    -0.0,
    0.49,
    0.489_999_999_999_999_94,
    0.48,
    0.7,
    1.0,
    -1.0,
    -0.3,
    f64::INFINITY,
    f64::NEG_INFINITY,
    f64::NAN,
    f64::MIN_POSITIVE,
    f64::MAX,
];

fn group(source: &str, score: f64) -> DownloadGroup<u32> {
    DownloadGroup {
        source: source.to_string(),
        score: score.to_bits(),
        score_text: format!("{:.2}", score),
        quality: "FLAC".to_string(),
        items: vec![1, 2],
    }
}

#[test]
fn scores_compare_as_numbers() {
    for a in SCORES {
        for b in SCORES {
            assert_eq!(score_greater(a.to_bits(), b.to_bits()), a > b, "{} {}", a, b);
        }
    }
}

#[test]
fn what_is_not_a_number_has_no_place() {
    assert_eq!(place_of(f64::NAN.to_bits()), None);
    assert_eq!(place_of((-f64::NAN).to_bits()), None);
    assert_eq!(place_of((-0.0f64).to_bits()), Some(0));
    assert_eq!(place_of(0.0f64.to_bits()), Some(0));
    assert_eq!(place_of(f64::INFINITY.to_bits()), Some(0x7ff0_0000_0000_0000));
}

#[test]
fn the_threshold_is_lowered() {
    let threshold: f64 = 0.7;
    assert_eq!(MIN_SCORE_BITS, (threshold * 0.7).to_bits());
    for score in SCORES {
        assert_eq!(score_too_low(score.to_bits()), score < threshold * 0.7, "{}", score);
    }
}

#[test]
fn the_best_group_is_the_first_of_the_highest() {
    let best = |scores: &[f64]| {
        let groups: Vec<_> = scores.iter().map(|s| group("x", *s)).collect();
        best_group(&groups)
    };
    assert_eq!(best(&[0.1]), 0);
    assert_eq!(best(&[0.1, 0.9, 0.5]), 1);
    assert_eq!(best(&[0.9, 0.5, 0.9]), 0);
    assert_eq!(best(&[-1.0, -0.5, 0.0, -0.0]), 2);
    assert_eq!(best(&[f64::NAN]), 0);
    for scores in [vec![0.3, 0.8, 0.8, 0.2], vec![1.0, 1.0], vec![0.0, 0.5, 0.25, 0.75]] {
        let mut sorted: Vec<(usize, f64)> = scores.iter().copied().enumerate().collect();
        sorted.sort_by(|a, b| b.1.partial_cmp(&a.1).unwrap_or(std::cmp::Ordering::Equal));
        assert_eq!(best(&scores), sorted[0].0);
    }
}

#[test]
fn results_are_merged_backend_by_backend() {
    let merged = merge_results(vec![
        vec![group("a", 0.1), group("b", 0.2)],
        vec![],
        vec![group("c", 0.3)],
    ]);
    let sources: Vec<&str> = merged.iter().map(|g| g.source.as_str()).collect();
    assert_eq!(sources, vec!["a", "b", "c"]);
    assert!(merge_results::<u32>(vec![]).is_empty());
}

fn finished(action: SearchAction<u32>) -> Option<usize> {
    match action {
        SearchAction::Finish { groups } => Some(groups.len()),
        _ => None,
    }
}

#[test]
fn a_search_that_does_not_start_finds_nothing() {
    assert_eq!(finished(search_next(SearchEvent::Started(false))), Some(0));
    assert!(matches!(
        search_next::<u32>(SearchEvent::Started(true)),
        SearchAction::ReadClock
    ));
}

#[test]
fn a_search_is_given_up_after_two_minutes() {
    assert!(matches!(
        search_next::<u32>(SearchEvent::Elapsed(119_999)),
        SearchAction::PauseAndPoll { delay_ms: 2_000 }
    ));
    assert_eq!(finished(search_next(SearchEvent::Elapsed(120_000))), Some(0));
}

#[test]
fn a_poll_decides_by_the_state() {
    let polled = |state| search_next(SearchEvent::Polled(Some((state, vec![group("a", 0.5)]))));
    assert_eq!(finished(polled(SearchState::Completed)), Some(1));
    assert_eq!(finished(polled(SearchState::TimedOut)), Some(1));
    assert_eq!(finished(polled(SearchState::NotFound)), Some(0));
    assert!(matches!(polled(SearchState::InProgress), SearchAction::ReadClock));
    assert_eq!(finished(search_next(SearchEvent::Polled(None))), Some(0));
}

#[test]
fn a_search_is_polled_at_most_sixty_times() {
    let mut polls = 0u64;
    while let SearchAction::PauseAndPoll { delay_ms } =
        search_next::<u32>(SearchEvent::Elapsed(polls * 2_000))
    {
        assert_eq!(delay_ms, 2_000);
        polls += 1;
    }
    assert_eq!(polls, 60);
}
