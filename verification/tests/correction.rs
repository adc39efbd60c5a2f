use handy::correction::{
    detect_single_word_replacement, evaluate_poll, focused_value_from_output, is_known_correction,
    matches_pasted_snapshot, normalize_observed_word, tracked_text, CorrectionEntry,
    CorrectionTracker, PollOutcome, TrackerAction, TrackerPhase, TRACKING_MAX_POLLS,
    TRACKING_POLL_INTERVAL_MS, TRACKING_START_DELAY_MS,
};

fn pair(a: &str, b: &str) -> Option<(String, String)> {
    Some((a.to_string(), b.to_string()))
}

#[test]
fn normalizes_surrounding_punctuation_and_case() {
    assert_eq!(normalize_observed_word("\"Hello,\""), "hello");
    assert_eq!(normalize_observed_word("(don't)"), "don't");
    assert_eq!(normalize_observed_word("-well-known-!"), "-well-known-");
    assert_eq!(normalize_observed_word("...?"), "");
    assert_eq!(normalize_observed_word("ПРИВЕТ!"), "привет");
    assert_eq!(normalize_observed_word("\u{39f}\u{394}\u{39f}\u{3a3}"), "\u{3bf}\u{3b4}\u{3bf}\u{3c2}");
}

#[test]
fn detects_a_single_replaced_word() {
    assert_eq!(
        detect_single_word_replacement("I love rust code", "I love Rust coal"),
        pair("code", "coal")
    );
    assert_eq!(
        detect_single_word_replacement("meet at the cafe", "meet  at the café."),
        pair("cafe", "café")
    );
}

#[test]
fn rejects_other_edits() {
    // Two words changed.
    assert_eq!(detect_single_word_replacement("a b c", "x y c"), None);
    // Word count changed.
    assert_eq!(detect_single_word_replacement("a b c", "a b"), None);
    // Only case or punctuation changed.
    assert_eq!(detect_single_word_replacement("Hello world", "hello, World!"), None);
    // Nothing to compare.
    assert_eq!(detect_single_word_replacement("", ""), None);
    assert_eq!(detect_single_word_replacement("   ", " \t "), None);
    // A word that normalizes to nothing does not count.
    assert_eq!(detect_single_word_replacement("a b", "a ?"), None);
}

#[test]
fn replacement_is_symmetric_and_needs_an_edit() {
    assert_eq!(
        detect_single_word_replacement("I love Rust coal", "I love rust code"),
        pair("coal", "code")
    );
    assert_eq!(detect_single_word_replacement("same words here", "same words here"), None);
}

#[test]
fn snapshot_matches_after_trimming() {
    assert!(matches_pasted_snapshot("  hello world \n", "hello world"));
    assert!(matches_pasted_snapshot("hello world ", "hello world"));
    assert!(!matches_pasted_snapshot("hello  world", "hello world"));
    assert!(matches_pasted_snapshot("", "   "));
}

#[test]
fn tracking_runs_only_when_enabled_for_real_text() {
    assert_eq!(tracked_text(false, true, "  hi there "), Some("hi there".to_string()));
    assert_eq!(tracked_text(true, true, "hi"), None);
    assert_eq!(tracked_text(false, false, "hi"), None);
    assert_eq!(tracked_text(false, true, " \n "), None);
}

#[test]
fn focused_value_is_trimmed_output() {
    assert_eq!(focused_value_from_output(true, " text \n"), Some("text".to_string()));
    assert_eq!(focused_value_from_output(true, "  \n"), None);
    assert_eq!(focused_value_from_output(false, "text"), None);
}

#[test]
fn polls_wait_until_one_word_changes() {
    let pasted = "send the report today";
    let initial = "send the report today ";
    assert!(matches!(evaluate_poll(initial, pasted, None), PollOutcome::Wait));
    assert!(matches!(
        evaluate_poll(initial, pasted, Some("send the report today".to_string())),
        PollOutcome::Wait
    ));
    assert!(matches!(
        evaluate_poll(initial, pasted, Some("send a new report today".to_string())),
        PollOutcome::Wait
    ));
    match evaluate_poll(initial, pasted, Some(" send the report tomorrow".to_string())) {
        PollOutcome::Candidate { wrong, correct } => {
            assert_eq!(wrong, "today");
            assert_eq!(correct, "tomorrow");
        }
        PollOutcome::Wait => panic!("expected a candidate"),
    }
}

#[test]
fn known_corrections_match_ignoring_ascii_case() {
    let dict = vec![
        CorrectionEntry { wrong: "Teh".to_string(), correct: "The".to_string() },
        CorrectionEntry { wrong: "recieve".to_string(), correct: "receive".to_string() },
    ];
    assert!(is_known_correction(&dict, "teh", "the"));
    assert!(is_known_correction(&dict, "RECIEVE", "Receive"));
    assert!(!is_known_correction(&dict, "teh", "then"));
    assert!(!is_known_correction(&Vec::new(), "teh", "the"));
}

#[test]
fn normalizing_ascii_twice_changes_nothing_more() {
    assert_eq!(normalize_observed_word("Jon."), "jon");
    for w in ["'Twas,", "...", "(Don't)", "-Well-Known-!", "ABC123?", "x"] {
        let once = normalize_observed_word(w);
        assert_eq!(normalize_observed_word(&once), once);
    }
    assert_eq!(normalize_observed_word("'Twas,"), "'twas");
    assert_eq!(normalize_observed_word("..."), "");
    // Off ASCII, lower-casing may expose new edges: U+0130 lowers to "i\u{307}".
    assert_eq!(normalize_observed_word("\u{130}"), "i\u{307}");
}

fn read_after(a: &TrackerAction) -> Option<u64> {
    match a {
        TrackerAction::ReadAfter { ms } => Some(*ms),
        _ => None,
    }
}

#[test]
fn tracker_suggests_a_new_correction() {
    let (mut t, a) = CorrectionTracker::new(7, "send the report today".to_string());
    assert_eq!(read_after(&a), Some(TRACKING_START_DELAY_MS));
    let a = t.on_read(Some("send the report today ".to_string()), 7);
    assert_eq!(read_after(&a), Some(TRACKING_POLL_INTERVAL_MS));
    assert!(matches!(t.phase, TrackerPhase::Polling { polls: 1, .. }));
    let a = t.on_read(None, 7);
    assert_eq!(read_after(&a), Some(TRACKING_POLL_INTERVAL_MS));
    let a = t.on_read(Some("send the report tomorrow".to_string()), 7);
    assert!(matches!(a, TrackerAction::ReadDictionary));
    let dict = vec![CorrectionEntry { wrong: "teh".to_string(), correct: "the".to_string() }];
    match t.on_dictionary(&dict) {
        TrackerAction::Suggest { wrong, correct } => {
            assert_eq!(wrong, "today");
            assert_eq!(correct, "tomorrow");
        }
        _ => panic!("expected a suggestion"),
    }
    assert!(matches!(t.phase, TrackerPhase::Done));
}

#[test]
fn tracker_stays_silent_on_known_corrections() {
    let (mut t, _) = CorrectionTracker::new(1, "teh end".to_string());
    t.on_read(Some("teh end".to_string()), 1);
    assert!(matches!(t.on_read(Some("The end".to_string()), 1), TrackerAction::ReadDictionary));
    let dict = vec![CorrectionEntry { wrong: "TEH".to_string(), correct: "the".to_string() }];
    assert!(matches!(t.on_dictionary(&dict), TrackerAction::Finish));
}

#[test]
fn tracker_stops_early() {
    // The field does not show the transcript.
    let (mut t, _) = CorrectionTracker::new(1, "hello there".to_string());
    assert!(matches!(t.on_read(Some("something else".to_string()), 1), TrackerAction::Finish));
    // The field cannot be read.
    let (mut t, _) = CorrectionTracker::new(1, "hello there".to_string());
    assert!(matches!(t.on_read(None, 1), TrackerAction::Finish));
    // A newer paste supersedes the session.
    let (mut t, _) = CorrectionTracker::new(1, "hello there".to_string());
    assert!(matches!(t.on_read(Some("hello there".to_string()), 2), TrackerAction::Finish));
    // Reads are used up.
    let (mut t, _) = CorrectionTracker::new(3, "hello there".to_string());
    let mut a = t.on_read(Some("hello there".to_string()), 3);
    let mut reads = 0;
    while read_after(&a).is_some() {
        reads += 1;
        a = t.on_read(Some("hello there".to_string()), 3);
    }
    assert_eq!(reads, TRACKING_MAX_POLLS);
    assert!(matches!(a, TrackerAction::Finish));
    assert!(matches!(t.on_read(Some("hello world".to_string()), 3), TrackerAction::Finish));
}
