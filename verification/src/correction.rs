//! Detection of a single-word correction that the user made to pasted text.
//!
//! After a transcript is pasted, the focused field is polled; when the user
//! has replaced exactly one word, the (wrong, correct) pair is suggested as a
//! new dictionary entry.
use vstd::prelude::*;
use crate::text::{
    chars_eq, chars_of, eq_ignore_ascii_case, eq_ignore_ascii_case_spec, is_alphanumeric,
    is_whitespace_spec, lowercase_chars, slice_chars, split_whitespace, strip, strip_bounds,
    strip_end, strip_end_char, strip_start, string_of, alphanumeric_spec, lowercase_spec,
    trim, trim_chars, trim_spec, views_of, whitespace, words_spec, is_ascii_seq, ascii_lower_seq,
    ascii_lower_spec, lemma_ascii_closed, lemma_ascii_lower_idempotent, lemma_strip_ends,
    lemma_strip_kept,
};

verus! {

/// Delay before the focused field is first read after a paste.
pub const TRACKING_START_DELAY_MS: u64 = 250;

/// Delay between two reads of the focused field.
pub const TRACKING_POLL_INTERVAL_MS: u64 = 500;

/// Number of reads of the focused field before tracking gives up.
pub const TRACKING_MAX_POLLS: u32 = 10;

/// An entry of the user's correction dictionary.
pub struct CorrectionEntry {
    pub wrong: String,
    pub correct: String,
}

/// What one read of the focused field leads to.
pub enum PollOutcome {
    /// Keep polling.
    Wait,
    /// The user replaced exactly one word.
    Candidate { wrong: String, correct: String },
}

/// Characters that a word keeps at its edges: alphanumerics, `'` and `-`.
pub open spec fn kept_in_word(c: char) -> bool {
    alphanumeric_spec(c) || c == '\'' || c == '-'
}

pub open spec fn word_edge() -> spec_fn(char) -> bool {
    |c: char| !kept_in_word(c)
}

/// A word as observed: surrounding punctuation removed, then lower-cased.
pub open spec fn normalize_spec(word: Seq<char>) -> Seq<char> {
    lowercase_spec(strip(word, word_edge()))
}

/// The pairs of normalized words at the same position.
pub open spec fn normalized_pairs(a: Seq<Seq<char>>, b: Seq<Seq<char>>) -> Seq<
    (Seq<char>, Seq<char>),
> {
    Seq::new(a.len(), |i: int| (normalize_spec(a[i]), normalize_spec(b[i])))
}

/// A pair of normalized words that counts as a replacement.
pub open spec fn is_mismatch(p: (Seq<char>, Seq<char>)) -> bool {
    p.0.len() > 0 && p.1.len() > 0 && p.0 != p.1
}

pub open spec fn mismatches(a: Seq<Seq<char>>, b: Seq<Seq<char>>) -> Seq<(Seq<char>, Seq<char>)> {
    normalized_pairs(a, b).filter(|p: (Seq<char>, Seq<char>)| is_mismatch(p))
}

/// The replacement `(wrong, correct)` when `updated` has as many words as
/// `original`, at least one, and exactly one position where the normalized
/// words differ (both being non-empty).
pub open spec fn single_word_replacement(original: Seq<char>, updated: Seq<char>) -> Option<
    (Seq<char>, Seq<char>),
> {
    let ow = words_spec(original);
    let uw = words_spec(updated);
    if ow.len() != uw.len() || ow.len() == 0 {
        None
    } else {
        let m = mismatches(ow, uw);
        if m.len() != 1 {
            None
        } else {
            Some(m[0])
        }
    }
}

/// The text that correction tracking follows, if it runs at all.
pub open spec fn tracked_text_spec(auto_submit: bool, enabled: bool, pasted: Seq<char>) -> Option<
    Seq<char>,
> {
    if auto_submit || !enabled {
        None
    } else if trim_spec(pasted).len() == 0 {
        None
    } else {
        Some(trim_spec(pasted))
    }
}

/// A dictionary already holds the pair, up to ASCII case.
pub open spec fn dictionary_has(dict: Seq<(Seq<char>, Seq<char>)>, wrong: Seq<char>, correct: Seq<char>) -> bool {
    exists|i: int|
        0 <= i < dict.len() && eq_ignore_ascii_case_spec(#[trigger] dict[i].0, wrong)
            && eq_ignore_ascii_case_spec(dict[i].1, correct)
}

pub open spec fn dictionary_view(dict: Seq<CorrectionEntry>) -> Seq<(Seq<char>, Seq<char>)> {
    dict.map_values(|e: CorrectionEntry| (e.wrong@, e.correct@))
}

/// `word` with surrounding punctuation removed, lower-cased.
pub fn normalize_chars(word: &Vec<char>) -> (r: Vec<char>)
    ensures
        r@ == normalize_spec(word@),
{
    let mut flags: Vec<bool> = Vec::new();
    let mut k: usize = 0;
    while k < word.len()
        invariant
            k <= word.len(),
            flags.len() == k,
            forall|m: int| 0 <= m < k ==> flags[m] == !kept_in_word(#[trigger] word[m]),
        decreases word.len() - k,
    {
        let c = word[k];
        flags.push(!(is_alphanumeric(c) || c == '\'' || c == '-'));
        k = k + 1;
    }
    let (i, j) = strip_bounds(word, &flags, Ghost(word_edge()));
    let core = slice_chars(word, i, j);
    lowercase_chars(&core)
}

/// A word as observed in the field: surrounding punctuation other than `'`
/// and `-` removed, then lower-cased.
pub fn normalize_observed_word(word: &str) -> (r: String)
    ensures
        r@ == normalize_spec(word@),
{
    let v = chars_of(word);
    let n = normalize_chars(&v);
    string_of(&n)
}

/// The single word that differs between `original` and `updated`, as
/// `(wrong, correct)` in normalized form.
pub fn detect_single_word_replacement(original: &str, updated: &str) -> (r: Option<(String, String)>)
    ensures
        match r {
            None => single_word_replacement(original@, updated@) is None,
            Some((w, c)) => single_word_replacement(original@, updated@) == Some((w@, c@)),
        },
{
    let ov = chars_of(original);
    let uv = chars_of(updated);
    let ow = split_whitespace(&ov);
    let uw = split_whitespace(&uv);
    let ghost a = views_of(ow@);
    let ghost b = views_of(uw@);
    if ow.len() != uw.len() || ow.len() == 0 {
        return None;
    }
    let ghost pred = |p: (Seq<char>, Seq<char>)| is_mismatch(p);
    let mut found: Vec<(Vec<char>, Vec<char>)> = Vec::new();
    let mut i: usize = 0;
    while i < ow.len()
        invariant
            i <= ow.len() == uw.len(),
            a == views_of(ow@),
            b == views_of(uw@),
            pred == (|p: (Seq<char>, Seq<char>)| is_mismatch(p)),
            found@.map_values(|p: (Vec<char>, Vec<char>)| (p.0@, p.1@)) == normalized_pairs(
                a,
                b,
            ).take(i as int).filter(pred),
        decreases ow.len() - i,
    {
        let x = normalize_chars(&ow[i]);
        let y = normalize_chars(&uw[i]);
        let ghost pairs = normalized_pairs(a, b);
        let ghost before = found@;
        proof {
            reveal_with_fuel(Seq::<_>::filter, 1);
            assert(pairs.take(i + 1).drop_last() == pairs.take(i as int));
            assert(pairs[i as int] == (x@, y@));
        }
        if !(x.len() == 0 || y.len() == 0 || chars_eq(&x, &y)) {
            found.push((x, y));
            assert(found@.map_values(|p: (Vec<char>, Vec<char>)| (p.0@, p.1@)) == before.map_values(
                |p: (Vec<char>, Vec<char>)| (p.0@, p.1@),
            ).push(pairs[i as int]));
        }
        i = i + 1;
    }
    assert(normalized_pairs(a, b).take(ow.len() as int) == normalized_pairs(a, b));
    if found.len() != 1 {
        return None;
    }
    let (wrong, correct) = found.pop().unwrap();
    if chars_eq(&wrong, &correct) {
        return None;
    }
    Some((string_of(&wrong), string_of(&correct)))
}

pub open spec fn swap_pair(p: (Seq<char>, Seq<char>)) -> (Seq<char>, Seq<char>) {
    (p.1, p.0)
}

proof fn lemma_filter_mismatch_swap(x: Seq<(Seq<char>, Seq<char>)>)
    ensures
        x.map_values(|p: (Seq<char>, Seq<char>)| swap_pair(p)).filter(
            |p: (Seq<char>, Seq<char>)| is_mismatch(p),
        ) == x.filter(|p: (Seq<char>, Seq<char>)| is_mismatch(p)).map_values(
            |p: (Seq<char>, Seq<char>)| swap_pair(p),
        ),
    decreases x.len(),
{
    reveal_with_fuel(Seq::<_>::filter, 1);
    let sw = |p: (Seq<char>, Seq<char>)| swap_pair(p);
    let pred = |p: (Seq<char>, Seq<char>)| is_mismatch(p);
    if x.len() > 0 {
        lemma_filter_mismatch_swap(x.drop_last());
        assert(x.map_values(sw).drop_last() == x.drop_last().map_values(sw));
        assert(x.map_values(sw).last() == swap_pair(x.last()));
        assert(pred(swap_pair(x.last())) == pred(x.last()));
        if pred(x.last()) {
            assert(x.filter(pred) == x.drop_last().filter(pred).push(x.last()));
            assert(x.filter(pred).map_values(sw) == x.drop_last().filter(pred).map_values(sw).push(
                swap_pair(x.last()),
            ));
        }
    } else {
        assert(x.map_values(sw) == x);
    }
}

proof fn lemma_filter_no_mismatch(x: Seq<(Seq<char>, Seq<char>)>)
    requires
        forall|i: int| 0 <= i < x.len() ==> (#[trigger] x[i]).0 == x[i].1,
    ensures
        x.filter(|p: (Seq<char>, Seq<char>)| is_mismatch(p)).len() == 0,
    decreases x.len(),
{
    reveal_with_fuel(Seq::<_>::filter, 1);
    if x.len() > 0 {
        lemma_filter_no_mismatch(x.drop_last());
        assert(x.last() == x[x.len() - 1]);
    }
}

/// Exchanging the original and the updated text exchanges the roles of the
/// wrong and the correct word, and nothing else.
pub proof fn law_replacement_symmetric(original: Seq<char>, updated: Seq<char>)
    ensures
        match single_word_replacement(original, updated) {
            None => single_word_replacement(updated, original) is None,
            Some((w, c)) => single_word_replacement(updated, original) == Some((c, w)),
        },
{
    let ow = words_spec(original);
    let uw = words_spec(updated);
    if ow.len() == uw.len() && ow.len() != 0 {
        let x = normalized_pairs(ow, uw);
        let sw = |p: (Seq<char>, Seq<char>)| swap_pair(p);
        assert(normalized_pairs(uw, ow) == x.map_values(sw));
        lemma_filter_mismatch_swap(x);
        let m = mismatches(ow, uw);
        if m.len() == 1 {
            assert(mismatches(uw, ow)[0] == swap_pair(m[0]));
        }
    }
}

/// A text compared with itself shows no replacement.
pub proof fn law_no_replacement_without_edit(text: Seq<char>)
    ensures
        single_word_replacement(text, text) is None,
{
    let w = words_spec(text);
    lemma_filter_no_mismatch(normalized_pairs(w, w));
}

/// `strip_end(s, ' ')` of a trimmed string is the string itself.
proof fn lemma_trimmed_has_no_trailing_space(s: Seq<char>)
    ensures
        strip_end(trim_spec(s), |c: char| c == ' ') == trim_spec(s),
{
    let t = strip_start(s, whitespace());
    lemma_strip_end_last_kept(t, whitespace());
    let u = trim_spec(s);
    if u.len() > 0 {
        assert(!is_whitespace_spec(u.last()));
        assert(u.last() != ' ');
    }
}

/// After `strip_end`, the string is empty or ends with a kept character.
pub proof fn lemma_strip_end_last_kept(s: Seq<char>, drop: spec_fn(char) -> bool)
    ensures
        strip_end(s, drop).len() == 0 || !drop(strip_end(s, drop).last()),
    decreases s.len(),
{
    if s.len() > 0 && drop(s.last()) {
        lemma_strip_end_last_kept(s.drop_last(), drop);
    }
}

/// Whether the focused field shows the pasted transcript: equal after
/// trimming (a trailing space that some fields add is tolerated).
pub fn matches_pasted_snapshot(snapshot: &str, pasted_text: &str) -> (r: bool)
    ensures
        r == (trim_spec(snapshot@) == trim_spec(pasted_text@)),
{
    let s = trim_chars(&chars_of(snapshot));
    let p = trim_chars(&chars_of(pasted_text));
    if chars_eq(&s, &p) {
        return true;
    }
    let s2 = strip_end_char(&s, ' ');
    proof {
        lemma_trimmed_has_no_trailing_space(snapshot@);
    }
    chars_eq(&s2, &p)
}

/// The trimmed transcript to follow after a paste, or `None` when tracking
/// does not run: the paste was auto-submitted, tracking is switched off, or
/// the transcript is blank.
pub fn tracked_text(auto_submit: bool, tracking_enabled: bool, pasted_text: &str) -> (r: Option<
    String,
>)
    ensures
        match r {
            None => tracked_text_spec(auto_submit, tracking_enabled, pasted_text@) is None,
            Some(t) => tracked_text_spec(auto_submit, tracking_enabled, pasted_text@) == Some(t@),
        },
{
    if auto_submit || !tracking_enabled {
        return None;
    }
    let t = trim(pasted_text);
    if t.as_str().unicode_len() == 0 {
        return None;
    }
    Some(t)
}

/// The value read from the focused field: the trimmed output of a
/// successful read, unless it is empty.
pub fn focused_value_from_output(success: bool, output: &str) -> (r: Option<String>)
    ensures
        match r {
            None => !success || trim_spec(output@).len() == 0,
            Some(v) => success && trim_spec(output@).len() > 0 && v@ == trim_spec(output@),
        },
{
    if !success {
        return None;
    }
    let t = trim(output);
    if t.as_str().unicode_len() == 0 {
        None
    } else {
        Some(t)
    }
}

/// One read of the focused field: `current` is what was read (if anything);
/// `initial` is the value seen right after the paste.
pub fn evaluate_poll(initial: &str, pasted_text: &str, current: Option<String>) -> (r: PollOutcome)
    ensures
        match current {
            None => r is Wait,
            Some(v) => if trim_spec(v@) == trim_spec(initial@) {
                r is Wait
            } else {
                match single_word_replacement(pasted_text@, trim_spec(v@)) {
                    None => r is Wait,
                    Some((w, c)) => r matches PollOutcome::Candidate { wrong, correct } && wrong@
                        == w && correct@ == c,
                }
            },
        },
{
    match current {
        None => PollOutcome::Wait,
        Some(v) => {
            let cur = trim(v.as_str());
            let init = trim(initial);
            if chars_eq(&chars_of(cur.as_str()), &chars_of(init.as_str())) {
                return PollOutcome::Wait;
            }
            match detect_single_word_replacement(pasted_text, cur.as_str()) {
                None => PollOutcome::Wait,
                Some((wrong, correct)) => PollOutcome::Candidate { wrong, correct },
            }
        },
    }
}

/// Whether the dictionary already holds `(wrong, correct)`, up to ASCII case.
pub fn is_known_correction(dictionary: &Vec<CorrectionEntry>, wrong: &str, correct: &str) -> (r:
    bool)
    ensures
        r == dictionary_has(dictionary_view(dictionary@), wrong@, correct@),
{
    let w = chars_of(wrong);
    let c = chars_of(correct);
    let ghost d = dictionary_view(dictionary@);
    let mut i: usize = 0;
    while i < dictionary.len()
        invariant
            i <= dictionary.len(),
            d == dictionary_view(dictionary@),
            w@ == wrong@,
            c@ == correct@,
            forall|k: int|
                0 <= k < i ==> !(eq_ignore_ascii_case_spec(#[trigger] d[k].0, wrong@)
                    && eq_ignore_ascii_case_spec(d[k].1, correct@)),
        decreases dictionary.len() - i,
    {
        let e = &dictionary[i];
        if eq_ignore_ascii_case(&chars_of(e.wrong.as_str()), &w) && eq_ignore_ascii_case(
            &chars_of(e.correct.as_str()),
            &c,
        ) {
            assert(d[i as int] == (e.wrong@, e.correct@));
            assert(eq_ignore_ascii_case_spec(d[i as int].0, wrong@));
            return true;
        }
        assert(d[i as int] == (e.wrong@, e.correct@));
        i = i + 1;
    }
    false
}


/// Normalizing an ASCII word that is already normalized leaves it as it is:
/// normalizing twice gives what normalizing once gives.
pub proof fn law_normalize_idempotent_on_ascii(word: Seq<char>)
    requires
        is_ascii_seq(word),
    ensures
        normalize_spec(normalize_spec(word)) == normalize_spec(word),
{
    let e = word_edge();
    let t = strip(word, e);
    lemma_strip_ends(word, e);
    let (i, j) = choose|i: int, j: int|
        0 <= i <= j <= word.len() && #[trigger] word.subrange(i, j) == strip(word, e);
    lemma_ascii_closed(word, i, j);
    lemma_ascii_closed(t, 0, t.len() as int);
    let n = ascii_lower_seq(t);
    assert(normalize_spec(word) == n);
    if n.len() > 0 {
        assert(n[0] == ascii_lower_spec(t[0]));
        assert(n.last() == ascii_lower_spec(t.last()));
        assert((t[0] as u32) < 128);
        assert((t.last() as u32) < 128);
        assert(kept_in_word(t[0]));
        assert(kept_in_word(t.last()));
    }
    lemma_strip_kept(n, e);
    lemma_ascii_lower_idempotent(t);
}


/// What the caller of a `CorrectionTracker` does next.
pub enum TrackerAction {
    /// Wait `ms` milliseconds, read the focused field and hand what was read
    /// to `CorrectionTracker::on_read`.
    ReadAfter { ms: u64 },
    /// Read the user's correction dictionary and hand it to
    /// `CorrectionTracker::on_dictionary`.
    ReadDictionary,
    /// Suggest `(wrong, correct)` to the user; tracking is over.
    Suggest { wrong: String, correct: String },
    /// Tracking is over.
    Finish,
}

/// Where a tracking session stands.
pub enum TrackerPhase {
    /// Waiting for the first read of the field, right after the paste.
    Starting,
    /// Following the field; `initial` is its first value, `polls` the number
    /// of reads started since.
    Polling { initial: String, polls: u32 },
    /// A replacement was seen; the dictionary is being looked up.
    Checking { wrong: String, correct: String },
    /// Nothing more to do.
    Done,
}

/// One tracking session: the trimmed transcript that was pasted, the
/// session's number (a newer paste supersedes it), and its phase.
pub struct CorrectionTracker {
    pub session_id: u64,
    pub pasted: String,
    pub phase: TrackerPhase,
}

/// After a read that led nowhere: another read after the poll interval while
/// fewer than `TRACKING_MAX_POLLS` reads were started and no newer session
/// began, else the end of tracking.
pub open spec fn continues_polling(
    r: TrackerAction,
    phase: TrackerPhase,
    initial: Seq<char>,
    polls: u32,
    session_id: u64,
    latest_session_id: u64,
) -> bool {
    if polls < TRACKING_MAX_POLLS && latest_session_id == session_id {
        &&& r matches TrackerAction::ReadAfter { ms } && ms == TRACKING_POLL_INTERVAL_MS
        &&& phase matches TrackerPhase::Polling { initial: i, polls: p } && i@ == initial && p
            == polls + 1
    } else {
        r is Finish && phase is Done
    }
}

impl CorrectionTracker {
    /// A session for the trimmed transcript `pasted`: the field is first read
    /// after `TRACKING_START_DELAY_MS`.
    pub fn new(session_id: u64, pasted: String) -> (r: (CorrectionTracker, TrackerAction))
        ensures
            r.0.session_id == session_id,
            r.0.pasted@ == pasted@,
            r.0.phase is Starting,
            r.1 matches TrackerAction::ReadAfter { ms } && ms == TRACKING_START_DELAY_MS,
    {
        (
            CorrectionTracker { session_id, pasted, phase: TrackerPhase::Starting },
            TrackerAction::ReadAfter { ms: TRACKING_START_DELAY_MS },
        )
    }

    fn next_poll(&mut self, initial: String, polls: u32, latest_session_id: u64) -> (r:
        TrackerAction)
        ensures
            final(self).session_id == old(self).session_id,
            final(self).pasted@ == old(self).pasted@,
            continues_polling(
                r,
                final(self).phase,
                initial@,
                polls,
                old(self).session_id,
                latest_session_id,
            ),
    {
        if polls < TRACKING_MAX_POLLS && latest_session_id == self.session_id {
            self.phase = TrackerPhase::Polling { initial, polls: polls + 1 };
            TrackerAction::ReadAfter { ms: TRACKING_POLL_INTERVAL_MS }
        } else {
            self.phase = TrackerPhase::Done;
            TrackerAction::Finish
        }
    }

    /// What was read from the field (`None` when it could not be read), with
    /// the number of the newest session. The first read must show the pasted
    /// transcript, else tracking ends. A later read that shows exactly one
    /// replaced word leads to a dictionary lookup; any other read leads to
    /// the next one, unless the reads are used up or a newer session began.
    pub fn on_read(&mut self, value: Option<String>, latest_session_id: u64) -> (r: TrackerAction)
        ensures
            final(self).session_id == old(self).session_id,
            final(self).pasted@ == old(self).pasted@,
            match old(self).phase {
                TrackerPhase::Starting => match value {
                    Some(v) if trim_spec(v@) == trim_spec(old(self).pasted@) => continues_polling(
                        r,
                        final(self).phase,
                        v@,
                        0,
                        old(self).session_id,
                        latest_session_id,
                    ),
                    _ => r is Finish && final(self).phase is Done,
                },
                TrackerPhase::Polling { initial, polls } => match value {
                    Some(v) if trim_spec(v@) != trim_spec(initial@) && single_word_replacement(
                        old(self).pasted@,
                        trim_spec(v@),
                    ) is Some => {
                        let (w, c) = single_word_replacement(old(self).pasted@, trim_spec(v@))->0;
                        &&& r is ReadDictionary
                        &&& final(self).phase matches TrackerPhase::Checking { wrong, correct }
                            && wrong@ == w && correct@ == c
                    },
                    _ => continues_polling(
                        r,
                        final(self).phase,
                        initial@,
                        polls,
                        old(self).session_id,
                        latest_session_id,
                    ),
                },
                _ => r is Finish && final(self).phase is Done,
            },
    {
        let mut phase = TrackerPhase::Done;
        std::mem::swap(&mut phase, &mut self.phase);
        match phase {
            TrackerPhase::Starting => match value {
                Some(v) => {
                    if matches_pasted_snapshot(v.as_str(), self.pasted.as_str()) {
                        self.next_poll(v, 0, latest_session_id)
                    } else {
                        TrackerAction::Finish
                    }
                },
                None => TrackerAction::Finish,
            },
            TrackerPhase::Polling { initial, polls } => {
                match evaluate_poll(initial.as_str(), self.pasted.as_str(), value) {
                    PollOutcome::Wait => self.next_poll(initial, polls, latest_session_id),
                    PollOutcome::Candidate { wrong, correct } => {
                        self.phase = TrackerPhase::Checking { wrong, correct };
                        TrackerAction::ReadDictionary
                    },
                }
            },
            _ => TrackerAction::Finish,
        }
    }

    /// The user's dictionary, looked up for the replacement seen: a pair it
    /// already holds (up to ASCII case) is not suggested again. Either way
    /// tracking is over.
    pub fn on_dictionary(&mut self, dictionary: &Vec<CorrectionEntry>) -> (r: TrackerAction)
        ensures
            final(self).session_id == old(self).session_id,
            final(self).pasted@ == old(self).pasted@,
            final(self).phase is Done,
            match old(self).phase {
                TrackerPhase::Checking { wrong, correct } => if dictionary_has(
                    dictionary_view(dictionary@),
                    wrong@,
                    correct@,
                ) {
                    r is Finish
                } else {
                    r matches TrackerAction::Suggest { wrong: w, correct: c } && w@ == wrong@
                        && c@ == correct@
                },
                _ => r is Finish,
            },
    {
        let mut phase = TrackerPhase::Done;
        std::mem::swap(&mut phase, &mut self.phase);
        match phase {
            TrackerPhase::Checking { wrong, correct } => {
                if is_known_correction(dictionary, wrong.as_str(), correct.as_str()) {
                    TrackerAction::Finish
                } else {
                    TrackerAction::Suggest { wrong, correct }
                }
            },
            _ => TrackerAction::Finish,
        }
    }
}


/// A session reads the field at most `TRACKING_MAX_POLLS` times after its
/// first read, and ends at its next step once a newer session has begun.
pub proof fn law_tracking_is_bounded(
    r: TrackerAction,
    phase: TrackerPhase,
    initial: Seq<char>,
    polls: u32,
    session_id: u64,
    latest_session_id: u64,
)
    requires
        polls <= TRACKING_MAX_POLLS,
        continues_polling(r, phase, initial, polls, session_id, latest_session_id),
    ensures
        phase matches TrackerPhase::Polling { polls: p, .. } ==> p <= TRACKING_MAX_POLLS,
        polls == TRACKING_MAX_POLLS ==> r is Finish,
        latest_session_id != session_id ==> r is Finish,
{
}


/// A replacement is only ever reported between texts with the same, non-zero
/// number of words, and it is the pair of normalized words at one position:
/// both non-empty and different.
pub proof fn law_replacement_needs_aligned_words(original: Seq<char>, updated: Seq<char>)
    ensures
        words_spec(original).len() != words_spec(updated).len() ==> single_word_replacement(
            original,
            updated,
        ) is None,
        words_spec(original).len() == 0 ==> single_word_replacement(original, updated) is None,
        single_word_replacement(original, updated) matches Some((w, c)) ==> exists|i: int|
            0 <= i < words_spec(original).len() && i < words_spec(updated).len()
                && normalize_spec(#[trigger] words_spec(original)[i]) == w && normalize_spec(
                words_spec(updated)[i],
            ) == c && w.len() > 0 && c.len() > 0 && w != c,
{
    let ow = words_spec(original);
    let uw = words_spec(updated);
    if ow.len() == uw.len() && ow.len() != 0 {
        let pred = |p: (Seq<char>, Seq<char>)| is_mismatch(p);
        let x = normalized_pairs(ow, uw);
        let m = mismatches(ow, uw);
        if m.len() == 1 {
            x.filter_lemma(pred);
            assert(m.contains(m[0]));
            x.lemma_filter_contains_rev(pred, m[0]);
            let i = choose|i: int| 0 <= i < x.len() && x[i] == m[0];
            assert(pred(m[0]));
            assert(x[i] == (normalize_spec(ow[i]), normalize_spec(uw[i])));
        }
    }
}

} // verus!
