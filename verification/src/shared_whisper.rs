//! The shared local whisper server: its fixed contract, the single-flight
//! bootstrap state, the status reported to the frontend, and where `npx` is
//! looked for.
//!
//! The server answers `GET {SHARED_WHISPER_SERVER_URL}/health` with a 2xx
//! status once it is ready; `npx -y shared-whisper-server ensure` installs
//! and starts it.
use vstd::prelude::*;
use crate::text::{lemma_char_code_injective, chars_eq, chars_of, strip_end, strip_end_char, string_of, trim, trim_spec};
use vstd::relations::{sorted_by, total_ordering};

verus! {

/// Id of the model that routes transcription to the shared server.
pub const SHARED_WHISPER_MODEL_ID: &'static str = "shared-whisper";

/// Fixed base URL of the shared server.
pub const SHARED_WHISPER_SERVER_URL: &'static str = "http://127.0.0.1:8737";

/// Timeout of a health check and of a warm-up request.
pub const HEALTH_CHECK_TIMEOUT_MS: u64 = 1500;

/// Name of the frontend event that carries a `SharedWhisperStatusInfo`.
pub const STATUS_EVENT: &'static str = "shared-whisper-status";

/// Name of the frontend event that announces that a model is ready.
pub const MODEL_READY_EVENT: &'static str = "model-download-complete";

/// Status of the shared whisper server.
#[derive(Debug, Clone, PartialEq, Eq)]
pub struct SharedWhisperStatusInfo {
    /// One of "ready", "installing", "uninstalled", "error".
    pub status: String,
    pub error: Option<String>,
}

/// The bootstrap bookkeeping shared by all callers: whether a bootstrap is
/// running, and the error of the last one that failed.
pub struct BootstrapState {
    in_flight: bool,
    last_error: Option<String>,
}

/// An event for the frontend.
pub enum BootstrapEvent {
    /// `STATUS_EVENT` with this status.
    Status(SharedWhisperStatusInfo),
    /// `MODEL_READY_EVENT` with this model id.
    ModelReady(String),
}

/// What `ensure_server_running` does after its health check.
pub struct EnsureOutcome {
    /// The status to emit, if any.
    pub status_event: Option<SharedWhisperStatusInfo>,
    /// Whether a background bootstrap is to be started.
    pub start_bootstrap: bool,
}

/// How a background bootstrap went.
pub enum BootstrapRun {
    /// The server answered its health check; nothing was run.
    AlreadyHealthy,
    /// No `npx` executable was found.
    NpxMissing,
    /// `npx -y shared-whisper-server ensure` exited successfully.
    Succeeded,
    /// It exited unsuccessfully with this status, writing this to stderr.
    Failed { exit_status: String, stderr: String },
    /// It could not be run.
    SpawnFailed { error: String },
}

pub open spec fn opt_view(o: Option<String>) -> Option<Seq<char>> {
    match o {
        Some(s) => Some(s@),
        None => None,
    }
}

/// A status as plain values.
pub open spec fn status_view(s: SharedWhisperStatusInfo) -> (Seq<char>, Option<Seq<char>>) {
    (s.status@, opt_view(s.error))
}

/// Bootstrap state as plain values: (in flight, last error).
pub closed spec fn state_view(s: BootstrapState) -> (bool, Option<Seq<char>>) {
    (s.in_flight, opt_view(s.last_error))
}

pub open spec fn ready() -> (Seq<char>, Option<Seq<char>>) {
    ("ready"@, None)
}

pub open spec fn installing() -> (Seq<char>, Option<Seq<char>>) {
    ("installing"@, None)
}

/// The status reported for a health-check result and a bootstrap state.
pub open spec fn status_spec(healthy: bool, st: (bool, Option<Seq<char>>)) -> (Seq<char>, Option<Seq<char>>) {
    if healthy {
        ready()
    } else if st.0 {
        installing()
    } else {
        match st.1 {
            Some(e) => ("error"@, Some(e)),
            None => ("uninstalled"@, None),
        }
    }
}

/// `ensure_server_running`: the status emitted, whether a bootstrap starts,
/// and the state afterwards.
pub open spec fn ensure_spec(st: (bool, Option<Seq<char>>), healthy: bool) -> (Option<(Seq<char>, Option<Seq<char>>)>, bool, (bool, Option<Seq<char>>)) {
    if healthy {
        (Some(ready()), false, st)
    } else if st.0 {
        (None, false, st)
    } else {
        (Some(installing()), true, (true, st.1))
    }
}

/// The message recorded when no `npx` was found.
pub open spec fn npx_missing_message() -> Seq<char> {
    "Shared whisper server is not running and npx was not found (checked PATH, /usr/local/bin, /opt/homebrew/bin, ~/.nvm/versions/node/*/bin). Install Node.js or start the server manually with `npx -y shared-whisper-server ensure`."@
}

/// A bootstrap run as plain values.
pub enum RunView {
    AlreadyHealthy,
    NpxMissing,
    Succeeded,
    Failed(Seq<char>, Seq<char>),
    SpawnFailed(Seq<char>),
}

pub open spec fn run_view(r: BootstrapRun) -> RunView {
    match r {
        BootstrapRun::AlreadyHealthy => RunView::AlreadyHealthy,
        BootstrapRun::NpxMissing => RunView::NpxMissing,
        BootstrapRun::Succeeded => RunView::Succeeded,
        BootstrapRun::Failed { exit_status, stderr } => RunView::Failed(exit_status@, stderr@),
        BootstrapRun::SpawnFailed { error } => RunView::SpawnFailed(error@),
    }
}

/// An event as plain values: a status, or a ready model id.
pub enum EventView {
    Status(Seq<char>, Option<Seq<char>>),
    ModelReady(Seq<char>),
}

pub open spec fn event_view(e: BootstrapEvent) -> EventView {
    match e {
        BootstrapEvent::Status(s) => EventView::Status(s.status@, opt_view(s.error)),
        BootstrapEvent::ModelReady(m) => EventView::ModelReady(m@),
    }
}

/// The error a failed run records.
pub open spec fn run_error(r: RunView) -> Option<Seq<char>> {
    match r {
        RunView::NpxMissing => Some(npx_missing_message()),
        RunView::Failed(status, stderr) => Some(
            "Shared whisper server bootstrap exited with "@ + status + ": "@ + trim_spec(stderr),
        ),
        RunView::SpawnFailed(e) => Some("Failed to run shared whisper server bootstrap: "@ + e),
        _ => None,
    }
}

/// The end of a background bootstrap: the events emitted and the state
/// afterwards. The bootstrap is no longer in flight; a failure is recorded,
/// a success clears the recorded error.
pub open spec fn finish_spec(st: (bool, Option<Seq<char>>), r: RunView) -> (Seq<EventView>, (bool, Option<Seq<char>>)) {
    match r {
        RunView::AlreadyHealthy => (seq![EventView::Status("ready"@, None)], (false, st.1)),
        RunView::Succeeded => (
            seq![EventView::Status("ready"@, None), EventView::ModelReady(SHARED_WHISPER_MODEL_ID@)],
            (false, None),
        ),
        _ => (
            seq![EventView::Status("error"@, run_error(r))],
            (false, run_error(r)),
        ),
    }
}

fn status(text: &str, error: Option<String>) -> (r: SharedWhisperStatusInfo)
    ensures
        status_view(r) == (text@, opt_view(error)),
{
    SharedWhisperStatusInfo { status: String::from_str(text), error }
}

impl BootstrapState {
    /// No bootstrap running, no error recorded.
    pub fn new() -> (r: BootstrapState)
        ensures
            state_view(r) == (false, None::<Seq<char>>),
    {
        BootstrapState { in_flight: false, last_error: None }
    }
}

/// Whether a background bootstrap is running.
pub fn is_bootstrap_in_flight(state: &BootstrapState) -> (r: bool)
    ensures
        r == state_view(*state).0,
{
    state.in_flight
}

/// The status of the shared server: ready when its health check passed,
/// else installing while a bootstrap runs, else the error of the last failed
/// bootstrap, else uninstalled.
pub fn get_status(healthy: bool, state: &BootstrapState) -> (r: SharedWhisperStatusInfo)
    ensures
        status_view(r) == status_spec(healthy, state_view(*state)),
{
    if healthy {
        status("ready", None)
    } else if state.in_flight {
        status("installing", None)
    } else {
        match &state.last_error {
            Some(e) => status("error", Some(e.clone())),
            None => status("uninstalled", None),
        }
    }
}

/// The verdict of a health check on the answer to `GET /health`: `status` is
/// the HTTP status code received, `None` when no answer came (no connection,
/// timeout). The server is healthy exactly on a 2xx status.
pub fn is_healthy_status(status: Option<u16>) -> (b: bool)
    ensures
        b == (status matches Some(s) && 200 <= s <= 299),
{
    match status {
        Some(s) => 200 <= s && s <= 299,
        None => false,
    }
}

/// The decision of `ensure_server_running` after its health check: report
/// ready when healthy; otherwise start a bootstrap unless one is already in
/// flight, marking it in flight.
pub fn begin_ensure(state: &mut BootstrapState, healthy: bool) -> (r: EnsureOutcome)
    ensures
        ({
            let (ev, start, st) = ensure_spec(state_view(*old(state)), healthy);
            &&& opt_status_view(r.status_event) == ev
            &&& r.start_bootstrap == start
            &&& state_view(*final(state)) == st
        }),
{
    if healthy {
        return EnsureOutcome { status_event: Some(status("ready", None)), start_bootstrap: false };
    }
    if state.in_flight {
        return EnsureOutcome { status_event: None, start_bootstrap: false };
    }
    state.in_flight = true;
    EnsureOutcome { status_event: Some(status("installing", None)), start_bootstrap: true }
}

pub open spec fn opt_status_view(o: Option<SharedWhisperStatusInfo>) -> Option<(Seq<char>, Option<Seq<char>>)> {
    match o {
        Some(s) => Some(status_view(s)),
        None => None,
    }
}

/// The end of a background bootstrap that stopped without an outcome (its
/// thread panicked): it is no longer in flight; the recorded error stays.
pub fn abandon_bootstrap(state: &mut BootstrapState)
    ensures
        state_view(*final(state)) == (false, state_view(*old(state)).1),
{
    state.in_flight = false;
}

fn concat3(a: &str, b: &str, c: &str) -> (r: String)
    ensures
        r@ == a@ + b@ + c@,
{
    let mut s = String::from_str(a);
    s.append(b);
    s.append(c);
    s
}

/// The end of a background bootstrap: records its outcome, clears the
/// in-flight mark, and lists the events for the frontend.
pub fn finish_bootstrap(state: &mut BootstrapState, run: BootstrapRun) -> (r: Vec<BootstrapEvent>)
    ensures
        ({
            let (evs, st) = finish_spec(state_view(*old(state)), run_view(run));
            &&& r@.map_values(|e: BootstrapEvent| event_view(e)) == evs
            &&& state_view(*final(state)) == st
        }),
{
    let ghost rv = run_view(run);
    state.in_flight = false;
    let mut events: Vec<BootstrapEvent> = Vec::new();
    match run {
        BootstrapRun::AlreadyHealthy => {
            events.push(BootstrapEvent::Status(status("ready", None)));
        },
        BootstrapRun::Succeeded => {
            state.last_error = None;
            events.push(BootstrapEvent::Status(status("ready", None)));
            events.push(BootstrapEvent::ModelReady(String::from_str(SHARED_WHISPER_MODEL_ID)));
        },
        BootstrapRun::NpxMissing => {
            let msg = String::from_str(
                "Shared whisper server is not running and npx was not found (checked PATH, /usr/local/bin, /opt/homebrew/bin, ~/.nvm/versions/node/*/bin). Install Node.js or start the server manually with `npx -y shared-whisper-server ensure`.",
            );
            state.last_error = Some(msg.clone());
            events.push(BootstrapEvent::Status(status("error", Some(msg))));
        },
        BootstrapRun::Failed { exit_status, stderr } => {
            let detail = trim(stderr.as_str());
            let mut msg = concat3(
                "Shared whisper server bootstrap exited with ",
                exit_status.as_str(),
                ": ",
            );
            msg.append(detail.as_str());
            state.last_error = Some(msg.clone());
            events.push(BootstrapEvent::Status(status("error", Some(msg))));
        },
        BootstrapRun::SpawnFailed { error } => {
            let mut msg = String::from_str("Failed to run shared whisper server bootstrap: ");
            msg.append(error.as_str());
            state.last_error = Some(msg.clone());
            events.push(BootstrapEvent::Status(status("error", Some(msg))));
        },
    }
    assert(events@.map_values(|e: BootstrapEvent| event_view(e)) == finish_spec(
        state_view(*old(state)),
        rv,
    ).0);
    events
}


// ---------------------------------------------------------------------------
// URLs
// ---------------------------------------------------------------------------

/// `{base_url}/health`, with trailing slashes of `base_url` dropped.
pub fn health_url(base_url: &str) -> (r: String)
    ensures
        r@ == strip_end(base_url@, |c: char| c == '/') + "/health"@,
{
    let base = strip_end_char(&chars_of(base_url), '/');
    let mut s = string_of(&base);
    s.append("/health");
    s
}

/// Whether `model_id` is the shared server's model, which is warmed up when
/// recording starts.
pub fn should_warm_up(model_id: &str) -> (r: bool)
    ensures
        r == (model_id@ == SHARED_WHISPER_MODEL_ID@),
{
    chars_eq(&chars_of(model_id), &chars_of(SHARED_WHISPER_MODEL_ID))
}

/// `{SHARED_WHISPER_SERVER_URL}/warmup`.
pub fn warmup_url() -> (r: String)
    ensures
        r@ == SHARED_WHISPER_SERVER_URL@ + "/warmup"@,
{
    let mut s = String::from_str(SHARED_WHISPER_SERVER_URL);
    s.append("/warmup");
    s
}

// ---------------------------------------------------------------------------
// Finding npx
// ---------------------------------------------------------------------------

/// Executable names of npx on a platform, in the order they are tried.
pub open spec fn npx_names_spec(windows: bool) -> Seq<Seq<char>> {
    if windows {
        seq!["npx.cmd"@, "npx.exe"@, "npx"@]
    } else {
        seq!["npx"@]
    }
}

pub open spec fn strings_view(v: Seq<String>) -> Seq<Seq<char>> {
    v.map_values(|s: String| s@)
}

pub fn npx_binary_names(windows: bool) -> (r: Vec<String>)
    ensures
        strings_view(r@) == npx_names_spec(windows),
{
    let mut r: Vec<String> = Vec::new();
    if windows {
        r.push(String::from_str("npx.cmd"));
        r.push(String::from_str("npx.exe"));
        r.push(String::from_str("npx"));
    } else {
        r.push(String::from_str("npx"));
    }
    assert(strings_view(r@) == npx_names_spec(windows));
    r
}

/// A path separator: `/`, and on Windows also `\`.
pub open spec fn is_path_sep(c: char, windows: bool) -> bool {
    c == '/' || (windows && c == '\\')
}

/// A Windows drive prefix such as `C:` at the start of `s`.
pub open spec fn has_drive_prefix(s: Seq<char>) -> bool {
    &&& s.len() >= 2
    &&& s[1] == ':'
    &&& ('a' <= s[0] <= 'z' || 'A' <= s[0] <= 'Z')
}

/// `comp` replaces the path it is joined onto: on Unix when it is absolute
/// (starts with `/`); on Windows when it has a prefix, a drive (`C:`) or one
/// that starts with two separators (`\\server\share`, `\\?\`, `\\.\`).
pub open spec fn join_replaces(comp: Seq<char>, windows: bool) -> bool {
    if windows {
        has_drive_prefix(comp) || (comp.len() >= 2 && is_path_sep(comp[0], true) && is_path_sep(
            comp[1],
            true,
        ))
    } else {
        comp.len() > 0 && comp[0] == '/'
    }
}

/// `base` joined with `comp`, as `Path::join` does on Unix (`windows`
/// false) or on Windows: a `comp` that replaces the path is the result; on
/// Windows a `comp` with a root but no prefix (`\dir`) keeps only the drive of
/// `base`; otherwise the platform's separator (`/`, or `\` on Windows) is put
/// between them, unless `base` is empty, ends with a separator, or (on
/// Windows) is a bare drive `C:`.
pub open spec fn join_path_spec(base: Seq<char>, comp: Seq<char>, windows: bool) -> Seq<char> {
    if join_replaces(comp, windows) {
        comp
    } else if windows && comp.len() > 0 && is_path_sep(comp[0], true) {
        if has_drive_prefix(base) {
            base.take(2) + comp
        } else {
            comp
        }
    } else if base.len() == 0 || is_path_sep(base.last(), windows) || (windows && base.len() == 2
        && has_drive_prefix(base)) {
        base + comp
    } else {
        base + seq![main_sep(windows)] + comp
    }
}

/// The separator that `Path::join` puts between two paths.
pub open spec fn main_sep(windows: bool) -> char {
    if windows {
        '\\'
    } else {
        '/'
    }
}

fn is_path_sep_exec(c: char, windows: bool) -> (b: bool)
    ensures
        b == is_path_sep(c, windows),
{
    c == '/' || (windows && c == '\\')
}

fn has_drive_prefix_exec(s: &Vec<char>) -> (b: bool)
    ensures
        b == has_drive_prefix(s@),
{
    s.len() >= 2 && s[1] == ':' && (('a' <= s[0] && s[0] <= 'z') || ('A' <= s[0] && s[0] <= 'Z'))
}

fn append_chars(a: &mut Vec<char>, b: &Vec<char>)
    ensures
        final(a)@ == old(a)@ + b@,
{
    let mut i: usize = 0;
    while i < b.len()
        invariant
            i <= b.len(),
            a@ == old(a)@ + b@.take(i as int),
        decreases b.len() - i,
    {
        a.push(b[i]);
        i = i + 1;
        assert(b@.take(i as int) == b@.take(i - 1).push(b[i - 1]));
    }
    assert(b@.take(b.len() as int) == b@);
}

pub fn join_path_chars(base: &Vec<char>, comp: &Vec<char>, windows: bool) -> (r: Vec<char>)
    ensures
        r@ == join_path_spec(base@, comp@, windows),
{
    let replaces = if windows {
        has_drive_prefix_exec(comp) || (comp.len() >= 2 && is_path_sep_exec(comp[0], true)
            && is_path_sep_exec(comp[1], true))
    } else {
        comp.len() > 0 && comp[0] == '/'
    };
    let mut r: Vec<char> = Vec::new();
    if replaces {
        append_chars(&mut r, comp);
        return r;
    }
    if windows && comp.len() > 0 && is_path_sep_exec(comp[0], true) {
        if has_drive_prefix_exec(base) {
            r.push(base[0]);
            r.push(base[1]);
            assert(r@ == base@.take(2));
        }
        append_chars(&mut r, comp);
        return r;
    }
    append_chars(&mut r, base);
    let bare = base.len() == 0 || is_path_sep_exec(base[base.len() - 1], windows) || (windows
        && base.len() == 2 && has_drive_prefix_exec(base));
    if !bare {
        let sep = if windows {
            '\\'
        } else {
            '/'
        };
        r.push(sep);
    }
    append_chars(&mut r, comp);
    r
}

/// `Path::join` of two paths given as strings, on Windows when `windows`
/// holds and on Unix otherwise.
pub fn join_path(base: &str, comp: &str, windows: bool) -> (r: String)
    ensures
        r@ == join_path_spec(base@, comp@, windows),
{
    string_of(&join_path_chars(&chars_of(base), &chars_of(comp), windows))
}

/// The directory that holds nvm's Node versions under `home`.
pub fn nvm_versions_dir(home: &str, windows: bool) -> (r: String)
    ensures
        r@ == join_path_spec(home@, ".nvm/versions/node"@, windows),
{
    join_path(home, ".nvm/versions/node", windows)
}

/// Lexicographic order of strings by code point (the byte order of their
/// UTF-8 encodings).
pub open spec fn lex_le(a: Seq<char>, b: Seq<char>) -> bool
    decreases a.len(),
{
    if a.len() == 0 {
        true
    } else if b.len() == 0 {
        false
    } else if a[0] != b[0] {
        (a[0] as u32) < (b[0] as u32)
    } else {
        lex_le(a.drop_first(), b.drop_first())
    }
}

/// Newest-first order of version directories: descending lexicographic.
pub open spec fn newest_first() -> spec_fn(Seq<char>, Seq<char>) -> bool {
    |a: Seq<char>, b: Seq<char>| lex_le(b, a)
}

/// Where npx is looked for, in priority order: the `PATH` entries, then the
/// usual install locations, then the `bin` directory of each nvm Node
/// version, newest (by descending name) first. `nvm` holds the nvm versions
/// directory and its entries' names, when it could be read.
pub open spec fn npx_dirs_spec(path: Seq<Seq<char>>, nvm: Option<(Seq<char>, Seq<Seq<char>>)>, windows: bool) -> Seq<Seq<char>> {
    path + seq!["/usr/local/bin"@, "/opt/homebrew/bin"@] + match nvm {
        None => seq![],
        Some((dir, names)) => names.sort_by(newest_first()).map_values(
            |n: Seq<char>| join_path_spec(join_path_spec(dir, n, windows), "bin"@, windows),
        ),
    }
}

proof fn lemma_lex_le_reflexive(a: Seq<char>)
    ensures
        lex_le(a, a),
    decreases a.len(),
{
    if a.len() > 0 {
        lemma_lex_le_reflexive(a.drop_first());
    }
}

proof fn lemma_lex_le_antisymmetric(a: Seq<char>, b: Seq<char>)
    requires
        lex_le(a, b),
        lex_le(b, a),
    ensures
        a == b,
    decreases a.len(),
{
    if a.len() > 0 && b.len() > 0 {
        if a[0] == b[0] {
            lemma_lex_le_antisymmetric(a.drop_first(), b.drop_first());
            assert(a == seq![a[0]] + a.drop_first());
            assert(b == seq![b[0]] + b.drop_first());
        }
    }
}

proof fn lemma_lex_le_transitive(a: Seq<char>, b: Seq<char>, c: Seq<char>)
    requires
        lex_le(a, b),
        lex_le(b, c),
    ensures
        lex_le(a, c),
    decreases a.len(),
{
    if a.len() > 0 && b.len() > 0 && c.len() > 0 {
        if a[0] == b[0] && b[0] == c[0] {
            lemma_lex_le_transitive(a.drop_first(), b.drop_first(), c.drop_first());
        } else if a[0] != c[0] {
            if a[0] as u32 == c[0] as u32 {
                lemma_char_code_injective(a[0], c[0]);
            }
        }
    }
}

proof fn lemma_lex_le_total(a: Seq<char>, b: Seq<char>)
    ensures
        lex_le(a, b) || lex_le(b, a),
    decreases a.len(),
{
    if a.len() > 0 && b.len() > 0 {
        if a[0] == b[0] {
            lemma_lex_le_total(a.drop_first(), b.drop_first());
        } else if a[0] as u32 == b[0] as u32 {
            lemma_char_code_injective(a[0], b[0]);
        }
    }
}

/// Newest-first is a total order.
pub proof fn lemma_newest_first_total()
    ensures
        total_ordering(newest_first()),
{
    let r = newest_first();
    assert forall|x: Seq<char>| #[trigger] r(x, x) by {
        lemma_lex_le_reflexive(x);
    }
    assert forall|x: Seq<char>, y: Seq<char>| #[trigger] r(x, y) && #[trigger] r(y, x) implies x == y by {
        lemma_lex_le_antisymmetric(x, y);
    }
    assert forall|x: Seq<char>, y: Seq<char>, z: Seq<char>|
        #[trigger] r(x, y) && #[trigger] r(y, z) implies r(x, z) by {
        lemma_lex_le_transitive(z, y, x);
    }
    assert forall|x: Seq<char>, y: Seq<char>| #[trigger] r(x, y) || #[trigger] r(y, x) by {
        lemma_lex_le_total(x, y);
    }
}

/// `lex_le(a, b)`.
fn lex_le_chars(a: &Vec<char>, b: &Vec<char>) -> (r: bool)
    ensures
        r == lex_le(a@, b@),
{
    let mut i: usize = 0;
    assert(a@.skip(0) == a@ && b@.skip(0) == b@);
    while i < a.len() && i < b.len() && a[i] == b[i]
        invariant
            i <= a.len(),
            i <= b.len(),
            lex_le(a@, b@) == lex_le(a@.skip(i as int), b@.skip(i as int)),
        decreases a.len() - i,
    {
        assert(a@.skip(i as int).drop_first() == a@.skip(i + 1));
        assert(b@.skip(i as int).drop_first() == b@.skip(i + 1));
        i = i + 1;
    }
    if i == a.len() {
        true
    } else if i == b.len() {
        false
    } else {
        (a[i] as u32) < (b[i] as u32)
    }
}

/// `names` sorted newest first.
fn sort_newest_first(names: Vec<Vec<char>>) -> (r: Vec<Vec<char>>)
    ensures
        r@.map_values(|v: Vec<char>| v@) == names@.map_values(|v: Vec<char>| v@).sort_by(
            newest_first(),
        ),
{
    let ghost input = names@.map_values(|v: Vec<char>| v@);
    let ghost ord = newest_first();
    proof {
        lemma_newest_first_total();
    }
    let mut sorted: Vec<Vec<char>> = Vec::new();
    let mut rest = names;
    let n = rest.len();
    let mut i: usize = 0;
    proof {
        broadcast use vstd::seq_lib::group_to_multiset_ensures;
        assert(input.take(0) =~= Seq::<Seq<char>>::empty());
        assert(sorted@.map_values(|v: Vec<char>| v@) =~= Seq::<Seq<char>>::empty());
        assert(input.skip(0) == input);
    }
    while i < n
        invariant
            i <= n,
            n == input.len(),
            rest.len() == n - i,
            ord == newest_first(),
            total_ordering(ord),
            rest@.map_values(|v: Vec<char>| v@) == input.skip(i as int),
            sorted_by(sorted@.map_values(|v: Vec<char>| v@), ord),
            sorted@.map_values(|v: Vec<char>| v@).to_multiset() == input.take(i as int).to_multiset(),
        decreases n - i,
    {
        let ghost sv = sorted@.map_values(|v: Vec<char>| v@);
        let ghost rv = rest@;
        let x = rest.remove(0);
        assert(x@ == input[i as int]) by {
            assert(input.skip(i as int)[0] == input[i as int]);
            assert(rv.map_values(|v: Vec<char>| v@)[0] == rv[0]@);
        }
        assert(rest@ == rv.drop_first());
        assert(input.skip(i + 1) =~= input.skip(i as int).drop_first());
        assert(rest@.map_values(|v: Vec<char>| v@) =~= input.skip(i + 1));
        // Insert before the first element that is older than `x`.
        let mut p: usize = 0;
        while p < sorted.len() && lex_le_chars(&x, &sorted[p])
            invariant
                p <= sorted.len(),
                sv == sorted@.map_values(|v: Vec<char>| v@),
                forall|k: int| 0 <= k < p ==> lex_le(x@, #[trigger] sv[k]),
            decreases sorted.len() - p,
        {
            p = p + 1;
        }
        let ghost xv = x@;
        sorted.insert(p, x);
        proof {
            let nv = sorted@.map_values(|v: Vec<char>| v@);
            assert(nv == sv.insert(p as int, xv));
            vstd::seq_lib::to_multiset_insert(sv, p as int, xv);
            assert(input.take(i + 1) == input.take(i as int).push(xv));
            vstd::seq_lib::to_multiset_build(input.take(i as int), xv);
            assert(nv.to_multiset() == input.take(i + 1).to_multiset()) by {
                broadcast use vstd::multiset::group_multiset_axioms;
            }
            assert forall|a: int, b: int| 0 <= a < b < nv.len() implies #[trigger] ord(nv[a], nv[b]) by {
                if b < p {
                    assert(ord(sv[a], sv[b]));
                } else if b == p {
                    assert(lex_le(xv, sv[a]));
                } else if a < p {
                    assert(ord(sv[a], sv[b - 1]));
                } else if a == p {
                    lemma_lex_le_total(xv, sv[p as int]);
                    if (b - 1) as int != p as int {
                        assert(ord(sv[p as int], sv[b - 1]));
                        lemma_lex_le_transitive(sv[b - 1], sv[p as int], xv);
                    }
                } else {
                    assert(ord(sv[a - 1], sv[b - 1]));
                }
            }
        }
        i = i + 1;
    }
    proof {
        assert(input.take(n as int) == input);
        let out = sorted@.map_values(|v: Vec<char>| v@);
        input.lemma_sort_by_ensures(ord);
        vstd::seq_lib::lemma_sorted_unique(out, input.sort_by(ord), ord);
    }
    sorted
}

pub open spec fn nvm_view(nvm: Option<(String, Vec<String>)>) -> Option<(Seq<char>, Seq<Seq<char>>)> {
    match nvm {
        Some((d, ns)) => Some((d@, strings_view(ns@))),
        None => None,
    }
}

/// The directories where npx is looked for, in priority order: the `PATH`
/// entries, `/usr/local/bin`, `/opt/homebrew/bin`, then for each nvm Node
/// version (newest name first) its `bin` directory. `nvm` holds the nvm
/// versions directory and the names of its entries, when it could be read.
pub fn candidate_npx_dirs(path_entries: &Vec<String>, nvm: Option<(String, Vec<String>)>, windows: bool) -> (r: Vec<
    String,
>)
    ensures
        strings_view(r@) == npx_dirs_spec(strings_view(path_entries@), nvm_view(nvm), windows),
{
    let ghost nv = nvm_view(nvm);
    let mut dirs: Vec<String> = Vec::new();
    let mut i: usize = 0;
    while i < path_entries.len()
        invariant
            i <= path_entries.len(),
            strings_view(dirs@) == strings_view(path_entries@).take(i as int),
        decreases path_entries.len() - i,
    {
        dirs.push(path_entries[i].clone());
        i = i + 1;
        assert(strings_view(path_entries@).take(i as int) == strings_view(path_entries@).take(
            i - 1,
        ).push(path_entries@[i - 1]@));
    }
    assert(strings_view(path_entries@).take(path_entries.len() as int) == strings_view(
        path_entries@,
    ));
    dirs.push(String::from_str("/usr/local/bin"));
    dirs.push(String::from_str("/opt/homebrew/bin"));
    let ghost base = strings_view(dirs@);
    assert(base == strings_view(path_entries@) + seq!["/usr/local/bin"@, "/opt/homebrew/bin"@]);
    match nvm {
        None => {},
        Some((dir, names)) => {
            let ghost namesv = strings_view(names@);
            let mut raw: Vec<Vec<char>> = Vec::new();
            let mut k: usize = 0;
            while k < names.len()
                invariant
                    k <= names.len(),
                    namesv == strings_view(names@),
                    raw@.map_values(|v: Vec<char>| v@) == namesv.take(k as int),
                decreases names.len() - k,
            {
                raw.push(chars_of(names[k].as_str()));
                k = k + 1;
                assert(namesv.take(k as int) == namesv.take(k - 1).push(names@[k - 1]@));
            }
            assert(namesv.take(names.len() as int) == namesv);
            let sorted = sort_newest_first(raw);
            let ghost sv = sorted@.map_values(|v: Vec<char>| v@);
            let ghost tail = sv.map_values(
                |n: Seq<char>| join_path_spec(join_path_spec(dir@, n, windows), "bin"@, windows),
            );
            let dirv = chars_of(dir.as_str());
            let binv = chars_of("bin");
            let mut j: usize = 0;
            while j < sorted.len()
                invariant
                    j <= sorted.len(),
                    dirv@ == dir@,
                    binv@ == "bin"@,
                    sv == sorted@.map_values(|v: Vec<char>| v@),
                    tail == sv.map_values(
                        |n: Seq<char>| join_path_spec(join_path_spec(dir@, n, windows), "bin"@, windows),
                    ),
                    strings_view(dirs@) == base + tail.take(j as int),
                decreases sorted.len() - j,
            {
                let p = join_path_chars(&join_path_chars(&dirv, &sorted[j], windows), &binv, windows);
                let ghost d0 = dirs@;
                assert(sv[j as int] == sorted@[j as int]@);
                dirs.push(string_of(&p));
                assert(strings_view(dirs@) == strings_view(d0).push(p@));
                j = j + 1;
                assert(tail.take(j as int) == tail.take(j - 1).push(tail[j - 1]));
            }
            assert(tail.take(sorted.len() as int) == tail);
        },
    }
    dirs
}

/// The paths tried for npx, in order: each name in each directory.
pub open spec fn npx_candidates_spec(dirs: Seq<Seq<char>>, names: Seq<Seq<char>>, windows: bool) -> Seq<Seq<char>>
    decreases dirs.len(),
{
    if dirs.len() == 0 {
        seq![]
    } else {
        npx_candidates_spec(dirs.drop_last(), names, windows) + names.map_values(
            |n: Seq<char>| join_path_spec(dirs.last(), n, windows),
        )
    }
}

pub fn npx_candidates(dirs: &Vec<String>, names: &Vec<String>, windows: bool) -> (r: Vec<String>)
    ensures
        strings_view(r@) == npx_candidates_spec(strings_view(dirs@), strings_view(names@), windows),
{
    let ghost dv = strings_view(dirs@);
    let ghost nv = strings_view(names@);
    let mut r: Vec<String> = Vec::new();
    let mut i: usize = 0;
    while i < dirs.len()
        invariant
            i <= dirs.len(),
            dv == strings_view(dirs@),
            nv == strings_view(names@),
            strings_view(r@) == npx_candidates_spec(dv.take(i as int), nv, windows),
        decreases dirs.len() - i,
    {
        let ghost before = strings_view(r@);
        let ghost block = nv.map_values(|n: Seq<char>| join_path_spec(dv[i as int], n, windows));
        let mut j: usize = 0;
        while j < names.len()
            invariant
                j <= names.len(),
                i < dirs.len(),
                dv == strings_view(dirs@),
                nv == strings_view(names@),
                block == nv.map_values(|n: Seq<char>| join_path_spec(dv[i as int], n, windows)),
                strings_view(r@) == before + block.take(j as int),
            decreases names.len() - j,
        {
            let ghost r0 = r@;
            let x = join_path(dirs[i].as_str(), names[j].as_str(), windows);
            assert(nv[j as int] == names@[j as int]@);
            r.push(x);
            assert(strings_view(r@) == strings_view(r0).push(x@));
            j = j + 1;
            assert(block.take(j as int) == block.take(j - 1).push(block[j - 1]));
        }
        assert(block.take(names.len() as int) == block);
        assert(dv.take(i + 1).drop_last() == dv.take(i as int));
        i = i + 1;
    }
    assert(dv.take(dirs.len() as int) == dv);
    r
}

/// The first candidate that is a file; `is_file[i]` tells whether
/// `candidates[i]` is one.
pub fn find_npx(candidates: &Vec<String>, is_file: &Vec<bool>) -> (r: Option<String>)
    ensures
        match r {
            Some(c) => exists|i: int|
                0 <= i < candidates.len() && i < is_file.len() && is_file[i] && c@
                    == candidates[i]@ && forall|j: int| 0 <= j < i ==> !#[trigger] is_file[j],
            None => forall|i: int|
                0 <= i < candidates.len() && i < is_file.len() ==> !#[trigger] is_file[i],
        },
{
    let mut i: usize = 0;
    while i < candidates.len() && i < is_file.len()
        invariant
            i <= candidates.len(),
            forall|j: int| 0 <= j < i && j < is_file.len() ==> !#[trigger] is_file[j],
        decreases candidates.len() - i,
    {
        if is_file[i] {
            return Some(candidates[i].clone());
        }
        i = i + 1;
    }
    None
}

// ---------------------------------------------------------------------------
// Laws
// ---------------------------------------------------------------------------

/// Single flight: once a bootstrap has been started, no further call of
/// `ensure_server_running` starts another until it finishes, whatever the
/// health checks say.
pub proof fn law_single_flight(st: (bool, Option<Seq<char>>), healthy: bool)
    ensures
        ({
            let (_, started, st1) = ensure_spec(st, false);
            started ==> !ensure_spec(st1, healthy).1 && ensure_spec(st1, healthy).2 == st1
        }),
{
}

/// A bootstrap that was started is reported as installing while the server
/// is not healthy.
pub proof fn law_started_bootstrap_reports_installing(st: (bool, Option<Seq<char>>))
    ensures
        ({
            let (ev, started, st1) = ensure_spec(st, false);
            started ==> ev == Some(installing()) && status_spec(false, st1) == installing()
        }),
{
}

/// When a bootstrap ends it is no longer in flight, so a later unhealthy
/// check starts a new one.
pub proof fn law_finish_allows_new_bootstrap(st: (bool, Option<Seq<char>>), run: RunView)
    ensures
        !finish_spec(st, run).1.0,
        ensure_spec(finish_spec(st, run).1, false).1,
{
}

/// After a failed bootstrap, an unhealthy server is reported with the
/// failure's message; after a successful one, no error is reported.
pub proof fn law_bootstrap_outcome_reported(st: (bool, Option<Seq<char>>), run: RunView)
    ensures
        run_error(run) matches Some(e) ==> status_spec(false, finish_spec(st, run).1) == ("error"@, Some(e)),
        run is Succeeded ==> status_spec(false, finish_spec(st, run).1) == ("uninstalled"@, None::<Seq<char>>),
{
}

/// A healthy server is reported ready whatever the bootstrap state.
pub proof fn law_healthy_is_ready(st: (bool, Option<Seq<char>>))
    ensures
        status_spec(true, st) == ready(),
{
}

/// Trailing slashes of the base URL do not change the health URL.
pub proof fn law_health_url_ignores_trailing_slash(base: Seq<char>)
    ensures
        strip_end(base.push('/'), |c: char| c == '/') == strip_end(base, |c: char| c == '/'),
{
    assert(base.push('/').drop_last() == base);
}

/// The usual install locations are always searched, after the `PATH`
/// entries and before any nvm version.
pub proof fn law_common_locations_always_searched(
    path: Seq<Seq<char>>,
    nvm: Option<(Seq<char>, Seq<Seq<char>>)>,
    windows: bool,
)
    ensures
        npx_dirs_spec(path, nvm, windows)[path.len() as int] == "/usr/local/bin"@,
        npx_dirs_spec(path, nvm, windows)[path.len() + 1int] == "/opt/homebrew/bin"@,
        npx_dirs_spec(path, nvm, windows).subrange(0, path.len() as int) == path,
{
    let d = npx_dirs_spec(path, nvm, windows);
    assert(d.subrange(0, path.len() as int) =~= path);
}

/// The nvm directories are searched newest first, and each version's `bin`
/// directory is searched once.
pub proof fn law_nvm_versions_newest_first(names: Seq<Seq<char>>)
    ensures
        sorted_by(names.sort_by(newest_first()), newest_first()),
        names.sort_by(newest_first()).to_multiset() == names.to_multiset(),
{
    lemma_newest_first_total();
    names.lemma_sort_by_ensures(newest_first());
}

} // verus!
