//! The refresh pipeline as a state machine.
//!
//! One run proceeds resolve → staleness check → fetch → normalize → load
//! → marker commit, strictly in sequence.  The machine decides; the
//! surrounding process performs each returned [`Action`] (a network call,
//! a filesystem probe, the database replacement) and reports its outcome
//! as the next [`Event`].  The whole transition function is pinned down
//! by [`spec_step`], and the trace lemmas at the end state the safety of
//! the staleness short-circuit and of the commit order.

use vstd::prelude::*;
use crate::json::wf_keys;
use crate::normalize::{decode_manifest, recs_deep, spec_manifest};
use crate::parse::{json_doc_of, parse_json};
use crate::resolve::{canonical_version, last_path_segment, spec_canonical_version,
    spec_last_segment, spec_up_to_date, up_to_date};
use crate::rows::{build_plan, spec_plan, DbPlan, PlanV};
use crate::PipeError;

verus! {

/// What one pipeline run is doing, between two actions.
#[derive(Debug)]
pub enum State {
    /// Probing the requested channel for its snapshot identifier.
    ProbingPrimary { channel: String },
    /// The primary probe failed; probing the fixed fallback channel.
    ProbingFallback,
    /// Comparing the canonical version against the persisted marker.
    Checking { channel: String, version: String },
    /// Downloading the manifest of the resolved channel.
    Fetching { channel: String, version: String },
    /// Replacing the database from the decoded manifest.
    Loading { version: String },
    /// Writing the marker, the commit of the refresh.
    Committing { version: String },
    /// The run ended successfully.
    Done,
    /// The run failed; nothing further happens.
    Failed { error: PipeError },
}

/// What the surrounding process reports back after an action.
#[derive(Debug)]
pub enum Event {
    /// The probe's redirect-resolved final URL, or `None` on a non-2xx
    /// response or network failure.
    ProbeDone { final_url: Option<String> },
    /// The source directory exists; the marker's content if readable,
    /// and whether the database file exists.
    DirReady { marker: Option<String>, db_exists: bool },
    /// The source directory could not be created.
    DirFailed,
    /// The manifest body after transparent decompression, or `None` on a
    /// non-2xx response or network failure.
    FetchDone { body: Option<String> },
    /// Whether the whole database replacement succeeded.
    LoadDone { ok: bool },
    /// Whether the marker write succeeded.
    MarkerDone { ok: bool },
}

/// What the surrounding process must do next.
#[derive(Debug)]
pub enum Action {
    /// GET this URL without consuming the body; report the final URL.
    Probe { url: String },
    /// Create the source directory if absent, read the marker file, and
    /// test whether the database file exists.
    PrepareDir,
    /// GET this URL with transparent decompression; report the body.
    Fetch { url: String },
    /// Delete any existing database file, create the schema afresh, bulk
    /// load all rows, and build the version-lookup database the same way.
    ReplaceDb { plan: DbPlan },
    /// Write exactly this version to the marker file.
    WriteMarker { version: String },
    /// The run is over; exit with this result.
    Report { result: Result<(), PipeError> },
}

/// The content of a state.
pub enum StateV {
    ProbingPrimary { channel: Seq<char> },
    ProbingFallback,
    Checking { channel: Seq<char>, version: Seq<char> },
    Fetching { channel: Seq<char>, version: Seq<char> },
    Loading { version: Seq<char> },
    Committing { version: Seq<char> },
    Done,
    Failed { error: PipeError },
}

/// The content of an event.
pub enum EventV {
    ProbeDone { final_url: Option<Seq<char>> },
    DirReady { marker: Option<Seq<char>>, db_exists: bool },
    DirFailed,
    FetchDone { body: Option<Seq<char>> },
    LoadDone { ok: bool },
    MarkerDone { ok: bool },
}

/// The content of an action.
pub enum ActionV {
    Probe { url: Seq<char> },
    PrepareDir,
    Fetch { url: Seq<char> },
    ReplaceDb { plan: PlanV },
    WriteMarker { version: Seq<char> },
    Report { result: Result<(), PipeError> },
}

impl State {
    pub open spec fn deep(self) -> StateV {
        match self {
            State::ProbingPrimary { channel } => StateV::ProbingPrimary { channel: channel@ },
            State::ProbingFallback => StateV::ProbingFallback,
            State::Checking { channel, version } => StateV::Checking {
                channel: channel@,
                version: version@,
            },
            State::Fetching { channel, version } => StateV::Fetching {
                channel: channel@,
                version: version@,
            },
            State::Loading { version } => StateV::Loading { version: version@ },
            State::Committing { version } => StateV::Committing { version: version@ },
            State::Done => StateV::Done,
            State::Failed { error } => StateV::Failed { error },
        }
    }
}

impl Event {
    pub open spec fn deep(self) -> EventV {
        match self {
            Event::ProbeDone { final_url } => EventV::ProbeDone {
                final_url: match final_url {
                    Some(u) => Some(u@),
                    None => None,
                },
            },
            Event::DirReady { marker, db_exists } => EventV::DirReady {
                marker: match marker {
                    Some(m) => Some(m@),
                    None => None,
                },
                db_exists,
            },
            Event::DirFailed => EventV::DirFailed,
            Event::FetchDone { body } => EventV::FetchDone {
                body: match body {
                    Some(b) => Some(b@),
                    None => None,
                },
            },
            Event::LoadDone { ok } => EventV::LoadDone { ok },
            Event::MarkerDone { ok } => EventV::MarkerDone { ok },
        }
    }
}

impl Action {
    pub open spec fn deep(self) -> ActionV {
        match self {
            Action::Probe { url } => ActionV::Probe { url: url@ },
            Action::PrepareDir => ActionV::PrepareDir,
            Action::Fetch { url } => ActionV::Fetch { url: url@ },
            Action::ReplaceDb { plan } => ActionV::ReplaceDb { plan: plan.deep() },
            Action::WriteMarker { version } => ActionV::WriteMarker { version: version@ },
            Action::Report { result } => ActionV::Report { result },
        }
    }
}

/// The channel host every URL starts with.
pub open spec fn spec_base() -> Seq<char> {
    "https://channels.nixos.org/"@
}

/// The redirect-probe URL of a channel.
pub open spec fn spec_probe_url(channel: Seq<char>) -> Seq<char> {
    spec_base() + channel
}

/// The manifest URL of a channel.
pub open spec fn spec_fetch_url(channel: Seq<char>) -> Seq<char> {
    spec_base() + channel + "/packages.json.br"@
}

/// A failed run: the terminal state and the report of the error.
pub open spec fn spec_fail(e: PipeError) -> (StateV, ActionV) {
    (StateV::Failed { error: e }, ActionV::Report { result: Err(e) })
}

/// The first state and action of a run for `channel`.
pub open spec fn spec_init(channel: Seq<char>) -> (StateV, ActionV) {
    (
        StateV::ProbingPrimary { channel },
        ActionV::Probe { url: spec_probe_url(channel) },
    )
}

/// The canonical version resolved from a probe's final URL, if its last
/// path segment can be read.
pub open spec fn spec_resolved(u: Seq<char>) -> Option<Seq<char>> {
    match spec_last_segment(u) {
        Some(seg) => Some(spec_canonical_version(seg)),
        None => None,
    }
}

/// The whole transition function of the pipeline.
pub open spec fn spec_step(s: StateV, e: EventV) -> (StateV, ActionV) {
    match (s, e) {
        (StateV::ProbingPrimary { channel }, EventV::ProbeDone { final_url }) => match final_url {
            Some(u) => match spec_resolved(u) {
                Some(version) => (StateV::Checking { channel, version }, ActionV::PrepareDir),
                None => spec_fail(PipeError::ResolutionFailed),
            },
            None => (
                StateV::ProbingFallback,
                ActionV::Probe { url: spec_probe_url("nixos-unstable"@) },
            ),
        },
        (StateV::ProbingFallback, EventV::ProbeDone { final_url }) => match final_url {
            Some(u) => match spec_resolved(u) {
                Some(version) => (
                    StateV::Checking { channel: "unstable"@, version },
                    ActionV::PrepareDir,
                ),
                None => spec_fail(PipeError::ResolutionFailed),
            },
            None => spec_fail(PipeError::ResolutionFailed),
        },
        (StateV::Checking { channel, version }, EventV::DirReady { marker, db_exists }) => if
        spec_up_to_date(marker, version, db_exists) {
            (StateV::Done, ActionV::Report { result: Ok(()) })
        } else {
            (
                StateV::Fetching { channel, version },
                ActionV::Fetch { url: spec_fetch_url(channel) },
            )
        },
        (StateV::Checking { .. }, EventV::DirFailed) => spec_fail(PipeError::IoFailed),
        (StateV::Fetching { channel, version }, EventV::FetchDone { body }) => match body {
            None => spec_fail(PipeError::FetchFailed),
            Some(text) => match json_doc_of(text) {
                None => spec_fail(PipeError::DecodeFailed),
                Some(tree) => match spec_manifest(tree) {
                    None => spec_fail(PipeError::DecodeFailed),
                    Some(rs) => (
                        StateV::Loading { version },
                        ActionV::ReplaceDb { plan: spec_plan(rs) },
                    ),
                },
            },
        },
        (StateV::Loading { version }, EventV::LoadDone { ok }) => if ok {
            (
                StateV::Committing { version },
                ActionV::WriteMarker { version },
            )
        } else {
            spec_fail(PipeError::LoadFailed)
        },
        (StateV::Committing { .. }, EventV::MarkerDone { ok }) => if ok {
            (StateV::Done, ActionV::Report { result: Ok(()) })
        } else {
            spec_fail(PipeError::IoFailed)
        },
        (StateV::Done, _) => (StateV::Done, ActionV::Report { result: Ok(()) }),
        (StateV::Failed { error }, _) => (
            StateV::Failed { error },
            ActionV::Report { result: Err(error) },
        ),
        _ => spec_fail(PipeError::IoFailed),
    }
}

/// The redirect-probe URL of a channel.
pub fn probe_url(channel: &str) -> (r: String)
    ensures
        r@ == spec_probe_url(channel@),
{
    let base = String::from_str("https://channels.nixos.org/");
    base.concat(channel)
}

/// The manifest URL of a channel.
pub fn fetch_url(channel: &str) -> (r: String)
    ensures
        r@ == spec_fetch_url(channel@),
{
    let base = String::from_str("https://channels.nixos.org/");
    base.concat(channel).concat("/packages.json.br")
}

/// Starts a run: probe the requested channel.
pub fn init(channel: &str) -> (r: (State, Action))
    ensures
        (r.0.deep(), r.1.deep()) == spec_init(channel@),
{
    let s = State::ProbingPrimary { channel: channel.to_owned() };
    let a = Action::Probe { url: probe_url(channel) };
    (s, a)
}

/// One transition: from the current state and the reported event to the
/// next state and the next action, exactly as [`spec_step`] says.
pub fn step(s: State, e: Event) -> (r: (State, Action))
    ensures
        (r.0.deep(), r.1.deep()) == spec_step(s.deep(), e.deep()),
{
    let ghost sv = s.deep();
    let ghost ev = e.deep();
    match (s, e) {
        (State::ProbingPrimary { channel }, Event::ProbeDone { final_url }) => match final_url {
            Some(u) => match last_path_segment(u.as_str()) {
                Some(seg) => {
                    let version = canonical_version(seg.as_str());
                    (State::Checking { channel, version }, Action::PrepareDir)
                },
                None => fail_run(PipeError::ResolutionFailed),
            },
            None => (
                State::ProbingFallback,
                Action::Probe { url: probe_url("nixos-unstable") },
            ),
        },
        (State::ProbingFallback, Event::ProbeDone { final_url }) => match final_url {
            Some(u) => match last_path_segment(u.as_str()) {
                Some(seg) => {
                    let version = canonical_version(seg.as_str());
                    (
                        State::Checking { channel: String::from_str("unstable"), version },
                        Action::PrepareDir,
                    )
                },
                None => fail_run(PipeError::ResolutionFailed),
            },
            None => fail_run(PipeError::ResolutionFailed),
        },
        (State::Checking { channel, version }, Event::DirReady { marker, db_exists }) => {
            if up_to_date(&marker, &version, db_exists) {
                (State::Done, Action::Report { result: Ok(()) })
            } else {
                let url = fetch_url(channel.as_str());
                (State::Fetching { channel, version }, Action::Fetch { url })
            }
        },
        (State::Checking { .. }, Event::DirFailed) => fail_run(PipeError::IoFailed),
        (State::Fetching { channel, version }, Event::FetchDone { body }) => match body {
            None => fail_run(PipeError::FetchFailed),
            Some(text) => match parse_json(text.as_str()) {
                None => fail_run(PipeError::DecodeFailed),
                Some(tree) => match decode_manifest(&tree) {
                    Err(_) => fail_run(PipeError::DecodeFailed),
                    Ok(recs) => {
                        let plan = build_plan(&recs);
                        (State::Loading { version }, Action::ReplaceDb { plan })
                    },
                },
            },
        },
        (State::Loading { version }, Event::LoadDone { ok }) => {
            if ok {
                let v2 = version.clone();
                (State::Committing { version }, Action::WriteMarker { version: v2 })
            } else {
                fail_run(PipeError::LoadFailed)
            }
        },
        (State::Committing { .. }, Event::MarkerDone { ok }) => {
            if ok {
                (State::Done, Action::Report { result: Ok(()) })
            } else {
                fail_run(PipeError::IoFailed)
            }
        },
        (State::Done, _) => (State::Done, Action::Report { result: Ok(()) }),
        (State::Failed { error }, _) => (
            State::Failed { error },
            Action::Report { result: Err(error) },
        ),
        _ => fail_run(PipeError::IoFailed),
    }
}

/// A failed run: the terminal state and the report of the error.
fn fail_run(e: PipeError) -> (r: (State, Action))
    ensures
        (r.0.deep(), r.1.deep()) == spec_fail(e),
{
    (State::Failed { error: e }, Action::Report { result: Err(e) })
}

/// A run that can do nothing further.
pub open spec fn terminal(s: StateV) -> bool {
    s is Done || s is Failed
}

/// An action that touches the network or the persisted state: a fetch,
/// the database replacement, or the marker write.
pub open spec fn refresh_action(a: ActionV) -> bool {
    a is Fetch || a is ReplaceDb || a is WriteMarker
}

/// Whether any step of the run from `s` through `evs` performs a
/// refresh action.
pub open spec fn trace_refreshes(s: StateV, evs: Seq<EventV>) -> bool
    decreases evs.len(),
{
    if evs.len() == 0 {
        false
    } else {
        refresh_action(spec_step(s, evs[0]).1) || trace_refreshes(
            spec_step(s, evs[0]).0,
            evs.drop_first(),
        )
    }
}

/// A terminal run stays terminal and never fetches, rebuilds, or writes
/// the marker again, whatever events arrive.
pub proof fn lemma_terminal_runs_quiet(s: StateV, evs: Seq<EventV>)
    requires
        terminal(s),
    ensures
        !trace_refreshes(s, evs),
    decreases evs.len(),
{
    if evs.len() > 0 {
        lemma_terminal_runs_quiet(spec_step(s, evs[0]).0, evs.drop_first());
    }
}

/// Idempotence of the refresh: when the marker already holds the
/// canonical version and the database file exists, the staleness check
/// ends the run successfully at once, and nothing in the remainder of
/// that run fetches the manifest, rebuilds the database, or rewrites the
/// marker.
pub proof fn lemma_up_to_date_short_circuit(
    channel: Seq<char>,
    version: Seq<char>,
    evs: Seq<EventV>,
)
    ensures
        spec_step(
            StateV::Checking { channel, version },
            EventV::DirReady { marker: Some(version), db_exists: true },
        ).0 is Done,
        spec_step(
            StateV::Checking { channel, version },
            EventV::DirReady { marker: Some(version), db_exists: true },
        ).1 == (ActionV::Report { result: Ok::<(), PipeError>(()) }),
        !trace_refreshes(StateV::Done, evs),
{
    lemma_terminal_runs_quiet(StateV::Done, evs);
}

/// A failed manifest fetch fails the run before any destructive step:
/// the step reports `FetchFailed`, and nothing in the remainder of the
/// run deletes or rebuilds the database or touches the marker, so
/// existing state is preserved.
pub proof fn lemma_failed_fetch_preserves_state(
    channel: Seq<char>,
    version: Seq<char>,
    evs: Seq<EventV>,
)
    ensures
        spec_step(
            StateV::Fetching { channel, version },
            EventV::FetchDone { body: None },
        ) == spec_fail(PipeError::FetchFailed),
        !refresh_action(spec_step(
            StateV::Fetching { channel, version },
            EventV::FetchDone { body: None },
        ).1),
        !trace_refreshes(StateV::Failed { error: PipeError::FetchFailed }, evs),
{
    lemma_terminal_runs_quiet(StateV::Failed { error: PipeError::FetchFailed }, evs);
}

/// The commit order of one run: the marker is written only from the
/// loading state after a fully successful load, and the database is
/// replaced only from the fetching state after a fetched manifest
/// decoded; each destructive action can happen at most at its one place
/// in the run.
pub proof fn lemma_commit_order(s: StateV, e: EventV)
    ensures
        spec_step(s, e).1 is WriteMarker ==> s is Loading && e == (EventV::LoadDone { ok: true }),
        spec_step(s, e).1 is ReplaceDb ==> s is Fetching && e is FetchDone
            && e->body is Some,
        spec_step(s, e).1 is Fetch ==> s is Checking && e is DirReady,
{
}

} // verus!
