//! The load-once model slot and the progress reporter that keeps the host
//! informed while a model loads.

use crate::host::{calls_view, HostCall, HostCallView};
use crate::inference::{elapsed, elapsed_between, HEARTBEAT_NANOS};
use crate::stats::{hundredths_of_second, lemma_fixed2_distinct, push_seconds, seconds_text};
use vstd::prelude::*;
use vstd::string::*;

verus! {

/// Why no model handle was obtained.
#[derive(Debug, PartialEq, Eq)]
pub enum LoadError {
    /// The model could not be built from its files, with the reason.
    Loader(String),
    /// A handle was offered to a slot that already holds one.
    AlreadyInitialized,
    /// The worker that ran the load ended without a result.
    WorkerFailed,
    /// The caller gave the load up.
    Cancelled,
    /// The path of the weights names no directory that holds them.
    MissingParent,
    /// The path of the weights does not end in a file name.
    MissingFileName,
}

/// What a [`LoadError`] holds.
pub enum LoadErrorView {
    Loader(Seq<char>),
    AlreadyInitialized,
    WorkerFailed,
    Cancelled,
    MissingParent,
    MissingFileName,
}

impl View for LoadError {
    type V = LoadErrorView;

    open spec fn view(&self) -> LoadErrorView {
        match *self {
            LoadError::Loader(reason) => LoadErrorView::Loader(reason@),
            LoadError::AlreadyInitialized => LoadErrorView::AlreadyInitialized,
            LoadError::WorkerFailed => LoadErrorView::WorkerFailed,
            LoadError::Cancelled => LoadErrorView::Cancelled,
            LoadError::MissingParent => LoadErrorView::MissingParent,
            LoadError::MissingFileName => LoadErrorView::MissingFileName,
        }
    }
}

/// A slot for the handle of the one loaded model. It starts empty, takes one
/// handle, and keeps it: the first handle stored is the one that every later
/// reader sees.
#[derive(Debug)]
pub struct ModelCache<H> {
    slot: Option<H>,
}

impl<H> View for ModelCache<H> {
    type V = Option<H>;

    closed spec fn view(&self) -> Option<H> {
        self.slot
    }
}

/// What offering `handle` to a slot does: an empty slot takes it, a full one
/// stays as it is and the offer is refused.
pub open spec fn after_store<H>(slot: Option<H>, handle: H) -> (Option<H>, bool) {
    match slot {
        Some(_) => (slot, false),
        None => (Some(handle), true),
    }
}

impl<H> ModelCache<H> {
    /// An empty slot.
    pub fn new() -> (cache: Self)
        ensures
            cache@ is None,
    {
        ModelCache { slot: None }
    }

    /// Whether a handle is held.
    pub fn is_loaded(&self) -> (loaded: bool)
        ensures
            loaded == (self@ is Some),
    {
        self.slot.is_some()
    }

    /// The handle, if one is held.
    pub fn get(&self) -> (handle: Option<&H>)
        ensures
            handle is Some <==> self@ is Some,
            handle matches Some(h) ==> self@ == Some(*h),
    {
        self.slot.as_ref()
    }

    /// Offers a handle. An empty slot takes it. A slot that holds one keeps
    /// its own and refuses the offer.
    pub fn store(&mut self, handle: H) -> (r: Result<(), LoadError>)
        ensures
            final(self)@ == after_store(old(self)@, handle).0,
            r is Ok <==> after_store(old(self)@, handle).1,
            r matches Err(e) ==> e == LoadError::AlreadyInitialized,
    {
        if self.slot.is_some() {
            Err(LoadError::AlreadyInitialized)
        } else {
            self.slot = Some(handle);
            Ok(())
        }
    }

    /// The handle of the slot, loaded now if the slot is empty. A slot that
    /// holds a handle gives it and `loader` is not run. For an empty slot
    /// `loader` is run once: its handle is stored and given, or its error is
    /// handed on and the slot stays empty, so that a later call may try again.
    pub fn get_or_load<F: FnOnce() -> Result<H, LoadError>>(&mut self, loader: F) -> (r: Result<
        &H,
        LoadError,
    >)
        requires
            old(self)@ is None ==> call_requires(loader, ()),
        ensures
            old(self)@ is Some ==> final(self)@ == old(self)@ && r is Ok,
            r matches Ok(h) ==> final(self)@ == Some(*h),
            r matches Err(e) ==> final(self)@ is None,
            old(self)@ is None ==> match r {
                Ok(h) => call_ensures(loader, (), Ok::<H, LoadError>(*h)),
                Err(e) => call_ensures(loader, (), Err::<H, LoadError>(e)),
            },
    {
        if self.slot.is_none() {
            match loader() {
                Ok(handle) => {
                    self.slot = Some(handle);
                },
                Err(e) => {
                    return Err(e);
                },
            }
        }
        Ok(self.slot.as_ref().unwrap())
    }
}

/// The first handle wins: once a slot has taken a handle, offering another
/// leaves the first in place and is refused.
pub proof fn lemma_first_store_wins<H>(first: H, second: H)
    ensures
        after_store(after_store(None, first).0, second) == (Some(first), false),
{
}

/// A slot never goes back: whatever is offered to a slot that holds a handle,
/// it holds the same handle afterwards.
pub proof fn lemma_loaded_stays_loaded<H>(slot: Option<H>, offered: H)
    requires
        slot is Some,
    ensures
        after_store(slot, offered).0 == slot,
{
}

/// The result of a load that a worker ran: the worker's own result, or
/// [`LoadError::WorkerFailed`] where the worker ended without one.
pub fn worker_result<H>(joined: Option<Result<H, LoadError>>) -> (r: Result<H, LoadError>)
    ensures
        r == match joined {
            Some(result) => result,
            None => Err::<H, LoadError>(LoadError::WorkerFailed),
        },
{
    match joined {
        Some(result) => result,
        None => Err(LoadError::WorkerFailed),
    }
}

/// Where the quantized weights lie: the directory, which also names the
/// model, and the file in it.
#[derive(Clone, Debug, PartialEq, Eq)]
pub struct WeightsLocation {
    pub model_id: String,
    pub file: String,
}

/// The location of the weights, from the two parts of their path. A path
/// without a parent is refused first, then one without a file name.
pub fn weights_location(parent: Option<String>, file_name: Option<String>) -> (r: Result<
    WeightsLocation,
    LoadError,
>)
    ensures
        match r {
            Ok(location) => parent == Some(location.model_id) && file_name == Some(location.file),
            Err(e) => {
                if parent is None {
                    e == LoadError::MissingParent
                } else {
                    file_name is None && e == LoadError::MissingFileName
                }
            },
        },
{
    match parent {
        None => Err(LoadError::MissingParent),
        Some(model_id) => match file_name {
            None => Err(LoadError::MissingFileName),
            Some(file) => Ok(WeightsLocation { model_id, file }),
        },
    }
}

/// `std::path::Path::parent` on a path given as text: the path without its
/// last component, if it has one. Where the path ends depends on the
/// platform's separators, so nothing is claimed of the result.
#[verifier::external_body]
fn path_parent(path: &str) -> (parent: Option<String>) {
    let parent = std::path::Path::new(path).parent()?;
    Some(parent.to_string_lossy().into_owned())
}

/// `std::path::Path::file_name` on a path given as text: the last component
/// of the path, if it is a file or directory name. Nothing is claimed of the
/// result, for the same reason.
#[verifier::external_body]
fn path_file_name(path: &str) -> (name: Option<String>) {
    let name = std::path::Path::new(path).file_name()?;
    Some(name.to_string_lossy().into_owned())
}

/// The location of the weights at `path`, as the platform splits the path.
pub fn split_weights_path(path: &str) -> (r: Result<WeightsLocation, LoadError>)
    ensures
        r matches Err(e) ==> e == LoadError::MissingParent || e == LoadError::MissingFileName,
{
    weights_location(path_parent(path), path_file_name(path))
}

/// The line shown while the model loads.
pub open spec fn loading_line(nanos: u64) -> Seq<char> {
    "Loading model... "@ + seconds_text(nanos) + "s"@
}

/// Writes [`loading_line`].
pub fn loading_text(nanos: u64) -> (s: String)
    ensures
        s@ == loading_line(nanos),
{
    let mut s: String = String::from_str("Loading model... ");
    push_seconds(&mut s, nanos);
    s.append("s");
    s
}

/// What happened while a load was waited for.
#[derive(Clone, Copy, Debug, PartialEq, Eq)]
pub enum LoadEvent {
    /// The heartbeat fired at `at`; `worker_finished` says whether the worker
    /// has ended by then.
    Tick { at: u64, worker_finished: bool },
    /// The caller gave the load up.
    Cancel,
}

/// A load that is being waited for, started at `start` (nanoseconds).
#[derive(Clone, Copy, Debug, PartialEq, Eq)]
pub struct LoadProgress {
    pub start: u64,
}

/// How the wait goes on after a step.
#[derive(Debug, PartialEq, Eq)]
pub enum LoadNext {
    /// The worker is still loading: wait for the next heartbeat.
    Wait(LoadProgress),
    /// The worker has ended: take its result.
    Join,
    /// The wait is over without a handle.
    Failed(LoadError),
}

/// How a request for the model begins.
#[derive(Clone, Copy, Debug, PartialEq, Eq)]
pub enum LoadStart {
    /// The slot holds a handle: it is the answer, at once.
    Ready,
    /// The slot is empty: a worker has to load, and the caller waits.
    Wait(LoadProgress),
}

/// Begins a request for the model at `now`. A slot that holds a handle
/// answers at once: no worker is needed and the host is told nothing. For an
/// empty slot the wait begins, and the first thing the host is asked is to
/// clear its output.
pub fn begin_load<H>(cache: &ModelCache<H>, now: u64) -> (r: (LoadStart, Vec<HostCall>))
    ensures
        cache@ is Some ==> r.0 == LoadStart::Ready && calls_view(r.1@) == Seq::<
            HostCallView,
        >::empty(),
        cache@ is None ==> r.0 == LoadStart::Wait(LoadProgress { start: now }) && calls_view(r.1@)
            == seq![HostCallView::ClearOutput],
{
    let mut calls: Vec<HostCall> = Vec::new();
    if cache.is_loaded() {
        assert(calls_view(calls@) =~= Seq::<HostCallView>::empty());
        (LoadStart::Ready, calls)
    } else {
        calls.push(HostCall::ClearOutput);
        assert(calls_view(calls@) =~= seq![HostCallView::ClearOutput]);
        (LoadStart::Wait(LoadProgress { start: now }), calls)
    }
}

/// What one step of the wait asks of whoever runs it.
#[derive(Debug, PartialEq, Eq)]
pub struct LoadStep {
    /// The calls to make on the host, in this order.
    pub calls: Vec<HostCall>,
    /// How the wait goes on.
    pub next: LoadNext,
}

impl LoadProgress {
    /// The host calls that an event asks for, in order. Each heartbeat
    /// replaces what is shown by the time waited so far; the one that finds
    /// the worker ended clears that line again.
    pub open spec fn step_calls(self, event: LoadEvent) -> Seq<HostCallView> {
        match event {
            LoadEvent::Tick { at, worker_finished } => {
                let report = seq![
                    HostCallView::ClearOutput,
                    HostCallView::ProcessChunk(loading_line(elapsed(self.start, at))),
                ];
                if worker_finished {
                    report + seq![HostCallView::ClearOutput]
                } else {
                    report
                }
            },
            LoadEvent::Cancel => seq![],
        }
    }

    /// How the wait goes on after an event.
    pub open spec fn step_next(self, event: LoadEvent) -> LoadNext {
        match event {
            LoadEvent::Tick { at, worker_finished } => if worker_finished {
                LoadNext::Join
            } else {
                LoadNext::Wait(self)
            },
            LoadEvent::Cancel => LoadNext::Failed(LoadError::Cancelled),
        }
    }

    /// Takes one event: gives the host calls it asks for and how the wait
    /// goes on.
    pub fn step(self, event: LoadEvent) -> (r: LoadStep)
        ensures
            calls_view(r.calls@) == self.step_calls(event),
            r.next == self.step_next(event),
    {
        let mut calls: Vec<HostCall> = Vec::new();
        let next: LoadNext = match event {
            LoadEvent::Tick { at, worker_finished } => {
                let nanos: u64 = elapsed_between(self.start, at);
                calls.push(HostCall::ClearOutput);
                calls.push(HostCall::ProcessChunk(loading_text(nanos)));
                if worker_finished {
                    calls.push(HostCall::ClearOutput);
                    LoadNext::Join
                } else {
                    LoadNext::Wait(self)
                }
            },
            LoadEvent::Cancel => LoadNext::Failed(LoadError::Cancelled),
        };
        assert(calls_view(calls@) =~= self.step_calls(event));
        LoadStep { calls, next }
    }
}

/// Times that are shown differently give different lines.
pub proof fn lemma_loading_lines_differ(earlier: u64, later: u64)
    requires
        hundredths_of_second(earlier) != hundredths_of_second(later),
    ensures
        loading_line(earlier) != loading_line(later),
{
    let head = "Loading model... "@;
    let a = seconds_text(earlier);
    let b = seconds_text(later);
    lemma_fixed2_distinct(hundredths_of_second(earlier), hundredths_of_second(later));
    if loading_line(earlier) == loading_line(later) {
        let start = head.len() as int;
        assert(loading_line(earlier).len() == head.len() + a.len() + "s"@.len());
        assert(loading_line(later).len() == head.len() + b.len() + "s"@.len());
        assert(loading_line(earlier).subrange(start, start + a.len()) =~= a);
        assert(loading_line(later).subrange(start, start + b.len()) =~= b);
        assert(false);
    }
}

/// While the worker has not ended, the wait never ends by itself, and of two
/// heartbeats at least one interval apart the later one shows a greater time
/// on a different line.
pub proof fn lemma_progress_goes_on(progress: LoadProgress, earlier: u64, later: u64)
    requires
        progress.start <= earlier,
        earlier + HEARTBEAT_NANOS <= later,
    ensures
        progress.step_next(LoadEvent::Tick { at: later, worker_finished: false })
            == LoadNext::Wait(progress),
        hundredths_of_second(elapsed(progress.start, later)) > hundredths_of_second(
            elapsed(progress.start, earlier),
        ),
        loading_line(elapsed(progress.start, later)) != loading_line(
            elapsed(progress.start, earlier),
        ),
{
    lemma_loading_lines_differ(elapsed(progress.start, earlier), elapsed(progress.start, later));
}

/// What a slot answers to a request, and how many loads run for it, when a
/// load would end in `outcome`: a slot that holds a handle answers with it and
/// nothing is loaded; an empty slot runs the one load and keeps its handle.
pub open spec fn after_request<H>(slot: Option<H>, outcome: Result<H, LoadError>) -> (
    Option<H>,
    Result<H, LoadError>,
    nat,
) {
    match slot {
        Some(held) => (slot, Ok(held), 0),
        None => match outcome {
            Ok(handle) => (Some(handle), Ok(handle), 1),
            Err(e) => (None, Err(e), 1),
        },
    }
}

/// Of two first requests, one after the other, one load runs and both get
/// the handle that it gave, whatever the second load would have given.
pub proof fn lemma_two_requests_one_load<H>(loaded: H, other: Result<H, LoadError>)
    ensures
        ({
            let first = after_request(None, Ok::<H, LoadError>(loaded));
            let second = after_request(first.0, other);
            &&& first.1 == Ok::<H, LoadError>(loaded)
            &&& second.1 == Ok::<H, LoadError>(loaded)
            &&& second.0 == Some(loaded)
            &&& first.2 + second.2 == 1
        }),
{
}

/// Heartbeats that come one interval apart at least, none before `start`.
pub open spec fn heartbeats_from(start: u64, ticks: Seq<u64>) -> bool {
    &&& forall|k: int| 0 <= k < ticks.len() ==> start <= #[trigger] ticks[k]
    &&& forall|j: int, k: int|
        0 <= j < k < ticks.len() ==> #[trigger] ticks[j] + HEARTBEAT_NANOS <= #[trigger] ticks[k]
}

/// What the host is asked over a series of heartbeats that all find the
/// worker still loading.
pub open spec fn waiting_calls(progress: LoadProgress, ticks: Seq<u64>) -> Seq<HostCallView>
    decreases ticks.len(),
{
    if ticks.len() == 0 {
        seq![]
    } else {
        waiting_calls(progress, ticks.drop_last()) + progress.step_calls(
            LoadEvent::Tick { at: ticks.last(), worker_finished: false },
        )
    }
}

/// Whether the `k`-th pair of `calls` is a clear followed by the loading line
/// for `nanos`.
pub open spec fn reports_at(calls: Seq<HostCallView>, k: int, nanos: u64) -> bool {
    &&& calls[2 * k] == HostCallView::ClearOutput
    &&& calls[2 * k + 1] == HostCallView::ProcessChunk(loading_line(nanos))
}

/// A load that never completes is never given up by the wait: every
/// heartbeat asks for a clear and then one line with the time waited, and
/// from one line to the next the time shown grows and the line changes.
pub proof fn lemma_unfinished_load_keeps_reporting(progress: LoadProgress, ticks: Seq<u64>)
    requires
        heartbeats_from(progress.start, ticks),
    ensures
        forall|k: int|
            0 <= k < ticks.len() ==> progress.step_next(
                LoadEvent::Tick { at: #[trigger] ticks[k], worker_finished: false },
            ) == LoadNext::Wait(progress),
        waiting_calls(progress, ticks).len() == 2 * ticks.len(),
        forall|k: int|
            0 <= k < ticks.len() ==> #[trigger] reports_at(
                waiting_calls(progress, ticks),
                k,
                elapsed(progress.start, ticks[k]),
            ),
        forall|j: int, k: int|
            0 <= j < k < ticks.len() ==> {
                &&& hundredths_of_second(elapsed(progress.start, #[trigger] ticks[j]))
                    < hundredths_of_second(elapsed(progress.start, #[trigger] ticks[k]))
                &&& loading_line(elapsed(progress.start, ticks[j])) != loading_line(
                    elapsed(progress.start, ticks[k]),
                )
            },
    decreases ticks.len(),
{
    assert forall|j: int, k: int| 0 <= j < k < ticks.len() implies {
        &&& hundredths_of_second(elapsed(progress.start, #[trigger] ticks[j]))
            < hundredths_of_second(elapsed(progress.start, #[trigger] ticks[k]))
        &&& loading_line(elapsed(progress.start, ticks[j])) != loading_line(
            elapsed(progress.start, ticks[k]),
        )
    } by {
        lemma_progress_goes_on(progress, ticks[j], ticks[k]);
    }
    if ticks.len() > 0 {
        let before = ticks.drop_last();
        assert(heartbeats_from(progress.start, before)) by {
            assert forall|k: int| 0 <= k < before.len() implies progress.start
                <= #[trigger] before[k] by {
                assert(before[k] == ticks[k]);
            }
            assert forall|j: int, k: int| 0 <= j < k < before.len() implies #[trigger] before[j]
                + HEARTBEAT_NANOS <= #[trigger] before[k] by {
                assert(before[j] == ticks[j] && before[k] == ticks[k]);
            }
        }
        lemma_unfinished_load_keeps_reporting(progress, before);
        let calls = waiting_calls(progress, ticks);
        let last = progress.step_calls(
            LoadEvent::Tick { at: ticks.last(), worker_finished: false },
        );
        assert(last.len() == 2);
        assert(calls == waiting_calls(progress, before) + last);
        assert forall|k: int| 0 <= k < ticks.len() implies #[trigger] reports_at(
            calls,
            k,
            elapsed(progress.start, ticks[k]),
        ) by {
            if k < before.len() {
                assert(before[k] == ticks[k]);
                assert(reports_at(
                    waiting_calls(progress, before),
                    k,
                    elapsed(progress.start, before[k]),
                ));
                assert(calls[2 * k] == waiting_calls(progress, before)[2 * k]);
                assert(calls[2 * k + 1] == waiting_calls(progress, before)[2 * k + 1]);
            } else {
                assert(calls[2 * k] == last[0]);
                assert(calls[2 * k + 1] == last[1]);
            }
        }
    }
}

} // verus!
