//! The session controller: one generation request from its first event to
//! its result.
//!
//! A session is driven from outside. Whoever runs it waits for the model's
//! output stream and for the heartbeat, hands each event to
//! [`Session::step`], makes the host calls that come back in the order given,
//! and goes on until the step says that the session is over.

use crate::host::{calls_view, lemma_shown_after_concat, shown_after, HostCall, HostCallView};
use crate::stats::{decimal_text, push_decimal, push_rate, push_seconds, rate_text, seconds_text};
use vstd::prelude::*;
use vstd::string::*;

verus! {

/// The heartbeat interval, in nanoseconds: ten milliseconds.
pub const HEARTBEAT_NANOS: u64 = 10_000_000;

/// Time from `start` to `now`, both in nanoseconds on one clock; zero where
/// `now` lies before `start`.
pub open spec fn elapsed(start: u64, now: u64) -> u64 {
    if now >= start {
        (now - start) as u64
    } else {
        0
    }
}

/// The line shown while the prompt is processed and no token has come.
pub open spec fn processing_line(nanos: u64) -> Seq<char> {
    "Processing... "@ + seconds_text(nanos) + "s"@
}

/// The line that opens the statistics.
pub open spec fn stats_header() -> Seq<char> {
    "\n\nStats:"@
}

/// The line that gives the number of tokens and their rate.
pub open spec fn rate_line(tokens: nat, nanos: u64) -> Seq<char> {
    "\nGenerated "@ + decimal_text(tokens) + " tokens at "@ + rate_text(tokens, nanos)
        + " token/s."@
}

/// The line that gives the time from the start of the request to its end.
pub open spec fn total_line(nanos: u64) -> Seq<char> {
    "\nTotal time: "@ + seconds_text(nanos) + "s."@
}

/// One item of the model's output stream, as far as the session reads it.
#[derive(Debug, PartialEq, Eq)]
pub enum StreamItem {
    /// The runtime reported an error, with its message.
    Failed(String),
    /// A response that is not a chunk of a chat completion.
    NotChunk,
    /// A chunk: the content of the delta of each of its choices, in order.
    Chunk(Vec<Option<String>>),
}

/// What a [`StreamItem`] holds.
pub enum StreamItemView {
    Failed(Seq<char>),
    NotChunk,
    Chunk(Seq<Option<Seq<char>>>),
}

/// The text of a delta, if it has any.
pub open spec fn content_view(content: Option<String>) -> Option<Seq<char>> {
    match content {
        Some(text) => Some(text@),
        None => None,
    }
}

impl View for StreamItem {
    type V = StreamItemView;

    open spec fn view(&self) -> StreamItemView {
        match *self {
            StreamItem::Failed(message) => StreamItemView::Failed(message@),
            StreamItem::NotChunk => StreamItemView::NotChunk,
            StreamItem::Chunk(choices) => StreamItemView::Chunk(
                choices@.map_values(|c: Option<String>| content_view(c)),
            ),
        }
    }
}

/// What happened while a session waited. Times are in nanoseconds on one
/// clock that does not run backwards.
#[derive(Debug, PartialEq, Eq)]
pub enum SessionEvent {
    /// The stream gave an item, taken up at `now`.
    Item { item: StreamItem, now: u64 },
    /// The stream ended, seen at `now`.
    StreamEnd { now: u64 },
    /// The heartbeat fired at `at`.
    Tick { at: u64 },
    /// The caller gave the request up.
    Cancel,
}

/// What a [`SessionEvent`] holds.
pub enum SessionEventView {
    Item { item: StreamItemView, now: u64 },
    StreamEnd { now: u64 },
    Tick { at: u64 },
    Cancel,
}

impl View for SessionEvent {
    type V = SessionEventView;

    open spec fn view(&self) -> SessionEventView {
        match *self {
            SessionEvent::Item { item, now } => SessionEventView::Item { item: item@, now },
            SessionEvent::StreamEnd { now } => SessionEventView::StreamEnd { now },
            SessionEvent::Tick { at } => SessionEventView::Tick { at },
            SessionEvent::Cancel => SessionEventView::Cancel,
        }
    }
}

impl SessionEventView {
    /// Whether the event is a chunk whose first choice has content: the one
    /// kind of event that is counted.
    pub open spec fn carries_delta(self) -> bool {
        self matches SessionEventView::Item { item: StreamItemView::Chunk(choices), .. }
            && choices.len() > 0 && choices[0] is Some
    }
}

impl SessionEvent {
    /// Whether the event is a chunk whose first choice has content.
    pub fn carries_delta(&self) -> (delta: bool)
        ensures
            delta == self@.carries_delta(),
    {
        match self {
            SessionEvent::Item { item: StreamItem::Chunk(choices), .. } => {
                choices.len() > 0 && choices[0].is_some()
            },
            _ => false,
        }
    }
}

/// Why a session failed.
#[derive(Debug, PartialEq, Eq)]
pub enum SessionError {
    /// The stream gave an error in place of a response.
    StreamFailed(String),
    /// The stream gave a response that is not a chunk.
    UnexpectedItem,
    /// The stream gave a chunk whose first choice is missing, or has a delta
    /// without content.
    MalformedDelta,
    /// The caller gave the request up.
    Cancelled,
}

/// What a [`SessionError`] holds.
pub enum SessionErrorView {
    StreamFailed(Seq<char>),
    UnexpectedItem,
    MalformedDelta,
    Cancelled,
}

impl View for SessionError {
    type V = SessionErrorView;

    open spec fn view(&self) -> SessionErrorView {
        match *self {
            SessionError::StreamFailed(message) => SessionErrorView::StreamFailed(message@),
            SessionError::UnexpectedItem => SessionErrorView::UnexpectedItem,
            SessionError::MalformedDelta => SessionErrorView::MalformedDelta,
            SessionError::Cancelled => SessionErrorView::Cancelled,
        }
    }
}

/// The state of a running session: the text so far and the statistics.
pub struct SessionView {
    /// All delta text received, in order.
    pub accum: Seq<char>,
    /// Number of deltas received.
    pub tokens: nat,
    /// When the request started.
    pub prompt_start: u64,
    /// When the first delta came, if one has.
    pub decode_start: Option<u64>,
}

/// How a session goes on after a step.
pub enum NextView {
    Continue(SessionView),
    Done(Seq<char>),
    Failed(SessionErrorView),
}

impl SessionView {
    /// The state of a session that starts at `now`.
    pub open spec fn begin(now: u64) -> SessionView {
        SessionView { accum: Seq::empty(), tokens: 0, prompt_start: now, decode_start: None }
    }

    /// A first delta has been timed exactly when a delta has been counted,
    /// and there is no text before the first delta.
    pub open spec fn well_formed(self) -> bool {
        &&& self.decode_start is Some <==> self.tokens > 0
        &&& self.tokens == 0 ==> self.accum.len() == 0
    }

    /// A delta with text: the first one clears what the heartbeat has shown;
    /// each is forwarded as it is, appended and counted.
    pub open spec fn on_delta(self, text: Seq<char>, now: u64) -> (Seq<HostCallView>, NextView) {
        let forward = seq![HostCallView::ProcessChunk(text)];
        let calls = if self.tokens == 0 {
            seq![HostCallView::ClearOutput] + forward
        } else {
            forward
        };
        let after = SessionView {
            accum: self.accum + text,
            tokens: self.tokens + 1,
            prompt_start: self.prompt_start,
            decode_start: if self.decode_start is None {
                Some(now)
            } else {
                self.decode_start
            },
        };
        (calls, NextView::Continue(after))
    }

    /// An item of the stream: only a chunk whose first choice has content
    /// keeps the session alive.
    pub open spec fn on_item(self, item: StreamItemView, now: u64) -> (
        Seq<HostCallView>,
        NextView,
    ) {
        match item {
            StreamItemView::Failed(message) => (
                seq![],
                NextView::Failed(SessionErrorView::StreamFailed(message)),
            ),
            StreamItemView::NotChunk => (seq![], NextView::Failed(SessionErrorView::UnexpectedItem)),
            StreamItemView::Chunk(choices) => {
                if choices.len() > 0 && choices[0] is Some {
                    self.on_delta(choices[0]->Some_0, now)
                } else {
                    (seq![], NextView::Failed(SessionErrorView::MalformedDelta))
                }
            },
        }
    }

    /// The end of the stream: the statistics go out, with the rate only if a
    /// delta was timed, and the text so far is the result.
    pub open spec fn on_stream_end(self, now: u64) -> (Seq<HostCallView>, NextView) {
        let header = seq![HostCallView::ProcessChunk(stats_header())];
        let rate = match self.decode_start {
            Some(first) => seq![
                HostCallView::ProcessChunk(rate_line(self.tokens, elapsed(first, now))),
            ],
            None => seq![],
        };
        let total = seq![
            HostCallView::ProcessChunk(total_line(elapsed(self.prompt_start, now))),
        ];
        (header + rate + total, NextView::Done(self.accum))
    }

    /// A heartbeat: until the first delta it replaces what is shown by the
    /// time waited so far; after that it shows nothing.
    pub open spec fn on_tick(self, at: u64) -> (Seq<HostCallView>, NextView) {
        let calls = if self.tokens == 0 {
            seq![
                HostCallView::ClearOutput,
                HostCallView::ProcessChunk(processing_line(elapsed(self.prompt_start, at))),
            ]
        } else {
            seq![]
        };
        (calls, NextView::Continue(self))
    }

    /// The host calls that an event asks for, in order, and how the session
    /// goes on.
    pub open spec fn step(self, event: SessionEventView) -> (Seq<HostCallView>, NextView) {
        match event {
            SessionEventView::Item { item, now } => self.on_item(item, now),
            SessionEventView::StreamEnd { now } => self.on_stream_end(now),
            SessionEventView::Tick { at } => self.on_tick(at),
            SessionEventView::Cancel => (seq![], NextView::Failed(SessionErrorView::Cancelled)),
        }
    }
}

/// The statistics of a session. Times are in nanoseconds.
#[derive(Clone, Copy, Debug, PartialEq, Eq)]
pub struct SessionStats {
    /// Number of deltas received.
    pub tokens_generated: usize,
    /// When the request started.
    pub prompt_start: u64,
    /// When the first delta came, if one has.
    pub decode_start: Option<u64>,
}

/// A running session.
#[derive(Debug, PartialEq, Eq)]
pub struct Session {
    accum: String,
    tokens_generated: usize,
    prompt_start: u64,
    decode_start: Option<u64>,
}

impl View for Session {
    type V = SessionView;

    closed spec fn view(&self) -> SessionView {
        SessionView {
            accum: self.accum@,
            tokens: self.tokens_generated as nat,
            prompt_start: self.prompt_start,
            decode_start: self.decode_start,
        }
    }
}

/// How a session goes on after a step.
#[derive(Debug, PartialEq, Eq)]
pub enum Next {
    /// The session waits for its next event.
    Continue(Session),
    /// The stream has ended: the whole text of the answer.
    Done(String),
    /// The session failed. What was sent to the host stays sent.
    Failed(SessionError),
}

impl View for Next {
    type V = NextView;

    open spec fn view(&self) -> NextView {
        match *self {
            Next::Continue(session) => NextView::Continue(session@),
            Next::Done(text) => NextView::Done(text@),
            Next::Failed(error) => NextView::Failed(error@),
        }
    }
}

/// What one step asks of whoever runs the session.
#[derive(Debug, PartialEq, Eq)]
pub struct Step {
    /// The calls to make on the host, in this order.
    pub calls: Vec<HostCall>,
    /// How the session goes on.
    pub next: Next,
}

/// Writes [`processing_line`].
pub fn processing_text(nanos: u64) -> (s: String)
    ensures
        s@ == processing_line(nanos),
{
    let mut s: String = String::from_str("Processing... ");
    push_seconds(&mut s, nanos);
    s.append("s");
    s
}

/// Writes [`rate_line`].
pub fn rate_text_line(tokens: usize, nanos: u64) -> (s: String)
    ensures
        s@ == rate_line(tokens as nat, nanos),
{
    let mut s: String = String::from_str("\nGenerated ");
    push_decimal(&mut s, tokens as u128);
    s.append(" tokens at ");
    push_rate(&mut s, tokens, nanos);
    s.append(" token/s.");
    s
}

/// Writes [`total_line`].
pub fn total_text(nanos: u64) -> (s: String)
    ensures
        s@ == total_line(nanos),
{
    let mut s: String = String::from_str("\nTotal time: ");
    push_seconds(&mut s, nanos);
    s.append("s.");
    s
}

/// Computes [`elapsed`].
pub fn elapsed_between(start: u64, now: u64) -> (nanos: u64)
    ensures
        nanos == elapsed(start, now),
{
    if now >= start {
        now - start
    } else {
        0
    }
}

impl Session {
    #[verifier::type_invariant]
    spec fn inv(self) -> bool {
        &&& self.decode_start is Some <==> self.tokens_generated > 0
        &&& self.tokens_generated == 0 ==> self.accum@.len() == 0
    }

    /// Starts a session at `now`. The first thing the host is asked is to
    /// clear its output.
    pub fn begin(now: u64) -> (r: (Session, Vec<HostCall>))
        ensures
            r.0@ == SessionView::begin(now),
            calls_view(r.1@) == seq![HostCallView::ClearOutput],
    {
        let session = Session {
            accum: String::new(),
            tokens_generated: 0,
            prompt_start: now,
            decode_start: None,
        };
        let mut calls: Vec<HostCall> = Vec::new();
        calls.push(HostCall::ClearOutput);
        assert(calls_view(calls@) =~= seq![HostCallView::ClearOutput]);
        (session, calls)
    }

    /// Number of deltas received so far.
    pub fn tokens_generated(&self) -> (n: usize)
        ensures
            n == self@.tokens,
            self@.well_formed(),
    {
        proof {
            use_type_invariant(self);
        }
        self.tokens_generated
    }

    /// The statistics so far.
    pub fn stats(&self) -> (stats: SessionStats)
        ensures
            stats.tokens_generated == self@.tokens,
            stats.prompt_start == self@.prompt_start,
            stats.decode_start == self@.decode_start,
            self@.well_formed(),
    {
        proof {
            use_type_invariant(self);
        }
        SessionStats {
            tokens_generated: self.tokens_generated,
            prompt_start: self.prompt_start,
            decode_start: self.decode_start,
        }
    }

    /// The text received so far.
    pub fn text(&self) -> (t: &str)
        ensures
            t@ == self@.accum,
    {
        self.accum.as_str()
    }

    /// Takes one event: gives the host calls it asks for and how the session
    /// goes on. A delta is counted, so the counter must have room for it; any
    /// other event is taken whatever the count.
    pub fn step(self, event: SessionEvent) -> (r: Step)
        requires
            event@.carries_delta() ==> self@.tokens < usize::MAX,
        ensures
            (calls_view(r.calls@), r.next@) == self@.step(event@),
            self@.well_formed(),
            r.next matches Next::Continue(after) ==> after@.well_formed(),
    {
        proof {
            use_type_invariant(&self);
        }
        match event {
            SessionEvent::Item { item, now } => self.take_item(item, now),
            SessionEvent::StreamEnd { now } => self.finish(now),
            SessionEvent::Tick { at } => self.tick(at),
            SessionEvent::Cancel => {
                let r = Step { calls: Vec::new(), next: Next::Failed(SessionError::Cancelled) };
                assert(calls_view(r.calls@) =~= seq![]);
                r
            },
        }
    }

    fn take_item(self, item: StreamItem, now: u64) -> (r: Step)
        requires
            (SessionEventView::Item { item: item@, now }).carries_delta() ==> self@.tokens
                < usize::MAX,
        ensures
            (calls_view(r.calls@), r.next@) == self@.on_item(item@, now),
            r.next matches Next::Continue(after) ==> after@.well_formed(),
    {
        proof {
            use_type_invariant(&self);
        }
        match item {
            StreamItem::Failed(message) => failed(SessionError::StreamFailed(message)),
            StreamItem::NotChunk => failed(SessionError::UnexpectedItem),
            StreamItem::Chunk(choices) => {
                let mut choices = choices;
                if choices.len() == 0 {
                    return failed(SessionError::MalformedDelta);
                }
                let first: Option<String> = choices.remove(0);
                match first {
                    None => failed(SessionError::MalformedDelta),
                    Some(text) => self.take_delta(text, now),
                }
            },
        }
    }

    fn take_delta(self, text: String, now: u64) -> (r: Step)
        requires
            self@.tokens < usize::MAX,
        ensures
            (calls_view(r.calls@), r.next@) == self@.on_delta(text@, now),
            r.next matches Next::Continue(after) ==> after@.well_formed(),
    {
        proof {
            use_type_invariant(&self);
        }
        let Session { accum, tokens_generated, prompt_start, decode_start } = self;
        let mut accum = accum;
        accum.append(text.as_str());
        let mut calls: Vec<HostCall> = Vec::new();
        if tokens_generated == 0 {
            calls.push(HostCall::ClearOutput);
        }
        calls.push(HostCall::ProcessChunk(text));
        let after = Session {
            accum,
            tokens_generated: tokens_generated + 1,
            prompt_start,
            decode_start: if decode_start.is_none() {
                Some(now)
            } else {
                decode_start
            },
        };
        assert(calls_view(calls@) =~= self@.on_delta(text@, now).0);
        Step { calls, next: Next::Continue(after) }
    }

    fn finish(self, now: u64) -> (r: Step)
        ensures
            (calls_view(r.calls@), r.next@) == self@.on_stream_end(now),
    {
        let mut calls: Vec<HostCall> = Vec::new();
        calls.push(HostCall::ProcessChunk(String::from_str("\n\nStats:")));
        match self.decode_start {
            Some(first) => {
                let nanos: u64 = elapsed_between(first, now);
                calls.push(HostCall::ProcessChunk(rate_text_line(self.tokens_generated, nanos)));
            },
            None => {},
        }
        let total: u64 = elapsed_between(self.prompt_start, now);
        calls.push(HostCall::ProcessChunk(total_text(total)));
        assert(calls_view(calls@) =~= self@.on_stream_end(now).0);
        Step { calls, next: Next::Done(self.accum) }
    }

    fn tick(self, at: u64) -> (r: Step)
        ensures
            (calls_view(r.calls@), r.next@) == self@.on_tick(at),
            r.next matches Next::Continue(after) ==> after@.well_formed(),
    {
        proof {
            use_type_invariant(&self);
        }
        let mut calls: Vec<HostCall> = Vec::new();
        if self.tokens_generated == 0 {
            let nanos: u64 = elapsed_between(self.prompt_start, at);
            calls.push(HostCall::ClearOutput);
            calls.push(HostCall::ProcessChunk(processing_text(nanos)));
        }
        assert(calls_view(calls@) =~= self@.on_tick(at).0);
        Step { calls, next: Next::Continue(self) }
    }
}

/// A step that ends the session in failure, with nothing for the host.
fn failed(error: SessionError) -> (r: Step)
    ensures
        calls_view(r.calls@) == Seq::<HostCallView>::empty(),
        r.next@ == NextView::Failed(error@),
{
    let r = Step { calls: Vec::new(), next: Next::Failed(error) };
    assert(calls_view(r.calls@) =~= Seq::<HostCallView>::empty());
    r
}

/// A step keeps a session well formed.
pub proof fn lemma_step_keeps_well_formed(session: SessionView, event: SessionEventView)
    requires
        session.well_formed(),
    ensures
        session.step(event).1 matches NextView::Continue(after) ==> after.well_formed(),
{
}

/// At the end of the stream the rate is given exactly when a delta was
/// received; the header and the total time are given either way, and the
/// result is the text received.
pub proof fn lemma_stats_at_stream_end(session: SessionView, now: u64)
    requires
        session.well_formed(),
    ensures
        session.on_stream_end(now).1 == NextView::Done(session.accum),
        session.tokens == 0 ==> session.on_stream_end(now).0 == seq![
            HostCallView::ProcessChunk(stats_header()),
            HostCallView::ProcessChunk(total_line(elapsed(session.prompt_start, now))),
        ],
        session.tokens > 0 ==> session.on_stream_end(now).0 == seq![
            HostCallView::ProcessChunk(stats_header()),
            HostCallView::ProcessChunk(
                rate_line(session.tokens, elapsed(session.decode_start->Some_0, now)),
            ),
            HostCallView::ProcessChunk(total_line(elapsed(session.prompt_start, now))),
        ],
{
    let calls = session.on_stream_end(now).0;
    if session.tokens == 0 {
        assert(calls =~= seq![
            HostCallView::ProcessChunk(stats_header()),
            HostCallView::ProcessChunk(total_line(elapsed(session.prompt_start, now))),
        ]);
    } else {
        assert(calls =~= seq![
            HostCallView::ProcessChunk(stats_header()),
            HostCallView::ProcessChunk(
                rate_line(session.tokens, elapsed(session.decode_start->Some_0, now)),
            ),
            HostCallView::ProcessChunk(total_line(elapsed(session.prompt_start, now))),
        ]);
    }
}

/// From the first delta on, what the host shows is the text received so far:
/// the first delta replaces the heartbeat's line, later deltas are appended,
/// and no heartbeat writes in between.
pub proof fn lemma_host_shows_text_received(
    session: SessionView,
    shown: Seq<char>,
    event: SessionEventView,
)
    requires
        session.well_formed(),
        session.tokens > 0 ==> shown == session.accum,
    ensures
        session.step(event).1 matches NextView::Continue(after) ==> (after.tokens > 0
            ==> shown_after(shown, session.step(event).0) == after.accum),
{
    reveal_with_fuel(shown_after, 3);
    let calls = session.step(event).0;
    match session.step(event).1 {
        NextView::Continue(after) => {
            if after.tokens > 0 {
                if calls.len() == 0 {
                } else if calls.len() == 1 {
                    assert(calls.drop_last() =~= Seq::<HostCallView>::empty());
                } else {
                    assert(calls.len() == 2);
                    assert(calls.drop_last() =~= seq![HostCallView::ClearOutput]);
                    assert(calls.drop_last().drop_last() =~= Seq::<HostCallView>::empty());
                    assert(Seq::<char>::empty() + after.accum =~= after.accum);
                }
            }
        },
        _ => {},
    }
}

/// What a series of events asks of the host, in order, and how the session
/// stands after it. A session that has ended takes no more events.
pub open spec fn run(session: SessionView, events: Seq<SessionEventView>) -> (
    Seq<HostCallView>,
    NextView,
)
    decreases events.len(),
{
    if events.len() == 0 {
        (seq![], NextView::Continue(session))
    } else {
        let before = run(session, events.drop_last());
        match before.1 {
            NextView::Continue(current) => {
                let last = current.step(events.last());
                (before.0 + last.0, last.1)
            },
            _ => before,
        }
    }
}

/// Whatever the events and their order, a session that is still running
/// after them is well formed, and from its first delta on the host shows
/// exactly the text received: heartbeats and deltas never mix on the screen.
pub proof fn lemma_run_shows_text_received(
    session: SessionView,
    shown: Seq<char>,
    events: Seq<SessionEventView>,
)
    requires
        session.well_formed(),
        session.tokens > 0 ==> shown == session.accum,
    ensures
        run(session, events).1 matches NextView::Continue(after) ==> {
            &&& after.well_formed()
            &&& after.tokens > 0 ==> shown_after(shown, run(session, events).0) == after.accum
        },
    decreases events.len(),
{
    if events.len() == 0 {
    } else {
        let before = run(session, events.drop_last());
        lemma_run_shows_text_received(session, shown, events.drop_last());
        match before.1 {
            NextView::Continue(current) => {
                let last = current.step(events.last());
                let shown_before = shown_after(shown, before.0);
                lemma_step_keeps_well_formed(current, events.last());
                lemma_shown_after_concat(shown, before.0, last.0);
                lemma_host_shows_text_received(current, shown_before, events.last());
            },
            _ => {},
        }
    }
}

/// Whatever came before, the end of the stream ends a running session with
/// the text received up to then as its result.
pub proof fn lemma_session_returns_text_received(
    session: SessionView,
    events: Seq<SessionEventView>,
    now: u64,
)
    requires
        run(session, events).1 is Continue,
    ensures
        run(session, events.push(SessionEventView::StreamEnd { now })).1 == NextView::Done(
            run(session, events).1->Continue_0.accum,
        ),
{
    let all = events.push(SessionEventView::StreamEnd { now });
    assert(all.drop_last() =~= events);
}

/// The events of a stream that gives the deltas `texts`, one choice each, the
/// `k`-th taken up at `times[k]`.
pub open spec fn delta_events(texts: Seq<Seq<char>>, times: Seq<u64>) -> Seq<SessionEventView> {
    Seq::new(
        texts.len(),
        |k: int|
            SessionEventView::Item {
                item: StreamItemView::Chunk(seq![Some(texts[k])]),
                now: times[k],
            },
    )
}

/// The deltas joined in order.
pub open spec fn joined(texts: Seq<Seq<char>>) -> Seq<char>
    decreases texts.len(),
{
    if texts.len() == 0 {
        Seq::empty()
    } else {
        joined(texts.drop_last()) + texts.last()
    }
}

/// One chunk for the host for each delta, in order.
pub open spec fn forwarded(texts: Seq<Seq<char>>) -> Seq<HostCallView> {
    Seq::new(texts.len(), |k: int| HostCallView::ProcessChunk(texts[k]))
}

/// What a whole session asks of the host, from the clear that opens it.
pub open spec fn session_calls(start: u64, events: Seq<SessionEventView>) -> Seq<HostCallView> {
    seq![HostCallView::ClearOutput] + run(SessionView::begin(start), events).0
}

/// A session that has taken deltas and nothing else has forwarded each of
/// them in order, after one clear before the first, holds their text joined,
/// has counted them, and has timed the first.
pub proof fn lemma_run_of_deltas(start: u64, texts: Seq<Seq<char>>, times: Seq<u64>)
    requires
        times.len() == texts.len(),
    ensures
        run(SessionView::begin(start), delta_events(texts, times)).0 == if texts.len() == 0 {
            Seq::<HostCallView>::empty()
        } else {
            seq![HostCallView::ClearOutput] + forwarded(texts)
        },
        run(SessionView::begin(start), delta_events(texts, times)).1 == NextView::Continue(
            SessionView {
                accum: joined(texts),
                tokens: texts.len(),
                prompt_start: start,
                decode_start: if texts.len() == 0 {
                    None
                } else {
                    Some(times[0])
                },
            },
        ),
    decreases texts.len(),
{
    let events = delta_events(texts, times);
    if texts.len() == 0 {
        assert(run(SessionView::begin(start), events).0 =~= Seq::<HostCallView>::empty());
    } else {
        let n = texts.len() - 1;
        let before_texts = texts.drop_last();
        let before_times = times.take(n);
        assert(events.drop_last() =~= delta_events(before_texts, before_times));
        lemma_run_of_deltas(start, before_texts, before_times);
        let before = run(SessionView::begin(start), events.drop_last());
        let current = before.1->Continue_0;
        let choices = seq![Some(texts[n])];
        assert(events.last() == SessionEventView::Item {
            item: StreamItemView::Chunk(choices),
            now: times[n],
        });
        assert(choices[0] == Some(texts[n]));
        let last = current.step(events.last());
        assert(last == current.on_delta(texts[n], times[n]));
        assert(forwarded(texts) =~= forwarded(before_texts) + seq![
            HostCallView::ProcessChunk(texts[n]),
        ]);
        if n > 0 {
            assert(before_times[0] == times[0]);
        }
        assert(before.0 + last.0 =~= seq![HostCallView::ClearOutput] + forwarded(texts));
    }
}

/// A stream that gives deltas and then ends: the host is asked, in order, for
/// the clear that opens the session, a clear before the first delta, each
/// delta as it is, and the statistics, with the rate only if a delta came;
/// the result is the deltas joined. On a slot that holds a handle nothing
/// comes before this, as [`crate::loader::begin_load`] says.
pub proof fn lemma_streamed_request(
    start: u64,
    texts: Seq<Seq<char>>,
    times: Seq<u64>,
    end: u64,
)
    requires
        times.len() == texts.len(),
    ensures
        ({
            let events = delta_events(texts, times).push(SessionEventView::StreamEnd { now: end });
            let opening = seq![HostCallView::ClearOutput];
            let header = seq![HostCallView::ProcessChunk(stats_header())];
            let total = seq![HostCallView::ProcessChunk(total_line(elapsed(start, end)))];
            &&& run(SessionView::begin(start), events).1 == NextView::Done(joined(texts))
            &&& texts.len() == 0 ==> session_calls(start, events) == opening + header + total
            &&& texts.len() > 0 ==> session_calls(start, events) == opening + opening + forwarded(
                texts,
            ) + header + seq![
                HostCallView::ProcessChunk(
                    rate_line(texts.len(), elapsed(times[0], end)),
                ),
            ] + total
        }),
{
    let deltas = delta_events(texts, times);
    let events = deltas.push(SessionEventView::StreamEnd { now: end });
    lemma_run_of_deltas(start, texts, times);
    assert(events.drop_last() =~= deltas);
    let before = run(SessionView::begin(start), deltas);
    let current = before.1->Continue_0;
    lemma_stats_at_stream_end(current, end);
    let opening = seq![HostCallView::ClearOutput];
    let header = seq![HostCallView::ProcessChunk(stats_header())];
    let total = seq![HostCallView::ProcessChunk(total_line(elapsed(start, end)))];
    if texts.len() == 0 {
        assert(session_calls(start, events) =~= opening + header + total);
    } else {
        assert(session_calls(start, events) =~= opening + opening + forwarded(texts) + header
            + seq![
            HostCallView::ProcessChunk(rate_line(texts.len(), elapsed(times[0], end))),
        ] + total);
    }
}

} // verus!
