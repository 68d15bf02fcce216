//! The ingestion loop as a state machine. The caller does the waiting and
//! the I/O: it hands each event to [`ScanSession::step`] with the time
//! elapsed since the session began, and performs the action that comes back.

use crate::airodump::{
    classify, classify_line, lemma_classified_access_point, Record, RecordView,
};
use crate::topology::{lemma_upserts_keep_wf, Snapshot, TopologyStore, TopologyView};
use vstd::prelude::*;

verus! {

/// Milliseconds between two snapshots for the renderer.
pub const SNAPSHOT_INTERVAL_MS: u64 = 2000;

/// Milliseconds after an interval boundary during which a snapshot is due.
pub const SNAPSHOT_WINDOW_MS: u64 = 500;

/// Where a session stands.
#[derive(Clone, Copy, Debug, PartialEq, Eq, Structural)]
pub enum SessionState {
    /// The scanning process is being launched.
    Starting,
    /// Lines are being ingested.
    Running,
    /// Ingestion is over; the process has been asked to end and its exit is
    /// awaited.
    Draining,
    /// The session is over.
    Terminated,
}

/// What the caller does after a step.
#[derive(Clone, Copy, Debug, PartialEq, Eq, Structural)]
pub enum SessionAction {
    /// Nothing; wait for the next event.
    Continue,
    /// Warn that the preparatory step failed; the launch goes ahead.
    Warn,
    /// Hand the renderer a snapshot.
    Render,
    /// Ask the supervisor to end the process, and wait for its exit.
    Terminate,
    /// Hand the renderer the final snapshot and report the session
    /// completed.
    Finish,
    /// Report that the process could not be launched.
    Fail,
}

/// What happened outside.
#[derive(Debug, PartialEq, Eq)]
pub enum SessionEvent {
    /// The preparatory step ended; `true` where it succeeded.
    Prepared(bool),
    /// The scanning process started.
    Launched,
    /// The scanning process could not be started.
    LaunchFailed,
    /// A line arrived on the primary channel.
    Line(String),
    /// Time passed without a line.
    Idle,
    /// The primary channel closed.
    ChannelClosed,
    /// Reading the primary channel failed.
    ReadFailed,
    /// The operator asked to stop.
    Cancelled,
    /// The scanning process has exited.
    Exited,
}

/// What a [`SessionEvent`] holds, as plain values.
pub enum SessionEventView {
    Prepared(bool),
    Launched,
    LaunchFailed,
    Line(Seq<char>),
    Idle,
    ChannelClosed,
    ReadFailed,
    Cancelled,
    Exited,
}

impl View for SessionEvent {
    type V = SessionEventView;

    open spec fn view(&self) -> SessionEventView {
        match self {
            SessionEvent::Prepared(ok) => SessionEventView::Prepared(*ok),
            SessionEvent::Launched => SessionEventView::Launched,
            SessionEvent::LaunchFailed => SessionEventView::LaunchFailed,
            SessionEvent::Line(line) => SessionEventView::Line(line@),
            SessionEvent::Idle => SessionEventView::Idle,
            SessionEvent::ChannelClosed => SessionEventView::ChannelClosed,
            SessionEvent::ReadFailed => SessionEventView::ReadFailed,
            SessionEvent::Cancelled => SessionEventView::Cancelled,
            SessionEvent::Exited => SessionEventView::Exited,
        }
    }
}

/// What a [`ScanSession`] holds, as plain values.
pub struct SessionView {
    /// Where the session stands.
    pub state: SessionState,
    /// Seconds the session may run; 0 for no limit.
    pub duration_secs: u64,
    /// Whether the launch failed.
    pub launch_failed: bool,
    /// What has been observed.
    pub store: TopologyView,
}

/// A session with a limit has reached its deadline once the limit has
/// elapsed since it began; a session without a limit never does.
pub open spec fn deadline_reached(duration_secs: u64, elapsed_ms: u64) -> bool {
    duration_secs > 0 && elapsed_ms >= duration_secs * 1000
}

/// A snapshot is due during the first half second of every two-second
/// interval.
pub open spec fn snapshot_due(elapsed_ms: u64) -> bool {
    elapsed_ms % SNAPSHOT_INTERVAL_MS < SNAPSHOT_WINDOW_MS
}

/// The store after a line of the stream: an access point or a client is
/// recorded, and any other line changes nothing.
pub open spec fn ingest(store: TopologyView, line: Seq<char>) -> TopologyView {
    match classify(line) {
        RecordView::AccessPoint(network) => store.upsert_access_point(network),
        RecordView::Client(client) => store.upsert_client(client),
        RecordView::NoRecord => store,
    }
}

/// The action that goes with the clock alone.
pub open spec fn tick_action(elapsed_ms: u64) -> SessionAction {
    if snapshot_due(elapsed_ms) {
        SessionAction::Render
    } else {
        SessionAction::Continue
    }
}

impl SessionView {
    /// A session before its launch.
    pub open spec fn start(duration_secs: u64) -> SessionView {
        SessionView {
            state: SessionState::Starting,
            duration_secs,
            launch_failed: false,
            store: TopologyView::empty(),
        }
    }

    /// The store is well formed, and only a session that is over can have
    /// failed to launch.
    pub open spec fn wf(self) -> bool {
        &&& self.store.wf()
        &&& self.launch_failed ==> self.state == SessionState::Terminated
    }

    /// The same session in another state.
    pub open spec fn moved_to(self, state: SessionState) -> SessionView {
        SessionView {
            state,
            duration_secs: self.duration_secs,
            launch_failed: self.launch_failed,
            store: self.store,
        }
    }

    /// The same session with another store.
    pub open spec fn holding(self, store: TopologyView) -> SessionView {
        SessionView {
            state: self.state,
            duration_secs: self.duration_secs,
            launch_failed: self.launch_failed,
            store,
        }
    }

    /// The session after a failed launch.
    pub open spec fn failed(self) -> SessionView {
        SessionView {
            state: SessionState::Terminated,
            duration_secs: self.duration_secs,
            launch_failed: true,
            store: self.store,
        }
    }

    /// One step of the session: the state after an event that arrives
    /// `elapsed_ms` after the session began, and the action for the caller.
    ///
    /// Before the launch only its outcome counts. While running, the
    /// deadline comes first: once it is reached, any event ends ingestion.
    /// Before that a line is ingested, a closed or failed channel and a
    /// stop request end ingestion, and the clock says when to render. While
    /// draining only the exit of the process counts. A session that is over
    /// stays over.
    pub open spec fn step(self, event: SessionEventView, elapsed_ms: u64) -> (
        SessionView,
        SessionAction,
    ) {
        match self.state {
            SessionState::Starting => match event {
                SessionEventView::Prepared(ok) => (
                    self,
                    if ok {
                        SessionAction::Continue
                    } else {
                        SessionAction::Warn
                    },
                ),
                SessionEventView::Launched => (
                    self.moved_to(SessionState::Running),
                    SessionAction::Continue,
                ),
                SessionEventView::LaunchFailed => (self.failed(), SessionAction::Fail),
                _ => (self, SessionAction::Continue),
            },
            SessionState::Running => if deadline_reached(self.duration_secs, elapsed_ms) {
                (self.moved_to(SessionState::Draining), SessionAction::Terminate)
            } else {
                match event {
                    SessionEventView::Line(line) => (
                        self.holding(ingest(self.store, line)),
                        tick_action(elapsed_ms),
                    ),
                    SessionEventView::Idle => (self, tick_action(elapsed_ms)),
                    SessionEventView::ChannelClosed
                    | SessionEventView::ReadFailed
                    | SessionEventView::Cancelled => (
                        self.moved_to(SessionState::Draining),
                        SessionAction::Terminate,
                    ),
                    _ => (self, SessionAction::Continue),
                }
            },
            SessionState::Draining => match event {
                SessionEventView::Exited => (
                    self.moved_to(SessionState::Terminated),
                    SessionAction::Finish,
                ),
                _ => (self, SessionAction::Continue),
            },
            SessionState::Terminated => (self, SessionAction::Continue),
        }
    }
}

/// One survey session: its state, its time limit and its store.
pub struct ScanSession {
    state: SessionState,
    duration_secs: u64,
    launch_failed: bool,
    store: TopologyStore,
}

impl View for ScanSession {
    type V = SessionView;

    closed spec fn view(&self) -> SessionView {
        SessionView {
            state: self.state,
            duration_secs: self.duration_secs,
            launch_failed: self.launch_failed,
            store: self.store@,
        }
    }
}

/// Tells whether a session with the limit `duration_secs` has reached its
/// deadline `elapsed_ms` after it began.
pub fn is_deadline_reached(duration_secs: u64, elapsed_ms: u64) -> (reached: bool)
    ensures
        reached == deadline_reached(duration_secs, elapsed_ms),
{
    duration_secs > 0 && elapsed_ms / 1000 >= duration_secs
}

/// Tells whether a snapshot is due `elapsed_ms` after the session began.
pub fn is_snapshot_due(elapsed_ms: u64) -> (due: bool)
    ensures
        due == snapshot_due(elapsed_ms),
{
    elapsed_ms % SNAPSHOT_INTERVAL_MS < SNAPSHOT_WINDOW_MS
}

/// Records what a line of the stream holds, if anything.
pub fn ingest_line(store: &mut TopologyStore, line: &str)
    requires
        old(store)@.wf(),
    ensures
        final(store)@ == ingest(old(store)@, line@),
        final(store)@.wf(),
{
    match classify_line(line) {
        Record::AccessPoint(network) => {
            proof {
                lemma_classified_access_point(line@);
            }
            store.upsert_access_point(network);
        },
        Record::Client(client) => {
            store.upsert_client(client);
        },
        Record::NoRecord => {},
    }
}

impl ScanSession {
    /// A session that may run for `duration_secs` seconds, or without limit
    /// where that is 0. It starts with an empty store, before the launch.
    pub fn new(duration_secs: u64) -> (session: Self)
        ensures
            session@ == SessionView::start(duration_secs),
            session@.wf(),
    {
        ScanSession {
            state: SessionState::Starting,
            duration_secs,
            launch_failed: false,
            store: TopologyStore::new(),
        }
    }

    /// Where the session stands.
    pub fn state(&self) -> (state: SessionState)
        ensures
            state == self@.state,
    {
        self.state
    }

    /// Whether the launch failed.
    pub fn launch_failed(&self) -> (failed: bool)
        ensures
            failed == self@.launch_failed,
    {
        self.launch_failed
    }

    /// What has been observed so far.
    pub fn store(&self) -> (store: &TopologyStore)
        ensures
            store@ == self@.store,
    {
        &self.store
    }

    /// A copy of what has been observed so far.
    pub fn snapshot(&self) -> (snap: Snapshot)
        ensures
            snap@ == self@.store,
    {
        self.store.snapshot()
    }

    /// Takes one event, which arrived `elapsed_ms` after the session began,
    /// and says what the caller is to do.
    pub fn step(&mut self, event: SessionEvent, elapsed_ms: u64) -> (action: SessionAction)
        requires
            old(self)@.wf(),
        ensures
            (final(self)@, action) == old(self)@.step(event@, elapsed_ms),
            final(self)@.wf(),
    {
        match self.state {
            SessionState::Starting => match event {
                SessionEvent::Prepared(ok) => if ok {
                    SessionAction::Continue
                } else {
                    SessionAction::Warn
                },
                SessionEvent::Launched => {
                    self.state = SessionState::Running;
                    SessionAction::Continue
                },
                SessionEvent::LaunchFailed => {
                    self.state = SessionState::Terminated;
                    self.launch_failed = true;
                    SessionAction::Fail
                },
                _ => SessionAction::Continue,
            },
            SessionState::Running => {
                if is_deadline_reached(self.duration_secs, elapsed_ms) {
                    self.state = SessionState::Draining;
                    return SessionAction::Terminate;
                }
                let due = is_snapshot_due(elapsed_ms);
                match event {
                    SessionEvent::Line(line) => {
                        ingest_line(&mut self.store, line.as_str());
                        if due {
                            SessionAction::Render
                        } else {
                            SessionAction::Continue
                        }
                    },
                    SessionEvent::Idle => if due {
                        SessionAction::Render
                    } else {
                        SessionAction::Continue
                    },
                    SessionEvent::ChannelClosed
                    | SessionEvent::ReadFailed
                    | SessionEvent::Cancelled => {
                        self.state = SessionState::Draining;
                        SessionAction::Terminate
                    },
                    _ => SessionAction::Continue,
                }
            },
            SessionState::Draining => match event {
                SessionEvent::Exited => {
                    self.state = SessionState::Terminated;
                    SessionAction::Finish
                },
                _ => SessionAction::Continue,
            },
            SessionState::Terminated => SessionAction::Continue,
        }
    }
}

/// How far a session has come: states are passed in this order and never
/// entered again.
pub open spec fn progress(state: SessionState) -> nat {
    match state {
        SessionState::Starting => 0,
        SessionState::Running => 1,
        SessionState::Draining => 2,
        SessionState::Terminated => 3,
    }
}

/// Number of termination requests among the actions.
pub open spec fn terminations(actions: Seq<SessionAction>) -> nat
    decreases actions.len(),
{
    if actions.len() == 0 {
        0
    } else {
        terminations(actions.drop_last()) + if actions.last() == SessionAction::Terminate {
            1nat
        } else {
            0nat
        }
    }
}

/// Number of termination requests that lie behind a session: one once
/// ingestion has ended, none before that or where the launch failed.
pub open spec fn terminations_behind(session: SessionView) -> nat {
    match session.state {
        SessionState::Starting | SessionState::Running => 0,
        SessionState::Draining => 1,
        SessionState::Terminated => if session.launch_failed {
            0
        } else {
            1
        },
    }
}

/// The session after a run of events, each with the time at which it
/// arrived, and the actions the caller was given, in order.
pub open spec fn run(session: SessionView, events: Seq<(SessionEventView, u64)>) -> (
    SessionView,
    Seq<SessionAction>,
)
    decreases events.len(),
{
    if events.len() == 0 {
        (session, Seq::empty())
    } else {
        let (reached, actions) = run(session, events.drop_last());
        let (next, action) = reached.step(events.last().0, events.last().1);
        (next, actions.push(action))
    }
}

/// Ingesting a line keeps the store well formed.
pub proof fn lemma_ingest_keeps_wf(store: TopologyView, line: Seq<char>)
    requires
        store.wf(),
    ensures
        ingest(store, line).wf(),
{
    lemma_classified_access_point(line);
    match classify(line) {
        RecordView::AccessPoint(network) => {
            lemma_upserts_keep_wf(store, network, arbitrary());
        },
        RecordView::Client(client) => {
            lemma_upserts_keep_wf(store, arbitrary(), client);
        },
        RecordView::NoRecord => {},
    }
}

/// Once the deadline of a running session is reached, the next event ends
/// ingestion, whatever it is, a line included: the session drains, the
/// caller is told to terminate the process, and the store is as it was.
pub proof fn lemma_deadline_ends_ingestion(
    session: SessionView,
    event: SessionEventView,
    elapsed_ms: u64,
)
    requires
        session.state == SessionState::Running,
        deadline_reached(session.duration_secs, elapsed_ms),
    ensures
        session.step(event, elapsed_ms) == (
            session.moved_to(SessionState::Draining),
            SessionAction::Terminate,
        ),
{
}

/// Before its deadline a running session is not ended by lines or by the
/// passing of time, and a session without a limit has no deadline.
pub proof fn lemma_ingestion_lasts(session: SessionView, event: SessionEventView, elapsed_ms: u64)
    requires
        session.state == SessionState::Running,
        event is Line || event is Idle,
    ensures
        session.duration_secs == 0 ==> !deadline_reached(session.duration_secs, elapsed_ms),
        !deadline_reached(session.duration_secs, elapsed_ms) ==> session.step(
            event,
            elapsed_ms,
        ).0.state == SessionState::Running,
        session.step(event, elapsed_ms).0.state == SessionState::Draining ==> elapsed_ms
            >= session.duration_secs * 1000,
{
}

/// One step never goes back, requests termination exactly when it leaves
/// the running state, changes the store only while running, and keeps the
/// session well formed.
pub proof fn lemma_step(session: SessionView, event: SessionEventView, elapsed_ms: u64)
    requires
        session.wf(),
    ensures
        session.step(event, elapsed_ms).0.wf(),
        progress(session.state) <= progress(session.step(event, elapsed_ms).0.state),
        session.step(event, elapsed_ms).1 == SessionAction::Terminate <==> session.state
            == SessionState::Running && session.step(event, elapsed_ms).0.state
            == SessionState::Draining,
        terminations_behind(session.step(event, elapsed_ms).0) == terminations_behind(session)
            + if session.step(event, elapsed_ms).1 == SessionAction::Terminate {
            1nat
        } else {
            0nat
        },
        session.step(event, elapsed_ms).0.duration_secs == session.duration_secs,
        session.state != SessionState::Running ==> session.step(event, elapsed_ms).0.store
            == session.store,
{
    if let SessionEventView::Line(line) = event {
        lemma_ingest_keeps_wf(session.store, line);
    }
}

/// Over any run of events the termination request is issued at most once:
/// exactly once where the run takes the session out of the running state,
/// and never before that or where the launch failed. The session never goes
/// back to an earlier state, and once ingestion has ended the store stays
/// as it was at that moment.
pub proof fn lemma_terminates_once(session: SessionView, events: Seq<(SessionEventView, u64)>)
    requires
        session.wf(),
    ensures
        run(session, events).0.wf(),
        run(session, events).1.len() == events.len(),
        progress(session.state) <= progress(run(session, events).0.state),
        terminations(run(session, events).1) + terminations_behind(session) == terminations_behind(
            run(session, events).0,
        ),
        terminations(run(session, events).1) <= 1,
        progress(session.state) >= progress(SessionState::Draining) ==> run(
            session,
            events,
        ).0.store == session.store,
    decreases events.len(),
{
    if events.len() > 0 {
        lemma_terminates_once(session, events.drop_last());
        let (reached, actions) = run(session, events.drop_last());
        lemma_step(reached, events.last().0, events.last().1);
        let (next, action) = reached.step(events.last().0, events.last().1);
        assert(actions.push(action).drop_last() =~= actions);
    }
}

/// A session that starts before its launch and is found draining or
/// completed after a run of events has issued exactly one termination
/// request; one found starting, running or failed has issued none.
pub proof fn lemma_termination_count(duration_secs: u64, events: Seq<(SessionEventView, u64)>)
    ensures
        ({
            let (reached, actions) = run(SessionView::start(duration_secs), events);
            terminations(actions) == if reached.state == SessionState::Draining || (reached.state
                == SessionState::Terminated && !reached.launch_failed) {
                1nat
            } else {
                0nat
            }
        }),
{
    lemma_terminates_once(SessionView::start(duration_secs), events);
}

} // verus!
