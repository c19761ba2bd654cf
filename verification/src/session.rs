//! One connection from acceptance to teardown, as a state machine.
//!
//! The program that owns the sockets and the process performs each action the
//! session asks for and reports what happened as the next event. The session
//! decides; it never blocks. Waiting for the process to exit has no timeout: a
//! process that never exits holds its connection open.

use crate::auth::{check_password, denial_for, GateAttempt, GateDecision};
use crate::forwarder::{ForwardStatus, Forwarder};
use crate::frame::StreamSource;
use crate::trusted::{decoded_text, error_close_code};
use vstd::prelude::*;
use vstd::string::*;

verus! {

/// Where a connection stands.
#[derive(Clone, Copy, Debug, PartialEq, Eq, Structural)]
pub enum SessionPhase {
    /// Waiting for the verdict on the first message.
    Gate,
    /// The process is to be launched; waiting to hear whether it could be
    /// spawned.
    Launch,
    /// The process was spawned and its two forwarders were started.
    Streaming,
    /// Nothing more will be sent on this connection.
    Closed,
}

/// The session's whole state.
#[derive(Clone, Copy, Debug, PartialEq, Eq, Structural)]
pub struct SessionState {
    pub phase: SessionPhase,
    /// The termination flag: process exit has been observed.
    pub exited: bool,
    /// The stdout forwarder has left its loop.
    pub stdout_stopped: bool,
    /// The stderr forwarder has left its loop.
    pub stderr_stopped: bool,
}

/// What the surrounding program reports to the session.
#[derive(Clone, Debug, PartialEq, Eq)]
pub enum SessionEvent {
    /// Authentication reached a verdict.
    Gate(GateDecision),
    /// The process could not be spawned.
    SpawnFailed,
    /// The process was spawned and both pipes were taken.
    Spawned,
    /// The process exited.
    Exited,
    /// The forwarder of one stream left its loop, cleanly or not.
    Stopped(StreamSource),
}

/// What the session asks the surrounding program to do next.
#[derive(Clone, Debug, PartialEq, Eq)]
pub enum SessionAction {
    /// Wait up to `AUTH_TIMEOUT_SECS` for one message, then `authenticate`.
    AwaitFirstMessage,
    /// Send this diagnostic as text, ignoring send errors, and drop the
    /// connection. No process is spawned.
    Deny(String),
    /// Spawn the process with stdout and stderr piped.
    Spawn,
    /// Send the close frame of `spawn_failure_notice`, then close the sink.
    Refuse,
    /// Start both forwarders and wait for the process to exit.
    Forward,
    /// Publish the termination flag and wait for the forwarders to stop.
    Drain,
    /// Keep waiting for whoever has not reported yet.
    Wait,
    /// Close the sink. This is the connection's last action.
    Close,
    /// The event does not apply in this phase; do nothing.
    Ignore,
}

impl SessionAction {
    /// Whether the action ends the connection.
    pub open spec fn is_final(self) -> bool {
        self is Deny || self is Refuse || self is Close
    }

    /// Whether the action closes the sink.
    pub open spec fn closes_sink(self) -> bool {
        self is Refuse || self is Close
    }
}

/// The close frame sent to a client whose process could not be spawned.
#[derive(Clone, Debug, PartialEq, Eq)]
pub struct CloseNotice {
    /// WebSocket status code.
    pub code: u16,
    /// Short reason for the client.
    pub reason: String,
}

/// The state of a fresh session and its first action: authentication if a
/// secret is configured, the spawn otherwise.
pub open spec fn initial(gated: bool) -> (SessionState, SessionAction) {
    if gated {
        (
            SessionState {
                phase: SessionPhase::Gate,
                exited: false,
                stdout_stopped: false,
                stderr_stopped: false,
            },
            SessionAction::AwaitFirstMessage,
        )
    } else {
        (
            SessionState {
                phase: SessionPhase::Launch,
                exited: false,
                stdout_stopped: false,
                stderr_stopped: false,
            },
            SessionAction::Spawn,
        )
    }
}

/// Whether everything the close waits for has happened: the process exited
/// and both forwarders stopped.
pub open spec fn all_done(s: SessionState) -> bool {
    s.exited && s.stdout_stopped && s.stderr_stopped
}

/// `s` with its phase replaced.
pub open spec fn in_phase(s: SessionState, phase: SessionPhase) -> SessionState {
    SessionState { phase, ..s }
}

/// The session's rule: the state and the action that follow `event` in `s`.
pub open spec fn step(s: SessionState, event: SessionEvent) -> (SessionState, SessionAction) {
    match (s.phase, event) {
        (SessionPhase::Gate, SessionEvent::Gate(GateDecision::Allow)) => (
            in_phase(s, SessionPhase::Launch),
            SessionAction::Spawn,
        ),
        (SessionPhase::Gate, SessionEvent::Gate(GateDecision::Deny(text))) => (
            in_phase(s, SessionPhase::Closed),
            SessionAction::Deny(text),
        ),
        (SessionPhase::Launch, SessionEvent::SpawnFailed) => (
            in_phase(s, SessionPhase::Closed),
            SessionAction::Refuse,
        ),
        (SessionPhase::Launch, SessionEvent::Spawned) => (
            in_phase(s, SessionPhase::Streaming),
            SessionAction::Forward,
        ),
        (SessionPhase::Streaming, SessionEvent::Exited) => if s.exited {
            (s, SessionAction::Ignore)
        } else {
            settle(SessionState { exited: true, ..s }, SessionAction::Drain)
        },
        (SessionPhase::Streaming, SessionEvent::Stopped(StreamSource::Stdout)) => if s.stdout_stopped {
            (s, SessionAction::Ignore)
        } else {
            settle(SessionState { stdout_stopped: true, ..s }, SessionAction::Wait)
        },
        (SessionPhase::Streaming, SessionEvent::Stopped(StreamSource::Stderr)) => if s.stderr_stopped {
            (s, SessionAction::Ignore)
        } else {
            settle(SessionState { stderr_stopped: true, ..s }, SessionAction::Wait)
        },
        _ => (s, SessionAction::Ignore),
    }
}

/// After a report while streaming: close if that was the last one awaited,
/// else carry on with `otherwise`.
pub open spec fn settle(s: SessionState, otherwise: SessionAction) -> (SessionState, SessionAction) {
    if all_done(s) {
        (in_phase(s, SessionPhase::Closed), SessionAction::Close)
    } else {
        (s, otherwise)
    }
}

/// The close frame for a process that could not be spawned: an error status
/// and the reason "command not found".
pub fn spawn_failure_notice() -> (notice: CloseNotice)
    ensures
        notice.code == 1011,
        notice.reason@ == "command not found"@,
{
    CloseNotice { code: error_close_code(), reason: String::from_str("command not found") }
}

/// The per-connection coordinator.
#[derive(Debug)]
pub struct Session {
    state: SessionState,
}

impl View for Session {
    type V = SessionState;

    closed spec fn view(&self) -> SessionState {
        self.state
    }
}

impl Session {
    /// Starts a session. `gated` says whether a secret is configured.
    pub fn begin(gated: bool) -> (started: (Session, SessionAction))
        ensures
            (started.0@, started.1) == initial(gated),
    {
        let phase = if gated {
            SessionPhase::Gate
        } else {
            SessionPhase::Launch
        };
        let state = SessionState { phase, exited: false, stdout_stopped: false, stderr_stopped: false };
        let action = if gated {
            SessionAction::AwaitFirstMessage
        } else {
            SessionAction::Spawn
        };
        (Session { state }, action)
    }

    /// The session's state.
    pub fn state(&self) -> (s: SessionState)
        ensures
            s == self@,
    {
        self.state
    }

    /// The termination flag: true once process exit has been reported.
    /// Forwarders read it to tell a pipe that is empty for now from one that
    /// is closed for good.
    pub fn terminated(&self) -> (flag: bool)
        ensures
            flag == self@.exited,
    {
        self.state.exited
    }

    /// Whether the connection is over.
    pub fn closed(&self) -> (over: bool)
        ensures
            over <==> self@.phase == SessionPhase::Closed,
    {
        self.state.phase == SessionPhase::Closed
    }

    /// Takes one event and says what to do next, as `step` rules.
    pub fn advance(&mut self, event: SessionEvent) -> (action: SessionAction)
        ensures
            (final(self)@, action) == step(old(self)@, event),
    {
        let s = self.state;
        match s.phase {
            SessionPhase::Gate => match event {
                SessionEvent::Gate(GateDecision::Allow) => {
                    self.state.phase = SessionPhase::Launch;
                    SessionAction::Spawn
                },
                SessionEvent::Gate(GateDecision::Deny(text)) => {
                    self.state.phase = SessionPhase::Closed;
                    SessionAction::Deny(text)
                },
                _ => SessionAction::Ignore,
            },
            SessionPhase::Launch => match event {
                SessionEvent::SpawnFailed => {
                    self.state.phase = SessionPhase::Closed;
                    SessionAction::Refuse
                },
                SessionEvent::Spawned => {
                    self.state.phase = SessionPhase::Streaming;
                    SessionAction::Forward
                },
                _ => SessionAction::Ignore,
            },
            SessionPhase::Streaming => match event {
                SessionEvent::Exited => {
                    if s.exited {
                        SessionAction::Ignore
                    } else {
                        self.state.exited = true;
                        self.settle(SessionAction::Drain)
                    }
                },
                SessionEvent::Stopped(StreamSource::Stdout) => {
                    if s.stdout_stopped {
                        SessionAction::Ignore
                    } else {
                        self.state.stdout_stopped = true;
                        self.settle(SessionAction::Wait)
                    }
                },
                SessionEvent::Stopped(StreamSource::Stderr) => {
                    if s.stderr_stopped {
                        SessionAction::Ignore
                    } else {
                        self.state.stderr_stopped = true;
                        self.settle(SessionAction::Wait)
                    }
                },
                _ => SessionAction::Ignore,
            },
            SessionPhase::Closed => SessionAction::Ignore,
        }
    }

    fn settle(&mut self, otherwise: SessionAction) -> (action: SessionAction)
        ensures
            (final(self)@, action) == settle(old(self)@, otherwise),
    {
        if self.state.exited && self.state.stdout_stopped && self.state.stderr_stopped {
            self.state.phase = SessionPhase::Closed;
            SessionAction::Close
        } else {
            otherwise
        }
    }

    /// Joins a forwarder: reports its stop if it has left its loop, and
    /// ignores it while it is still active.
    pub fn report_stopped(&mut self, forwarder: &Forwarder) -> (action: SessionAction)
        ensures
            forwarder@.status != ForwardStatus::Active ==> (final(self)@, action) == step(
                old(self)@,
                SessionEvent::Stopped(forwarder@.source),
            ),
            forwarder@.status == ForwardStatus::Active ==> final(self)@ == old(self)@
                && action is Ignore,
    {
        if forwarder.stopped() {
            self.advance(SessionEvent::Stopped(forwarder.source()))
        } else {
            SessionAction::Ignore
        }
    }

    /// Decides on the outcome of waiting for the first message and advances
    /// by the verdict.
    ///
    /// The session moves as `step` rules for the verdict that `denial_for`
    /// gives on `attempt`. While it waits for the first message, it goes on to
    /// spawn exactly when a message was received that decodes to a text equal
    /// to `password`; otherwise it denies with the diagnostic of that verdict.
    pub fn authenticate(&mut self, attempt: GateAttempt, password: &String) -> (action: SessionAction)
        ensures
            exists|decision: GateDecision|
                decision.denial() == denial_for(attempt, password@) && (final(self)@, action)
                    == #[trigger] step(old(self)@, SessionEvent::Gate(decision)),
            old(self)@.phase == SessionPhase::Gate ==> (action is Spawn <==> (attempt matches GateAttempt::Received(
                message,
            ) && decoded_text(message) == Some(password@))),
            old(self)@.phase == SessionPhase::Gate && !(action is Spawn) ==> (action matches SessionAction::Deny(
                text,
            ) && Some(text@) == denial_for(attempt, password@)),
            old(self)@.phase != SessionPhase::Gate ==> action is Ignore && final(self)@ == old(
                self,
            )@,
    {
        let decision = check_password(attempt, password);
        let ghost verdict = decision;
        let action = self.advance(SessionEvent::Gate(decision));
        assert((self@, action) == step(old(self)@, SessionEvent::Gate(verdict)));
        action
    }
}

/// The state of a session that started in `s` and was fed `events` in order.
pub open spec fn state_after(s: SessionState, events: Seq<SessionEvent>) -> SessionState
    decreases events.len(),
{
    if events.len() == 0 {
        s
    } else {
        step(state_after(s, events.drop_last()), events.last()).0
    }
}

/// The session's answer to `events[i]`, having been fed the events before it.
pub open spec fn answer(s: SessionState, events: Seq<SessionEvent>, i: int) -> SessionAction
    recommends
        0 <= i < events.len(),
{
    step(state_after(s, events.take(i)), events[i]).1
}

/// Whether `what` is among the first `upto` events.
pub open spec fn reported(events: Seq<SessionEvent>, upto: int, what: SessionEvent) -> bool {
    exists|k: int| 0 <= k < upto && k < events.len() && #[trigger] events[k] == what
}

/// A state in which nothing has been reported yet.
pub open spec fn unreported(s: SessionState) -> bool {
    !s.exited && !s.stdout_stopped && !s.stderr_stopped
}

/// Feeding one more event is one more `step`.
pub proof fn lemma_state_after_next(s: SessionState, events: Seq<SessionEvent>, i: int)
    requires
        0 <= i < events.len(),
    ensures
        state_after(s, events.take(i + 1)) == step(state_after(s, events.take(i)), events[i]).0,
{
    assert(events.take(i + 1).drop_last() =~= events.take(i));
    assert(events.take(i + 1).last() == events[i]);
}

/// A closed session stays closed.
pub proof fn lemma_closed_is_stable(s: SessionState, events: Seq<SessionEvent>, i: int, j: int)
    requires
        0 <= i <= j <= events.len(),
        state_after(s, events.take(i)).phase == SessionPhase::Closed,
    ensures
        state_after(s, events.take(j)).phase == SessionPhase::Closed,
    decreases j - i,
{
    if i < j {
        lemma_closed_is_stable(s, events, i, j - 1);
        lemma_state_after_next(s, events, j - 1);
    }
}

/// Once the session has given a final action it only ever answers `Ignore`:
/// nothing is sent after a denial, a refusal or a close. In particular the
/// sink is closed at most once on any connection, whatever is reported and in
/// whatever order.
pub proof fn law_final_action_is_last(s: SessionState, events: Seq<SessionEvent>, i: int, j: int)
    requires
        0 <= i < j < events.len(),
        answer(s, events, i).is_final(),
    ensures
        answer(s, events, j) is Ignore,
        !answer(s, events, j).closes_sink(),
{
    lemma_state_after_next(s, events, i);
    lemma_closed_is_stable(s, events, i + 1, j);
}

/// A flag is set only by the report it stands for.
proof fn lemma_flags_were_reported(s: SessionState, events: Seq<SessionEvent>, k: int)
    requires
        unreported(s),
        0 <= k <= events.len(),
    ensures
        ({
            let t = state_after(s, events.take(k));
            &&& t.exited ==> reported(events, k, SessionEvent::Exited)
            &&& t.stdout_stopped ==> reported(
                events,
                k,
                SessionEvent::Stopped(StreamSource::Stdout),
            )
            &&& t.stderr_stopped ==> reported(
                events,
                k,
                SessionEvent::Stopped(StreamSource::Stderr),
            )
        }),
    decreases k,
{
    if k == 0 {
        assert(events.take(0) =~= Seq::empty());
    } else {
        lemma_flags_were_reported(s, events, k - 1);
        lemma_state_after_next(s, events, k - 1);
        lemma_report_grows(events, k - 1, SessionEvent::Exited);
        lemma_report_grows(events, k - 1, SessionEvent::Stopped(StreamSource::Stdout));
        lemma_report_grows(events, k - 1, SessionEvent::Stopped(StreamSource::Stderr));
    }
}

/// The session closes the sink only after the process has exited and both
/// forwarders have stopped: by the time it answers `Close`, all three reports
/// are in.
pub proof fn law_close_waits_for_everyone(gated: bool, events: Seq<SessionEvent>, i: int)
    requires
        0 <= i < events.len(),
        answer(initial(gated).0, events, i) is Close,
    ensures
        reported(events, i + 1, SessionEvent::Exited),
        reported(events, i + 1, SessionEvent::Stopped(StreamSource::Stdout)),
        reported(events, i + 1, SessionEvent::Stopped(StreamSource::Stderr)),
{
    lemma_state_after_next(initial(gated).0, events, i);
    lemma_flags_were_reported(initial(gated).0, events, i + 1);
}

/// While streaming, either the close has been given or the flags say exactly
/// what has been reported.
proof fn lemma_streaming_progress(s: SessionState, events: Seq<SessionEvent>, k: int)
    requires
        s.phase == SessionPhase::Streaming,
        unreported(s),
        0 <= k <= events.len(),
    ensures
        (exists|i: int| 0 <= i < k && #[trigger] answer(s, events, i) is Close) || ({
            let t = state_after(s, events.take(k));
            &&& t.phase == SessionPhase::Streaming
            &&& !all_done(t)
            &&& t.exited <==> reported(events, k, SessionEvent::Exited)
            &&& t.stdout_stopped <==> reported(
                events,
                k,
                SessionEvent::Stopped(StreamSource::Stdout),
            )
            &&& t.stderr_stopped <==> reported(
                events,
                k,
                SessionEvent::Stopped(StreamSource::Stderr),
            )
        }),
    decreases k,
{
    if k == 0 {
        assert(events.take(0) =~= Seq::empty());
    } else {
        lemma_streaming_progress(s, events, k - 1);
        if exists|i: int| 0 <= i < k - 1 && #[trigger] answer(s, events, i) is Close {
            let i = choose|i: int| 0 <= i < k - 1 && #[trigger] answer(s, events, i) is Close;
            assert(0 <= i < k && answer(s, events, i) is Close);
        } else {
            lemma_state_after_next(s, events, k - 1);
            if !(answer(s, events, k - 1) is Close) {
                lemma_report_grows(events, k - 1, SessionEvent::Exited);
                lemma_report_grows(events, k - 1, SessionEvent::Stopped(StreamSource::Stdout));
                lemma_report_grows(events, k - 1, SessionEvent::Stopped(StreamSource::Stderr));
            }
        }
    }
}

/// What has been reported after one more event.
proof fn lemma_report_grows(events: Seq<SessionEvent>, k: int, what: SessionEvent)
    requires
        0 <= k < events.len(),
    ensures
        reported(events, k + 1, what) <==> reported(events, k, what) || events[k] == what,
{
    if reported(events, k + 1, what) {
        let w = choose|w: int| 0 <= w < k + 1 && w < events.len() && #[trigger] events[w] == what;
        if w < k {
            assert(reported(events, k, what));
        }
    }
    if reported(events, k, what) {
        let w = choose|w: int| 0 <= w < k && w < events.len() && #[trigger] events[w] == what;
        assert(0 <= w < k + 1 && events[w] == what);
    }
    if events[k] == what {
        assert(0 <= k < k + 1 && events[k] == what);
    }
}

/// Once the process is streaming, the sink is closed exactly once as soon as
/// the exit and both forwarders' stops have been reported, in whichever order
/// they come and whatever else is reported in between.
pub proof fn law_closes_exactly_once(s: SessionState, events: Seq<SessionEvent>)
    requires
        s.phase == SessionPhase::Streaming,
        unreported(s),
        reported(events, events.len() as int, SessionEvent::Exited),
        reported(events, events.len() as int, SessionEvent::Stopped(StreamSource::Stdout)),
        reported(events, events.len() as int, SessionEvent::Stopped(StreamSource::Stderr)),
    ensures
        exists|i: int|
            {
                &&& 0 <= i < events.len()
                &&& #[trigger] answer(s, events, i) is Close
                &&& forall|j: int|
                    0 <= j < events.len() && j != i ==> !(#[trigger] answer(
                        s,
                        events,
                        j,
                    )).closes_sink()
            },
{
    lemma_streaming_progress(s, events, events.len() as int);
    let i = choose|i: int| 0 <= i < events.len() && #[trigger] answer(s, events, i) is Close;
    assert forall|j: int| 0 <= j < events.len() && j != i implies !(#[trigger] answer(
        s,
        events,
        j,
    )).closes_sink() by {
        if j < i {
            if answer(s, events, j).closes_sink() {
                law_final_action_is_last(s, events, j, i);
            }
        } else {
            law_final_action_is_last(s, events, i, j);
        }
    }
}

/// Once a session has left the phase of authentication it never returns to it.
proof fn lemma_authentication_is_over(s: SessionState, events: Seq<SessionEvent>, i: int, j: int)
    requires
        0 <= i <= j <= events.len(),
        state_after(s, events.take(i)).phase != SessionPhase::Gate,
    ensures
        state_after(s, events.take(j)).phase != SessionPhase::Gate,
    decreases j - i,
{
    if i < j {
        lemma_authentication_is_over(s, events, i, j - 1);
        lemma_state_after_next(s, events, j - 1);
    }
}

/// A connection gets one attempt and no retry: once a verdict has been
/// reported, every later verdict is ignored, whatever it says.
pub proof fn law_one_attempt_only(s: SessionState, events: Seq<SessionEvent>, i: int, j: int)
    requires
        0 <= i < j < events.len(),
        events[i] is Gate,
        events[j] is Gate,
    ensures
        answer(s, events, j) is Ignore,
        state_after(s, events.take(j + 1)) == state_after(s, events.take(j)),
{
    lemma_state_after_next(s, events, i);
    lemma_authentication_is_over(s, events, i + 1, j);
    lemma_state_after_next(s, events, j);
}

/// Only an `Allow` makes a session with a secret spawn: the answer to an
/// event is `Spawn` only if that event is the verdict `Allow`, and the
/// process is never launched, streamed or refused unless an `Allow` came
/// before.
pub proof fn law_gate_guards_the_process(events: Seq<SessionEvent>, i: int)
    requires
        0 <= i < events.len(),
    ensures
        ({
            let a = answer(initial(true).0, events, i);
            &&& a is Spawn ==> events[i] == SessionEvent::Gate(GateDecision::Allow)
            &&& (a is Forward || a is Refuse || a is Drain || a is Wait || a is Close)
                ==> reported(events, i, SessionEvent::Gate(GateDecision::Allow))
        }),
{
    lemma_gate_was_opened(events, i);
}

/// A session with a secret reaches the launch only through an `Allow`.
proof fn lemma_gate_was_opened(events: Seq<SessionEvent>, k: int)
    requires
        0 <= k <= events.len(),
    ensures
        ({
            let t = state_after(initial(true).0, events.take(k));
            t.phase == SessionPhase::Launch || t.phase == SessionPhase::Streaming ==> reported(
                events,
                k,
                SessionEvent::Gate(GateDecision::Allow),
            )
        }),
    decreases k,
{
    if k == 0 {
        assert(events.take(0) =~= Seq::empty());
    } else {
        lemma_gate_was_opened(events, k - 1);
        lemma_state_after_next(initial(true).0, events, k - 1);
        lemma_report_grows(events, k - 1, SessionEvent::Gate(GateDecision::Allow));
    }
}

} // verus!
