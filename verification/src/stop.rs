//! Stopping the worker: one sequence that asks the worker to shut down,
//! then kills its process tree, then kills its process, and that runs to
//! its end whatever the single steps report.

use crate::envelope::ApiResponse;
use crate::reply::{message_in, read_message};
use crate::server::PythonServer;
use crate::text::{decimal_digits, decimal_string};
use vstd::prelude::*;
use vstd::string::*;

verus! {

/// How long the worker is given to answer the request to shut down.
pub const GRACEFUL_TIMEOUT_SECS: u64 = 10;

/// The steps of the sequence, in their order.
#[derive(Debug, Clone, Copy, PartialEq, Eq)]
pub enum StopPhase {
    /// Asking the worker to shut down.
    Graceful,
    /// Killing the process tree below the recorded process identifier.
    TreeKill,
    /// Killing the process through its handle.
    DirectKill,
    /// Nothing is left to do.
    Finished,
}

/// A stop in progress. It owns what it took from the shared state.
pub struct StopSequence<P> {
    /// The step to consider next.
    pub phase: StopPhase,
    /// The port the worker was known to listen on.
    pub port: Option<u16>,
    /// The process identifier that was recorded.
    pub pid: Option<u32>,
    /// The process handle that was held.
    pub process: Option<P>,
    /// Whether this platform can kill a whole process tree.
    pub tree_kill: bool,
}

/// What the caller is to do next.
#[derive(Debug, PartialEq, Eq)]
pub enum StopAction<P> {
    /// Send the shutdown request to the worker on `port`, and wait for the
    /// answer no longer than `timeout_secs`.
    RequestShutdown { port: u16, timeout_secs: u64 },
    /// Kill the process tree rooted at `pid`.
    KillTree { pid: u32 },
    /// Kill the process behind the handle.
    KillProcess { process: P },
    /// The sequence is over.
    Finished,
}

/// One process that a tree kill came across.
#[derive(Debug, Clone, Copy, PartialEq, Eq)]
pub struct TreeKillEntry {
    pub pid: u32,
    /// Whether it was killed; otherwise it had terminated already.
    pub killed: bool,
}

/// What came of the step that the caller was last asked to take.
#[derive(Debug, Clone, PartialEq, Eq)]
pub enum StopEvent {
    /// No step has been taken yet.
    Begun,
    /// The worker answered the shutdown request.
    ShutdownAnswered { success: bool, status: String, message: Option<String> },
    /// The shutdown request got no answer: refused, timed out or otherwise
    /// failed.
    ShutdownFailed(String),
    /// The tree kill went through; the payload lists the processes met.
    TreeKillDone(Vec<TreeKillEntry>),
    /// The tree kill failed.
    TreeKillFailed(String),
    /// The kill through the handle went through.
    KillDone,
    /// The kill through the handle failed.
    KillFailed(String),
}

/// One turn of the sequence: what to write down about the last step, and
/// what to do next.
pub struct StopTurn<P> {
    pub notes: Vec<String>,
    pub action: StopAction<P>,
}

/// The texts of a list of strings.
pub open spec fn texts(v: Seq<String>) -> Seq<Seq<char>> {
    Seq::new(v.len(), |i: int| v[i]@)
}

/// The note on one process that a tree kill came across.
pub open spec fn tree_entry_note(entry: TreeKillEntry) -> Seq<char> {
    if entry.killed {
        "[FLASK_STOP] Killed process "@ + decimal_digits(entry.pid as nat)
    } else {
        "[FLASK_STOP] Process "@ + decimal_digits(entry.pid as nat) + " already terminated"@
    }
}

/// What is written down about an event.
pub open spec fn event_notes(event: StopEvent) -> Seq<Seq<char>> {
    match event {
        StopEvent::Begun => seq![],
        StopEvent::ShutdownAnswered { success, status, message } => {
            if success {
                let done =
                    "[FLASK_STOP] Graceful shutdown API call successful, server has been shut down"@;
                match message {
                    Some(text) => seq!["[FLASK_STOP] Server response: "@ + text@, done],
                    None => seq![done],
                }
            } else {
                seq![
                    "[FLASK_STOP] API returned status "@ + status@
                        + ", but continuing shutdown"@,
                ]
            }
        },
        StopEvent::ShutdownFailed(reason) => seq![
            "[FLASK_STOP] API call failed (server may have already shut down): "@ + reason@,
        ],
        StopEvent::TreeKillDone(entries) => Seq::new(
            entries@.len(),
            |i: int| tree_entry_note(entries@[i]),
        ),
        StopEvent::TreeKillFailed(reason) => seq![
            "[FLASK_STOP] Failed to kill process tree: "@ + reason@,
        ],
        StopEvent::KillDone => seq![],
        StopEvent::KillFailed(reason) => seq!["[FLASK_STOP] Failed to kill process: "@ + reason@],
    }
}

/// The event that stands for an answer of the worker to the shutdown
/// request. The body of an answer with a success status is searched for a
/// message; that of any other answer is not looked at.
pub fn answer_event(success: bool, status: &str, body: &[u8]) -> (event: StopEvent)
    ensures
        event matches StopEvent::ShutdownAnswered { success: flag, status: text, message }
            && flag == success && text@ == status@ && match message {
            Some(found) => success && message_in(body@) == Some(found@),
            None => !success || message_in(body@) is None,
        },
{
    let message = if success {
        read_message(body)
    } else {
        None
    };
    StopEvent::ShutdownAnswered { success, status: String::from_str(status), message }
}

/// A literal followed by a text.
fn prefixed(prefix: &str, rest: &str) -> (out: String)
    ensures
        out@ == prefix@ + rest@,
{
    let mut out = String::from_str(prefix);
    out.append(rest);
    out
}

/// Renders [`tree_entry_note`].
fn describe_tree_entry(entry: &TreeKillEntry) -> (out: String)
    ensures
        out@ == tree_entry_note(*entry),
{
    let number = decimal_string(entry.pid as u64);
    if entry.killed {
        prefixed("[FLASK_STOP] Killed process ", number.as_str())
    } else {
        let mut out = prefixed("[FLASK_STOP] Process ", number.as_str());
        out.append(" already terminated");
        out
    }
}

/// Renders [`event_notes`].
pub fn describe_event(event: &StopEvent) -> (notes: Vec<String>)
    ensures
        texts(notes@) == event_notes(*event),
{
    let mut notes: Vec<String> = Vec::new();
    match event {
        StopEvent::Begun => {},
        StopEvent::ShutdownAnswered { success, status, message } => {
            if *success {
                match message {
                    Some(text) => {
                        notes.push(prefixed("[FLASK_STOP] Server response: ", text.as_str()));
                    },
                    None => {},
                }
                notes.push(
                    String::from_str(
                        "[FLASK_STOP] Graceful shutdown API call successful, server has been shut down",
                    ),
                );
            } else {
                let mut note = prefixed("[FLASK_STOP] API returned status ", status.as_str());
                note.append(", but continuing shutdown");
                notes.push(note);
            }
        },
        StopEvent::ShutdownFailed(reason) => {
            notes.push(
                prefixed(
                    "[FLASK_STOP] API call failed (server may have already shut down): ",
                    reason.as_str(),
                ),
            );
        },
        StopEvent::TreeKillDone(entries) => {
            let mut i: usize = 0;
            while i < entries.len()
                invariant
                    i <= entries.len(),
                    notes.len() == i,
                    forall|j: int| 0 <= j < i ==> notes@[j]@ == tree_entry_note(entries@[j]),
                decreases entries.len() - i,
            {
                notes.push(describe_tree_entry(&entries[i]));
                i += 1;
            }
        },
        StopEvent::TreeKillFailed(reason) => {
            notes.push(prefixed("[FLASK_STOP] Failed to kill process tree: ", reason.as_str()));
        },
        StopEvent::KillDone => {},
        StopEvent::KillFailed(reason) => {
            notes.push(prefixed("[FLASK_STOP] Failed to kill process: ", reason.as_str()));
        },
    }
    assert(texts(notes@) =~= event_notes(*event));
    notes
}

impl StopPhase {
    /// The place of the step in the sequence.
    pub open spec fn rank(self) -> nat {
        match self {
            StopPhase::Graceful => 0,
            StopPhase::TreeKill => 1,
            StopPhase::DirectKill => 2,
            StopPhase::Finished => 3,
        }
    }
}

impl<P> StopSequence<P> {
    /// What a stop takes over from the shared state: all of it, with every
    /// step still ahead.
    pub open spec fn taken_from(server: PythonServer<P>, tree_kill: bool) -> Self {
        StopSequence {
            phase: StopPhase::Graceful,
            port: server.port,
            pid: server.pid,
            process: server.process,
            tree_kill,
        }
    }

    /// Whether there is anything for the step `phase` to act on: a port to
    /// send the request to, a process identifier on a platform that can
    /// kill a tree, a process handle.
    pub open spec fn applies(self, phase: StopPhase) -> bool {
        match phase {
            StopPhase::Graceful => self.port is Some,
            StopPhase::TreeKill => self.tree_kill && self.pid is Some,
            StopPhase::DirectKill => self.process is Some,
            StopPhase::Finished => true,
        }
    }

    /// The step that is taken next: the first one, from the current phase
    /// on, that has anything to act on.
    pub open spec fn upcoming(self) -> StopPhase {
        if self.phase.rank() <= 0 && self.applies(StopPhase::Graceful) {
            StopPhase::Graceful
        } else if self.phase.rank() <= 1 && self.applies(StopPhase::TreeKill) {
            StopPhase::TreeKill
        } else if self.phase.rank() <= 2 && self.applies(StopPhase::DirectKill) {
            StopPhase::DirectKill
        } else {
            StopPhase::Finished
        }
    }

    /// What the caller is asked to do next.
    pub open spec fn next_action(self) -> StopAction<P> {
        match self.upcoming() {
            StopPhase::Graceful => StopAction::RequestShutdown {
                port: self.port->0,
                timeout_secs: GRACEFUL_TIMEOUT_SECS,
            },
            StopPhase::TreeKill => StopAction::KillTree { pid: self.pid->0 },
            StopPhase::DirectKill => StopAction::KillProcess { process: self.process->0 },
            StopPhase::Finished => StopAction::Finished,
        }
    }

    /// The sequence once the next action has been handed out.
    pub open spec fn advanced(self) -> Self {
        match self.upcoming() {
            StopPhase::Graceful => StopSequence { phase: StopPhase::TreeKill, ..self },
            StopPhase::TreeKill => StopSequence { phase: StopPhase::DirectKill, ..self },
            StopPhase::DirectKill => StopSequence {
                phase: StopPhase::Finished,
                process: None,
                ..self
            },
            StopPhase::Finished => StopSequence { phase: StopPhase::Finished, ..self },
        }
    }

    /// All the actions still to come, in their order, up to the end of the
    /// sequence.
    pub open spec fn remaining(self) -> Seq<StopAction<P>> {
        let graceful = if self.phase.rank() <= 0 && self.applies(StopPhase::Graceful) {
            seq![
                StopAction::<P>::RequestShutdown {
                    port: self.port->0,
                    timeout_secs: GRACEFUL_TIMEOUT_SECS,
                },
            ]
        } else {
            seq![]
        };
        let tree = if self.phase.rank() <= 1 && self.applies(StopPhase::TreeKill) {
            seq![StopAction::<P>::KillTree { pid: self.pid->0 }]
        } else {
            seq![]
        };
        let direct = if self.phase.rank() <= 2 && self.applies(StopPhase::DirectKill) {
            seq![StopAction::<P>::KillProcess { process: self.process->0 }]
        } else {
            seq![]
        };
        graceful + tree + direct
    }

    /// Takes one turn: writes down what came of the last step, and hands out
    /// the next action.
    ///
    /// The event decides what is written down and nothing else: which action
    /// comes next depends only on what the sequence holds.
    pub fn turn(&mut self, event: &StopEvent) -> (turn: StopTurn<P>)
        ensures
            texts(turn.notes@) == event_notes(*event),
            turn.action == old(self).next_action(),
            *final(self) == old(self).advanced(),
    {
        let notes = describe_event(event);
        let rank: u8 = match self.phase {
            StopPhase::Graceful => 0,
            StopPhase::TreeKill => 1,
            StopPhase::DirectKill => 2,
            StopPhase::Finished => 3,
        };
        if rank <= 0 {
            if let Some(port) = self.port {
                self.phase = StopPhase::TreeKill;
                return StopTurn {
                    notes,
                    action: StopAction::RequestShutdown {
                        port,
                        timeout_secs: GRACEFUL_TIMEOUT_SECS,
                    },
                };
            }
        }
        if rank <= 1 && self.tree_kill {
            if let Some(pid) = self.pid {
                self.phase = StopPhase::DirectKill;
                return StopTurn { notes, action: StopAction::KillTree { pid } };
            }
        }
        self.phase = StopPhase::Finished;
        if rank <= 2 {
            if let Some(process) = self.process.take() {
                return StopTurn { notes, action: StopAction::KillProcess { process } };
            }
        }
        StopTurn { notes, action: StopAction::Finished }
    }
}

impl<P> PythonServer<P> {
    /// Begins a stop: takes the process handle, the port and the process
    /// identifier out of the shared state, which is left idle at once, and
    /// hands them to the sequence that does the rest. `tree_kill` says
    /// whether this platform can kill a whole process tree.
    pub fn begin_stop(&mut self, tree_kill: bool) -> (sequence: StopSequence<P>)
        ensures
            *final(self) == Self::idle(),
            sequence == StopSequence::taken_from(*old(self), tree_kill),
    {
        let process = self.process.take();
        let port = self.port.take();
        let pid = self.pid.take();
        StopSequence { phase: StopPhase::Graceful, port, pid, process, tree_kill }
    }
}

/// The text with which a stop is reported.
pub open spec fn stopped_text() -> Seq<char> {
    "Python server stopped"@
}

/// The envelope with which a stop is reported: a stop is a best effort, and
/// always a success to its caller.
pub fn stop_response() -> (response: ApiResponse<String>)
    ensures
        response.success,
        response.data matches Some(text) && text@ == stopped_text(),
        response.error is None,
{
    ApiResponse::ok(String::from_str("Python server stopped"))
}

/// The actions still to come are the next action and those that come after
/// it; none is left exactly when the next action ends the sequence.
pub proof fn lemma_remaining_unfolds<P>(sequence: StopSequence<P>)
    ensures
        sequence.remaining() == if sequence.next_action() is Finished {
            Seq::<StopAction<P>>::empty()
        } else {
            seq![sequence.next_action()] + sequence.advanced().remaining()
        },
{
    assert(sequence.remaining() =~= if sequence.next_action() is Finished {
        Seq::<StopAction<P>>::empty()
    } else {
        seq![sequence.next_action()] + sequence.advanced().remaining()
    });
}

/// Once the shutdown request has been made, the sequence goes on to kill
/// whatever is held, and it does so without regard to what came of the
/// request: a process tree first, where the platform allows it and a
/// process identifier is known, and the process behind the handle after it.
pub proof fn lemma_escalates_after_request<P>(sequence: StopSequence<P>)
    requires
        sequence.phase == StopPhase::TreeKill,
    ensures
        sequence.applies(StopPhase::TreeKill) ==> sequence.next_action() == (StopAction::<
            P,
        >::KillTree { pid: sequence.pid->0 }),
        !sequence.applies(StopPhase::TreeKill) && sequence.applies(StopPhase::DirectKill)
            ==> sequence.next_action() == (StopAction::<P>::KillProcess {
            process: sequence.process->0,
        }),
        sequence.applies(StopPhase::DirectKill) ==> sequence.remaining().last() == (StopAction::<
            P,
        >::KillProcess { process: sequence.process->0 }),
{
}

/// A stop of a worker that was never started asks for nothing: no request
/// is sent and no process is touched.
pub proof fn lemma_stop_of_idle_is_empty<P>(tree_kill: bool)
    ensures
        StopSequence::taken_from(PythonServer::<P>::idle(), tree_kill).remaining().len() == 0,
        StopSequence::taken_from(PythonServer::<P>::idle(), tree_kill).next_action() is Finished,
{
}

/// What each of `count` stops, called for one after the other, is asked to
/// do. Each stop takes all that the shared state holds and leaves it idle.
pub open spec fn stop_runs<P>(server: PythonServer<P>, tree_kill: bool, count: nat) -> Seq<
    Seq<StopAction<P>>,
>
    decreases count,
{
    if count == 0 {
        seq![]
    } else {
        seq![StopSequence::taken_from(server, tree_kill).remaining()] + stop_runs(
            PythonServer::<P>::idle(),
            tree_kill,
            (count - 1) as nat,
        )
    }
}

/// The shared state after `count` stops.
pub open spec fn state_after_stops<P>(server: PythonServer<P>, count: nat) -> PythonServer<P>
    decreases count,
{
    if count == 0 {
        server
    } else {
        state_after_stops(PythonServer::<P>::idle(), (count - 1) as nat)
    }
}

/// However many stops are called for, only the first of them acts: it alone
/// gets hold of the worker, and every later one finds the state idle and
/// asks for nothing. The state is idle in the end.
pub proof fn lemma_only_first_stop_acts<P>(server: PythonServer<P>, tree_kill: bool, count: nat)
    requires
        count > 0,
    ensures
        stop_runs(server, tree_kill, count).len() == count,
        stop_runs(server, tree_kill, count)[0] == StopSequence::taken_from(
            server,
            tree_kill,
        ).remaining(),
        forall|i: int|
            1 <= i < count ==> (#[trigger] stop_runs(server, tree_kill, count)[i]).len() == 0,
        state_after_stops(server, count) == PythonServer::<P>::idle(),
    decreases count,
{
    if count > 1 {
        let rest = (count - 1) as nat;
        lemma_only_first_stop_acts(PythonServer::<P>::idle(), tree_kill, rest);
        lemma_stop_of_idle_is_empty::<P>(tree_kill);
        let tail = stop_runs(PythonServer::<P>::idle(), tree_kill, rest);
        assert forall|i: int| 1 <= i < count implies (#[trigger] stop_runs(
            server,
            tree_kill,
            count,
        )[i]).len() == 0 by {
            assert(stop_runs(server, tree_kill, count)[i] == tail[i - 1]);
        }
    } else {
        assert(stop_runs(PythonServer::<P>::idle(), tree_kill, 0).len() == 0);
        assert(state_after_stops(PythonServer::<P>::idle(), 0) == PythonServer::<P>::idle());
    }
}

} // verus!
