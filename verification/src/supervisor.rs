//! The commands of the supervisor: starting the worker, asking for its
//! port, checking whether it answers, and naming its data file.

use crate::discovery::{
    parse_port, port_number, DEFAULT_PORT, MAX_PORT, SWEEP_FIRST_PORT, SWEEP_LAST_PORT,
};
use crate::envelope::{ApiResponse, StorageStep, SupervisorError};
use crate::launch::StorageProbe;
use crate::server::PythonServer;
use crate::stop::{StopAction, StopSequence};
use crate::text::{chars_of, trimmed, trimmed_of};
use vstd::prelude::*;
use vstd::string::*;

verus! {

/// How long to wait before asking the shared state for the port once more.
pub const RETRY_DELAY_MILLIS: u64 = 500;

/// How long one probe of the sweep may take.
pub const PROBE_TIMEOUT_MILLIS: u64 = 200;

/// How long the probe of a status check may take.
pub const STATUS_TIMEOUT_SECS: u64 = 3;

/// What came of creating the worker process.
pub enum SpawnOutcome<P> {
    /// The process runs; its identifier is given where it is known.
    Spawned { process: P, pid: Option<u32> },
    /// The process could not be created; the payload says why.
    Failed(String),
}

/// How far a request for the port has come.
#[derive(Debug, Clone, Copy, PartialEq, Eq)]
pub enum LookupStage {
    /// The shared state is asked for the first time.
    First,
    /// The shared state is asked again, after the wait.
    AfterWait,
}

/// What a request for the port is to do next.
#[derive(Debug, Clone, Copy, PartialEq, Eq)]
pub enum PortLookup {
    /// The port is known: answer with it.
    Known(u16),
    /// Wait this long, then ask again.
    Wait { millis: u64 },
    /// Probe every port from `first` to `last`, each for no longer than
    /// `timeout_millis`.
    Sweep { first: u16, last: u16, timeout_millis: u64 },
}

/// The probe that a status check makes.
#[derive(Debug, Clone, Copy, PartialEq, Eq)]
pub struct HealthCheck {
    /// The port to ask for the worker's health.
    pub port: u16,
    /// How long the answer may take, in seconds.
    pub timeout_secs: u64,
}

/// What a health probe found.
#[derive(Debug, Clone, Copy, PartialEq, Eq)]
pub enum ProbeOutcome {
    /// The worker answered with a success status.
    Healthy,
    /// The worker answered with another status.
    Unhealthy,
    /// No answer came: the connection was refused or the time ran out.
    NoAnswer,
}

/// The payload of an envelope of text, as a sequence of characters.
pub open spec fn data_text(response: ApiResponse<String>) -> Option<Seq<char>> {
    match response.data {
        Some(text) => Some(text@),
        None => None,
    }
}

/// The text with which a start is reported.
pub open spec fn started_text() -> Seq<char> {
    "Python Flask server started successfully"@
}

/// The first answer in a list of probe results, each of which is the port
/// that answered or nothing.
pub open spec fn first_answer(answers: Seq<Option<u16>>) -> Option<u16>
    decreases answers.len(),
{
    if answers.len() == 0 {
        None
    } else if answers[0] is Some {
        answers[0]
    } else {
        first_answer(answers.skip(1))
    }
}

/// The port that a status check probes: the known port, else the port that
/// the persisted hint names, else the default.
pub open spec fn status_port_of(known: Option<u16>, hint: Option<Seq<char>>) -> u16 {
    match known {
        Some(port) => port,
        None => match hint {
            Some(text) => match port_number(trimmed(text)) {
                Some(port) => port,
                None => DEFAULT_PORT,
            },
            None => DEFAULT_PORT,
        },
    }
}

impl<P> PythonServer<P> {
    /// The state in which a start creates its process: idle if a worker was
    /// running, untouched otherwise.
    pub open spec fn cleared_for_start(self) -> Self {
        if self.is_running() {
            Self::idle()
        } else {
            self
        }
    }

    /// The state once the process of a start has been created, or has
    /// failed to be. A new worker's port is not known yet.
    pub open spec fn after_spawn(self, outcome: SpawnOutcome<P>) -> Self {
        match outcome {
            SpawnOutcome::Spawned { process, pid } => PythonServer {
                process: Some(process),
                port: None,
                pid,
            },
            SpawnOutcome::Failed(_) => self,
        }
    }

    /// Begins a start. Where a worker is running already, it is taken out of
    /// the shared state and handed back inside the stop sequence that the
    /// caller runs to its end before it launches the new worker.
    pub fn begin_start(&mut self, tree_kill: bool) -> (pending: Option<StopSequence<P>>)
        ensures
            *final(self) == old(self).cleared_for_start(),
            pending == if old(self).is_running() {
                Some(StopSequence::taken_from(*old(self), tree_kill))
            } else {
                None
            },
    {
        if self.process.is_some() {
            Some(self.begin_stop(tree_kill))
        } else {
            None
        }
    }

    /// Ends a start: records the new process, or reports why there is none.
    pub fn complete_start(&mut self, outcome: SpawnOutcome<P>) -> (response: ApiResponse<String>)
        ensures
            *final(self) == old(self).after_spawn(outcome),
            match outcome {
                SpawnOutcome::Spawned { .. } => {
                    &&& response.success
                    &&& data_text(response) == Some(started_text())
                    &&& response.error is None
                },
                SpawnOutcome::Failed(reason) => response.failed_with(
                    None,
                    SupervisorError::SpawnFailed(reason),
                ),
            },
    {
        match outcome {
            SpawnOutcome::Spawned { process, pid } => {
                self.process = Some(process);
                self.port = None;
                self.pid = pid;
                ApiResponse::ok(String::from_str("Python Flask server started successfully"))
            },
            SpawnOutcome::Failed(reason) => ApiResponse::fail(
                &SupervisorError::SpawnFailed(reason),
            ),
        }
    }

    /// Says what a request for the port does next. A known port is the
    /// answer at either stage. An unknown one leads to a wait first, and to
    /// the sweep after the wait: never to an answer.
    pub fn lookup_port(&self, stage: LookupStage) -> (next: PortLookup)
        ensures
            next == match self.port {
                Some(port) => PortLookup::Known(port),
                None => match stage {
                    LookupStage::First => PortLookup::Wait { millis: RETRY_DELAY_MILLIS },
                    LookupStage::AfterWait => PortLookup::Sweep {
                        first: SWEEP_FIRST_PORT,
                        last: SWEEP_LAST_PORT,
                        timeout_millis: PROBE_TIMEOUT_MILLIS,
                    },
                },
            },
    {
        match self.port {
            Some(port) => PortLookup::Known(port),
            None => match stage {
                LookupStage::First => PortLookup::Wait { millis: RETRY_DELAY_MILLIS },
                LookupStage::AfterWait => PortLookup::Sweep {
                    first: SWEEP_FIRST_PORT,
                    last: SWEEP_LAST_PORT,
                    timeout_millis: PROBE_TIMEOUT_MILLIS,
                },
            },
        }
    }

    /// Ends a sweep. `answers` holds one result for each probed port, in the
    /// order of the ports. The first port that answered becomes the known
    /// port and is the answer; where none answered, the port stays unknown.
    pub fn conclude_sweep(&mut self, answers: &Vec<Option<u16>>) -> (response: ApiResponse<u16>)
        ensures
            match first_answer(answers@) {
                Some(port) => {
                    &&& response.succeeded_with(port)
                    &&& *final(self) == old(self).with_port(port)
                },
                None => {
                    &&& response.failed_with(None, SupervisorError::PortUnknown)
                    &&& *final(self) == *old(self)
                },
            },
    {
        match pick_first_answer(answers) {
            Some(port) => {
                self.port = Some(port);
                ApiResponse::ok(port)
            },
            None => ApiResponse::fail(&SupervisorError::PortUnknown),
        }
    }

    /// Plans the probe of a status check. `hint` is what the file of the
    /// persisted hint holds, if there is one.
    pub fn status_check(&self, hint: Option<&str>) -> (check: HealthCheck)
        ensures
            check.port == status_port_of(
                self.port,
                match hint {
                    Some(text) => Some(text@),
                    None => None,
                },
            ),
            check.timeout_secs == STATUS_TIMEOUT_SECS,
    {
        let port = match self.port {
            Some(port) => port,
            None => match hint {
                Some(text) => {
                    let chars = chars_of(text);
                    match parse_port(&trimmed_of(&chars)) {
                        Some(port) => port,
                        None => DEFAULT_PORT,
                    }
                },
                None => DEFAULT_PORT,
            },
        };
        HealthCheck { port, timeout_secs: STATUS_TIMEOUT_SECS }
    }
}

/// Computes [`first_answer`].
pub fn pick_first_answer(answers: &Vec<Option<u16>>) -> (found: Option<u16>)
    ensures
        found == first_answer(answers@),
{
    let mut i: usize = 0;
    assert(answers@.skip(0) =~= answers@);
    while i < answers.len()
        invariant
            i <= answers.len(),
            first_answer(answers@) == first_answer(answers@.skip(i as int)),
        decreases answers.len() - i,
    {
        assert(answers@.skip(i as int).skip(1) =~= answers@.skip(i + 1));
        if answers[i].is_some() {
            return answers[i];
        }
        i += 1;
    }
    assert(answers@.skip(i as int).len() == 0);
    None
}

/// The result of one probe of the sweep: the port, if the worker answered
/// on it with a success status.
pub fn probe_answer(port: u16, outcome: ProbeOutcome) -> (answer: Option<u16>)
    ensures
        answer == if outcome is Healthy {
            Some(port)
        } else {
            None
        },
{
    match outcome {
        ProbeOutcome::Healthy => Some(port),
        _ => None,
    }
}

/// The envelope that answers a request for a port that is known.
pub fn port_response(port: u16) -> (response: ApiResponse<u16>)
    ensures
        response.succeeded_with(port),
{
    ApiResponse::ok(port)
}

/// The envelope of a status check.
pub fn status_response(outcome: ProbeOutcome) -> (response: ApiResponse<bool>)
    ensures
        match outcome {
            ProbeOutcome::Healthy => response.succeeded_with(true),
            ProbeOutcome::Unhealthy => response.failed_with(
                Some(false),
                SupervisorError::UnhealthyResponse,
            ),
            ProbeOutcome::NoAnswer => response.failed_with(
                Some(false),
                SupervisorError::Unreachable,
            ),
        },
{
    match outcome {
        ProbeOutcome::Healthy => ApiResponse::ok(true),
        ProbeOutcome::Unhealthy => ApiResponse::fail_with(
            false,
            &SupervisorError::UnhealthyResponse,
        ),
        ProbeOutcome::NoAnswer => ApiResponse::fail_with(false, &SupervisorError::Unreachable),
    }
}

/// The envelope that names the worker's data file, or says why the storage
/// directory is not there.
pub fn database_path_response(probe: &StorageProbe) -> (response: ApiResponse<String>)
    ensures
        match *probe {
            StorageProbe::Ready(path) => response.succeeded_with(path),
            StorageProbe::Unresolved(reason) => response.failed_with(
                None,
                SupervisorError::StorageUnavailable(StorageStep::Locate, reason),
            ),
            StorageProbe::CreateFailed(reason) => response.failed_with(
                None,
                SupervisorError::StorageUnavailable(StorageStep::Create, reason),
            ),
        },
{
    match probe {
        StorageProbe::Ready(path) => ApiResponse::ok(path.clone()),
        StorageProbe::Unresolved(reason) => ApiResponse::fail(
            &SupervisorError::StorageUnavailable(StorageStep::Locate, reason.clone()),
        ),
        StorageProbe::CreateFailed(reason) => ApiResponse::fail(
            &SupervisorError::StorageUnavailable(StorageStep::Create, reason.clone()),
        ),
    }
}

/// Starting twice in a row leaves one worker and no more: the second start
/// takes the first worker out of the shared state and hands it to a stop
/// sequence that ends by killing it, and the state then holds the second
/// worker alone, with its port still to be discovered.
pub proof fn lemma_restart_replaces_worker<P>(
    server: PythonServer<P>,
    first: P,
    first_pid: Option<u32>,
    second: P,
    second_pid: Option<u32>,
    tree_kill: bool,
)
    ensures
        ({
            let once = server.cleared_for_start().after_spawn(
                SpawnOutcome::Spawned { process: first, pid: first_pid },
            );
            let pending = StopSequence::taken_from(once, tree_kill);
            let twice = once.cleared_for_start().after_spawn(
                SpawnOutcome::Spawned { process: second, pid: second_pid },
            );
            &&& once.is_running()
            &&& once.cleared_for_start() == PythonServer::<P>::idle()
            &&& pending.process == Some(first)
            &&& pending.remaining().last() == (StopAction::<P>::KillProcess { process: first })
            &&& twice.process == Some(second)
            &&& twice.port is None
            &&& twice.pid == second_pid
        }),
{
}

/// The first answer is an answer with none before it; there is none
/// exactly when no probe answered.
pub proof fn lemma_first_answer_is_first(answers: Seq<Option<u16>>)
    ensures
        match first_answer(answers) {
            Some(port) => exists|i: int|
                0 <= i < answers.len() && #[trigger] answers[i] == Some(port) && forall|j: int|
                    0 <= j < i ==> answers[j] is None,
            None => forall|i: int| 0 <= i < answers.len() ==> answers[i] is None,
        },
    decreases answers.len(),
{
    if answers.len() == 0 {
    } else if answers[0] is Some {
        assert(answers[0] == Some(answers[0]->0));
    } else {
        let rest = answers.skip(1);
        lemma_first_answer_is_first(rest);
        match first_answer(rest) {
            Some(port) => {
                let i = choose|i: int|
                    0 <= i < rest.len() && #[trigger] rest[i] == Some(port) && forall|j: int|
                        0 <= j < i ==> rest[j] is None;
                assert(answers[i + 1] == Some(port));
                assert forall|j: int| 0 <= j < i + 1 implies answers[j] is None by {
                    if j > 0 {
                        assert(rest[j - 1] is None);
                    }
                }
            },
            None => {
                assert forall|i: int| 0 <= i < answers.len() implies answers[i] is None by {
                    if i > 0 {
                        assert(rest[i - 1] is None);
                    }
                }
            },
        }
    }
}

/// The results of a sweep that probes the ports from `first` on, one after
/// the other, and meets with `outcomes`.
pub open spec fn sweep_answers(first: u16, outcomes: Seq<ProbeOutcome>) -> Seq<Option<u16>> {
    Seq::new(
        outcomes.len(),
        |i: int|
            if outcomes[i] is Healthy {
                Some((first + i) as u16)
            } else {
                None
            },
    )
}

/// A sweep answers with the lowest port on which the worker was found
/// healthy, and with a port at all exactly when there is one: never with a
/// port that nothing answered on.
pub proof fn lemma_sweep_finds_lowest(first: u16, outcomes: Seq<ProbeOutcome>)
    requires
        first + outcomes.len() <= MAX_PORT + 1,
    ensures
        match first_answer(sweep_answers(first, outcomes)) {
            Some(port) => {
                &&& first <= port < first + outcomes.len()
                &&& outcomes[port - first] is Healthy
                &&& forall|j: int| 0 <= j < port - first ==> !(outcomes[j] is Healthy)
            },
            None => forall|i: int| 0 <= i < outcomes.len() ==> !(outcomes[i] is Healthy),
        },
{
    let answers = sweep_answers(first, outcomes);
    lemma_first_answer_is_first(answers);
    match first_answer(answers) {
        Some(port) => {
            let i = choose|i: int|
                0 <= i < answers.len() && #[trigger] answers[i] == Some(port) && forall|j: int|
                    0 <= j < i ==> answers[j] is None;
            assert(port == first + i);
            assert forall|j: int| 0 <= j < port - first implies !(outcomes[j] is Healthy) by {
                assert(answers[j] is None);
            }
        },
        None => {
            assert forall|i: int| 0 <= i < outcomes.len() implies !(outcomes[i] is Healthy) by {
                assert(answers[i] is None);
            }
        },
    }
}

} // verus!
