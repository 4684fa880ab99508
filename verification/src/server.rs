//! The lifecycle state of the one supervised worker.

use crate::discovery::{parse_port_line, port_in_line};
use vstd::prelude::*;
use vstd::string::*;

verus! {

/// The supervised worker: the handle of its process, the port it listens
/// on, and its process identifier, each as far as it is known.
///
/// `P` is the type of the process handle. The supervisor owns the handle and
/// only ever moves it; it never looks inside.
pub struct PythonServer<P> {
    pub process: Option<P>,
    pub port: Option<u16>,
    pub pid: Option<u32>,
}

/// What the worker makes known while it runs.
#[derive(Debug, Clone, PartialEq, Eq)]
pub enum WorkerEvent {
    /// One line of its standard output.
    Stdout(String),
    /// One line of its standard error.
    Stderr(String),
    /// It has terminated.
    Terminated,
    /// Anything else.
    Other,
}

/// What is to be done about one event of the worker.
#[derive(Debug, Clone, PartialEq, Eq)]
pub struct EventResponse {
    /// The port to announce to the presentation layer, if the event made one
    /// known.
    pub announce: Option<u16>,
    /// The record to hand to the log sink, if the event calls for one.
    pub record: Option<String>,
    /// Whether the worker's output has come to its end.
    pub finished: bool,
}

impl EventResponse {
    /// The record as a sequence of characters, if there is one.
    pub open spec fn record_text(&self) -> Option<Seq<char>> {
        match self.record {
            Some(text) => Some(text@),
            None => None,
        }
    }
}

/// What stands in front of each line of the worker's standard error in the
/// log.
pub open spec fn worker_prefix() -> Seq<char> {
    "Flask: "@
}

impl<P> PythonServer<P> {
    /// A process handle is held.
    pub open spec fn is_running(&self) -> bool {
        self.process is Some
    }

    /// The state in which nothing is known of any worker.
    pub open spec fn idle() -> Self {
        PythonServer { process: None, port: None, pid: None }
    }

    /// The state after the worker has made `port` known.
    pub open spec fn with_port(self, port: u16) -> Self {
        PythonServer { process: self.process, port: Some(port), pid: self.pid }
    }

    /// The state after an event of the worker: a line of standard output
    /// that announces a port makes that port the known one, whatever was
    /// known before, and nothing else changes anything.
    pub open spec fn after_event(self, event: WorkerEvent) -> Self {
        match event {
            WorkerEvent::Stdout(line) => match port_in_line(line@) {
                Some(port) => self.with_port(port),
                None => self,
            },
            _ => self,
        }
    }

    /// The state after a run of events.
    pub open spec fn after_events(self, events: Seq<WorkerEvent>) -> Self
        decreases events.len(),
    {
        if events.len() == 0 {
            self
        } else {
            self.after_events(events.drop_last()).after_event(events.last())
        }
    }

    /// The state with which the application starts: no worker.
    pub fn new() -> (server: Self)
        ensures
            server == Self::idle(),
    {
        PythonServer { process: None, port: None, pid: None }
    }

    /// Whether a process handle is held.
    pub fn running(&self) -> (b: bool)
        ensures
            b == self.is_running(),
    {
        self.process.is_some()
    }

    /// Takes note of one event of the worker.
    ///
    /// A line of standard output that announces a port makes that port the
    /// known one, whatever was known before, and asks for it to be
    /// announced. A line of standard error becomes a log record. The end of
    /// the worker ends the drain. Nothing else changes anything.
    pub fn on_worker_event(&mut self, event: &WorkerEvent) -> (response: EventResponse)
        ensures
            *final(self) == old(self).after_event(*event),
            match *event {
                WorkerEvent::Stdout(line) => {
                    &&& response.announce == port_in_line(line@)
                    &&& response.record is None
                    &&& !response.finished
                },
                WorkerEvent::Stderr(line) => {
                    &&& response.announce is None
                    &&& response.record_text() == Some(worker_prefix() + line@)
                    &&& !response.finished
                },
                WorkerEvent::Terminated => {
                    &&& response.announce is None
                    &&& response.record is None
                    &&& response.finished
                },
                WorkerEvent::Other => {
                    &&& response.announce is None
                    &&& response.record is None
                    &&& !response.finished
                },
            },
    {
        match event {
            WorkerEvent::Stdout(line) => {
                let found = parse_port_line(line.as_str());
                if let Some(port) = found {
                    self.port = Some(port);
                }
                EventResponse { announce: found, record: None, finished: false }
            },
            WorkerEvent::Stderr(line) => {
                let mut record = String::from_str("Flask: ");
                record.append(line.as_str());
                EventResponse { announce: None, record: Some(record), finished: false }
            },
            WorkerEvent::Terminated => EventResponse {
                announce: None,
                record: None,
                finished: true,
            },
            WorkerEvent::Other => EventResponse { announce: None, record: None, finished: false },
        }
    }
}

/// The port that the last of the events announced, if any of them
/// announced one.
pub open spec fn last_announced(events: Seq<WorkerEvent>) -> Option<u16>
    decreases events.len(),
{
    if events.len() == 0 {
        None
    } else {
        match events.last() {
            WorkerEvent::Stdout(line) if port_in_line(line@) is Some => port_in_line(line@),
            _ => last_announced(events.drop_last()),
        }
    }
}

/// Whatever the worker prints, and however often it announces a port, the
/// last announcement wins: after a run of events the known port is the one
/// announced last, or the one known before where none was announced. The
/// process handle and the process identifier stay as they were.
pub proof fn lemma_last_announcement_wins<P>(server: PythonServer<P>, events: Seq<WorkerEvent>)
    ensures
        server.after_events(events).port == match last_announced(events) {
            Some(port) => Some(port),
            None => server.port,
        },
        server.after_events(events).process == server.process,
        server.after_events(events).pid == server.pid,
    decreases events.len(),
{
    if events.len() > 0 {
        lemma_last_announcement_wins(server, events.drop_last());
    }
}

} // verus!
