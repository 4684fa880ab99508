use backend_supervisor::envelope::{ApiResponse, StorageStep, SupervisorError};
use backend_supervisor::launch::StorageProbe;
use backend_supervisor::server::{EventResponse, PythonServer, WorkerEvent};
use backend_supervisor::stop::{StopAction, StopEvent};
use backend_supervisor::supervisor::{
    database_path_response, pick_first_answer, port_response, probe_answer, status_response,
    HealthCheck, LookupStage, PortLookup, ProbeOutcome, SpawnOutcome, PROBE_TIMEOUT_MILLIS,
    RETRY_DELAY_MILLIS, STATUS_TIMEOUT_SECS,
};

fn quiet() -> EventResponse {
    EventResponse { announce: None, record: None, finished: false }
}

#[test]
fn new_server_knows_nothing() {
    let server: PythonServer<u8> = PythonServer::new();
    assert!(server.process.is_none());
    assert!(server.port.is_none());
    assert!(server.pid.is_none());
    assert!(!server.running());
}

#[test]
fn marker_on_stdout_sets_port_and_is_announced_once() {
    let mut server: PythonServer<u8> = PythonServer::new();
    server.complete_start(SpawnOutcome::Spawned { process: 1, pid: Some(77) });
    let lines = ["starting", "...FLASK_PORT:4321 ...", " * Running on http://127.0.0.1:4321"];
    let mut announced: Vec<u16> = Vec::new();
    for line in lines {
        let response = server.on_worker_event(&WorkerEvent::Stdout(line.to_string()));
        assert_eq!(response.record, None);
        assert!(!response.finished);
        if let Some(port) = response.announce {
            announced.push(port);
        }
    }
    assert_eq!(announced, vec![4321]);
    assert_eq!(server.port, Some(4321));
    assert_eq!(server.lookup_port(LookupStage::First), PortLookup::Known(4321));
    assert_eq!(server.process, Some(1));
    assert_eq!(server.pid, Some(77));
}

#[test]
fn later_marker_overwrites_port() {
    let mut server: PythonServer<u8> = PythonServer::new();
    server.on_worker_event(&WorkerEvent::Stdout("FLASK_PORT:5001".to_string()));
    let again = server.on_worker_event(&WorkerEvent::Stdout("FLASK_PORT:5002".to_string()));
    assert_eq!(again.announce, Some(5002));
    assert_eq!(server.port, Some(5002));
    let bad = server.on_worker_event(&WorkerEvent::Stdout("FLASK_PORT:nope".to_string()));
    assert_eq!(bad, quiet());
    assert_eq!(server.port, Some(5002));
}

#[test]
fn stderr_becomes_a_record() {
    let mut server: PythonServer<u8> = PythonServer::new();
    let response = server.on_worker_event(&WorkerEvent::Stderr("Traceback".to_string()));
    assert_eq!(
        response,
        EventResponse { announce: None, record: Some("Flask: Traceback".to_string()), finished: false }
    );
    let marker = server.on_worker_event(&WorkerEvent::Stderr("FLASK_PORT:5000".to_string()));
    assert_eq!(marker.announce, None);
    assert_eq!(server.port, None);
}

#[test]
fn termination_ends_the_drain() {
    let mut server: PythonServer<u8> = PythonServer::new();
    server.port = Some(5005);
    let response = server.on_worker_event(&WorkerEvent::Terminated);
    assert_eq!(response, EventResponse { announce: None, record: None, finished: true });
    assert_eq!(server.on_worker_event(&WorkerEvent::Other), quiet());
    assert_eq!(server.port, Some(5005));
}

#[test]
fn start_records_the_process() {
    let mut server: PythonServer<&str> = PythonServer::new();
    assert!(server.begin_start(true).is_none());
    let response = server.complete_start(SpawnOutcome::Spawned { process: "first", pid: None });
    assert_eq!(
        response,
        ApiResponse {
            success: true,
            data: Some("Python Flask server started successfully".to_string()),
            error: None
        }
    );
    assert!(server.running());
    assert_eq!(server.process, Some("first"));
    assert_eq!(server.port, None);
    assert_eq!(server.pid, None);
}

#[test]
fn failed_spawn_is_reported_and_changes_nothing() {
    let mut server: PythonServer<&str> = PythonServer::new();
    server.port = Some(5003);
    let response = server.complete_start(SpawnOutcome::Failed("permission denied".to_string()));
    assert_eq!(
        response,
        ApiResponse {
            success: false,
            data: None,
            error: Some("Failed to start Python server: permission denied".to_string())
        }
    );
    assert!(!server.running());
    assert_eq!(server.port, Some(5003));
}

#[test]
fn start_twice_stops_the_first_worker() {
    let mut server: PythonServer<&str> = PythonServer::new();
    assert!(server.begin_start(false).is_none());
    server.complete_start(SpawnOutcome::Spawned { process: "first", pid: Some(10) });
    server.on_worker_event(&WorkerEvent::Stdout("FLASK_PORT:5001".to_string()));

    let mut pending = server.begin_start(false).expect("a worker was running");
    assert!(!server.running());
    assert_eq!(server.port, None);
    assert_eq!(server.pid, None);
    let mut actions = Vec::new();
    loop {
        let turn = pending.turn(&StopEvent::Begun);
        if turn.action == StopAction::Finished {
            break;
        }
        actions.push(turn.action);
    }
    assert_eq!(
        actions,
        vec![
            StopAction::RequestShutdown { port: 5001, timeout_secs: 10 },
            StopAction::KillProcess { process: "first" }
        ]
    );

    server.complete_start(SpawnOutcome::Spawned { process: "second", pid: Some(11) });
    assert_eq!(server.process, Some("second"));
    assert_eq!(server.pid, Some(11));
    assert_eq!(server.port, None);
    server.on_worker_event(&WorkerEvent::Stdout("FLASK_PORT:5002".to_string()));
    assert_eq!(server.port, Some(5002));
}

#[test]
fn unknown_port_waits_then_sweeps() {
    let server: PythonServer<u8> = PythonServer::new();
    assert_eq!(server.lookup_port(LookupStage::First), PortLookup::Wait { millis: 500 });
    assert_eq!(
        server.lookup_port(LookupStage::AfterWait),
        PortLookup::Sweep { first: 5000, last: 5100, timeout_millis: 200 }
    );
    assert_eq!(RETRY_DELAY_MILLIS, 500);
    assert_eq!(PROBE_TIMEOUT_MILLIS, 200);
    assert_eq!(STATUS_TIMEOUT_SECS, 3);
}

#[test]
fn marker_during_the_wait_is_the_answer() {
    let mut server: PythonServer<u8> = PythonServer::new();
    assert_eq!(server.lookup_port(LookupStage::First), PortLookup::Wait { millis: 500 });
    server.on_worker_event(&WorkerEvent::Stdout("FLASK_PORT:5050".to_string()));
    assert_eq!(server.lookup_port(LookupStage::AfterWait), PortLookup::Known(5050));
    assert_eq!(port_response(5050), ApiResponse { success: true, data: Some(5050), error: None });
}

#[test]
fn sweep_takes_the_first_answer_and_keeps_it() {
    let mut server: PythonServer<u8> = PythonServer::new();
    let mut answers: Vec<Option<u16>> = vec![None; 101];
    answers[17] = probe_answer(5017, ProbeOutcome::Healthy);
    answers[32] = probe_answer(5032, ProbeOutcome::Healthy);
    answers[3] = probe_answer(5003, ProbeOutcome::Unhealthy);
    answers[4] = probe_answer(5004, ProbeOutcome::NoAnswer);
    assert_eq!(pick_first_answer(&answers), Some(5017));
    let response = server.conclude_sweep(&answers);
    assert_eq!(response, ApiResponse { success: true, data: Some(5017), error: None });
    assert_eq!(server.port, Some(5017));
    assert_eq!(server.lookup_port(LookupStage::First), PortLookup::Known(5017));
}

#[test]
fn sweep_without_answer_fails_with_port_unknown() {
    let mut server: PythonServer<u8> = PythonServer::new();
    let answers: Vec<Option<u16>> = vec![None; 101];
    let response = server.conclude_sweep(&answers);
    assert_eq!(
        response,
        ApiResponse {
            success: false,
            data: None,
            error: Some("Cannot get port number, server may not be started".to_string())
        }
    );
    assert_eq!(server.port, None);
    assert_eq!(server.conclude_sweep(&Vec::new()).success, false);
    assert_eq!(pick_first_answer(&Vec::new()), None);
}

#[test]
fn status_port_prefers_state_then_hint_then_default() {
    let mut server: PythonServer<u8> = PythonServer::new();
    assert_eq!(server.status_check(None), HealthCheck { port: 5000, timeout_secs: 3 });
    assert_eq!(server.status_check(Some(" 5042\n")).port, 5042);
    assert_eq!(server.status_check(Some("5042 x")).port, 5000);
    assert_eq!(server.status_check(Some("")).port, 5000);
    assert_eq!(server.status_check(Some("70000")).port, 5000);
    server.port = Some(4321);
    assert_eq!(server.status_check(Some("5042")), HealthCheck { port: 4321, timeout_secs: 3 });
    assert_eq!(server.status_check(None).port, 4321);
}

#[test]
fn status_envelopes() {
    assert_eq!(
        status_response(ProbeOutcome::Healthy),
        ApiResponse { success: true, data: Some(true), error: None }
    );
    assert_eq!(
        status_response(ProbeOutcome::Unhealthy),
        ApiResponse {
            success: false,
            data: Some(false),
            error: Some("Server response error".to_string())
        }
    );
    assert_eq!(
        status_response(ProbeOutcome::NoAnswer),
        ApiResponse {
            success: false,
            data: Some(false),
            error: Some("Cannot connect to server".to_string())
        }
    );
}

#[test]
fn database_path_envelopes() {
    assert_eq!(
        database_path_response(&StorageProbe::Ready("/data/app/chat.db".to_string())),
        ApiResponse { success: true, data: Some("/data/app/chat.db".to_string()), error: None }
    );
    assert_eq!(
        database_path_response(&StorageProbe::Unresolved("no home".to_string())).error,
        Some(SupervisorError::StorageUnavailable(StorageStep::Locate, "no home".to_string()).message())
    );
    assert_eq!(
        database_path_response(&StorageProbe::CreateFailed("read-only".to_string())),
        ApiResponse {
            success: false,
            data: None,
            error: Some("Failed to create app data directory: read-only".to_string())
        }
    );
}
