use backend_supervisor::envelope::{ApiResponse, StorageStep, SupervisorError};

#[test]
fn every_failure_has_its_text() {
    assert_eq!(
        SupervisorError::SpawnFailed("No such file".to_string()).message(),
        "Failed to start Python server: No such file"
    );
    assert_eq!(
        SupervisorError::MissingExecutable(None).message(),
        "Cannot find embedded Python server executable"
    );
    assert_eq!(
        SupervisorError::MissingExecutable(Some("not bundled".to_string())).message(),
        "Cannot find embedded Python server executable: not bundled"
    );
    assert_eq!(
        SupervisorError::StorageUnavailable(StorageStep::Create, "denied".to_string()).message(),
        "Failed to create app data directory: denied"
    );
    assert_eq!(
        SupervisorError::StorageUnavailable(StorageStep::Locate, "unknown".to_string()).message(),
        "Failed to get app data directory: unknown"
    );
    assert_eq!(
        SupervisorError::PortUnknown.message(),
        "Cannot get port number, server may not be started"
    );
    assert_eq!(SupervisorError::Unreachable.message(), "Cannot connect to server");
    assert_eq!(SupervisorError::UnhealthyResponse.message(), "Server response error");
}

#[test]
fn envelope_of_success() {
    let r = ApiResponse::ok(4321u16);
    assert!(r.success);
    assert_eq!(r.data, Some(4321));
    assert_eq!(r.error, None);
}

#[test]
fn envelope_of_failure() {
    let r: ApiResponse<u16> = ApiResponse::fail(&SupervisorError::PortUnknown);
    assert!(!r.success);
    assert_eq!(r.data, None);
    assert_eq!(r.error.as_deref(), Some("Cannot get port number, server may not be started"));
}

#[test]
fn envelope_of_failure_with_payload() {
    let r = ApiResponse::fail_with(false, &SupervisorError::Unreachable);
    assert_eq!(
        r,
        ApiResponse {
            success: false,
            data: Some(false),
            error: Some("Cannot connect to server".to_string())
        }
    );
}
