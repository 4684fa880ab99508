//! The uniform result envelope handed to the presentation layer, and the
//! failures that the supervisor reports through it.

use vstd::prelude::*;
use vstd::string::*;

verus! {

/// The step of preparing the storage directory that went wrong.
#[derive(Debug, Clone, Copy, PartialEq, Eq)]
pub enum StorageStep {
    /// The directory could not be determined.
    Locate,
    /// The directory could not be created.
    Create,
}

/// The failures that the supervisor reports to its callers.
#[derive(Debug, Clone, PartialEq, Eq)]
pub enum SupervisorError {
    /// Creating the worker process failed; the payload says why.
    SpawnFailed(String),
    /// No bundled worker executable was found; the payload may say more.
    MissingExecutable(Option<String>),
    /// The storage directory is not available; the payload says why.
    StorageUnavailable(StorageStep, String),
    /// No port is known and no probed port answered.
    PortUnknown,
    /// The health probe got no answer.
    Unreachable,
    /// The health probe was answered with a status other than success.
    UnhealthyResponse,
}

impl SupervisorError {
    /// The text under which the failure is shown to the user.
    pub open spec fn message_text(&self) -> Seq<char> {
        match self {
            SupervisorError::SpawnFailed(reason) => "Failed to start Python server: "@ + reason@,
            SupervisorError::MissingExecutable(None) =>
                "Cannot find embedded Python server executable"@,
            SupervisorError::MissingExecutable(Some(detail)) =>
                "Cannot find embedded Python server executable: "@ + detail@,
            SupervisorError::StorageUnavailable(StorageStep::Locate, reason) =>
                "Failed to get app data directory: "@ + reason@,
            SupervisorError::StorageUnavailable(StorageStep::Create, reason) =>
                "Failed to create app data directory: "@ + reason@,
            SupervisorError::PortUnknown => "Cannot get port number, server may not be started"@,
            SupervisorError::Unreachable => "Cannot connect to server"@,
            SupervisorError::UnhealthyResponse => "Server response error"@,
        }
    }

    /// Renders the failure as the text shown to the user.
    pub fn message(&self) -> (text: String)
        ensures
            text@ == self.message_text(),
    {
        match self {
            SupervisorError::SpawnFailed(reason) => {
                let mut text = String::from_str("Failed to start Python server: ");
                text.append(reason.as_str());
                text
            },
            SupervisorError::MissingExecutable(None) => String::from_str(
                "Cannot find embedded Python server executable",
            ),
            SupervisorError::MissingExecutable(Some(detail)) => {
                let mut text = String::from_str("Cannot find embedded Python server executable: ");
                text.append(detail.as_str());
                text
            },
            SupervisorError::StorageUnavailable(StorageStep::Locate, reason) => {
                let mut text = String::from_str("Failed to get app data directory: ");
                text.append(reason.as_str());
                text
            },
            SupervisorError::StorageUnavailable(StorageStep::Create, reason) => {
                let mut text = String::from_str("Failed to create app data directory: ");
                text.append(reason.as_str());
                text
            },
            SupervisorError::PortUnknown => String::from_str(
                "Cannot get port number, server may not be started",
            ),
            SupervisorError::Unreachable => String::from_str("Cannot connect to server"),
            SupervisorError::UnhealthyResponse => String::from_str("Server response error"),
        }
    }
}

/// What every command returns: a success flag, a payload and an error text.
#[derive(Debug, Clone, PartialEq, Eq)]
pub struct ApiResponse<T> {
    pub success: bool,
    pub data: Option<T>,
    pub error: Option<String>,
}

impl<T> ApiResponse<T> {
    /// The error text as a sequence of characters, if there is one.
    pub open spec fn error_text(&self) -> Option<Seq<char>> {
        match self.error {
            Some(text) => Some(text@),
            None => None,
        }
    }

    /// The envelope reports success with exactly `data`.
    pub open spec fn succeeded_with(&self, data: T) -> bool {
        &&& self.success
        &&& self.data == Some(data)
        &&& self.error is None
    }

    /// The envelope reports `error`, beside the payload `data`.
    pub open spec fn failed_with(&self, data: Option<T>, error: SupervisorError) -> bool {
        &&& !self.success
        &&& self.data == data
        &&& self.error_text() == Some(error.message_text())
    }

    /// A successful envelope around `data`.
    pub fn ok(data: T) -> (r: Self)
        ensures
            r.succeeded_with(data),
    {
        ApiResponse { success: true, data: Some(data), error: None }
    }

    /// A failed envelope that reports `error` and carries no payload.
    pub fn fail(error: &SupervisorError) -> (r: Self)
        ensures
            r.failed_with(None, *error),
    {
        ApiResponse { success: false, data: None, error: Some(error.message()) }
    }

    /// A failed envelope that reports `error` beside the payload `data`.
    pub fn fail_with(data: T, error: &SupervisorError) -> (r: Self)
        ensures
            r.failed_with(Some(data), *error),
    {
        ApiResponse { success: false, data: Some(data), error: Some(error.message()) }
    }
}

} // verus!
