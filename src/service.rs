//! Decisions of the service-mode manager: how helper replies map to a service
//! status, to the outcome of start/stop requests, and to the records reported to the
//! front end.

use vstd::prelude::*;
use vstd::string::StringExecFns;
use crate::service_client::IpcClient;
use crate::service_protocol::{IpcCommand, IpcError, IpcResponse};

verus! {

/// State of the helper service and of the core it runs.
pub enum ServiceStatus {
    /// The service runs the core with this process id, up for `uptime` seconds.
    Running { pid: u32, uptime: u64 },
    /// The service is installed, but it or its core is not running.
    Stopped,
    /// The service is not installed.
    NotInstalled,
    /// The service could not be reached.
    Unknown,
}

/// The service status that a reply to `GetStatus` shows: running when it names a
/// core process, stopped when it names none, unknown for any other reply or failure.
pub open spec fn status_of_reply(reply: Result<IpcResponse, IpcError>) -> ServiceStatus {
    match reply {
        Ok(IpcResponse::Status { clash_pid, service_uptime, .. }) => match clash_pid {
            Some(pid) => ServiceStatus::Running { pid, uptime: service_uptime },
            None => ServiceStatus::Stopped,
        },
        _ => ServiceStatus::Unknown,
    }
}

impl ServiceStatus {
    /// Reads the status out of a reply to `GetStatus`.
    pub fn from_status_reply(reply: Result<IpcResponse, IpcError>) -> (r: ServiceStatus)
        ensures
            r == status_of_reply(reply),
    {
        match reply {
            Ok(IpcResponse::Status { clash_pid, service_uptime, .. }) => match clash_pid {
                Some(pid) => ServiceStatus::Running { pid, uptime: service_uptime },
                None => ServiceStatus::Stopped,
            },
            _ => ServiceStatus::Unknown,
        }
    }

    /// Status when the quick liveness check failed: on Windows an installed service
    /// that does not answer is stopped; elsewhere it is unknown.
    pub fn unreachable(windows: bool) -> (r: ServiceStatus)
        ensures
            windows ==> r is Stopped,
            !windows ==> r is Unknown,
    {
        if windows {
            ServiceStatus::Stopped
        } else {
            ServiceStatus::Unknown
        }
    }
}

/// Manager of the helper service: its command client and the installed binary.
pub struct ServiceManager {
    pub ipc_client: IpcClient,
    pub service_exe_path: String,
}

impl ServiceManager {
    /// A manager for the service binary at `service_exe_path`, using the default
    /// command client.
    pub fn new(service_exe_path: String) -> (r: ServiceManager)
        ensures
            r.service_exe_path == service_exe_path,
            r.ipc_client.timeout_ms == crate::service_client::DEFAULT_TIMEOUT_MS,
            r.ipc_client.max_retries == crate::service_client::DEFAULT_MAX_RETRIES,
    {
        ServiceManager { ipc_client: IpcClient::default(), service_exe_path }
    }
}

/// Why a start or stop request to the helper failed.
pub enum ServiceCallError {
    /// The command could not be sent or answered.
    Send(IpcError),
    /// The helper refused, with this code and message.
    Rejected(i32, String),
    /// The helper answered with a reply of another kind.
    Unexpected,
}

/// The outcome of a start or stop command from the helper's reply: `Success`
/// succeeds, `Error` is a refusal, any other reply is unexpected, and a failure to
/// send is passed on.
pub open spec fn command_outcome(reply: Result<IpcResponse, IpcError>) -> Result<(), ServiceCallError> {
    match reply {
        Ok(IpcResponse::Success { .. }) => Ok(()),
        Ok(IpcResponse::Error { code, message }) => Err(ServiceCallError::Rejected(code, message)),
        Ok(_) => Err(ServiceCallError::Unexpected),
        Err(e) => Err(ServiceCallError::Send(e)),
    }
}

/// Interprets the helper's reply to `StartClash` or `StopClash`.
pub fn interpret_command_reply(reply: Result<IpcResponse, IpcError>) -> (r: Result<(), ServiceCallError>)
    ensures
        r == command_outcome(reply),
{
    match reply {
        Ok(IpcResponse::Success { .. }) => Ok(()),
        Ok(IpcResponse::Error { code, message }) => Err(ServiceCallError::Rejected(code, message)),
        Ok(_) => Err(ServiceCallError::Unexpected),
        Err(e) => Err(ServiceCallError::Send(e)),
    }
}

/// The core's process id named by a reply to `GetStatus`, if any.
pub fn pid_from_status_reply(reply: &Result<IpcResponse, IpcError>) -> (r: Option<u32>)
    ensures
        match reply {
            Ok(IpcResponse::Status { clash_pid, .. }) => r == *clash_pid,
            _ => r is None,
        },
{
    match reply {
        Ok(IpcResponse::Status { clash_pid, .. }) => *clash_pid,
        _ => None,
    }
}

/// Front-end request: query the service status.
pub struct GetServiceStatus;

/// Front-end request: install the service.
pub struct InstallService;

/// Front-end request: uninstall the service.
pub struct UninstallService;

/// Front-end request: start the core through the service.
pub struct StartClash {
    pub core_path: String,
    pub config_path: String,
    pub data_dir: String,
    pub external_controller: String,
}

/// Front-end request: stop the core through the service.
pub struct StopClash;

impl StartClash {
    /// The helper command carrying this request's paths.
    pub fn to_command(&self) -> (r: IpcCommand)
        ensures
            r == (IpcCommand::StartClash {
                core_path: self.core_path,
                config_path: self.config_path,
                data_dir: self.data_dir,
                external_controller: self.external_controller,
            }),
    {
        IpcCommand::StartClash {
            core_path: self.core_path.clone(),
            config_path: self.config_path.clone(),
            data_dir: self.data_dir.clone(),
            external_controller: self.external_controller.clone(),
        }
    }
}

/// Report of the service status to the front end.
pub struct ServiceStatusResponse {
    pub status: String,
    pub pid: Option<u32>,
    pub uptime: Option<u64>,
}

/// Name of a status as reported to the front end.
pub open spec fn status_name(s: ServiceStatus) -> Seq<char> {
    match s {
        ServiceStatus::Running { .. } => "running"@,
        ServiceStatus::Stopped => "stopped"@,
        ServiceStatus::NotInstalled => "not_installed"@,
        ServiceStatus::Unknown => "unknown"@,
    }
}

impl ServiceStatusResponse {
    /// The report of `status`: its name, and process id and uptime when running.
    pub fn from_status(status: ServiceStatus) -> (r: ServiceStatusResponse)
        ensures
            r.status@ == status_name(status),
            match status {
                ServiceStatus::Running { pid, uptime } => r.pid == Some(pid) && r.uptime == Some(uptime),
                _ => r.pid is None && r.uptime is None,
            },
    {
        match status {
            ServiceStatus::Running { pid, uptime } => ServiceStatusResponse {
                status: String::from_str("running"),
                pid: Some(pid),
                uptime: Some(uptime),
            },
            ServiceStatus::Stopped => ServiceStatusResponse { status: String::from_str("stopped"), pid: None, uptime: None },
            ServiceStatus::NotInstalled => ServiceStatusResponse {
                status: String::from_str("not_installed"),
                pid: None,
                uptime: None,
            },
            ServiceStatus::Unknown => ServiceStatusResponse { status: String::from_str("unknown"), pid: None, uptime: None },
        }
    }
}

/// Report of a service operation to the front end.
pub struct ServiceOperationResult {
    pub success: bool,
    pub error_message: Option<String>,
}

impl ServiceOperationResult {
    /// Success without a message, or failure with the error's text.
    pub fn from_outcome(outcome: Result<(), String>) -> (r: ServiceOperationResult)
        ensures
            match outcome {
                Ok(()) => r.success && r.error_message is None,
                Err(e) => !r.success && r.error_message == Some(e),
            },
    {
        match outcome {
            Ok(()) => ServiceOperationResult { success: true, error_message: None },
            Err(e) => ServiceOperationResult { success: false, error_message: Some(e) },
        }
    }
}

} // verus!
