//! Records for starting and stopping the proxy core, directly or through the
//! helper service, and the report each outcome produces.

use vstd::prelude::*;
use vstd::string::StringExecFns;

verus! {

/// Request: start the core executable with these arguments.
pub struct StartClashProcess {
    pub executable_path: String,
    pub args: Vec<String>,
}

/// Request: stop the core started directly.
pub struct StopClashProcess;

/// Report of a start or stop of the core.
pub struct ClashProcessResult {
    pub success: bool,
    pub error_message: Option<String>,
    pub pid: Option<u32>,
}

/// Message for a start requested while the core already runs.
pub open spec fn already_running_text() -> Seq<char> {
    "进程已在运行"@
}

impl StartClashProcess {
    /// The report of a start: refused while a core already runs; otherwise the new
    /// process id, or the start error.
    pub fn handle(&self, already_running: bool, started: Result<u32, String>) -> (r: ClashProcessResult)
        ensures
            already_running ==> !r.success && r.pid is None && (r.error_message matches Some(m) && m@
                == already_running_text()),
            !already_running ==> match started {
                Ok(pid) => r.success && r.pid == Some(pid) && r.error_message is None,
                Err(e) => !r.success && r.pid is None && r.error_message == Some(e),
            },
    {
        if already_running {
            return ClashProcessResult {
                success: false,
                error_message: Some(String::from_str("进程已在运行")),
                pid: None,
            };
        }
        match started {
            Ok(pid) => ClashProcessResult { success: true, error_message: None, pid: Some(pid) },
            Err(e) => ClashProcessResult { success: false, error_message: Some(e), pid: None },
        }
    }
}

impl StopClashProcess {
    /// The report of a stop: success when the core stopped or none was running,
    /// otherwise the stop error.
    pub fn handle(&self, stopped: Result<(), String>) -> (r: ClashProcessResult)
        ensures
            r.pid is None,
            match stopped {
                Ok(()) => r.success && r.error_message is None,
                Err(e) => !r.success && r.error_message == Some(e),
            },
    {
        match stopped {
            Ok(()) => ClashProcessResult { success: true, error_message: None, pid: None },
            Err(e) => ClashProcessResult { success: false, error_message: Some(e), pid: None },
        }
    }
}

impl ClashProcessResult {
    /// The report of a start through the service: the core's process id when the
    /// service named one, or the error.
    pub fn from_service_start(outcome: Result<Option<u32>, String>) -> (r: ClashProcessResult)
        ensures
            match outcome {
                Ok(pid) => r.success && r.pid == pid && r.error_message is None,
                Err(e) => !r.success && r.pid is None && r.error_message == Some(e),
            },
    {
        match outcome {
            Ok(pid) => ClashProcessResult { success: true, error_message: None, pid },
            Err(e) => ClashProcessResult { success: false, error_message: Some(e), pid: None },
        }
    }
}

} // verus!
