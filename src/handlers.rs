//! Per-request orchestration decisions for calls to the proxy core: which calls are
//! serialized by the configuration gate, and the response record reported to the
//! front end for each outcome.

use vstd::prelude::*;
use vstd::string::StringExecFns;
use crate::http::HttpResponse;

verus! {

/// Verbs of the proxy core's control API.
#[derive(Clone, Copy, PartialEq, Eq, Structural, Debug)]
pub enum RestMethod {
    Get,
    Post,
    Put,
    Patch,
    Delete,
}

/// The verb as written on the request line.
pub open spec fn method_text(m: RestMethod) -> Seq<char> {
    match m {
        RestMethod::Get => "GET"@,
        RestMethod::Post => "POST"@,
        RestMethod::Put => "PUT"@,
        RestMethod::Patch => "PATCH"@,
        RestMethod::Delete => "DELETE"@,
    }
}

impl RestMethod {
    /// The verb as written on the request line.
    pub fn as_str(&self) -> (r: &'static str)
        ensures
            r@ == method_text(*self),
    {
        match self {
            RestMethod::Get => "GET",
            RestMethod::Post => "POST",
            RestMethod::Put => "PUT",
            RestMethod::Patch => "PATCH",
            RestMethod::Delete => "DELETE",
        }
    }

    /// Configuration-replacing calls (`PUT`) hold the single-permit mutation gate
    /// for their whole duration; every other verb runs without it.
    pub fn is_mutating(&self) -> (r: bool)
        ensures
            r <==> *self == RestMethod::Put,
    {
        match self {
            RestMethod::Put => true,
            _ => false,
        }
    }

    /// Whether requests with this verb carry the caller's body.
    pub fn sends_body(&self) -> (r: bool)
        ensures
            r <==> !(*self == RestMethod::Get || *self == RestMethod::Delete),
    {
        match self {
            RestMethod::Get | RestMethod::Delete => false,
            _ => true,
        }
    }
}

/// Record reported to the front end for one proxied call.
pub struct IpcResponse {
    pub request_id: u64,
    pub status_code: u16,
    pub body: String,
    pub success: bool,
    pub error_message: Option<String>,
}

/// Prefix of the message for a call that got no connection.
pub open spec fn acquire_failed_prefix() -> Seq<char> {
    "获取连接失败："@
}

/// Prefix of the message for a call whose exchange failed.
pub open spec fn request_failed_prefix() -> Seq<char> {
    "IPC 请求失败："@
}

/// Prefix of the message for a call that could not take the mutation gate.
pub open spec fn gate_failed_prefix() -> Seq<char> {
    "获取配置锁失败："@
}

/// A failed call: status 0, empty body, and `prefix` followed by the cause.
pub open spec fn is_failure(r: IpcResponse, request_id: u64, prefix: Seq<char>, cause: Seq<char>) -> bool {
    &&& r.request_id == request_id
    &&& r.status_code == 0
    &&& r.body@.len() == 0
    &&& !r.success
    &&& r.error_message matches Some(m) && m@ == prefix + cause
}

fn failure(request_id: u64, prefix: &str, cause: &str) -> (r: IpcResponse)
    ensures
        is_failure(r, request_id, prefix@, cause@),
{
    let message = String::from_str(prefix).concat(cause);
    IpcResponse { request_id, status_code: 0, body: String::new(), success: false, error_message: Some(message) }
}

impl IpcResponse {
    /// The call could not take the mutation gate (it was torn down).
    pub fn gate_failed(request_id: u64, cause: &str) -> (r: IpcResponse)
        ensures
            is_failure(r, request_id, gate_failed_prefix(), cause@),
    {
        failure(request_id, "获取配置锁失败：", cause)
    }

    /// No connection could be taken from the pool or opened.
    pub fn acquire_failed(request_id: u64, cause: &str) -> (r: IpcResponse)
        ensures
            is_failure(r, request_id, acquire_failed_prefix(), cause@),
    {
        failure(request_id, "获取连接失败：", cause)
    }
}

/// Ends a call that had a connection: the report for the front end, and whether the
/// connection goes back to the pool, which happens exactly when the exchange
/// succeeded (a failed connection is dropped).
pub fn finish_request(request_id: u64, outcome: Result<HttpResponse, String>) -> (r: (IpcResponse, bool))
    ensures
        r.1 <==> outcome is Ok,
        match outcome {
            Ok(resp) => r.0 == (IpcResponse {
                request_id,
                status_code: resp.status_code,
                body: resp.body,
                success: true,
                error_message: None,
            }),
            Err(cause) => is_failure(r.0, request_id, request_failed_prefix(), cause@),
        },
{
    match outcome {
        Ok(resp) => (
            IpcResponse {
                request_id,
                status_code: resp.status_code,
                body: resp.body,
                success: true,
                error_message: None,
            },
            true,
        ),
        Err(cause) => (failure(request_id, "IPC 请求失败：", cause.as_str()), false),
    }
}

} // verus!
