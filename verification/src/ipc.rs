//! The daemon's IPC reply as the tools see it, and the one rule every
//! command applies to it: a reply is a failure when its status says so or
//! when it carries an error, whatever the status.
use vstd::prelude::*;
use crate::json::JsonValue;
use crate::text::{append_dec, dec};

verus! {

/// The outcome the daemon reports for a request.
#[derive(Clone, Copy, Debug, PartialEq, Eq, Structural)]
pub enum ResponseStatus {
    Success,
    Error,
}

/// The error part of a reply.
pub struct ErrorDetails {
    pub code: u16,
    pub message: String,
    pub details: Option<JsonValue>,
}

/// One reply of the daemon.
pub struct IpcResponse {
    pub id: String,
    pub status: ResponseStatus,
    pub data: Option<JsonValue>,
    pub error: Option<ErrorDetails>,
}

/// Whether a reply counts as a failure.
pub open spec fn is_failure(r: IpcResponse) -> bool {
    r.status == ResponseStatus::Error || r.error is Some
}

/// The message of a failed reply for the operation `ctx`.
pub open spec fn failure_message(r: IpcResponse, ctx: Seq<char>) -> Seq<char> {
    ctx + " failed: "@ + match r.error {
        Some(e) => e.message@ + " (code "@ + dec(e.code as nat) + ")"@,
        None => "unknown error"@,
    }
}

/// Convert an IPC response into a `Result`, so that a daemon-reported error
/// makes the command fail: `Err` when the status is `Error` or an error is
/// attached, carrying the context, the daemon's message and its code.
pub fn check_ipc_response(response: &IpcResponse, ctx: &str) -> (r: Result<(), String>)
    ensures
        is_failure(*response) <==> r is Err,
        r matches Err(m) ==> m@ == failure_message(*response, ctx@),
{
    let failed = match response.status {
        ResponseStatus::Error => true,
        ResponseStatus::Success => response.error.is_some(),
    };
    if failed {
        let mut m = String::from_str(ctx);
        m.append(" failed: ");
        match &response.error {
            Some(e) => {
                m.append(e.message.as_str());
                m.append(" (code ");
                append_dec(&mut m, e.code as u64);
                m.append(")");
            },
            None => {
                m.append("unknown error");
            },
        }
        proof {
            assert(m@ =~= failure_message(*response, ctx@));
        }
        Err(m)
    } else {
        Ok(())
    }
}

/// The daemon's message of a failed reply, or `"Unknown error"`.
pub open spec fn error_message_or_unknown(r: IpcResponse) -> Seq<char> {
    match r.error {
        Some(e) => e.message@,
        None => "Unknown error"@,
    }
}

/// `response.error.map(|e| e.message).unwrap_or_else(|| "Unknown error")`.
pub fn error_message(response: &IpcResponse) -> (r: String)
    ensures
        r@ == error_message_or_unknown(*response),
{
    match &response.error {
        Some(e) => String::from_str(e.message.as_str()),
        None => String::from_str("Unknown error"),
    }
}

/// The text a reply hands back to the menu bar: the serialized data on
/// success, the daemon's message (or `"Unknown error"`) on failure. The
/// serialization of the data is done by the caller and passed in.
pub fn reply_outcome(response: &IpcResponse, data_text: String) -> (r: Result<String, String>)
    ensures
        response.status == ResponseStatus::Success ==> r == Ok::<String, String>(data_text),
        response.status == ResponseStatus::Error ==> (r matches Err(m) && m@
            == error_message_or_unknown(*response)),
{
    match response.status {
        ResponseStatus::Success => Ok(data_text),
        ResponseStatus::Error => Err(error_message(response)),
    }
}

/// A reply for which `check_ipc_response` succeeds carries no error and a
/// success status; one with an error attached always fails, whatever its
/// status says.
pub proof fn failure_iff_error_or_status(r: IpcResponse)
    ensures
        r.error is Some ==> is_failure(r),
        r.status == ResponseStatus::Error ==> is_failure(r),
        !is_failure(r) ==> r.error is None && r.status == ResponseStatus::Success,
{
}

} // verus!
