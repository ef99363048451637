//! The messages of the automation protocol and the events that terminals send.
use crate::model::{copy_ids, copy_opt_string, opt_view};
use crate::text::{copy_string, owned};
use serde_json::Value;
use vstd::prelude::*;

verus! {

/// `serde_json::Value`, carried through the protocol without being read.
#[verifier::external_type_specification]
#[verifier::external_body]
pub struct ExJsonValue(Value);

/// The base URL of the canvas application's event server.
pub const DEFAULT_CANVAS_API: &'static str = "http://127.0.0.1:4545";

/// The address that the event server binds.
pub const DEFAULT_CANVAS_BIND_ADDR: &'static str = "127.0.0.1:4545";

/// A terminal node reports that its work is done.
#[derive(Debug, Clone)]
pub struct DoneEvent {
    pub node_uid: String,
    pub summary: String,
    pub route_key: Option<String>,
}

/// One automation request.
#[derive(Debug)]
pub struct AutomationRequest {
    pub action: String,
    pub payload: Value,
    pub request_id: Option<String>,
    pub timestamp_ms: Option<u64>,
}

/// The error part of a failed automation response.
#[derive(Debug)]
pub struct AutomationError {
    pub code: String,
    pub message: String,
    pub details: Option<Value>,
}

/// Timing and state counters reported with each automation response.
#[derive(Debug, Clone)]
pub struct AutomationDiagnostics {
    pub action: String,
    pub queue_ms: u64,
    pub exec_ms: u64,
    pub total_ms: u64,
    pub state_version: u64,
    pub state_timestamp_ms: u64,
    pub affected_ids: Vec<usize>,
}

/// The answer to one automation request.
#[derive(Debug)]
pub struct AutomationResponse {
    pub request_id: Option<String>,
    pub ok: bool,
    pub data: Value,
    pub error: Option<AutomationError>,
    pub diagnostics: AutomationDiagnostics,
}

/// `serde_json::Value::Null`; the value is opaque here and nothing is claimed of it.
#[verifier::external_body]
pub(crate) fn json_null() -> Value {
    Value::Null
}

/// `<serde_json::Value as Clone>::clone`, which serde_json derives: the
/// copy is the same value.
#[verifier::external_body]
fn clone_json(v: &Value) -> (r: Value)
    ensures
        r == *v,
{
    v.clone()
}

/// `std::time::SystemTime`, a reading of the system clock, carried without
/// being read.
#[verifier::external_type_specification]
#[verifier::external_body]
pub struct ExSystemTime(std::time::SystemTime);

/// `SystemTime::now`: the system clock's reading. It rests on the clock, so
/// nothing is claimed of it.
#[verifier::external_body]
fn system_time_now() -> std::time::SystemTime {
    std::time::SystemTime::now()
}

/// `SystemTime::duration_since` the Unix epoch, in whole milliseconds, or
/// `None` for a reading before the epoch. The reading is opaque here, so
/// nothing is claimed of the result.
#[verifier::external_body]
fn millis_since_unix_epoch(t: &std::time::SystemTime) -> Option<u128> {
    match t.duration_since(std::time::UNIX_EPOCH) {
        Ok(d) => Some(d.as_millis()),
        Err(_) => None,
    }
}

/// The timestamp that a clock reading gives: the milliseconds capped at
/// `u64::MAX`, and 0 for a clock that stands before the epoch.
pub open spec fn timestamp_of_reading(reading: Option<u128>) -> u64 {
    match reading {
        Some(ms) => if ms > u64::MAX {
            u64::MAX
        } else {
            ms as u64
        },
        None => 0,
    }
}

/// Turns a clock reading (milliseconds since the Unix epoch, `None` before
/// the epoch) into a `u64` timestamp.
pub fn timestamp_from_reading(reading: Option<u128>) -> (r: u64)
    ensures
        r == timestamp_of_reading(reading),
{
    match reading {
        Some(ms) => if ms > u64::MAX as u128 {
            u64::MAX
        } else {
            ms as u64
        },
        None => 0,
    }
}

/// Milliseconds since the Unix epoch, capped at `u64::MAX`; 0 when the clock
/// stands before the epoch. The reading rests on the clock, so nothing about
/// the value is stated here; `timestamp_from_reading` states how a reading
/// becomes the timestamp.
pub fn now_timestamp_ms() -> u64 {
    let now = system_time_now();
    timestamp_from_reading(millis_since_unix_epoch(&now))
}

/// Diagnostics for an action that has not been timed.
pub fn empty_diagnostics(action: &str) -> (r: AutomationDiagnostics)
    ensures
        r.action@ == action@,
        r.queue_ms == 0,
        r.exec_ms == 0,
        r.total_ms == 0,
        r.state_version == 0,
        r.affected_ids@.len() == 0,
{
    AutomationDiagnostics {
        action: owned(action),
        queue_ms: 0,
        exec_ms: 0,
        total_ms: 0,
        state_version: 0,
        state_timestamp_ms: now_timestamp_ms(),
        affected_ids: Vec::new(),
    }
}

/// A failed response with the given error code and message.
pub fn response_error(request_id: Option<String>, action: &str, code: &str, message: String) -> (r:
    AutomationResponse)
    ensures
        opt_view(r.request_id) == opt_view(request_id),
        !r.ok,
        r.error matches Some(e) && e.code@ == code@ && e.message@ == message@ && e.details is None,
        r.diagnostics.action@ == action@,
        r.diagnostics.queue_ms == 0,
        r.diagnostics.exec_ms == 0,
        r.diagnostics.total_ms == 0,
        r.diagnostics.state_version == 0,
        r.diagnostics.affected_ids@.len() == 0,
{
    AutomationResponse {
        request_id,
        ok: false,
        data: json_null(),
        error: Some(AutomationError { code: owned(code), message, details: None }),
        diagnostics: empty_diagnostics(action),
    }
}

impl AutomationDiagnostics {
    pub fn copy(&self) -> (r: AutomationDiagnostics)
        ensures
            r.action@ == self.action@,
            r.queue_ms == self.queue_ms,
            r.exec_ms == self.exec_ms,
            r.total_ms == self.total_ms,
            r.state_version == self.state_version,
            r.state_timestamp_ms == self.state_timestamp_ms,
            r.affected_ids@ == self.affected_ids@,
    {
        AutomationDiagnostics {
            action: copy_string(&self.action),
            queue_ms: self.queue_ms,
            exec_ms: self.exec_ms,
            total_ms: self.total_ms,
            state_version: self.state_version,
            state_timestamp_ms: self.state_timestamp_ms,
            affected_ids: copy_ids(&self.affected_ids),
        }
    }
}

impl AutomationResponse {
    /// A copy of every field; the JSON data is cloned.
    pub fn copy(&self) -> (r: AutomationResponse)
        ensures
            opt_view(r.request_id) == opt_view(self.request_id),
            r.ok == self.ok,
            r.data == self.data,
            r.error is Some <==> self.error is Some,
            r.error matches Some(e) ==> e.code@ == self.error->0.code@ && e.message@
                == self.error->0.message@ && e.details == self.error->0.details,
            r.diagnostics.action@ == self.diagnostics.action@,
            r.diagnostics.queue_ms == self.diagnostics.queue_ms,
            r.diagnostics.exec_ms == self.diagnostics.exec_ms,
            r.diagnostics.total_ms == self.diagnostics.total_ms,
            r.diagnostics.state_version == self.diagnostics.state_version,
            r.diagnostics.state_timestamp_ms == self.diagnostics.state_timestamp_ms,
            r.diagnostics.affected_ids@ == self.diagnostics.affected_ids@,
    {
        let error = match &self.error {
            Some(e) => Some(
                AutomationError {
                    code: copy_string(&e.code),
                    message: copy_string(&e.message),
                    details: match &e.details {
                        Some(d) => Some(clone_json(d)),
                        None => None,
                    },
                },
            ),
            None => None,
        };
        AutomationResponse {
            request_id: copy_opt_string(&self.request_id),
            ok: self.ok,
            data: clone_json(&self.data),
            error,
            diagnostics: self.diagnostics.copy(),
        }
    }
}

} // verus!
