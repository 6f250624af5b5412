//! The uniform response envelope: every operation's result is wrapped in
//! `{ message, data }` with an HTTP-equivalent status carried alongside.

use vstd::prelude::*;
use vstd::string::StringExecFns;

use crate::app_error::InternalServerError;

verus! {

/// HTTP-equivalent status for a successful read, delete or mutation.
pub const STATUS_OK: u16 = 200;

/// HTTP-equivalent status for a successful creation.
pub const STATUS_CREATED: u16 = 201;

/// The envelope around every response: a message ("success" on every
/// successful path, a failure description otherwise), the payload, and the
/// status code carried as metadata outside the serialized body.
#[derive(Debug, PartialEq, Eq)]
pub struct ServerResponse<T> {
    pub message: String,
    pub data: T,
    pub status_code: u16,
}

impl<T> ServerResponse<T> {
    /// Wrap a payload as a plain success.
    pub fn success(data: T) -> (r: Self)
        ensures
            r.data == data,
            r.message@ == "success"@,
            r.status_code == STATUS_OK,
    {
        Self { message: String::from_str("success"), data, status_code: STATUS_OK }
    }

    /// Wrap a payload as a success with an explicit status code.
    pub fn success_code(data: T, status_code: u16) -> (r: Self)
        ensures
            r.data == data,
            r.message@ == "success"@,
            r.status_code == status_code,
    {
        Self { message: String::from_str("success"), data, status_code }
    }
}

impl ServerResponse<()> {
    /// Wrap a failure description; unclassified failures are internal.
    pub fn error(message: String) -> (r: Self)
        ensures
            r.message == message,
            r.status_code == 500,
    {
        ServerResponse { data: (), message, status_code: 500 }
    }

    /// Wrap a failure description with an explicit status code.
    pub fn error_code(message: String, status_code: u16) -> (r: Self)
        ensures
            r.message == message,
            r.status_code == status_code,
    {
        ServerResponse { data: (), message, status_code }
    }
}

/// What every handler returns: a successful envelope or the failure that the
/// boundary translates into one.
pub type ServerResponseResult<T> = Result<ServerResponse<T>, InternalServerError>;

} // verus!
