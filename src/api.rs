//! The request and response of the start operation.

use vstd::prelude::*;

use crate::ids::{id_text, uuid_text};
use crate::orchestrator::StartError;

verus! {

/// Source code to run and the text for its standard input.
#[derive(Debug)]
pub struct ExecuteRequest {
    pub code: String,
    pub input: String,
}

/// The answer to a start request: on success the new session's id, else a
/// message for the client.
#[derive(Debug)]
pub struct ExecuteResponse {
    pub success: bool,
    pub session_id: String,
}

/// The message sent back when no execution slot is free.
pub open spec fn busy_message() -> Seq<char> {
    "Server is busy, try again later"@
}

impl ExecuteResponse {
    /// A started execution, reported by its id's text.
    pub fn accepted(id: u128) -> (r: Self)
        ensures
            r.success,
            r.session_id@ == uuid_text(id),
    {
        ExecuteResponse { success: true, session_id: id_text(id) }
    }

    /// A request turned away for want of capacity.
    pub fn busy() -> (r: Self)
        ensures
            !r.success,
            r.session_id@ == busy_message(),
    {
        ExecuteResponse { success: false, session_id: String::from_str("Server is busy, try again later") }
    }

    /// The answer to the outcome of a start request.
    pub fn from_start(outcome: Result<u128, StartError>) -> (r: Self)
        ensures
            r.success == outcome is Ok,
            outcome matches Ok(id) ==> r.session_id@ == uuid_text(id),
            outcome is Err ==> r.session_id@ == busy_message(),
    {
        match outcome {
            Ok(id) => Self::accepted(id),
            Err(_) => Self::busy(),
        }
    }
}

} // verus!
