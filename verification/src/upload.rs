//! The HTTP ingestor's decisions: which upload is refused before any file
//! is touched, and how a failure is answered.

use crate::storage::{is_safe_target, plan_storage, planned, text_of, StoragePlan};
use vstd::prelude::*;
use vstd::string::*;

verus! {

/// The status of a refused path.
pub const BAD_REQUEST: u16 = 400;

/// The status of a failed ingestion.
pub const INTERNAL_SERVER_ERROR: u16 = 500;

/// Why an upload did not succeed, as a status and the response's body.
#[derive(Clone, Debug, PartialEq, Eq)]
pub struct Rejection {
    pub status: u16,
    pub body: String,
}

/// The answer to an upload whose path is refused.
pub open spec fn is_invalid_path_answer(r: Rejection) -> bool {
    r.status == 400 && r.body@ == "Invalid path"@
}

/// The first half of an upload: the paths to write, or the answer
/// `400 Invalid path` where a segment is refused. Nothing has touched the
/// disk when that answer is given.
pub fn begin_upload(device_id: Option<&str>, file_name: &str) -> (out: Result<
    StoragePlan,
    Rejection,
>)
    ensures
        out is Ok <==> is_safe_target(text_of(device_id), file_name@),
        out matches Ok(plan) ==> plan@ == planned(text_of(device_id), file_name@),
        out matches Err(r) ==> is_invalid_path_answer(r),
{
    match plan_storage(device_id, file_name) {
        Ok(plan) => Ok(plan),
        Err(_) => Err(Rejection { status: BAD_REQUEST, body: String::from_str("Invalid path") }),
    }
}

/// The second half of an upload: an empty success where the ingestion
/// succeeded, else `500` with the storage error's description as the body.
pub fn finish_upload(stored: Result<(), String>) -> (out: Result<(), Rejection>)
    ensures
        out is Ok <==> stored is Ok,
        stored matches Err(description) ==> (out matches Err(r) && r.status == 500 && r.body@
            == description@),
{
    match stored {
        Ok(()) => Ok(()),
        Err(description) => Err(Rejection { status: INTERNAL_SERVER_ERROR, body: description }),
    }
}

} // verus!
