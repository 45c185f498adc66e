//! How a finished request is reported: as a typed error by the serialising
//! pool, as failure text on the wire by a process-pool worker.

use crate::context::RenderFailure;
use crate::errors::PoolError;
use crate::picture::Image;
use crate::wire::{WorkerFailure, WorkerResponse};
use vstd::prelude::*;

verus! {

/// The text that a worker sends for a failed request.
pub open spec fn failure_text_of(f: RenderFailure) -> Seq<char> {
    match f {
        RenderFailure::NotFound(p) => "Failed to load style: Path "@ + p@ + " is not a file"@,
        RenderFailure::LoadFailed(m) => "Failed to load style: "@ + m@,
        RenderFailure::RenderFailed(e) => "Rendering error: "@ + e.spec_message(),
    }
}

/// The text that a worker sends for a failed request.
pub fn failure_text(f: &RenderFailure) -> (r: String)
    ensures
        r@ == failure_text_of(*f),
{
    match f {
        RenderFailure::NotFound(p) => {
            let mut t = String::from_str("Failed to load style: Path ");
            t.append(p.as_str());
            t.append(" is not a file");
            t
        },
        RenderFailure::LoadFailed(m) => {
            let mut t = String::from_str("Failed to load style: ");
            t.append(m.as_str());
            t
        },
        RenderFailure::RenderFailed(e) => {
            let mut t = String::from_str("Rendering error: ");
            t.append(e.message());
            t
        },
    }
}

/// The serialising pool's answer for a finished request: a missing style is
/// `NotFound`, a failed load is `BackendError` with the backend's text, a
/// failed render is `RenderingError`.
pub fn pool_result(outcome: Result<Image, RenderFailure>) -> (r: Result<Image, PoolError>)
    ensures
        outcome matches Ok(img) ==> r matches Ok(i) && i@ == img@,
        outcome matches Err(RenderFailure::NotFound(p)) ==> r matches Err(PoolError::NotFound(q))
            && q@ == p@,
        outcome matches Err(RenderFailure::LoadFailed(m)) ==> r matches Err(
            PoolError::BackendError(t),
        ) && t@ == m@,
        outcome matches Err(RenderFailure::RenderFailed(e)) ==> r matches Err(
            PoolError::RenderingError(f),
        ) && f == e,
{
    match outcome {
        Ok(img) => Ok(img),
        Err(RenderFailure::NotFound(p)) => Err(PoolError::NotFound(p)),
        Err(RenderFailure::LoadFailed(m)) => Err(PoolError::BackendError(m)),
        Err(RenderFailure::RenderFailed(e)) => Err(PoolError::RenderingError(e)),
    }
}

/// A worker's response to request `id` that finished with `outcome`: a
/// missing style travels as such, with its path; any other failure as its text.
pub fn worker_response(id: u64, outcome: Result<Image, RenderFailure>) -> (r: WorkerResponse)
    ensures
        r.id == id,
        outcome matches Ok(img) ==> r.result matches Ok(i) && i@ == img@,
        outcome matches Err(RenderFailure::NotFound(p)) ==> r.result matches Err(
            WorkerFailure::NotFound(q),
        ) && q@ == p@,
        outcome matches Err(f) ==> (!(f is NotFound) ==> (r.result matches Err(
            WorkerFailure::Failed(t),
        ) && t@ == failure_text_of(f))),
{
    match outcome {
        Ok(img) => WorkerResponse { id, result: Ok(img) },
        Err(RenderFailure::NotFound(p)) => WorkerResponse {
            id,
            result: Err(WorkerFailure::NotFound(p)),
        },
        Err(f) => WorkerResponse { id, result: Err(WorkerFailure::Failed(failure_text(&f))) },
    }
}

} // verus!
