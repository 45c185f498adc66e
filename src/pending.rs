//! The pending table of a process-pool worker: the completion handle of each
//! request in flight, by request id.

use crate::bytes::{le64, lemma_le64};
use crate::errors::MultiThreadedRenderPoolError;
use crate::picture::Image;
use crate::wire::{decode_response, FailureView, ResponseView, WorkerFailure};
use std::collections::HashMap;
use vstd::prelude::*;

verus! {

broadcast use vstd::std_specs::hash::group_hash_axioms;

/// Completion handles of the requests in flight on one worker, by id.
pub struct PendingTable<V> {
    entries: HashMap<u64, V>,
}

impl<V> View for PendingTable<V> {
    type V = Map<u64, V>;

    closed spec fn view(&self) -> Map<u64, V> {
        self.entries@
    }
}

impl<V> PendingTable<V> {
    /// An empty table.
    pub fn new() -> (r: PendingTable<V>)
        ensures
            r@ == Map::<u64, V>::empty(),
    {
        PendingTable { entries: HashMap::new() }
    }

    /// Registers the handle of request `id`; returns the handle it replaces.
    pub fn register(&mut self, id: u64, handle: V) -> (r: Option<V>)
        ensures
            final(self)@ == old(self)@.insert(id, handle),
            r matches Some(h) ==> old(self)@.contains_key(id) && h == old(self)@[id],
            r is None ==> !old(self)@.contains_key(id),
    {
        self.entries.insert(id, handle)
    }

    /// Removes and returns the handle of request `id`, if it is in flight.
    pub fn take(&mut self, id: u64) -> (r: Option<V>)
        ensures
            final(self)@ == old(self)@.remove(id),
            r matches Some(h) ==> old(self)@.contains_key(id) && h == old(self)@[id],
            r is None ==> !old(self)@.contains_key(id),
    {
        self.entries.remove(&id)
    }

    /// Whether request `id` is in flight.
    pub fn contains(&self, id: u64) -> (r: bool)
        ensures
            r == self@.contains_key(id),
    {
        self.entries.contains_key(&id)
    }

    /// Number of requests in flight.
    pub fn len(&self) -> (r: usize)
        ensures
            r == self@.len(),
    {
        self.entries.len()
    }
}

/// What to do with one response frame read from a worker.
#[derive(Debug)]
pub enum Delivery<V> {
    /// Complete this handle with this result.
    Deliver(V, Result<Image, MultiThreadedRenderPoolError>),
    /// Nobody waits for this response any more; it is dropped.
    Unclaimed,
    /// The frame does not decode: the worker's stream is corrupt and is not
    /// read further.
    Corrupt,
}

/// Decides the fate of the response `payload` read from a worker whose
/// requests in flight are `pending`. A response for an id in flight takes that
/// id's handle out of the table and completes it: with the image, with
/// `NotFound` and the path where the style is missing, or with the worker's
/// failure text as `WorkerError`.
pub fn accept_response<V>(pending: &mut PendingTable<V>, payload: &[u8]) -> (r: Delivery<V>)
    ensures
        r is Corrupt <==> forall|m: ResponseView| m.encodable() ==> m.payload() != payload@,
        r is Corrupt ==> final(pending)@ == old(pending)@,
        !(r is Corrupt) ==> exists|id: u64|
            {
                &&& le64(id) == payload@.subrange(0, 8)
                &&& final(pending)@ == old(pending)@.remove(id)
                &&& r is Unclaimed <==> !old(pending)@.contains_key(id)
                &&& r matches Delivery::Deliver(h, res) ==> {
                    &&& h == old(pending)@[id]
                    &&& res matches Ok(img) ==> (ResponseView { id, result: Ok(img@) }).payload()
                        == payload@
                    &&& res matches Err(e) ==> {
                        ||| e matches MultiThreadedRenderPoolError::NotFound(p) && (ResponseView {
                            id,
                            result: Err(FailureView::NotFound(p@)),
                        }).payload() == payload@
                        ||| e matches MultiThreadedRenderPoolError::WorkerError(t) && (ResponseView {
                            id,
                            result: Err(FailureView::Failed(t@)),
                        }).payload() == payload@
                    }
                }
            },
{
    match decode_response(payload) {
        Err(_) => Delivery::Corrupt,
        Ok(resp) => {
            let id = resp.id;
            proof {
                lemma_le64(id, Seq::empty());
                assert(payload@.subrange(0, 8) == resp@.payload().subrange(0, 8));
            }
            match pending.take(id) {
                None => Delivery::Unclaimed,
                Some(h) => match resp.result {
                    Ok(img) => Delivery::Deliver(h, Ok(img)),
                    Err(WorkerFailure::NotFound(p)) => Delivery::Deliver(
                        h,
                        Err(MultiThreadedRenderPoolError::NotFound(p)),
                    ),
                    Err(WorkerFailure::Failed(t)) => Delivery::Deliver(
                        h,
                        Err(MultiThreadedRenderPoolError::WorkerError(t)),
                    ),
                },
            }
        },
    }
}

} // verus!
