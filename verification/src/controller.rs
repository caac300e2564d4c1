//! The controller's share of the work: which worker gets the next request.

use crate::io::{HttpRequest, IoEvent};
use vstd::prelude::*;

verus! {

/// Hands inbound HTTP requests to the workers in turn.
pub struct Controller {
    workers: usize,
    next: usize,
}

/// The mathematical value of a `Controller`.
pub struct ControllerView {
    /// The number of workers.
    pub workers: nat,
    /// The worker that gets the next request.
    pub next: nat,
}

impl View for Controller {
    type V = ControllerView;

    closed spec fn view(&self) -> ControllerView {
        ControllerView { workers: self.workers as nat, next: self.next as nat }
    }
}

/// The worker that gets the request that comes after `count` others, with
/// `workers` workers.
pub open spec fn slot_of(count: nat, workers: nat) -> nat
    recommends
        workers > 0,
{
    count % workers
}

/// The requests go round: the worker after that of request `count` is the
/// worker of request `count + 1`.
pub proof fn next_slot_is_next_count(count: nat, workers: nat)
    requires
        workers > 0,
    ensures
        (slot_of(count, workers) + 1) % workers == slot_of(count + 1, workers),
{
    assert((count % workers + 1) % workers == (count + 1) % workers) by (nonlinear_arith)
        requires
            workers > 0,
    ;
}

impl Controller {
    #[verifier::type_invariant]
    spec fn inv(&self) -> bool {
        self.next < self.workers
    }

    /// A controller for `workers` workers; the first request goes to worker 0.
    pub fn new(workers: usize) -> (controller: Controller)
        requires
            workers > 0,
        ensures
            controller@ == (ControllerView { workers: workers as nat, next: 0 }),
    {
        Controller { workers, next: 0 }
    }

    /// Takes one inbound event. An HTTP request comes back with the index
    /// of the worker that gets it, and the turn passes to the next worker.
    /// Any other event is not the controller's to route: nothing comes back
    /// and nothing changes.
    pub fn input<'a>(&mut self, event: IoEvent<'a>) -> (routed: Option<(usize, HttpRequest)>)
        ensures
            final(self)@.workers == old(self)@.workers,
            old(self)@.next < old(self)@.workers,
            match event {
                IoEvent::HttpRequest(req) => {
                    &&& routed matches Some((slot, taken))
                    &&& slot as nat == old(self)@.next
                    &&& taken == req
                    &&& final(self)@.next == (old(self)@.next + 1) % old(self)@.workers
                },
                _ => routed is None && final(self)@ == old(self)@,
            },
    {
        proof {
            use_type_invariant(&*self);
        }
        match event {
            IoEvent::HttpRequest(req) => {
                let slot = self.next;
                let workers = self.workers;
                let next = if slot + 1 == workers {
                    0
                } else {
                    slot + 1
                };
                assert(next == (slot + 1) % (workers as int)) by (nonlinear_arith)
                    requires
                        0 <= slot < workers,
                        next == if slot + 1 == workers {
                            0
                        } else {
                            slot + 1
                        },
                ;
                *self = Controller { workers, next };
                Some((slot, req))
            },
            _ => None,
        }
    }
}

} // verus!
