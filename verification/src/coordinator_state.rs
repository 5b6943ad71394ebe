//! Mutex-server state, meaningful only on the node that is the coordinator:
//! whether the fleet-wide lock is held, by whom, whether a release arrived,
//! and the queue of waiting requesters, first come first served.

use vstd::prelude::*;
use std::collections::VecDeque;

verus! {

pub struct CoordinatorState {
    pub lock_taken: bool,
    pub lock_owner_addr: String,
    pub got_release_confirmation: bool,
    pub waiting_nodes_queue: VecDeque<String>,
}

/// Mathematical model of the mutex-server state.
#[verifier::ext_equal]
pub struct CoordinatorModel {
    pub lock_taken: bool,
    pub lock_owner_addr: Seq<char>,
    pub got_release_confirmation: bool,
    pub waiting_nodes_queue: Seq<Seq<char>>,
}

impl View for CoordinatorState {
    type V = CoordinatorModel;

    open spec fn view(&self) -> CoordinatorModel {
        CoordinatorModel {
            lock_taken: self.lock_taken,
            lock_owner_addr: self.lock_owner_addr@,
            got_release_confirmation: self.got_release_confirmation,
            waiting_nodes_queue: self.waiting_nodes_queue@.map_values(|s: String| s@),
        }
    }
}

/// The state of a fresh mutex server: lock free, no owner, no release seen,
/// nobody waiting.
pub open spec fn spec_coordinator_init() -> CoordinatorModel {
    CoordinatorModel {
        lock_taken: false,
        lock_owner_addr: Seq::empty(),
        got_release_confirmation: false,
        waiting_nodes_queue: Seq::empty(),
    }
}

impl CoordinatorState {
    pub fn new() -> (r: CoordinatorState)
        ensures
            r@ == spec_coordinator_init(),
    {
        let r = CoordinatorState {
            lock_taken: false,
            lock_owner_addr: String::new(),
            got_release_confirmation: false,
            waiting_nodes_queue: VecDeque::new(),
        };
        proof {
            assert(r@ =~= spec_coordinator_init());
        }
        r
    }

    pub fn is_taken(&self) -> (r: bool)
        ensures
            r == self@.lock_taken,
    {
        self.lock_taken
    }

    /// Add a requester to the tail of the waiting queue.
    pub fn enqueue_requestor(&mut self, sender_addr: String)
        ensures
            final(self)@ == (CoordinatorModel {
                waiting_nodes_queue: old(self)@.waiting_nodes_queue.push(sender_addr@),
                ..old(self)@
            }),
    {
        let ghost before = self@;
        self.waiting_nodes_queue.push_back(sender_addr);
        proof {
            assert(final(self)@.waiting_nodes_queue =~= before.waiting_nodes_queue.push(
                sender_addr@,
            ));
            assert(final(self)@ =~= (CoordinatorModel {
                waiting_nodes_queue: before.waiting_nodes_queue.push(sender_addr@),
                ..before
            }));
        }
    }

    /// Remove and return the requester at the head of the waiting queue.
    pub fn deque_requestor(&mut self) -> (r: Option<String>)
        ensures
            match r {
                None => old(self)@.waiting_nodes_queue.len() == 0 && final(self)@ == old(self)@,
                Some(addr) => {
                    &&& old(self)@.waiting_nodes_queue.len() > 0
                    &&& addr@ == old(self)@.waiting_nodes_queue[0]
                    &&& final(self)@ == (CoordinatorModel {
                        waiting_nodes_queue: old(self)@.waiting_nodes_queue.drop_first(),
                        ..old(self)@
                    })
                },
            },
    {
        let ghost before = self@;
        let r = self.waiting_nodes_queue.pop_front();
        proof {
            match r {
                None => {
                    assert(final(self)@ =~= before);
                },
                Some(_) => {
                    assert(final(self)@.waiting_nodes_queue =~= before
                        .waiting_nodes_queue.drop_first());
                    assert(final(self)@ =~= (CoordinatorModel {
                        waiting_nodes_queue: before.waiting_nodes_queue.drop_first(),
                        ..before
                    }));
                },
            }
        }
        r
    }

    pub fn set_taken(&mut self, taken: bool)
        ensures
            final(self)@ == (CoordinatorModel { lock_taken: taken, ..old(self)@ }),
    {
        let ghost before = self@;
        self.lock_taken = taken;
        proof {
            assert(final(self)@ =~= (CoordinatorModel { lock_taken: taken, ..before }));
        }
    }

    pub fn set_lock_owner_addr(&mut self, lock_owner_addr: String)
        ensures
            final(self)@ == (CoordinatorModel {
                lock_owner_addr: lock_owner_addr@,
                ..old(self)@
            }),
    {
        let ghost before = self@;
        self.lock_owner_addr = lock_owner_addr;
        proof {
            assert(final(self)@ =~= (CoordinatorModel {
                lock_owner_addr: lock_owner_addr@,
                ..before
            }));
        }
    }
}

} // verus!
