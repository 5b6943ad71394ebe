//! Mutex-client state: the coordinator's address and whether the grant for
//! the outstanding lock request has arrived.
//!
//! The protocol is: send `ACQUI` to the coordinator, wait for `OKACQ` up to
//! the acquire timeout, then either run the guarded work and send `RELEA`,
//! or report the coordinator unreachable.  The waiting itself is the process
//! shell's job; this type supplies the messages and the state transitions.

use vstd::prelude::*;
use crate::acquire_message::AcquireMessage;
use crate::outbound::OutboundMessage;
use crate::text::str_eq;

verus! {

pub struct DistMutex {
    pub coordinator_addr: String,
    pub got_acquire_confirmation: bool,
}

/// Mathematical model of the mutex-client state.
#[verifier::ext_equal]
pub struct DistMutexModel {
    pub coordinator_addr: Seq<char>,
    pub got_acquire_confirmation: bool,
}

impl View for DistMutex {
    type V = DistMutexModel;

    open spec fn view(&self) -> DistMutexModel {
        DistMutexModel {
            coordinator_addr: self.coordinator_addr@,
            got_acquire_confirmation: self.got_acquire_confirmation,
        }
    }
}

impl DistMutex {
    pub fn new(coordinator_addr: String) -> (r: DistMutex)
        ensures
            r@.coordinator_addr == coordinator_addr@,
            !r@.got_acquire_confirmation,
    {
        DistMutex { coordinator_addr, got_acquire_confirmation: false }
    }

    /// The lock request to send to the coordinator.
    pub fn acquire_request(&self) -> (m: OutboundMessage)
        ensures
            m@.dest == self@.coordinator_addr,
            m@.payload == crate::acquire_message::spec_acquire_wire(AcquireMessage::Acquire),
    {
        proof {
            reveal_strlit("ACQUI");
        }
        let m = OutboundMessage {
            dest: self.coordinator_addr.clone(),
            payload: "ACQUI".to_owned(),
        };
        proof {
            assert(m@.payload =~= crate::acquire_message::spec_acquire_wire(
                AcquireMessage::Acquire,
            ));
        }
        m
    }

    /// Conclude a lock request once the wait for the grant has ended: the
    /// lock is ours exactly when the grant arrived, and the grant flag is
    /// cleared for the next request.  An error means the coordinator did not
    /// answer in time; the caller then starts an election and retries.
    pub fn acquire_complete(&mut self) -> (r: Result<(), ()>)
        ensures
            final(self)@.coordinator_addr == old(self)@.coordinator_addr,
            !final(self)@.got_acquire_confirmation,
            r is Ok <==> old(self)@.got_acquire_confirmation,
    {
        if self.got_acquire_confirmation {
            self.got_acquire_confirmation = false;
            Ok(())
        } else {
            self.got_acquire_confirmation = false;
            Err(())
        }
    }

    /// The release to send to the coordinator once the guarded work is done.
    pub fn release(&self) -> (m: OutboundMessage)
        ensures
            m@.dest == self@.coordinator_addr,
            m@.payload == crate::acquire_message::spec_acquire_wire(AcquireMessage::Release),
    {
        proof {
            reveal_strlit("RELEA");
        }
        let m = OutboundMessage {
            dest: self.coordinator_addr.clone(),
            payload: "RELEA".to_owned(),
        };
        proof {
            assert(m@.payload =~= crate::acquire_message::spec_acquire_wire(
                AcquireMessage::Release,
            ));
        }
        m
    }

    /// Whether the given address is the coordinator's.
    pub fn is_coordinator(&self, addr: String) -> (r: bool)
        ensures
            r == (addr@ == self@.coordinator_addr),
    {
        str_eq(addr.as_str(), self.coordinator_addr.as_str())
    }
}

} // verus!
