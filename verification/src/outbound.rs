//! A datagram the node wants sent: the state machines return these and the
//! process shell around the library performs the sends.

use vstd::prelude::*;

verus! {

/// One datagram to send: destination address and payload text.
pub struct OutboundMessage {
    pub dest: String,
    pub payload: String,
}

/// Mathematical model of an outbound datagram.
#[verifier::ext_equal]
pub struct OutboundModel {
    pub dest: Seq<char>,
    pub payload: Seq<char>,
}

impl View for OutboundMessage {
    type V = OutboundModel;

    open spec fn view(&self) -> OutboundModel {
        OutboundModel { dest: self.dest@, payload: self.payload@ }
    }
}

/// Models of the messages in a batch, in order.
pub open spec fn outbound_views(v: Seq<OutboundMessage>) -> Seq<OutboundModel> {
    v.map_values(|m: OutboundMessage| m@)
}

} // verus!
