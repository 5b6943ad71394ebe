//! Wire codec for the three bully-election messages.
//!
//! | Message     | Wire form |
//! |-------------|-----------|
//! | Election    | `E`       |
//! | OkElection  | `O`       |
//! | Coordinator | `C`       |
//!
//! `Election` asks higher-numbered peers to take over; `OkElection` answers
//! it; `Coordinator` announces the winner.

use vstd::prelude::*;
use crate::text::str_eq;

verus! {

#[derive(PartialEq, Eq, Structural, Debug, Clone, Copy)]
pub enum ElectionMessage {
    Election,
    OkElection,
    Coordinator,
}

/// The characters an election message puts on the wire.
pub open spec fn spec_election_wire(m: ElectionMessage) -> Seq<char> {
    match m {
        ElectionMessage::Election => "E"@,
        ElectionMessage::OkElection => "O"@,
        ElectionMessage::Coordinator => "C"@,
    }
}

/// The bytes of the wire form: each of its characters is one ASCII byte.
pub open spec fn spec_election_bytes(m: ElectionMessage) -> Seq<u8> {
    spec_election_wire(m).map_values(|c: char| c as u8)
}

/// The message one byte denotes, if any.
pub open spec fn spec_election_from_bytes(bytes: Seq<u8>) -> Option<ElectionMessage> {
    if bytes == spec_election_bytes(ElectionMessage::Election) {
        Some(ElectionMessage::Election)
    } else if bytes == spec_election_bytes(ElectionMessage::OkElection) {
        Some(ElectionMessage::OkElection)
    } else if bytes == spec_election_bytes(ElectionMessage::Coordinator) {
        Some(ElectionMessage::Coordinator)
    } else {
        None
    }
}

/// The message a piece of text denotes, if any.
pub open spec fn spec_election_from_text(s: Seq<char>) -> Option<ElectionMessage> {
    if s == spec_election_wire(ElectionMessage::Election) {
        Some(ElectionMessage::Election)
    } else if s == spec_election_wire(ElectionMessage::OkElection) {
        Some(ElectionMessage::OkElection)
    } else if s == spec_election_wire(ElectionMessage::Coordinator) {
        Some(ElectionMessage::Coordinator)
    } else {
        None
    }
}

impl ElectionMessage {
    /// The single wire byte of this message.
    pub fn as_bytes(self) -> (r: [u8; 1])
        ensures
            r@ == spec_election_bytes(self),
    {
        proof {
            reveal_strlit("E");
            reveal_strlit("O");
            reveal_strlit("C");
        }
        match self {
            ElectionMessage::Election => {
                let r = [('E' as u8)];
                proof {
                    assert(r@ =~= spec_election_bytes(self));
                }
                r
            },
            ElectionMessage::OkElection => {
                let r = [('O' as u8)];
                proof {
                    assert(r@ =~= spec_election_bytes(self));
                }
                r
            },
            ElectionMessage::Coordinator => {
                let r = [('C' as u8)];
                proof {
                    assert(r@ =~= spec_election_bytes(self));
                }
                r
            },
        }
    }

    /// The message the given bytes denote, or nothing for any other bytes.
    pub fn from_bytes(bytes: &[u8]) -> (r: Option<ElectionMessage>)
        ensures
            r == spec_election_from_bytes(bytes@),
    {
        proof {
            reveal_strlit("E");
            reveal_strlit("O");
            reveal_strlit("C");
        }
        if bytes.len() != 1 {
            return None;
        }
        let b0 = *vstd::slice::slice_index_get(bytes, 0);
        if b0 == ('E' as u8) {
            proof {
                assert(bytes@ =~= spec_election_bytes(ElectionMessage::Election));
            }
            Some(ElectionMessage::Election)
        } else if b0 == ('O' as u8) {
            proof {
                assert(bytes@ =~= spec_election_bytes(ElectionMessage::OkElection));
            }
            Some(ElectionMessage::OkElection)
        } else if b0 == ('C' as u8) {
            proof {
                assert(bytes@ =~= spec_election_bytes(ElectionMessage::Coordinator));
            }
            Some(ElectionMessage::Coordinator)
        } else {
            proof {
                if bytes@ == spec_election_bytes(ElectionMessage::Election) {
                    assert(bytes@[0] == 'E' as u8);
                }
                if bytes@ == spec_election_bytes(ElectionMessage::OkElection) {
                    assert(bytes@[0] == 'O' as u8);
                }
                if bytes@ == spec_election_bytes(ElectionMessage::Coordinator) {
                    assert(bytes@[0] == 'C' as u8);
                }
            }
            None
        }
    }

    /// The message a piece of received text denotes, or nothing.
    pub fn from_text(message: &str) -> (r: Option<ElectionMessage>)
        ensures
            r == spec_election_from_text(message@),
    {
        if str_eq(message, "E") {
            Some(ElectionMessage::Election)
        } else if str_eq(message, "O") {
            Some(ElectionMessage::OkElection)
        } else if str_eq(message, "C") {
            Some(ElectionMessage::Coordinator)
        } else {
            None
        }
    }
}

} // verus!
