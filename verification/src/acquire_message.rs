//! Wire codec for the three mutual-exclusion messages.
//!
//! | Message   | Wire form |
//! |-----------|-----------|
//! | Acquire   | `ACQUI`   |
//! | OkAcquire | `OKACQ`   |
//! | Release   | `RELEA`   |

use vstd::prelude::*;
use crate::text::str_eq;

verus! {

#[derive(PartialEq, Eq, Structural, Debug, Clone, Copy)]
pub enum AcquireMessage {
    Acquire,
    OkAcquire,
    Release,
}

/// The characters a mutual-exclusion message puts on the wire.
pub open spec fn spec_acquire_wire(m: AcquireMessage) -> Seq<char> {
    match m {
        AcquireMessage::Acquire => "ACQUI"@,
        AcquireMessage::OkAcquire => "OKACQ"@,
        AcquireMessage::Release => "RELEA"@,
    }
}

/// The bytes of the wire form: each of its characters is one ASCII byte.
pub open spec fn spec_acquire_bytes(m: AcquireMessage) -> Seq<u8> {
    spec_acquire_wire(m).map_values(|c: char| c as u8)
}

/// The message five bytes denote, if any.
pub open spec fn spec_acquire_from_bytes(bytes: Seq<u8>) -> Option<AcquireMessage> {
    if bytes == spec_acquire_bytes(AcquireMessage::Acquire) {
        Some(AcquireMessage::Acquire)
    } else if bytes == spec_acquire_bytes(AcquireMessage::OkAcquire) {
        Some(AcquireMessage::OkAcquire)
    } else if bytes == spec_acquire_bytes(AcquireMessage::Release) {
        Some(AcquireMessage::Release)
    } else {
        None
    }
}

/// The message a piece of text denotes, if any.
pub open spec fn spec_acquire_from_text(s: Seq<char>) -> Option<AcquireMessage> {
    if s == spec_acquire_wire(AcquireMessage::Acquire) {
        Some(AcquireMessage::Acquire)
    } else if s == spec_acquire_wire(AcquireMessage::OkAcquire) {
        Some(AcquireMessage::OkAcquire)
    } else if s == spec_acquire_wire(AcquireMessage::Release) {
        Some(AcquireMessage::Release)
    } else {
        None
    }
}

impl AcquireMessage {
    /// The five wire bytes of this message.
    pub fn as_bytes(self) -> (r: [u8; 5])
        ensures
            r@ == spec_acquire_bytes(self),
    {
        proof {
            reveal_strlit("ACQUI");
            reveal_strlit("OKACQ");
            reveal_strlit("RELEA");
        }
        match self {
            AcquireMessage::Acquire => {
                let r = [('A' as u8), ('C' as u8), ('Q' as u8), ('U' as u8), ('I' as u8)];
                proof {
                    assert(r@ =~= spec_acquire_bytes(self));
                }
                r
            },
            AcquireMessage::OkAcquire => {
                let r = [('O' as u8), ('K' as u8), ('A' as u8), ('C' as u8), ('Q' as u8)];
                proof {
                    assert(r@ =~= spec_acquire_bytes(self));
                }
                r
            },
            AcquireMessage::Release => {
                let r = [('R' as u8), ('E' as u8), ('L' as u8), ('E' as u8), ('A' as u8)];
                proof {
                    assert(r@ =~= spec_acquire_bytes(self));
                }
                r
            },
        }
    }

    /// The message the given bytes denote, or nothing for any other bytes.
    pub fn from_bytes(bytes: &[u8]) -> (r: Option<AcquireMessage>)
        ensures
            r == spec_acquire_from_bytes(bytes@),
    {
        proof {
            reveal_strlit("ACQUI");
            reveal_strlit("OKACQ");
            reveal_strlit("RELEA");
        }
        if bytes.len() != 5 {
            return None;
        }
        let b0 = *vstd::slice::slice_index_get(bytes, 0);
        let b1 = *vstd::slice::slice_index_get(bytes, 1);
        let b2 = *vstd::slice::slice_index_get(bytes, 2);
        let b3 = *vstd::slice::slice_index_get(bytes, 3);
        let b4 = *vstd::slice::slice_index_get(bytes, 4);
        if b0 == ('A' as u8) && b1 == ('C' as u8) && b2 == ('Q' as u8) && b3 == ('U' as u8) && b4 == ('I' as u8) {
            proof {
                assert(bytes@ =~= spec_acquire_bytes(AcquireMessage::Acquire));
            }
            Some(AcquireMessage::Acquire)
        } else if b0 == ('O' as u8) && b1 == ('K' as u8) && b2 == ('A' as u8) && b3 == ('C' as u8) && b4 == ('Q' as u8) {
            proof {
                assert(bytes@ =~= spec_acquire_bytes(AcquireMessage::OkAcquire));
            }
            Some(AcquireMessage::OkAcquire)
        } else if b0 == ('R' as u8) && b1 == ('E' as u8) && b2 == ('L' as u8) && b3 == ('E' as u8) && b4 == ('A' as u8) {
            proof {
                assert(bytes@ =~= spec_acquire_bytes(AcquireMessage::Release));
            }
            Some(AcquireMessage::Release)
        } else {
            proof {
                if bytes@ == spec_acquire_bytes(AcquireMessage::Acquire) {
                    assert(bytes@[0] == 'A' as u8);
                    assert(bytes@[1] == 'C' as u8);
                    assert(bytes@[2] == 'Q' as u8);
                    assert(bytes@[3] == 'U' as u8);
                    assert(bytes@[4] == 'I' as u8);
                }
                if bytes@ == spec_acquire_bytes(AcquireMessage::OkAcquire) {
                    assert(bytes@[0] == 'O' as u8);
                    assert(bytes@[1] == 'K' as u8);
                    assert(bytes@[2] == 'A' as u8);
                    assert(bytes@[3] == 'C' as u8);
                    assert(bytes@[4] == 'Q' as u8);
                }
                if bytes@ == spec_acquire_bytes(AcquireMessage::Release) {
                    assert(bytes@[0] == 'R' as u8);
                    assert(bytes@[1] == 'E' as u8);
                    assert(bytes@[2] == 'L' as u8);
                    assert(bytes@[3] == 'E' as u8);
                    assert(bytes@[4] == 'A' as u8);
                }
            }
            None
        }
    }

    /// The message a piece of received text denotes, or nothing.
    pub fn from_text(message: &str) -> (r: Option<AcquireMessage>)
        ensures
            r == spec_acquire_from_text(message@),
    {
        if str_eq(message, "ACQUI") {
            Some(AcquireMessage::Acquire)
        } else if str_eq(message, "OKACQ") {
            Some(AcquireMessage::OkAcquire)
        } else if str_eq(message, "RELEA") {
            Some(AcquireMessage::Release)
        } else {
            None
        }
    }
}

} // verus!
