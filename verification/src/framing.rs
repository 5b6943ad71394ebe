//! Newline-delimited framing.
//!
//! A sender may split one logical message into arbitrarily small datagram
//! chunks and marks its end with a newline.  The receiver keeps one
//! assembler per peer, feeds every received chunk in, and gets the whole
//! message back, newline stripped, as soon as the newline arrives.

use vstd::prelude::*;
use vstd::string::StrSliceExecFns;
use vstd::string::StringExecFns;

verus! {

/// The buffered text of one peer whose newline has not arrived yet.
pub struct ChunkAssembler {
    buffer: String,
}

impl View for ChunkAssembler {
    type V = Seq<char>;

    closed spec fn view(&self) -> Seq<char> {
        self.buffer@
    }
}

/// A message payload with the newline mark that ends it on the wire.
pub fn frame_message(payload: &str) -> (r: String)
    ensures
        r@ == payload@ + seq!['\n'],
{
    proof {
        reveal_strlit("\n");
    }
    let mut s = payload.to_owned();
    s.append("\n");
    proof {
        assert(s@ =~= payload@ + seq!['\n']);
    }
    s
}

impl ChunkAssembler {
    /// An assembler with nothing buffered.
    pub fn new() -> (r: ChunkAssembler)
        ensures
            r@ == Seq::<char>::empty(),
    {
        let r = ChunkAssembler { buffer: String::new() };
        proof {
            assert(r@ =~= Seq::<char>::empty());
        }
        r
    }

    /// Take in one received chunk.  When the text gathered so far ends with
    /// a newline, the message before it is complete: it is returned and the
    /// buffer is cleared; otherwise everything stays buffered.
    pub fn push_chunk(&mut self, chunk: &str) -> (r: Option<String>)
        ensures
            ({
                let combined = old(self)@ + chunk@;
                if combined.len() > 0 && combined.last() == '\n' {
                    &&& r matches Some(message) && message@ == combined.drop_last()
                    &&& final(self)@ == Seq::<char>::empty()
                } else {
                    &&& r is None
                    &&& final(self)@ == combined
                }
            }),
    {
        proof {
            reveal_strlit("\n");
        }
        let ghost combined = self@ + chunk@;
        self.buffer.append(chunk);
        let len = self.buffer.as_str().unicode_len();
        if len > 0 && self.buffer.as_str().get_char(len - 1) == '\n' {
            let message = self.buffer.as_str().substring_char(0, len - 1).to_owned();
            self.buffer = String::new();
            proof {
                assert(message@ =~= combined.drop_last());
                assert(self@ =~= Seq::<char>::empty());
            }
            Some(message)
        } else {
            None
        }
    }
}

} // verus!
