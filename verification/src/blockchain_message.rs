//! Wire codec for the two cold-start synchronization messages.
//!
//! | Message    | Wire form                            |
//! |------------|--------------------------------------|
//! | sync request | `AskForBlockchain`                 |
//! | sync reply   | `BlockchainResult:<serialized ledger>` |

use vstd::prelude::*;
use vstd::string::StringExecFns;
use crate::blockchain::Blockchain;
use crate::blockchain::RecordModel;
use crate::blockchain::spec_serialize;
use crate::blockchain::spec_parse_chain;
use crate::text::spec_split;
use crate::text::views_of;
use crate::text::split_str;
use crate::text::str_eq;

verus! {

#[derive(Debug)]
pub enum BlockchainMessage {
    AskForBlockchain,
    BlockchainResult(Blockchain),
}

/// Mathematical model of a synchronization message.
#[verifier::ext_equal]
pub enum BlockchainMessageModel {
    AskForBlockchain,
    BlockchainResult(Seq<RecordModel>),
}

impl View for BlockchainMessage {
    type V = BlockchainMessageModel;

    open spec fn view(&self) -> BlockchainMessageModel {
        match self {
            BlockchainMessage::AskForBlockchain => BlockchainMessageModel::AskForBlockchain,
            BlockchainMessage::BlockchainResult(chain) => BlockchainMessageModel::BlockchainResult(
                chain@,
            ),
        }
    }
}

/// The text a synchronization message puts on the wire.
pub open spec fn spec_blockchain_msg_text(m: BlockchainMessageModel) -> Seq<char> {
    match m {
        BlockchainMessageModel::AskForBlockchain => "AskForBlockchain"@,
        BlockchainMessageModel::BlockchainResult(rs) => "BlockchainResult:"@ + spec_serialize(rs),
    }
}

/// The synchronization message a piece of text denotes: read from its first
/// `:`-separated token; a reply carries the ledger parsed from the second.
pub open spec fn spec_blockchain_msg_from_text(s: Seq<char>) -> Option<BlockchainMessageModel> {
    let tokens = spec_split(s, ':');
    if tokens[0] == "AskForBlockchain"@ {
        Some(BlockchainMessageModel::AskForBlockchain)
    } else if tokens[0] == "BlockchainResult"@ {
        if tokens.len() >= 2 {
            Some(BlockchainMessageModel::BlockchainResult(spec_parse_chain(tokens[1])))
        } else {
            None
        }
    } else {
        None
    }
}

impl BlockchainMessage {
    /// The wire text of this message.
    pub fn as_string(self) -> (r: String)
        ensures
            r@ == spec_blockchain_msg_text(self@),
    {
        match self {
            BlockchainMessage::AskForBlockchain => "AskForBlockchain".to_owned(),
            BlockchainMessage::BlockchainResult(blockchain) => {
                let mut s = "BlockchainResult:".to_owned();
                let body = blockchain.as_str();
                s.append(body.as_str());
                s
            },
        }
    }

    /// The synchronization message a piece of text denotes, or nothing.
    pub fn from_string(string: String) -> (r: Option<BlockchainMessage>)
        ensures
            match r {
                Some(m) => spec_blockchain_msg_from_text(string@) == Some(m@),
                None => spec_blockchain_msg_from_text(string@) is None,
            },
    {
        let tokens = split_str(string.as_str(), ':');
        let n = tokens.len();
        proof {
            assert(views_of(tokens@)[0] == tokens@[0]@);
        }
        if str_eq(tokens[0].as_str(), "AskForBlockchain") {
            Some(BlockchainMessage::AskForBlockchain)
        } else if str_eq(tokens[0].as_str(), "BlockchainResult") {
            if n >= 2 {
                proof {
                    assert(views_of(tokens@)[1] == tokens@[1]@);
                }
                Some(BlockchainMessage::BlockchainResult(Blockchain::from_str(tokens[1].clone())))
            } else {
                None
            }
        } else {
            None
        }
    }
}

impl PartialEq for BlockchainMessage {
    fn eq(&self, other: &Self) -> (r: bool) {
        match (self, other) {
            (BlockchainMessage::AskForBlockchain, BlockchainMessage::AskForBlockchain) => true,
            (
                BlockchainMessage::BlockchainResult(a),
                BlockchainMessage::BlockchainResult(b),
            ) => a.eq(b),
            _ => false,
        }
    }
}

impl vstd::std_specs::cmp::PartialEqSpecImpl for BlockchainMessage {
    open spec fn obeys_eq_spec() -> bool {
        true
    }

    open spec fn eq_spec(&self, other: &Self) -> bool {
        self@ == other@
    }
}

} // verus!
