//! Cross-chain messages and the events that carry them.

use vstd::prelude::*;
use crate::chain::ChainId;
use crate::transaction::{ProofData, ProofDataView};

verus! {

/// Identifier of a message: the 128-bit value of its UUID (big-endian).
pub type MessageId = u128;

/// A message that travels from one chain to another.
#[derive(Debug, Clone)]
pub struct FrostMessage {
    pub id: MessageId,
    pub from_chain: ChainId,
    pub to_chain: ChainId,
    pub payload: Vec<u8>,
    pub proof: Option<ProofData>,
    pub timestamp: u64,
    pub nonce: u64,
    pub signature: Option<Vec<u8>>,
    pub fee: Option<u128>,
    /// Key/value annotations in insertion order.
    pub metadata: Option<Vec<(String, String)>>,
}

/// Abstract value of a [`FrostMessage`].
pub struct FrostMessageView {
    pub id: MessageId,
    pub from_chain: ChainId,
    pub to_chain: ChainId,
    pub payload: Seq<u8>,
    pub proof: Option<ProofDataView>,
    pub timestamp: u64,
    pub nonce: u64,
    pub signature: Option<Seq<u8>>,
    pub fee: Option<u128>,
    pub metadata: Option<Seq<(Seq<char>, Seq<char>)>>,
}

/// The abstract value of a list of string pairs.
pub open spec fn pairs_view(v: Seq<(String, String)>) -> Seq<(Seq<char>, Seq<char>)> {
    v.map_values(|p: (String, String)| (p.0@, p.1@))
}

impl View for FrostMessage {
    type V = FrostMessageView;

    open spec fn view(&self) -> FrostMessageView {
        FrostMessageView {
            id: self.id,
            from_chain: self.from_chain,
            to_chain: self.to_chain,
            payload: self.payload@,
            proof: match self.proof {
                Some(p) => Some(p@),
                None => None,
            },
            timestamp: self.timestamp,
            nonce: self.nonce,
            signature: match self.signature {
                Some(s) => Some(s@),
                None => None,
            },
            fee: self.fee,
            metadata: match self.metadata {
                Some(m) => Some(pairs_view(m@)),
                None => None,
            },
        }
    }
}

/// A message observed in a block.
#[derive(Debug, Clone)]
pub struct MessageEvent {
    pub message: FrostMessage,
    pub block_number: Option<u64>,
    pub tx_hash: Option<Vec<u8>>,
}

/// Abstract value of a [`MessageEvent`].
pub struct MessageEventView {
    pub message: FrostMessageView,
    pub block_number: Option<u64>,
    pub tx_hash: Option<Seq<u8>>,
}

impl View for MessageEvent {
    type V = MessageEventView;

    open spec fn view(&self) -> MessageEventView {
        MessageEventView {
            message: self.message@,
            block_number: self.block_number,
            tx_hash: match self.tx_hash {
                Some(h) => Some(h@),
                None => None,
            },
        }
    }
}

} // verus!
