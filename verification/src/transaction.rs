//! Chain-independent transaction records and proof data.

use vstd::prelude::*;
use crate::text::{owned, str_eq};

verus! {

/// Execution status of a transaction.
#[derive(Debug, Clone, PartialEq, Eq)]
pub enum TransactionStatus {
    Pending,
    Confirmed,
    Failed(String),
    Dropped,
}

/// Zero-knowledge proof attached to a message.
#[derive(Debug, Clone)]
pub struct ProofData {
    pub proof_type: String,
    pub proof: Vec<u8>,
    pub public_inputs: Vec<Vec<u8>>,
    pub verification_key: Option<Vec<u8>>,
}

/// Abstract value of a [`ProofData`].
pub struct ProofDataView {
    pub proof_type: Seq<char>,
    pub proof: Seq<u8>,
    pub public_inputs: Seq<Seq<u8>>,
    pub verification_key: Option<Seq<u8>>,
}

impl View for ProofData {
    type V = ProofDataView;

    open spec fn view(&self) -> ProofDataView {
        ProofDataView {
            proof_type: self.proof_type@,
            proof: self.proof@,
            public_inputs: self.public_inputs@.map_values(|v: Vec<u8>| v@),
            verification_key: match self.verification_key {
                Some(k) => Some(k@),
                None => None,
            },
        }
    }
}

/// Fields common to transactions of every chain.
#[derive(Debug, Clone)]
pub struct ParsedTransaction {
    pub hash: Vec<u8>,
    pub from: Option<Vec<u8>>,
    pub to: Option<Vec<u8>>,
    pub value: u128,
    pub data: Vec<u8>,
    pub status: TransactionStatus,
    /// Key/value annotations, in insertion order, keys distinct.
    pub metadata: Vec<(String, String)>,
}

/// Detailed transaction information.
#[derive(Debug, Clone)]
pub enum TransactionDetails {
    /// Raw transaction bytes
    Raw(Vec<u8>),
    /// Parsed transaction data
    Parsed(ParsedTransaction),
    /// Zero-knowledge proof data
    Proof(ProofData),
}

/// The status a transaction receipt reports: status 1 is success, any other
/// status a revert, and no status a pending transaction.
pub open spec fn receipt_status_is(receipt_status: Option<u64>, s: TransactionStatus) -> bool {
    match receipt_status {
        Some(1u64) => s == TransactionStatus::Confirmed,
        Some(_) => s matches TransactionStatus::Failed(m) && m@ == "Transaction reverted"@,
        None => s == TransactionStatus::Pending,
    }
}

/// The details of an EVM transaction read from its receipt.
pub fn evm_receipt_details(
    hash: Vec<u8>,
    from: Vec<u8>,
    to: Option<Vec<u8>>,
    value: u128,
    input: Vec<u8>,
    receipt_status: Option<u64>,
) -> (d: TransactionDetails)
    ensures
        d matches TransactionDetails::Parsed(p) && p.hash == hash && p.from == Some(from) && p.to == to
            && p.value == value && p.data == input && receipt_status_is(receipt_status, p.status)
            && p.metadata@.len() == 0,
{
    let status = match receipt_status {
        Some(s) => if s == 1 { TransactionStatus::Confirmed } else { TransactionStatus::Failed(owned("Transaction reverted")) },
        None => TransactionStatus::Pending,
    };
    TransactionDetails::Parsed(ParsedTransaction {
        hash,
        from: Some(from),
        to,
        value,
        data: input,
        status,
        metadata: Vec::new(),
    })
}

/// The details of a transaction of which only the hash and whether it failed
/// are read (Solana and Sui): failed, or confirmed.
pub fn outcome_details(hash: Vec<u8>, failed: bool) -> (d: TransactionDetails)
    ensures
        d matches TransactionDetails::Parsed(p) && p.hash == hash && p.from is None && p.to is None
            && p.value == 0 && p.data@.len() == 0 && p.metadata@.len() == 0
            && (failed ==> (p.status matches TransactionStatus::Failed(m) && m@ == "Transaction failed"@))
            && (!failed ==> p.status == TransactionStatus::Confirmed),
{
    let status = if failed { TransactionStatus::Failed(owned("Transaction failed")) } else { TransactionStatus::Confirmed };
    TransactionDetails::Parsed(ParsedTransaction {
        hash,
        from: None,
        to: None,
        value: 0,
        data: Vec::new(),
        status,
        metadata: Vec::new(),
    })
}

/// Whether a Solana confirmation status makes a signature final: "finalized"
/// or "confirmed".
pub fn is_final_confirmation(status: Option<&str>) -> (r: bool)
    ensures
        r == match status {
            Some(s) => s@ == "finalized"@ || s@ == "confirmed"@,
            None => false,
        },
{
    match status {
        Some(s) => str_eq(s, "finalized") || str_eq(s, "confirmed"),
        None => false,
    }
}

} // verus!
