//! Errors of the finality, proof, submission, fee and event operations, and
//! their texts. An error from elsewhere is carried as its text.

use vstd::prelude::*;
use crate::digest::{decimal_string, decimal_text};
use crate::text::{join, owned};

verus! {

broadcast use vstd::string::group_string_axioms;

/// Errors of finality operations.
#[derive(Debug, Clone, PartialEq, Eq)]
pub enum FinalityError {
    BlockNotFound(String),
    /// The wait for finality ended after this many seconds.
    Timeout(u64),
    Network(String),
    InvalidProof(String),
    Other(String),
}

/// Errors of proof operations.
#[derive(Debug, Clone, PartialEq, Eq)]
pub enum ProofError {
    Generation(String),
    Verification(String),
    InvalidFormat(String),
    MissingVerificationKey,
    Other(String),
}

/// Errors of message submission.
#[derive(Debug, Clone, PartialEq, Eq)]
pub enum SubmissionError {
    TransactionFailed(String),
    InsufficientFunds,
    Network(String),
    InvalidMessage(String),
    Other(String),
}

/// Errors of fee estimation.
#[derive(Debug, Clone, PartialEq, Eq)]
pub enum FeeEstimationError {
    EstimationFailed(String),
    Network(String),
    Other(String),
}

/// Errors of event listening.
#[derive(Debug, Clone, PartialEq, Eq)]
pub enum EventError {
    SubscriptionFailed(String),
    Network(String),
    InvalidData(String),
    Other(String),
}

/// The text of a finality error.
pub open spec fn finality_error_text(e: FinalityError) -> Seq<char> {
    match e {
        FinalityError::BlockNotFound(m) => "Block not found: "@ + m@,
        FinalityError::Timeout(s) => "Finality timeout after "@ + decimal_text(s) + " seconds"@,
        FinalityError::Network(m) => "Network error: "@ + m@,
        FinalityError::InvalidProof(m) => "Invalid finality proof: "@ + m@,
        FinalityError::Other(m) => m@,
    }
}

/// The text of a proof error.
pub open spec fn proof_error_text(e: ProofError) -> Seq<char> {
    match e {
        ProofError::Generation(m) => "Failed to generate proof: "@ + m@,
        ProofError::Verification(m) => "Failed to verify proof: "@ + m@,
        ProofError::InvalidFormat(m) => "Invalid proof format: "@ + m@,
        ProofError::MissingVerificationKey => "Missing verification key"@,
        ProofError::Other(m) => m@,
    }
}

/// The text of a submission error.
pub open spec fn submission_error_text(e: SubmissionError) -> Seq<char> {
    match e {
        SubmissionError::TransactionFailed(m) => "Transaction failed: "@ + m@,
        SubmissionError::InsufficientFunds => "Insufficient funds"@,
        SubmissionError::Network(m) => "Network error: "@ + m@,
        SubmissionError::InvalidMessage(m) => "Invalid message format: "@ + m@,
        SubmissionError::Other(m) => m@,
    }
}

/// The text of a fee estimation error.
pub open spec fn fee_error_text(e: FeeEstimationError) -> Seq<char> {
    match e {
        FeeEstimationError::EstimationFailed(m) => "Estimation failed: "@ + m@,
        FeeEstimationError::Network(m) => "Network error: "@ + m@,
        FeeEstimationError::Other(m) => m@,
    }
}

/// The text of an event error.
pub open spec fn event_error_text(e: EventError) -> Seq<char> {
    match e {
        EventError::SubscriptionFailed(m) => "Failed to subscribe: "@ + m@,
        EventError::Network(m) => "Network error: "@ + m@,
        EventError::InvalidData(m) => "Invalid event data: "@ + m@,
        EventError::Other(m) => m@,
    }
}

impl FinalityError {
    /// The text of the error.
    pub fn to_string(&self) -> (s: String)
        ensures
            s@ == finality_error_text(*self),
    {
        match self {
            FinalityError::BlockNotFound(m) => join("Block not found: ", m.as_str()),
            FinalityError::Timeout(secs) => {
                let n = decimal_string(*secs);
                let head = join("Finality timeout after ", n.as_str());
                join(head.as_str(), " seconds")
            },
            FinalityError::Network(m) => join("Network error: ", m.as_str()),
            FinalityError::InvalidProof(m) => join("Invalid finality proof: ", m.as_str()),
            FinalityError::Other(m) => owned(m.as_str()),
        }
    }
}

impl ProofError {
    /// The text of the error.
    pub fn to_string(&self) -> (s: String)
        ensures
            s@ == proof_error_text(*self),
    {
        match self {
            ProofError::Generation(m) => join("Failed to generate proof: ", m.as_str()),
            ProofError::Verification(m) => join("Failed to verify proof: ", m.as_str()),
            ProofError::InvalidFormat(m) => join("Invalid proof format: ", m.as_str()),
            ProofError::MissingVerificationKey => owned("Missing verification key"),
            ProofError::Other(m) => owned(m.as_str()),
        }
    }
}

impl SubmissionError {
    /// The text of the error.
    pub fn to_string(&self) -> (s: String)
        ensures
            s@ == submission_error_text(*self),
    {
        match self {
            SubmissionError::TransactionFailed(m) => join("Transaction failed: ", m.as_str()),
            SubmissionError::InsufficientFunds => owned("Insufficient funds"),
            SubmissionError::Network(m) => join("Network error: ", m.as_str()),
            SubmissionError::InvalidMessage(m) => join("Invalid message format: ", m.as_str()),
            SubmissionError::Other(m) => owned(m.as_str()),
        }
    }
}

impl FeeEstimationError {
    /// The text of the error.
    pub fn to_string(&self) -> (s: String)
        ensures
            s@ == fee_error_text(*self),
    {
        match self {
            FeeEstimationError::EstimationFailed(m) => join("Estimation failed: ", m.as_str()),
            FeeEstimationError::Network(m) => join("Network error: ", m.as_str()),
            FeeEstimationError::Other(m) => owned(m.as_str()),
        }
    }
}

impl EventError {
    /// The text of the error.
    pub fn to_string(&self) -> (s: String)
        ensures
            s@ == event_error_text(*self),
    {
        match self {
            EventError::SubscriptionFailed(m) => join("Failed to subscribe: ", m.as_str()),
            EventError::Network(m) => join("Network error: ", m.as_str()),
            EventError::InvalidData(m) => join("Invalid event data: ", m.as_str()),
            EventError::Other(m) => owned(m.as_str()),
        }
    }
}

} // verus!
