//! Finality by confirmations, as the adapters that count blocks or
//! checkpoints decide it.

use vstd::prelude::*;
use crate::capabilities::FinalizedBlock;
use crate::chain::AdapterError;
use crate::text::owned;

verus! {

broadcast use vstd::string::group_string_axioms;

/// Longest wait for finality when none is given, in nanoseconds (five
/// minutes).
pub const DEFAULT_FINALITY_TIMEOUT: u64 = 300_000_000_000;

/// The newest block or checkpoint that is final when the chain is at
/// `latest`: the one `required` below it; none while the chain is shorter
/// than that.
pub fn latest_finalized(latest: u64, required: u32) -> (b: Option<u64>)
    ensures
        b == if latest >= required { Some((latest - required) as u64) } else { None::<u64> },
{
    if latest >= required as u64 {
        Some(latest - required as u64)
    } else {
        None
    }
}

/// Whether `block` has `required` confirmations when the chain is at `latest`.
pub open spec fn final_at(latest: u64, block: u64, required: u32) -> bool {
    latest >= block + required
}

/// Whether `block` is final when the chain is at `latest`.
pub fn is_finalized(latest: u64, block: u64, required: u32) -> (r: bool)
    requires
        block + required <= u64::MAX,
    ensures
        r == final_at(latest, block, required),
{
    latest >= block + required as u64
}

/// The record of a block found final at `now` (milliseconds), with the
/// confirmations that made it so.
pub fn finalized_record(block: u64, required: u32, now: u64) -> (f: FinalizedBlock<u64>)
    ensures
        f.block == block,
        f.finality_proof is None,
        f.finalized_at == now,
        f.confirmations == Some(required),
{
    FinalizedBlock { block, finality_proof: None, finalized_at: now, confirmations: Some(required) }
}

/// Checks a wait for finality that has lasted `elapsed` nanoseconds against
/// its timeout (five minutes when none is given).
pub fn check_finality_wait(elapsed: u64, timeout: Option<u64>) -> (r: Result<(), AdapterError>)
    ensures
        elapsed <= (match timeout { Some(t) => t, None => DEFAULT_FINALITY_TIMEOUT }) ==> r is Ok,
        elapsed > (match timeout { Some(t) => t, None => DEFAULT_FINALITY_TIMEOUT }) ==> (r matches Err(
            AdapterError::FinalityError(m),
        ) && m@ == "Timeout waiting for finality"@),
{
    let limit = match timeout {
        Some(t) => t,
        None => DEFAULT_FINALITY_TIMEOUT,
    };
    if elapsed > limit {
        Err(AdapterError::FinalityError(owned("Timeout waiting for finality")))
    } else {
        Ok(())
    }
}

/// The block given as the newest final one is final, and no later block is.
pub proof fn lemma_latest_finalized_is_final(latest: u64, required: u32)
    ensures
        latest >= required ==> {
            let b = (latest - required) as u64;
            &&& final_at(latest, b, required)
            &&& forall|later: u64| later > b ==> !#[trigger] final_at(latest, later, required)
        },
        latest < required ==> forall|block: u64| !#[trigger] final_at(latest, block, required),
{
}

/// A block that is final stays final as the chain grows.
pub proof fn lemma_finality_monotone(latest: u64, later: u64, block: u64, required: u32)
    requires
        latest <= later,
        latest >= block + required,
    ensures
        later >= block + required,
{
}

} // verus!
