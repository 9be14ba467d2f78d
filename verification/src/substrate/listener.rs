//! The decisions of the event listener: which blocks to scan, which pallet
//! events are message events, and what a scanned block yields.

use vstd::prelude::*;
use crate::message::{MessageEvent, MessageEventView};
use crate::substrate::events::{
    carries_fields, chains_known, convert_event_to_message_event, lemma_convert_carries_decoded_fields, spec_convert_event,
    spec_decode_failed,
};
use crate::digest::random_message_id;
use crate::scale::{
    read_bytes_or_failure, read_string_or_failure, read_u128, read_u32, scale_failure_text, spec_bytes_at, spec_bytes_failure,
    spec_string_at, spec_string_failure, spec_u128_at, spec_u32_at, ScaleFailure,
};
use crate::chain::AdapterError;
use crate::text::{join, owned, str_eq};

verus! {

/// The most blocks one scan covers.
pub const MAX_BLOCKS_PER_QUERY: u32 = 100;

/// The range of blocks, both ends included, that a scan covers: from the last
/// processed block (or, on the first scan, from [`MAX_BLOCKS_PER_QUERY`] blocks
/// before the current one), up to the current block but no more than
/// [`MAX_BLOCKS_PER_QUERY`] blocks further.
pub open spec fn spec_scan_range(last_block: Option<u32>, current_block: u32) -> (u32, u32) {
    let from: u32 = match last_block {
        Some(b) => b,
        None => if current_block >= MAX_BLOCKS_PER_QUERY { (current_block - MAX_BLOCKS_PER_QUERY) as u32 } else { 0 },
    };
    let end: int = if from + MAX_BLOCKS_PER_QUERY <= u32::MAX { from + MAX_BLOCKS_PER_QUERY } else { u32::MAX as int };
    let to: u32 = if current_block <= end { current_block } else { end as u32 };
    (from, to)
}

/// Computes the range of blocks a scan covers.
pub fn scan_range(last_block: Option<u32>, current_block: u32) -> (r: (u32, u32))
    ensures
        r == spec_scan_range(last_block, current_block),
        last_block matches Some(b) ==> r.0 == b,
        last_block is None ==> r.0 + MAX_BLOCKS_PER_QUERY >= current_block && r.0 <= current_block,
        last_block is None && current_block >= MAX_BLOCKS_PER_QUERY ==> r.0 + MAX_BLOCKS_PER_QUERY == current_block,
        r.1 <= current_block,
        r.1 <= r.0 + MAX_BLOCKS_PER_QUERY,
        r.1 == current_block || r.1 == r.0 + MAX_BLOCKS_PER_QUERY || r.1 == u32::MAX,
{
    let from = match last_block {
        Some(b) => b,
        None => current_block.saturating_sub(MAX_BLOCKS_PER_QUERY),
    };
    let end = from.saturating_add(MAX_BLOCKS_PER_QUERY);
    let to = if current_block <= end { current_block } else { end };
    (from, to)
}

/// Whether a block is processed in a scan of `from..=to`, and whether the scan
/// stops after it.
pub fn block_disposition(block_number: u32, from: u32, to: u32) -> (r: (bool, bool))
    ensures
        r.0 == (from <= block_number && block_number <= to),
        r.1 == (r.0 && block_number >= to),
{
    let process = from <= block_number && block_number <= to;
    (process, process && block_number >= to)
}

/// Whether an event of pallet `pallet` and variant `variant` is a message
/// event of the pallet `target`.
pub open spec fn spec_is_message_event(target: Seq<char>, pallet: Seq<char>, variant: Seq<char>) -> bool {
    pallet == target && (variant == "MessageSent"@ || variant == "MessageReceived"@ || variant == "MessageFailed"@)
}

/// Whether a pallet event is one of the message events of the target pallet.
pub fn is_message_event(target: &str, pallet: &str, variant: &str) -> (r: bool)
    ensures
        r == spec_is_message_event(target@, pallet@, variant@),
        pallet@ == target@ && (variant@ == "MessageSent"@ || variant@ == "MessageReceived"@ || variant@ == "MessageFailed"@) ==> r,
        pallet@ != target@ ==> !r,
{
    proof {
        lemma_message_variants_kept(target@, pallet@, variant@);
    }
    str_eq(pallet, target) && (str_eq(variant, "MessageSent") || str_eq(variant, "MessageReceived")
        || str_eq(variant, "MessageFailed"))
}

/// The scan keeps exactly the sent, received and failed message events of the
/// target pallet: each of the three variants of the target pallet is kept,
/// and no event of another pallet is.
pub proof fn lemma_message_variants_kept(target: Seq<char>, pallet: Seq<char>, variant: Seq<char>)
    ensures
        spec_is_message_event(target, target, "MessageSent"@),
        spec_is_message_event(target, target, "MessageReceived"@),
        spec_is_message_event(target, target, "MessageFailed"@),
        pallet == target && (variant == "MessageSent"@ || variant == "MessageReceived"@ || variant == "MessageFailed"@)
            ==> spec_is_message_event(target, pallet, variant),
        pallet != target ==> !spec_is_message_event(target, pallet, variant),
{
}

/// A pallet event as a block delivers it: its pallet, its variant, and the
/// bytes of its fields.
pub struct PalletEvent {
    pub pallet: String,
    pub variant: String,
    pub fields: Vec<u8>,
}

/// Abstract value of a [`PalletEvent`].
pub struct PalletEventView {
    pub pallet: Seq<char>,
    pub variant: Seq<char>,
    pub fields: Seq<u8>,
}

impl View for PalletEvent {
    type V = PalletEventView;

    open spec fn view(&self) -> PalletEventView {
        PalletEventView { pallet: self.pallet@, variant: self.variant@, fields: self.fields@ }
    }
}

/// The message events that the events of one block yield: each message event
/// of the target pallet that converts, in order; the others are skipped.
pub open spec fn spec_block_events(target: Seq<char>, block_number: u32, evs: Seq<PalletEventView>) -> Seq<MessageEventView>
    decreases evs.len(),
{
    if evs.len() == 0 {
        Seq::empty()
    } else {
        let rest = spec_block_events(target, block_number, evs.drop_last());
        let e = evs.last();
        if spec_is_message_event(target, e.pallet, e.variant) {
            match spec_convert_event(e.variant, e.fields, block_number) {
                Ok(v) => rest.push(v),
                Err(_) => rest,
            }
        } else {
            rest
        }
    }
}

/// The message events that the events of one block yield.
pub fn block_message_events(target: &str, block_number: u32, events: &[PalletEvent]) -> (r: Vec<MessageEvent>)
    ensures
        r@.map_values(|e: MessageEvent| e@) == spec_block_events(target@, block_number, events@.map_values(|e: PalletEvent| e@)),
{
    let ghost evs = events@.map_values(|e: PalletEvent| e@);
    let mut out: Vec<MessageEvent> = Vec::new();
    let mut i: usize = 0;
    while i < events.len()
        invariant
            i <= events.len(),
            evs == events@.map_values(|e: PalletEvent| e@),
            out@.map_values(|e: MessageEvent| e@) == spec_block_events(target@, block_number, evs.take(i as int)),
        decreases events.len() - i,
    {
        let ghost before = out@;
        let e = &events[i];
        assert(evs.take(i as int + 1).drop_last() =~= evs.take(i as int));
        assert(evs.take(i as int + 1).last() == e@);
        if is_message_event(target, e.pallet.as_str(), e.variant.as_str()) {
            match convert_event_to_message_event(e.variant.as_str(), e.fields.as_slice(), block_number) {
                Ok(m) => {
                    out.push(m);
                    assert(out@.map_values(|e: MessageEvent| e@) =~= before.map_values(|e: MessageEvent| e@).push(m@));
                },
                Err(_) => {},
            }
        }
        i += 1;
    }
    assert(evs.take(events.len() as int) =~= evs);
    out
}

/// A call of an extrinsic of a block: its pallet, its call name, and its
/// first field read as a `u64` where that is possible.
pub struct ExtrinsicCall {
    pub pallet: String,
    pub call: String,
    pub first_field: Option<u64>,
}

/// Whether a call sets the block's timestamp, and to what.
pub open spec fn timestamp_of(x: ExtrinsicCall) -> Option<u64> {
    if x.pallet@ == "Timestamp"@ && x.call@ == "set"@ { x.first_field } else { None }
}

/// The timestamp a block's extrinsics set: that of the first `Timestamp.set`
/// call whose value can be read, from position `i` on.
pub open spec fn first_timestamp(xs: Seq<ExtrinsicCall>, i: int) -> Option<u64>
    decreases xs.len() - i,
{
    if i < 0 || i >= xs.len() {
        None
    } else {
        match timestamp_of(xs[i]) {
            Some(t) => Some(t),
            None => first_timestamp(xs, i + 1),
        }
    }
}

/// The timestamp of a block: the value of its first readable
/// `Timestamp.set` call, or `now` when it has none.
pub fn block_timestamp(extrinsics: &[ExtrinsicCall], now: u64) -> (t: u64)
    ensures
        t == match first_timestamp(extrinsics@, 0) { Some(v) => v, None => now },
{
    let mut i: usize = 0;
    while i < extrinsics.len()
        invariant
            i <= extrinsics.len(),
            first_timestamp(extrinsics@, 0) == first_timestamp(extrinsics@, i as int),
        decreases extrinsics.len() - i,
    {
        let x = &extrinsics[i];
        if str_eq(x.pallet.as_str(), "Timestamp") && str_eq(x.call.as_str(), "set") {
            match x.first_field {
                Some(v) => return v,
                None => {},
            }
        }
        i += 1;
    }
    now
}

/// What an observed pallet event says happened to a message.
#[derive(Debug, Clone, Copy, PartialEq, Eq, Structural)]
pub enum ObservedStatus {
    Sent,
    Received,
    Failed,
}

/// A message event decoded from the fields of a pallet event.
#[derive(Debug, Clone)]
pub struct DecodedEvent {
    pub id: u128,
    pub from_chain: u32,
    pub to_chain: u32,
    pub payload: Vec<u8>,
    pub fee: Option<u128>,
    pub status: ObservedStatus,
    /// Timestamp of the block that holds the event.
    pub timestamp: u64,
    pub block_number: Option<u32>,
    pub error: Option<String>,
}

/// Abstract value of a [`DecodedEvent`].
pub struct DecodedEventView {
    pub id: u128,
    pub from_chain: u32,
    pub to_chain: u32,
    pub payload: Seq<u8>,
    pub fee: Option<u128>,
    pub status: ObservedStatus,
    pub timestamp: u64,
    pub block_number: Option<u32>,
    pub error: Option<Seq<char>>,
}

impl View for DecodedEvent {
    type V = DecodedEventView;

    open spec fn view(&self) -> DecodedEventView {
        DecodedEventView {
            id: self.id,
            from_chain: self.from_chain,
            to_chain: self.to_chain,
            payload: self.payload@,
            fee: self.fee,
            status: self.status,
            timestamp: self.timestamp,
            block_number: self.block_number,
            error: match self.error {
                Some(e) => Some(e@),
                None => None,
            },
        }
    }
}

/// Why the fields of a pallet event give no message event.
#[derive(Debug, Clone, Copy, PartialEq, Eq, Structural)]
pub enum DecodeFailure {
    /// The fields do not have the layout of the variant, for this reason.
    Malformed(ScaleFailure),
    /// The variant is not a message event.
    UnknownVariant,
}

/// The origin, destination, payload and fee of a `MessageSent` or
/// `MessageReceived` event: two little-endian `u32`, a length-prefixed byte
/// vector and a little-endian `u128`. Trailing bytes are ignored.
pub open spec fn spec_transfer_fields(s: Seq<u8>) -> Option<(u32, u32, Seq<u8>, u128)> {
    match spec_u32_at(s, 0) {
        None => None,
        Some((from, p1)) => match spec_u32_at(s, p1) {
            None => None,
            Some((to, p2)) => match spec_bytes_at(s, p2) {
                None => None,
                Some((payload, p3)) => match spec_u128_at(s, p3) {
                    None => None,
                    Some((fee, _p4)) => Some((from, to, payload, fee)),
                },
            },
        },
    }
}

/// Why the fields of a `MessageSent` or `MessageReceived` event cannot be read
/// (where they cannot): the failure of the first field that does not read.
pub open spec fn spec_transfer_failure(s: Seq<u8>) -> ScaleFailure {
    match spec_u32_at(s, 0) {
        None => ScaleFailure::Truncated,
        Some((_a, p1)) => match spec_u32_at(s, p1) {
            None => ScaleFailure::Truncated,
            Some((_b, p2)) => match spec_bytes_at(s, p2) {
                None => spec_bytes_failure(s, p2),
                Some(_) => ScaleFailure::Truncated,
            },
        },
    }
}

/// Why the fields of a `MessageFailed` event cannot be read (where they
/// cannot): the failure of the first field that does not read.
pub open spec fn spec_failure_fields_failure(s: Seq<u8>) -> ScaleFailure {
    match spec_u32_at(s, 0) {
        None => ScaleFailure::Truncated,
        Some((_a, p1)) => match spec_u32_at(s, p1) {
            None => ScaleFailure::Truncated,
            Some((_b, p2)) => match spec_bytes_at(s, p2) {
                None => spec_bytes_failure(s, p2),
                Some((_c, p3)) => spec_string_failure(s, p3),
            },
        },
    }
}

/// The origin, destination, payload and error text of a `MessageFailed`
/// event: two little-endian `u32`, a length-prefixed byte vector and a
/// length-prefixed UTF-8 string. Trailing bytes are ignored.
pub open spec fn spec_failure_fields(s: Seq<u8>) -> Option<(u32, u32, Seq<u8>, Seq<char>)> {
    match spec_u32_at(s, 0) {
        None => None,
        Some((from, p1)) => match spec_u32_at(s, p1) {
            None => None,
            Some((to, p2)) => match spec_bytes_at(s, p2) {
                None => None,
                Some((payload, p3)) => match spec_string_at(s, p3) {
                    None => None,
                    Some((error, _p4)) => Some((from, to, payload, error)),
                },
            },
        },
    }
}

/// The message event that a pallet event of the given variant, with the given
/// fields, in a block with the given number and timestamp, gives under the
/// message id `id`: sent and received events carry a fee, a failed event its
/// error text; any other variant is no message event.
pub open spec fn spec_decode_event(variant: Seq<char>, fields: Seq<u8>, block_number: u32, timestamp: u64, id: u128)
    -> Result<DecodedEventView, DecodeFailure> {
    if variant == "MessageSent"@ || variant == "MessageReceived"@ {
        match spec_transfer_fields(fields) {
            None => Err(DecodeFailure::Malformed(spec_transfer_failure(fields))),
            Some((from, to, payload, fee)) => Ok(DecodedEventView {
                id,
                from_chain: from,
                to_chain: to,
                payload,
                fee: Some(fee),
                status: if variant == "MessageSent"@ { ObservedStatus::Sent } else { ObservedStatus::Received },
                timestamp,
                block_number: Some(block_number),
                error: None,
            }),
        }
    } else if variant == "MessageFailed"@ {
        match spec_failure_fields(fields) {
            None => Err(DecodeFailure::Malformed(spec_failure_fields_failure(fields))),
            Some((from, to, payload, error)) => Ok(DecodedEventView {
                id,
                from_chain: from,
                to_chain: to,
                payload,
                fee: None,
                status: ObservedStatus::Failed,
                timestamp,
                block_number: Some(block_number),
                error: Some(error),
            }),
        }
    } else {
        Err(DecodeFailure::UnknownVariant)
    }
}

/// Whether an error is the one a decoding failure of the given variant is
/// reported as.
pub open spec fn reports(e: AdapterError, f: DecodeFailure, variant: Seq<char>) -> bool {
    match f {
        DecodeFailure::Malformed(r) => e matches AdapterError::Serialization(m)
            && m@ == "Failed to decode "@ + variant + " event: "@ + scale_failure_text(r),
        DecodeFailure::UnknownVariant => e matches AdapterError::Other(m) && m@ == "Unknown event variant"@,
    }
}

/// Whether `r` is the outcome of decoding the fields of a pallet event as
/// [`spec_decode_event`] says, under the message id `id`.
pub open spec fn decoded_as(
    r: Result<DecodedEvent, AdapterError>,
    variant: Seq<char>,
    fields: Seq<u8>,
    block_number: u32,
    timestamp: u64,
    id: u128,
) -> bool {
    match spec_decode_event(variant, fields, block_number, timestamp, id) {
        Ok(v) => r matches Ok(e) && e@ == v,
        Err(f) => r matches Err(e) && reports(e, f, variant),
    }
}

fn read_transfer_fields(fields: &[u8]) -> (r: Result<(u32, u32, Vec<u8>, u128), ScaleFailure>)
    ensures
        r is Ok <==> spec_transfer_fields(fields@) is Some,
        r matches Ok((a, b, p, f)) ==> spec_transfer_fields(fields@) == Some((a, b, p@, f)),
        r matches Err(f) ==> f == spec_transfer_failure(fields@),
{
    let truncated = ScaleFailure::Truncated;
    let (from, p1) = match read_u32(fields, 0) { Some(x) => x, None => return Err(truncated) };
    let (to, p2) = match read_u32(fields, p1) { Some(x) => x, None => return Err(truncated) };
    let (payload, p3) = match read_bytes_or_failure(fields, p2) { Ok(x) => x, Err(f) => return Err(f) };
    let (fee, _p4) = match read_u128(fields, p3) { Some(x) => x, None => return Err(truncated) };
    Ok((from, to, payload, fee))
}

fn read_failure_fields(fields: &[u8]) -> (r: Result<(u32, u32, Vec<u8>, String), ScaleFailure>)
    ensures
        r is Ok <==> spec_failure_fields(fields@) is Some,
        r matches Ok((a, b, p, e)) ==> spec_failure_fields(fields@) == Some((a, b, p@, e@)),
        r matches Err(f) ==> f == spec_failure_fields_failure(fields@),
{
    let truncated = ScaleFailure::Truncated;
    let (from, p1) = match read_u32(fields, 0) { Some(x) => x, None => return Err(truncated) };
    let (to, p2) = match read_u32(fields, p1) { Some(x) => x, None => return Err(truncated) };
    let (payload, p3) = match read_bytes_or_failure(fields, p2) { Ok(x) => x, Err(f) => return Err(f) };
    let (error, _p4) = match read_string_or_failure(fields, p3) { Ok(x) => x, Err(f) => return Err(f) };
    Ok((from, to, payload, error))
}

fn malformed(variant: &str, reason: ScaleFailure) -> (e: AdapterError)
    ensures
        reports(e, DecodeFailure::Malformed(reason), variant@),
{
    let head = join("Failed to decode ", variant);
    let mid = join(head.as_str(), " event: ");
    AdapterError::Serialization(join(mid.as_str(), reason.text()))
}

/// Decodes the fields of a pallet event of the given variant into a message
/// event under the id `id`, in a block with the given number and timestamp.
pub fn decode_event(variant: &str, fields: &[u8], block_number: u32, timestamp: u64, id: u128)
    -> (r: Result<DecodedEvent, AdapterError>)
    ensures
        match spec_decode_event(variant@, fields@, block_number, timestamp, id) {
            Ok(v) => r matches Ok(e) && e@ == v,
            Err(f) => r matches Err(e) && reports(e, f, variant@),
        },
{
    let sent = str_eq(variant, "MessageSent");
    if sent || str_eq(variant, "MessageReceived") {
        match read_transfer_fields(fields) {
            Ok((from_chain, to_chain, payload, fee)) => Ok(DecodedEvent {
                id,
                from_chain,
                to_chain,
                payload,
                fee: Some(fee),
                status: if sent { ObservedStatus::Sent } else { ObservedStatus::Received },
                timestamp,
                block_number: Some(block_number),
                error: None,
            }),
            Err(reason) => Err(malformed(variant, reason)),
        }
    } else if str_eq(variant, "MessageFailed") {
        match read_failure_fields(fields) {
            Ok((from_chain, to_chain, payload, error)) => Ok(DecodedEvent {
                id,
                from_chain,
                to_chain,
                payload,
                fee: None,
                status: ObservedStatus::Failed,
                timestamp,
                block_number: Some(block_number),
                error: Some(error),
            }),
            Err(reason) => Err(malformed(variant, reason)),
        }
    } else {
        Err(AdapterError::Other(owned("Unknown event variant")))
    }
}

/// Decodes the fields of a pallet event as [`decode_event`] does, under a
/// fresh random message id.
pub fn decode_observed_event(variant: &str, fields: &[u8], block_number: u32, timestamp: u64)
    -> (r: Result<DecodedEvent, AdapterError>)
    ensures
        exists|id: u128| #[trigger] decoded_as(r, variant@, fields@, block_number, timestamp, id),
{
    let id = random_message_id();
    let r = decode_event(variant, fields, block_number, timestamp, id);
    assert(decoded_as(r, variant@, fields@, block_number, timestamp, id));
    r
}

/// A block holding one well-formed `MessageFailed` event of the target
/// pallet, whose chain codes name chains, yields exactly one message event:
/// the failed message, from the decoded origin to the decoded destination.
pub proof fn lemma_block_keeps_failed_event(target: Seq<char>, block_number: u32, fields: Seq<u8>)
    requires
        spec_decode_failed(fields) matches Some(f) && chains_known(f.from_chain, f.to_chain),
    ensures
        ({
            let ev = PalletEventView { pallet: target, variant: "MessageFailed"@, fields };
            let out = spec_block_events(target, block_number, seq![ev]);
            let f = spec_decode_failed(fields)->0;
            &&& out.len() == 1
            &&& carries_fields(out[0], f.from_chain, f.to_chain, f.payload, 0, f.timestamp, None, block_number)
        }),
{
    let ev = PalletEventView { pallet: target, variant: "MessageFailed"@, fields };
    lemma_message_variants_kept(target, target, "MessageFailed"@);
    lemma_convert_carries_decoded_fields(fields, block_number);
    let s1 = seq![ev];
    assert(s1.drop_last() =~= Seq::<PalletEventView>::empty());
    assert(s1.last() == ev);
    assert(spec_block_events(target, block_number, s1.drop_last()) == Seq::<MessageEventView>::empty());
    let c = spec_convert_event("MessageFailed"@, fields, block_number);
    assert(c is Ok);
    assert(spec_block_events(target, block_number, s1) == Seq::<MessageEventView>::empty().push(c->Ok_0));
}

} // verus!
