//! Message events of the messaging pallet: decoding of their SCALE payloads,
//! their conversion to cross-chain message events, deterministic message ids,
//! and the hashes by which observed events are deduplicated.

use vstd::prelude::*;
use crate::bytes::{append_bytes, be32, be64, be128, be_to_u128, be_value, lemma_be_value_bound, push_be32, push_be64, push_be128};
use crate::chain::{AdapterError, ChainId, chain_of_code};
use crate::digest::{account_ss58, blake2b512, blake2b512_digest, decimal_string, decimal_text, ss58_text};
use crate::message::{FrostMessage, FrostMessageView, MessageEvent, MessageEventView};
use crate::scale::{encode_bytes, encode_opt_u128, le_bytes, lemma_bytes_at, lemma_compact_len, lemma_fixed_at, lemma_le_bytes_len, lemma_opt_u128_at, lemma_split_prefix, lemma_u32_at, lemma_u64_at, pow256, read_bytes_or_failure, read_fixed, read_opt_u128_or_failure, read_string_or_failure, read_u32, read_u64, scale_failure_text, spec_bytes_failure, spec_opt_u128_failure, spec_string_failure, ScaleFailure, spec_bytes_at, spec_fixed_at, spec_opt_u128_at, spec_string_at, spec_u32_at, spec_u64_at};
use crate::text::{join, owned, str_eq};

verus! {

broadcast use vstd::string::group_string_axioms;

/// The bytes hashed to derive the id of a message.
pub open spec fn uuid_seed(from_chain: u32, to_chain: u32, payload: Seq<u8>, nonce: u64, timestamp: u64) -> Seq<u8> {
    be32(from_chain) + be32(to_chain) + payload + be64(nonce) + be64(timestamp)
}

/// The first 16 bytes of a digest with the UUID version (5) and variant bits set.
pub open spec fn uuid_bytes(digest: Seq<u8>) -> Seq<u8> {
    digest.subrange(0, 16)
        .update(6, (digest[6] & 0x0f) | 0x50)
        .update(8, (digest[8] & 0x3f) | 0x80)
}

/// The id of a message: a version-5 UUID made from the BLAKE2b-512 digest of
/// its origin, destination, payload, nonce and timestamp.
pub open spec fn deterministic_uuid(from_chain: u32, to_chain: u32, payload: Seq<u8>, nonce: u64, timestamp: u64) -> u128 {
    be_value(uuid_bytes(blake2b512(uuid_seed(from_chain, to_chain, payload, nonce, timestamp)))) as u128
}

/// A message id carries the marks of a version-5 UUID of the RFC 4122 variant:
/// the high nibble of its seventh byte is 5 and the two high bits of its ninth
/// byte are `10`.
pub proof fn lemma_uuid_version_bits(digest: Seq<u8>)
    requires
        digest.len() >= 16,
    ensures
        uuid_bytes(digest).len() == 16,
        uuid_bytes(digest)[6] >> 4u8 == 5,
        uuid_bytes(digest)[8] >> 6u8 == 2,
{
    let b6 = digest[6];
    let b8 = digest[8];
    assert(((b6 & 0x0f) | 0x50) >> 4u8 == 5) by (bit_vector);
    assert(((b8 & 0x3f) | 0x80) >> 6u8 == 2) by (bit_vector);
}

/// Whether an id is the big-endian value of 16 bytes that carry the marks of
/// a version-5 UUID of the RFC 4122 variant: the high nibble of the seventh
/// byte is 5 and the two high bits of the ninth byte are `10`.
pub open spec fn has_v5_marks(id: u128) -> bool {
    exists|b: Seq<u8>| b.len() == 16 && #[trigger] be_value(b) == id && b[6] >> 4u8 == 5 && b[8] >> 6u8 == 2
}

/// Generates the deterministic id of a message from its content; it carries
/// the version-5 marks.
pub fn generate_deterministic_uuid(
    from_chain: u32,
    to_chain: u32,
    payload: &[u8],
    nonce: u64,
    timestamp: u64,
) -> (id: u128)
    ensures
        id == deterministic_uuid(from_chain, to_chain, payload@, nonce, timestamp),
        has_v5_marks(id),
{
    let mut data: Vec<u8> = Vec::new();
    push_be32(&mut data, from_chain);
    push_be32(&mut data, to_chain);
    append_bytes(&mut data, payload);
    push_be64(&mut data, nonce);
    push_be64(&mut data, timestamp);
    assert(data@ =~= uuid_seed(from_chain, to_chain, payload@, nonce, timestamp));
    let digest = blake2b512_digest(data.as_slice());
    let id = uuid_from_digest(digest.as_slice());
    proof {
        lemma_uuid_version_bits(digest@);
        assert(be_value(uuid_bytes(digest@)) == id);
    }
    id
}

/// The id a digest gives: its first 16 bytes, with the UUID version (5) and
/// variant bits set, read as a big-endian number.
pub fn uuid_from_digest(digest: &[u8]) -> (id: u128)
    requires
        digest@.len() >= 16,
    ensures
        id == be_value(uuid_bytes(digest@)),
        has_v5_marks(id),
{
    let mut bytes = crate::scale::copy_range(digest, 0, 16);
    let b6 = bytes[6];
    bytes.set(6, (b6 & 0x0f) | 0x50);
    let b8 = bytes[8];
    bytes.set(8, (b8 & 0x3f) | 0x80);
    assert(bytes@ =~= uuid_bytes(digest@));
    let v = be_to_u128(bytes.as_slice());
    proof {
        lemma_be_value_bound(bytes@);
        reveal_with_fuel(pow256, 17);
        lemma_uuid_version_bits(digest@);
    }
    v
}

/// Payload of a `MessageSent` event.
#[derive(Debug, Clone)]
pub struct MessageSentEvent {
    pub from_chain: u32,
    pub to_chain: u32,
    pub sender: Vec<u8>,
    pub payload: Vec<u8>,
    pub nonce: u64,
    pub timestamp: u64,
    pub fee: Option<u128>,
}

/// Payload of a `MessageReceived` event.
#[derive(Debug, Clone)]
pub struct MessageReceivedEvent {
    pub from_chain: u32,
    pub to_chain: u32,
    pub recipient: Vec<u8>,
    pub payload: Vec<u8>,
    pub nonce: u64,
    pub timestamp: u64,
}

/// Payload of a `MessageFailed` event.
#[derive(Debug, Clone)]
pub struct MessageFailedEvent {
    pub from_chain: u32,
    pub to_chain: u32,
    pub payload: Vec<u8>,
    pub error: String,
    pub timestamp: u64,
}

/// Abstract value of a decoded `MessageSent` payload.
pub struct SentFields {
    pub from_chain: u32,
    pub to_chain: u32,
    pub sender: Seq<u8>,
    pub payload: Seq<u8>,
    pub nonce: u64,
    pub timestamp: u64,
    pub fee: Option<u128>,
}

/// Abstract value of a decoded `MessageReceived` payload.
pub struct ReceivedFields {
    pub from_chain: u32,
    pub to_chain: u32,
    pub recipient: Seq<u8>,
    pub payload: Seq<u8>,
    pub nonce: u64,
    pub timestamp: u64,
}

/// Abstract value of a decoded `MessageFailed` payload.
pub struct FailedFields {
    pub from_chain: u32,
    pub to_chain: u32,
    pub payload: Seq<u8>,
    pub error: Seq<char>,
    pub timestamp: u64,
}

impl View for MessageSentEvent {
    type V = SentFields;

    open spec fn view(&self) -> SentFields {
        SentFields {
            from_chain: self.from_chain,
            to_chain: self.to_chain,
            sender: self.sender@,
            payload: self.payload@,
            nonce: self.nonce,
            timestamp: self.timestamp,
            fee: self.fee,
        }
    }
}

impl View for MessageReceivedEvent {
    type V = ReceivedFields;

    open spec fn view(&self) -> ReceivedFields {
        ReceivedFields {
            from_chain: self.from_chain,
            to_chain: self.to_chain,
            recipient: self.recipient@,
            payload: self.payload@,
            nonce: self.nonce,
            timestamp: self.timestamp,
        }
    }
}

impl View for MessageFailedEvent {
    type V = FailedFields;

    open spec fn view(&self) -> FailedFields {
        FailedFields {
            from_chain: self.from_chain,
            to_chain: self.to_chain,
            payload: self.payload@,
            error: self.error@,
            timestamp: self.timestamp,
        }
    }
}

/// The fields of a `MessageSent` payload, in order: origin and destination
/// chain codes, the 32-byte sender account, the payload, nonce, timestamp and
/// an optional fee. Trailing bytes are ignored.
pub open spec fn spec_decode_sent(s: Seq<u8>) -> Option<SentFields> {
    match spec_u32_at(s, 0) {
        None => None,
        Some((from_chain, p1)) => match spec_u32_at(s, p1) {
            None => None,
            Some((to_chain, p2)) => match spec_fixed_at(s, p2, 32) {
                None => None,
                Some((sender, p3)) => match spec_bytes_at(s, p3) {
                    None => None,
                    Some((payload, p4)) => match spec_u64_at(s, p4) {
                        None => None,
                        Some((nonce, p5)) => match spec_u64_at(s, p5) {
                            None => None,
                            Some((timestamp, p6)) => match spec_opt_u128_at(s, p6) {
                                None => None,
                                Some((fee, _p7)) => Some(SentFields {
                                    from_chain, to_chain, sender, payload, nonce, timestamp, fee,
                                }),
                            },
                        },
                    },
                },
            },
        },
    }
}

/// The fields of a `MessageReceived` payload, in order: origin and destination
/// chain codes, the 32-byte recipient account, the payload, nonce and
/// timestamp. Trailing bytes are ignored.
pub open spec fn spec_decode_received(s: Seq<u8>) -> Option<ReceivedFields> {
    match spec_u32_at(s, 0) {
        None => None,
        Some((from_chain, p1)) => match spec_u32_at(s, p1) {
            None => None,
            Some((to_chain, p2)) => match spec_fixed_at(s, p2, 32) {
                None => None,
                Some((recipient, p3)) => match spec_bytes_at(s, p3) {
                    None => None,
                    Some((payload, p4)) => match spec_u64_at(s, p4) {
                        None => None,
                        Some((nonce, p5)) => match spec_u64_at(s, p5) {
                            None => None,
                            Some((timestamp, _p6)) => Some(ReceivedFields {
                                from_chain, to_chain, recipient, payload, nonce, timestamp,
                            }),
                        },
                    },
                },
            },
        },
    }
}

/// The fields of a `MessageFailed` payload, in order: origin and destination
/// chain codes, the payload, the error text and the timestamp. Trailing bytes
/// are ignored.
pub open spec fn spec_decode_failed(s: Seq<u8>) -> Option<FailedFields> {
    match spec_u32_at(s, 0) {
        None => None,
        Some((from_chain, p1)) => match spec_u32_at(s, p1) {
            None => None,
            Some((to_chain, p2)) => match spec_bytes_at(s, p2) {
                None => None,
                Some((payload, p3)) => match spec_string_at(s, p3) {
                    None => None,
                    Some((error, p4)) => match spec_u64_at(s, p4) {
                        None => None,
                        Some((timestamp, _p5)) => Some(FailedFields {
                            from_chain, to_chain, payload, error, timestamp,
                        }),
                    },
                },
            },
        },
    }
}

/// The SCALE encoding of the fields of a `MessageSent` event.
pub open spec fn encode_sent(f: SentFields) -> Seq<u8> {
    le_bytes(f.from_chain as nat, 4) + le_bytes(f.to_chain as nat, 4) + f.sender + encode_bytes(f.payload)
        + le_bytes(f.nonce as nat, 8) + le_bytes(f.timestamp as nat, 8) + encode_opt_u128(f.fee)
}

/// The SCALE encoding of the fields of a `MessageReceived` event.
pub open spec fn encode_received(f: ReceivedFields) -> Seq<u8> {
    le_bytes(f.from_chain as nat, 4) + le_bytes(f.to_chain as nat, 4) + f.recipient + encode_bytes(f.payload)
        + le_bytes(f.nonce as nat, 8) + le_bytes(f.timestamp as nat, 8)
}

/// The SCALE encoding of the fields of a `MessageFailed` event; the error
/// text goes as its UTF-8 bytes.
pub open spec fn encode_failed(f: FailedFields) -> Seq<u8> {
    le_bytes(f.from_chain as nat, 4) + le_bytes(f.to_chain as nat, 4) + encode_bytes(f.payload)
        + encode_bytes(vstd::utf8::encode_utf8(f.error)) + le_bytes(f.timestamp as nat, 8)
}

/// The length of the encoding of an optional `u128`.
proof fn lemma_opt_u128_len(x: Option<u128>)
    ensures
        encode_opt_u128(x).len() == (if x is Some { 17int } else { 1int }),
{
    if let Some(v) = x {
        lemma_le_bytes_len(v as nat, 16);
    }
}

/// Decoding the encoding of a `MessageSent` event, whatever follows it, gives
/// back its fields.
pub proof fn lemma_sent_roundtrip(f: SentFields, rest: Seq<u8>)
    requires
        f.sender.len() == 32,
        f.payload.len() <= u32::MAX,
        encode_sent(f).len() + rest.len() <= usize::MAX,
    ensures
        spec_decode_sent(encode_sent(f) + rest) == Some(f),
{
    let b1 = le_bytes(f.from_chain as nat, 4);
    let b2 = le_bytes(f.to_chain as nat, 4);
    let b4 = encode_bytes(f.payload);
    let b5 = le_bytes(f.nonce as nat, 8);
    let b6 = le_bytes(f.timestamp as nat, 8);
    let b7 = encode_opt_u128(f.fee);
    lemma_le_bytes_len(f.from_chain as nat, 4);
    lemma_le_bytes_len(f.to_chain as nat, 4);
    lemma_le_bytes_len(f.nonce as nat, 8);
    lemma_le_bytes_len(f.timestamp as nat, 8);
    lemma_compact_len(f.payload.len() as u32);
    lemma_opt_u128_len(f.fee);
    let e2 = b1 + b2;
    let e3 = e2 + f.sender;
    let e4 = e3 + b4;
    let e5 = e4 + b5;
    let e6 = e5 + b6;
    let e7 = e6 + b7;
    let s = e7 + rest;
    assert(s.subrange(0, e7.len() as int) =~= e7);
    lemma_split_prefix(s, e6, b7);
    lemma_split_prefix(s, e5, b6);
    lemma_split_prefix(s, e4, b5);
    lemma_split_prefix(s, e3, b4);
    lemma_split_prefix(s, e2, f.sender);
    lemma_split_prefix(s, b1, b2);
    let p4 = (40 + b4.len()) as usize;
    lemma_u32_at(s, 0, f.from_chain);
    lemma_u32_at(s, 4, f.to_chain);
    lemma_fixed_at(s, 8, f.sender);
    lemma_bytes_at(s, 40, f.payload);
    lemma_u64_at(s, p4, f.nonce);
    lemma_u64_at(s, (p4 + 8) as usize, f.timestamp);
    lemma_opt_u128_at(s, (p4 + 16) as usize, f.fee);
}

/// Decoding the encoding of a `MessageReceived` event, whatever follows it,
/// gives back its fields.
pub proof fn lemma_received_roundtrip(f: ReceivedFields, rest: Seq<u8>)
    requires
        f.recipient.len() == 32,
        f.payload.len() <= u32::MAX,
        encode_received(f).len() + rest.len() <= usize::MAX,
    ensures
        spec_decode_received(encode_received(f) + rest) == Some(f),
{
    let b1 = le_bytes(f.from_chain as nat, 4);
    let b2 = le_bytes(f.to_chain as nat, 4);
    let b4 = encode_bytes(f.payload);
    let b5 = le_bytes(f.nonce as nat, 8);
    let b6 = le_bytes(f.timestamp as nat, 8);
    lemma_le_bytes_len(f.from_chain as nat, 4);
    lemma_le_bytes_len(f.to_chain as nat, 4);
    lemma_le_bytes_len(f.nonce as nat, 8);
    lemma_le_bytes_len(f.timestamp as nat, 8);
    lemma_compact_len(f.payload.len() as u32);
    let e2 = b1 + b2;
    let e3 = e2 + f.recipient;
    let e4 = e3 + b4;
    let e5 = e4 + b5;
    let e6 = e5 + b6;
    let s = e6 + rest;
    assert(s.subrange(0, e6.len() as int) =~= e6);
    lemma_split_prefix(s, e5, b6);
    lemma_split_prefix(s, e4, b5);
    lemma_split_prefix(s, e3, b4);
    lemma_split_prefix(s, e2, f.recipient);
    lemma_split_prefix(s, b1, b2);
    let p4 = (40 + b4.len()) as usize;
    lemma_u32_at(s, 0, f.from_chain);
    lemma_u32_at(s, 4, f.to_chain);
    lemma_fixed_at(s, 8, f.recipient);
    lemma_bytes_at(s, 40, f.payload);
    lemma_u64_at(s, p4, f.nonce);
    lemma_u64_at(s, (p4 + 8) as usize, f.timestamp);
}

/// Decoding the encoding of a `MessageFailed` event, whatever follows it,
/// gives back its fields.
pub proof fn lemma_failed_roundtrip(f: FailedFields, rest: Seq<u8>)
    requires
        f.payload.len() <= u32::MAX,
        vstd::utf8::encode_utf8(f.error).len() <= u32::MAX,
        encode_failed(f).len() + rest.len() <= usize::MAX,
    ensures
        spec_decode_failed(encode_failed(f) + rest) == Some(f),
{
    let text = vstd::utf8::encode_utf8(f.error);
    let b1 = le_bytes(f.from_chain as nat, 4);
    let b2 = le_bytes(f.to_chain as nat, 4);
    let b3 = encode_bytes(f.payload);
    let b4 = encode_bytes(text);
    let b5 = le_bytes(f.timestamp as nat, 8);
    lemma_le_bytes_len(f.from_chain as nat, 4);
    lemma_le_bytes_len(f.to_chain as nat, 4);
    lemma_le_bytes_len(f.timestamp as nat, 8);
    lemma_compact_len(f.payload.len() as u32);
    lemma_compact_len(text.len() as u32);
    vstd::utf8::encode_utf8_valid_utf8(f.error);
    vstd::utf8::encode_utf8_decode_utf8(f.error);
    let e2 = b1 + b2;
    let e3 = e2 + b3;
    let e4 = e3 + b4;
    let e5 = e4 + b5;
    let s = e5 + rest;
    assert(s.subrange(0, e5.len() as int) =~= e5);
    lemma_split_prefix(s, e4, b5);
    lemma_split_prefix(s, e3, b4);
    lemma_split_prefix(s, e2, b3);
    lemma_split_prefix(s, b1, b2);
    let p3 = (8 + b3.len()) as usize;
    let p4 = (p3 + b4.len()) as usize;
    lemma_u32_at(s, 0, f.from_chain);
    lemma_u32_at(s, 4, f.to_chain);
    lemma_bytes_at(s, 8, f.payload);
    lemma_bytes_at(s, p3, text);
    lemma_u64_at(s, p4, f.timestamp);
}

/// Why the fields of a `MessageSent` payload cannot be read (where they
/// cannot): the failure of the first field that does not read.
pub open spec fn spec_sent_failure(s: Seq<u8>) -> ScaleFailure {
    match spec_u32_at(s, 0) {
        None => ScaleFailure::Truncated,
        Some((_a, p1)) => match spec_u32_at(s, p1) {
            None => ScaleFailure::Truncated,
            Some((_b, p2)) => match spec_fixed_at(s, p2, 32) {
                None => ScaleFailure::Truncated,
                Some((_c, p3)) => match spec_bytes_at(s, p3) {
                    None => spec_bytes_failure(s, p3),
                    Some((_d, p4)) => match spec_u64_at(s, p4) {
                        None => ScaleFailure::Truncated,
                        Some((_e, p5)) => match spec_u64_at(s, p5) {
                            None => ScaleFailure::Truncated,
                            Some((_f, p6)) => spec_opt_u128_failure(s, p6),
                        },
                    },
                },
            },
        },
    }
}

/// Why the fields of a `MessageReceived` payload cannot be read (where they
/// cannot): the failure of the first field that does not read.
pub open spec fn spec_received_failure(s: Seq<u8>) -> ScaleFailure {
    match spec_u32_at(s, 0) {
        None => ScaleFailure::Truncated,
        Some((_a, p1)) => match spec_u32_at(s, p1) {
            None => ScaleFailure::Truncated,
            Some((_b, p2)) => match spec_fixed_at(s, p2, 32) {
                None => ScaleFailure::Truncated,
                Some((_c, p3)) => match spec_bytes_at(s, p3) {
                    None => spec_bytes_failure(s, p3),
                    Some(_) => ScaleFailure::Truncated,
                },
            },
        },
    }
}

/// Why the fields of a `MessageFailed` payload cannot be read (where they
/// cannot): the failure of the first field that does not read.
pub open spec fn spec_failed_failure(s: Seq<u8>) -> ScaleFailure {
    match spec_u32_at(s, 0) {
        None => ScaleFailure::Truncated,
        Some((_a, p1)) => match spec_u32_at(s, p1) {
            None => ScaleFailure::Truncated,
            Some((_b, p2)) => match spec_bytes_at(s, p2) {
                None => spec_bytes_failure(s, p2),
                Some((_c, p3)) => match spec_string_at(s, p3) {
                    None => spec_string_failure(s, p3),
                    Some(_) => ScaleFailure::Truncated,
                },
            },
        },
    }
}

/// Decodes the payload of a `MessageSent` event.
pub fn decode_message_sent(bytes: &[u8]) -> (r: Result<MessageSentEvent, ScaleFailure>)
    ensures
        r is Ok <==> spec_decode_sent(bytes@) is Some,
        r matches Ok(e) ==> e@ == spec_decode_sent(bytes@)->0,
        r matches Err(f) ==> f == spec_sent_failure(bytes@),
{
    let truncated = ScaleFailure::Truncated;
    let (from_chain, p1) = match read_u32(bytes, 0) { Some(x) => x, None => return Err(truncated) };
    let (to_chain, p2) = match read_u32(bytes, p1) { Some(x) => x, None => return Err(truncated) };
    let (sender, p3) = match read_fixed(bytes, p2, 32) { Some(x) => x, None => return Err(truncated) };
    let (payload, p4) = match read_bytes_or_failure(bytes, p3) { Ok(x) => x, Err(f) => return Err(f) };
    let (nonce, p5) = match read_u64(bytes, p4) { Some(x) => x, None => return Err(truncated) };
    let (timestamp, p6) = match read_u64(bytes, p5) { Some(x) => x, None => return Err(truncated) };
    let (fee, _p7) = match read_opt_u128_or_failure(bytes, p6) { Ok(x) => x, Err(f) => return Err(f) };
    Ok(MessageSentEvent { from_chain, to_chain, sender, payload, nonce, timestamp, fee })
}

/// Decodes the payload of a `MessageReceived` event.
pub fn decode_message_received(bytes: &[u8]) -> (r: Result<MessageReceivedEvent, ScaleFailure>)
    ensures
        r is Ok <==> spec_decode_received(bytes@) is Some,
        r matches Ok(e) ==> e@ == spec_decode_received(bytes@)->0,
        r matches Err(f) ==> f == spec_received_failure(bytes@),
{
    let truncated = ScaleFailure::Truncated;
    let (from_chain, p1) = match read_u32(bytes, 0) { Some(x) => x, None => return Err(truncated) };
    let (to_chain, p2) = match read_u32(bytes, p1) { Some(x) => x, None => return Err(truncated) };
    let (recipient, p3) = match read_fixed(bytes, p2, 32) { Some(x) => x, None => return Err(truncated) };
    let (payload, p4) = match read_bytes_or_failure(bytes, p3) { Ok(x) => x, Err(f) => return Err(f) };
    let (nonce, p5) = match read_u64(bytes, p4) { Some(x) => x, None => return Err(truncated) };
    let (timestamp, _p6) = match read_u64(bytes, p5) { Some(x) => x, None => return Err(truncated) };
    Ok(MessageReceivedEvent { from_chain, to_chain, recipient, payload, nonce, timestamp })
}

/// Decodes the payload of a `MessageFailed` event.
pub fn decode_message_failed(bytes: &[u8]) -> (r: Result<MessageFailedEvent, ScaleFailure>)
    ensures
        r is Ok <==> spec_decode_failed(bytes@) is Some,
        r matches Ok(e) ==> e@ == spec_decode_failed(bytes@)->0,
        r matches Err(f) ==> f == spec_failed_failure(bytes@),
{
    let truncated = ScaleFailure::Truncated;
    let (from_chain, p1) = match read_u32(bytes, 0) { Some(x) => x, None => return Err(truncated) };
    let (to_chain, p2) = match read_u32(bytes, p1) { Some(x) => x, None => return Err(truncated) };
    let (payload, p3) = match read_bytes_or_failure(bytes, p2) { Ok(x) => x, Err(f) => return Err(f) };
    let (error, p4) = match read_string_or_failure(bytes, p3) { Ok(x) => x, Err(f) => return Err(f) };
    let (timestamp, _p5) = match read_u64(bytes, p4) { Some(x) => x, None => return Err(truncated) };
    Ok(MessageFailedEvent { from_chain, to_chain, payload, error, timestamp })
}

} // verus!

verus! {

/// Why a pallet event could not be turned into a message event.
pub enum ConversionFailure {
    /// The payload does not decode as the variant's fields, for this reason.
    Decode(ScaleFailure),
    /// The origin chain code names no chain.
    InvalidFromChain(u32),
    /// The destination chain code names no chain.
    InvalidToChain(u32),
    /// The variant is not a message variant.
    Unsupported,
}

/// The message event for decoded fields, or the chain code that names no chain.
pub open spec fn message_event_from(
    from_chain: u32,
    to_chain: u32,
    payload: Seq<u8>,
    nonce: u64,
    timestamp: u64,
    fee: Option<u128>,
    metadata: Seq<(Seq<char>, Seq<char>)>,
    block_number: u32,
) -> Result<MessageEventView, ConversionFailure> {
    match chain_of_code(from_chain as u64) {
        None => Err(ConversionFailure::InvalidFromChain(from_chain)),
        Some(from) => match chain_of_code(to_chain as u64) {
            None => Err(ConversionFailure::InvalidToChain(to_chain)),
            Some(to) => Ok(MessageEventView {
                message: FrostMessageView {
                    id: deterministic_uuid(from_chain, to_chain, payload, nonce, timestamp),
                    from_chain: from,
                    to_chain: to,
                    payload: payload,
                    proof: None,
                    timestamp: timestamp,
                    nonce: nonce,
                    signature: None,
                    fee: fee,
                    metadata: Some(metadata),
                },
                block_number: Some(block_number as u64),
                tx_hash: None,
            }),
        },
    }
}

/// The message event that a pallet event of the given variant, payload and
/// block denotes.
pub open spec fn spec_convert_event(variant: Seq<char>, bytes: Seq<u8>, block_number: u32) -> Result<MessageEventView, ConversionFailure> {
    if variant == "MessageSent"@ {
        match spec_decode_sent(bytes) {
            None => Err(ConversionFailure::Decode(spec_sent_failure(bytes))),
            Some(f) => message_event_from(
                f.from_chain, f.to_chain, f.payload, f.nonce, f.timestamp, f.fee,
                seq![("sender"@, ss58_text(f.sender)), ("event_type"@, "MessageSent"@)],
                block_number,
            ),
        }
    } else if variant == "MessageReceived"@ {
        match spec_decode_received(bytes) {
            None => Err(ConversionFailure::Decode(spec_received_failure(bytes))),
            Some(f) => message_event_from(
                f.from_chain, f.to_chain, f.payload, f.nonce, f.timestamp, None,
                seq![("recipient"@, ss58_text(f.recipient)), ("event_type"@, "MessageReceived"@)],
                block_number,
            ),
        }
    } else if variant == "MessageFailed"@ {
        match spec_decode_failed(bytes) {
            None => Err(ConversionFailure::Decode(spec_failed_failure(bytes))),
            Some(f) => message_event_from(
                f.from_chain, f.to_chain, f.payload, 0, f.timestamp, None,
                seq![("error"@, f.error), ("event_type"@, "MessageFailed"@)],
                block_number,
            ),
        }
    } else {
        Err(ConversionFailure::Unsupported)
    }
}

/// Whether both chain codes name chains.
pub open spec fn chains_known(from_chain: u32, to_chain: u32) -> bool {
    chain_of_code(from_chain as u64) is Some && chain_of_code(to_chain as u64) is Some
}

/// Whether a message event carries the given decoded fields: it goes from the
/// chain the origin code names to the chain the destination code names, under
/// the id derived from origin, destination, payload, nonce and timestamp, with
/// that payload, nonce, timestamp and fee, observed in the given block.
pub open spec fn carries_fields(
    e: MessageEventView,
    from_chain: u32,
    to_chain: u32,
    payload: Seq<u8>,
    nonce: u64,
    timestamp: u64,
    fee: Option<u128>,
    block_number: u32,
) -> bool {
    &&& chain_of_code(from_chain as u64) == Some(e.message.from_chain)
    &&& chain_of_code(to_chain as u64) == Some(e.message.to_chain)
    &&& e.message.id == deterministic_uuid(from_chain, to_chain, payload, nonce, timestamp)
    &&& e.message.payload == payload
    &&& e.message.nonce == nonce
    &&& e.message.timestamp == timestamp
    &&& e.message.fee == fee
    &&& e.block_number == Some(block_number as u64)
}

/// Each message variant whose fields decode, with chain codes that name
/// chains, converts to an event that goes from the decoded origin to the
/// decoded destination, under the id derived from the decoded fields: a sent
/// event keeps its fee, a received one has none, and a failed one has nonce 0
/// and no fee. A payload that does not decode is refused.
pub proof fn lemma_convert_carries_decoded_fields(bytes: Seq<u8>, block_number: u32)
    ensures
        spec_decode_sent(bytes) matches Some(f) ==> chains_known(f.from_chain, f.to_chain)
            ==> (spec_convert_event("MessageSent"@, bytes, block_number) matches Ok(e)
                && carries_fields(e, f.from_chain, f.to_chain, f.payload, f.nonce, f.timestamp, f.fee, block_number)),
        spec_decode_received(bytes) matches Some(f) ==> chains_known(f.from_chain, f.to_chain)
            ==> (spec_convert_event("MessageReceived"@, bytes, block_number) matches Ok(e)
                && carries_fields(e, f.from_chain, f.to_chain, f.payload, f.nonce, f.timestamp, None, block_number)),
        spec_decode_failed(bytes) matches Some(f) ==> chains_known(f.from_chain, f.to_chain)
            ==> (spec_convert_event("MessageFailed"@, bytes, block_number) matches Ok(e)
                && carries_fields(e, f.from_chain, f.to_chain, f.payload, 0, f.timestamp, None, block_number)),
        spec_decode_sent(bytes) is None ==> spec_convert_event("MessageSent"@, bytes, block_number) is Err,
        spec_decode_received(bytes) is None ==> spec_convert_event("MessageReceived"@, bytes, block_number) is Err,
        spec_decode_failed(bytes) is None ==> spec_convert_event("MessageFailed"@, bytes, block_number) is Err,
{
    reveal_strlit("MessageSent");
    reveal_strlit("MessageReceived");
    reveal_strlit("MessageFailed");
    assert("MessageReceived"@.len() != "MessageSent"@.len());
    assert("MessageFailed"@.len() != "MessageSent"@.len());
    assert("MessageFailed"@.len() != "MessageReceived"@.len());
}

/// An encoded `MessageReceived` event, whatever follows it, converts to an
/// event from the chain its origin code names to the chain its destination
/// code names.
pub proof fn lemma_convert_received_roundtrip(f: ReceivedFields, rest: Seq<u8>, block_number: u32)
    requires
        f.recipient.len() == 32,
        f.payload.len() <= u32::MAX,
        encode_received(f).len() + rest.len() <= usize::MAX,
        chains_known(f.from_chain, f.to_chain),
    ensures
        spec_convert_event("MessageReceived"@, encode_received(f) + rest, block_number) matches Ok(e)
            && carries_fields(e, f.from_chain, f.to_chain, f.payload, f.nonce, f.timestamp, None, block_number),
{
    lemma_received_roundtrip(f, rest);
    lemma_convert_carries_decoded_fields(encode_received(f) + rest, block_number);
}

/// An encoded `MessageSent` event, whatever follows it, converts to an event
/// from the chain its origin code names to the chain its destination code
/// names, with its fee.
pub proof fn lemma_convert_sent_roundtrip(f: SentFields, rest: Seq<u8>, block_number: u32)
    requires
        f.sender.len() == 32,
        f.payload.len() <= u32::MAX,
        encode_sent(f).len() + rest.len() <= usize::MAX,
        chains_known(f.from_chain, f.to_chain),
    ensures
        spec_convert_event("MessageSent"@, encode_sent(f) + rest, block_number) matches Ok(e)
            && carries_fields(e, f.from_chain, f.to_chain, f.payload, f.nonce, f.timestamp, f.fee, block_number),
{
    lemma_sent_roundtrip(f, rest);
    lemma_convert_carries_decoded_fields(encode_sent(f) + rest, block_number);
}

/// An encoded `MessageFailed` event, whatever follows it, converts to an
/// event from the chain its origin code names to the chain its destination
/// code names, with nonce 0 and no fee.
pub proof fn lemma_convert_failed_roundtrip(f: FailedFields, rest: Seq<u8>, block_number: u32)
    requires
        f.payload.len() <= u32::MAX,
        vstd::utf8::encode_utf8(f.error).len() <= u32::MAX,
        encode_failed(f).len() + rest.len() <= usize::MAX,
        chains_known(f.from_chain, f.to_chain),
    ensures
        spec_convert_event("MessageFailed"@, encode_failed(f) + rest, block_number) matches Ok(e)
            && carries_fields(e, f.from_chain, f.to_chain, f.payload, 0, f.timestamp, None, block_number),
{
    lemma_failed_roundtrip(f, rest);
    lemma_convert_carries_decoded_fields(encode_failed(f) + rest, block_number);
}

/// Whether an error is the one that a conversion failure is reported as.
pub open spec fn reports_failure(e: AdapterError, f: ConversionFailure, variant: Seq<char>) -> bool {
    match f {
        ConversionFailure::Decode(r) => e matches AdapterError::Deserialization(m)
            && m@ == "Failed to decode "@ + variant + " event: "@ + scale_failure_text(r),
        ConversionFailure::InvalidFromChain(c) => e matches AdapterError::Other(m)
            && m@ == "Invalid from_chain id: "@ + decimal_text(c as u64),
        ConversionFailure::InvalidToChain(c) => e matches AdapterError::Other(m)
            && m@ == "Invalid to_chain id: "@ + decimal_text(c as u64),
        ConversionFailure::Unsupported => e matches AdapterError::Other(m)
            && m@ == "Unsupported event variant: "@ + variant,
    }
}

fn chain_or_error(code: u32, from_side: bool) -> (r: Result<ChainId, AdapterError>)
    ensures
        match chain_of_code(code as u64) {
            Some(c) => r == Ok::<ChainId, AdapterError>(c),
            None => r matches Err(AdapterError::Other(m)) && m@ == (if from_side {
                "Invalid from_chain id: "@
            } else {
                "Invalid to_chain id: "@
            }) + decimal_text(code as u64),
        },
{
    match ChainId::try_from_u64(code as u64) {
        Some(c) => Ok(c),
        None => {
            let digits = decimal_string(code as u64);
            let prefix = if from_side { "Invalid from_chain id: " } else { "Invalid to_chain id: " };
            Err(AdapterError::Other(join(prefix, digits.as_str())))
        },
    }
}

fn build_event(
    from_chain: u32,
    to_chain: u32,
    payload: Vec<u8>,
    nonce: u64,
    timestamp: u64,
    fee: Option<u128>,
    metadata: Vec<(String, String)>,
    block_number: u32,
) -> (r: Result<MessageEvent, AdapterError>)
    ensures
        match message_event_from(from_chain, to_chain, payload@, nonce, timestamp, fee,
            crate::message::pairs_view(metadata@), block_number) {
            Ok(v) => r matches Ok(e) && e@ == v,
            Err(f) => r matches Err(e) && reports_failure(e, f, Seq::empty()),
        },
{
    let id = generate_deterministic_uuid(from_chain, to_chain, payload.as_slice(), nonce, timestamp);
    let from = match chain_or_error(from_chain, true) {
        Ok(c) => c,
        Err(e) => return Err(e),
    };
    let to = match chain_or_error(to_chain, false) {
        Ok(c) => c,
        Err(e) => return Err(e),
    };
    let message = FrostMessage {
        id,
        from_chain: from,
        to_chain: to,
        payload,
        proof: None,
        timestamp,
        nonce,
        signature: None,
        fee,
        metadata: Some(metadata),
    };
    Ok(MessageEvent { message, block_number: Some(block_number as u64), tx_hash: None })
}

fn decode_error(variant: &str, reason: ScaleFailure) -> (e: AdapterError)
    ensures
        e matches AdapterError::Deserialization(m)
            && m@ == "Failed to decode "@ + variant@ + " event: "@ + scale_failure_text(reason),
{
    let head = join("Failed to decode ", variant);
    let mid = join(head.as_str(), " event: ");
    AdapterError::Deserialization(join(mid.as_str(), reason.text()))
}

fn pair(k: &str, v: String) -> (p: (String, String))
    ensures
        p.0@ == k@,
        p.1@ == v@,
{
    (owned(k), v)
}

/// Converts a pallet event of the message variants into a message event.
///
/// `variant` is the event's variant name and `bytes` the bytes its fields are
/// decoded from; `block_number` is the block it was observed in.
pub fn convert_event_to_message_event(variant: &str, bytes: &[u8], block_number: u32) -> (r: Result<MessageEvent, AdapterError>)
    ensures
        match spec_convert_event(variant@, bytes@, block_number) {
            Ok(v) => r matches Ok(e) && e@ == v,
            Err(f) => r matches Err(e) && reports_failure(e, f, variant@),
        },
        variant@ == "MessageSent"@ ==> (spec_decode_sent(bytes@) matches Some(f) ==> chains_known(f.from_chain, f.to_chain)
            ==> (r matches Ok(e)
                && carries_fields(e@, f.from_chain, f.to_chain, f.payload, f.nonce, f.timestamp, f.fee, block_number))),
        variant@ == "MessageReceived"@ ==> (spec_decode_received(bytes@) matches Some(f) ==> chains_known(f.from_chain, f.to_chain)
            ==> (r matches Ok(e)
                && carries_fields(e@, f.from_chain, f.to_chain, f.payload, f.nonce, f.timestamp, None, block_number))),
        variant@ == "MessageFailed"@ ==> (spec_decode_failed(bytes@) matches Some(f) ==> chains_known(f.from_chain, f.to_chain)
            ==> (r matches Ok(e)
                && carries_fields(e@, f.from_chain, f.to_chain, f.payload, 0, f.timestamp, None, block_number))),
{
    proof {
        lemma_convert_carries_decoded_fields(bytes@, block_number);
    }
    if str_eq(variant, "MessageSent") {
        match decode_message_sent(bytes) {
            Err(reason) => Err(decode_error(variant, reason)),
            Ok(f) => {
                let mut md: Vec<(String, String)> = Vec::new();
                md.push(pair("sender", account_ss58(f.sender.as_slice())));
                md.push(pair("event_type", owned("MessageSent")));
                assert(crate::message::pairs_view(md@) =~= seq![("sender"@, ss58_text(f.sender@)), ("event_type"@, "MessageSent"@)]);
                build_event(f.from_chain, f.to_chain, f.payload, f.nonce, f.timestamp, f.fee, md, block_number)
            },
        }
    } else if str_eq(variant, "MessageReceived") {
        match decode_message_received(bytes) {
            Err(reason) => Err(decode_error(variant, reason)),
            Ok(f) => {
                let mut md: Vec<(String, String)> = Vec::new();
                md.push(pair("recipient", account_ss58(f.recipient.as_slice())));
                md.push(pair("event_type", owned("MessageReceived")));
                assert(crate::message::pairs_view(md@) =~= seq![("recipient"@, ss58_text(f.recipient@)), ("event_type"@, "MessageReceived"@)]);
                build_event(f.from_chain, f.to_chain, f.payload, f.nonce, f.timestamp, None, md, block_number)
            },
        }
    } else if str_eq(variant, "MessageFailed") {
        match decode_message_failed(bytes) {
            Err(reason) => Err(decode_error(variant, reason)),
            Ok(f) => {
                let mut md: Vec<(String, String)> = Vec::new();
                md.push(pair("error", f.error));
                md.push(pair("event_type", owned("MessageFailed")));
                assert(crate::message::pairs_view(md@) =~= seq![("error"@, f.error@), ("event_type"@, "MessageFailed"@)]);
                build_event(f.from_chain, f.to_chain, f.payload, 0, f.timestamp, None, md, block_number)
            },
        }
    } else {
        Err(AdapterError::Other(join("Unsupported event variant: ", variant)))
    }
}

} // verus!
