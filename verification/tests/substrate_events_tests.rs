use blake2::{Blake2b512, Digest};
use frostgate_icap::chain::{AdapterError, ChainId};
use frostgate_icap::message::{FrostMessage, MessageEvent};
use frostgate_icap::substrate::event_cache::{compute_event_hash, EventCache};
use frostgate_icap::substrate::events::{
    convert_event_to_message_event, decode_message_failed, decode_message_received, decode_message_sent,
    generate_deterministic_uuid,
};
use frostgate_icap::substrate::listener::{
    decode_event, decode_observed_event, ObservedStatus,
    block_disposition, block_message_events, block_timestamp, is_message_event, scan_range, ExtrinsicCall, PalletEvent,
};
use frostgate_icap::substrate::verifier_cache::{
    missing_proof_error, proof_check_outcome, verification_input, VerifierCache,
};
use frostgate_icap::scale::ScaleFailure;
use parity_scale_codec::{Decode, Encode};

fn expected_uuid(from: u32, to: u32, payload: &[u8], nonce: u64, ts: u64) -> u128 {
    let mut data = Vec::new();
    data.extend_from_slice(&from.to_be_bytes());
    data.extend_from_slice(&to.to_be_bytes());
    data.extend_from_slice(payload);
    data.extend_from_slice(&nonce.to_be_bytes());
    data.extend_from_slice(&ts.to_be_bytes());
    let digest = Blake2b512::digest(&data);
    let mut bytes = [0u8; 16];
    bytes.copy_from_slice(&digest[..16]);
    bytes[6] = (bytes[6] & 0x0f) | 0x50;
    bytes[8] = (bytes[8] & 0x3f) | 0x80;
    uuid::Uuid::from_bytes(bytes).as_u128()
}

fn sent_bytes(from: u32, to: u32, payload: Vec<u8>, nonce: u64, ts: u64, fee: Option<u128>) -> Vec<u8> {
    (from, to, [7u8; 32], payload, nonce, ts, fee).encode()
}

#[test]
fn deterministic_uuid_matches_blake2_and_uuid() {
    let id = generate_deterministic_uuid(1, 2, b"hello", 9, 1_700_000_000);
    assert_eq!(id, expected_uuid(1, 2, b"hello", 9, 1_700_000_000));
    let u = uuid::Uuid::from_u128(id);
    assert_eq!(u.get_version_num(), 5);
    assert_eq!(u.get_variant(), uuid::Variant::RFC4122);
    assert_ne!(id, generate_deterministic_uuid(1, 2, b"hello", 10, 1_700_000_000));
}

#[test]
fn decode_sent_received_failed() {
    let bytes = sent_bytes(1, 3, vec![1, 2, 3], 42, 1000, Some(5));
    let e = decode_message_sent(&bytes).unwrap();
    assert_eq!((e.from_chain, e.to_chain, e.nonce, e.timestamp, e.fee), (1, 3, 42, 1000, Some(5)));
    assert_eq!(e.sender, vec![7u8; 32]);
    assert_eq!(e.payload, vec![1, 2, 3]);
    assert_eq!(decode_message_sent(&bytes[..bytes.len() - 1]).unwrap_err(), ScaleFailure::Truncated);

    let none_fee = sent_bytes(1, 3, vec![], 0, 0, None);
    assert_eq!(decode_message_sent(&none_fee).unwrap().fee, None);

    let received = (2u32, 1u32, [9u8; 32], vec![5u8; 70], 3u64, 4u64).encode();
    let r = decode_message_received(&received).unwrap();
    assert_eq!((r.from_chain, r.to_chain, r.nonce, r.timestamp), (2, 1, 3, 4));
    assert_eq!(r.payload.len(), 70);

    let failed = (4u32, 2u32, vec![0u8; 3], "out of gas".to_string(), 77u64).encode();
    let f = decode_message_failed(&failed).unwrap();
    assert_eq!(f.error, "out of gas");
    assert_eq!(f.timestamp, 77);
    let bad_utf8 = (4u32, 2u32, vec![0u8; 3], vec![0xffu8, 0xfe], 77u64).encode();
    assert_eq!(decode_message_failed(&bad_utf8).unwrap_err(), ScaleFailure::InvalidUtf8);
}

#[test]
fn convert_sent_event() {
    let bytes = sent_bytes(1, 3, vec![1, 2, 3], 42, 1000, Some(5));
    let ev = convert_event_to_message_event("MessageSent", &bytes, 77).unwrap();
    let m = &ev.message;
    assert_eq!(m.id, expected_uuid(1, 3, &[1, 2, 3], 42, 1000));
    assert_eq!((m.from_chain, m.to_chain), (ChainId::Ethereum, ChainId::Solana));
    assert_eq!(m.fee, Some(5));
    assert_eq!(ev.block_number, Some(77));
    assert_eq!(ev.tx_hash, None);
    let md = m.metadata.clone().unwrap();
    let sender = subxt_core::utils::AccountId32([7u8; 32]).to_string();
    assert_eq!(md, vec![("sender".to_string(), sender), ("event_type".to_string(), "MessageSent".to_string())]);
}

#[test]
fn convert_failed_event_uses_zero_nonce() {
    let failed = (2u32, 4u32, vec![8u8], "boom".to_string(), 5u64).encode();
    let ev = convert_event_to_message_event("MessageFailed", &failed, 1).unwrap();
    assert_eq!(ev.message.nonce, 0);
    assert_eq!(ev.message.id, expected_uuid(2, 4, &[8], 0, 5));
    assert_eq!(
        ev.message.metadata.clone().unwrap(),
        vec![("error".to_string(), "boom".to_string()), ("event_type".to_string(), "MessageFailed".to_string())]
    );
}

#[test]
fn conversion_errors() {
    assert_eq!(
        convert_event_to_message_event("MessageSent", &[1, 2], 1).unwrap_err(),
        AdapterError::Deserialization("Failed to decode MessageSent event: Not enough data to fill buffer".to_string())
    );
    let bytes = sent_bytes(9, 3, vec![], 0, 0, None);
    assert_eq!(
        convert_event_to_message_event("MessageSent", &bytes, 1).unwrap_err(),
        AdapterError::Other("Invalid from_chain id: 9".to_string())
    );
    let bytes = sent_bytes(1, 0, vec![], 0, 0, None);
    assert_eq!(
        convert_event_to_message_event("MessageSent", &bytes, 1).unwrap_err(),
        AdapterError::Other("Invalid to_chain id: 0".to_string())
    );
    assert_eq!(
        convert_event_to_message_event("Transfer", &bytes, 1).unwrap_err(),
        AdapterError::Other("Unsupported event variant: Transfer".to_string())
    );
}

#[test]
fn scan_ranges() {
    assert_eq!(scan_range(None, 1000), (900, 1000));
    assert_eq!(scan_range(None, 50), (0, 50));
    assert_eq!(scan_range(Some(500), 1000), (500, 600));
    assert_eq!(scan_range(Some(950), 1000), (950, 1000));
    assert_eq!(scan_range(Some(u32::MAX - 5), u32::MAX), (u32::MAX - 5, u32::MAX));
    assert_eq!(block_disposition(5, 1, 10), (true, false));
    assert_eq!(block_disposition(10, 1, 10), (true, true));
    assert_eq!(block_disposition(11, 1, 10), (false, false));
    assert_eq!(block_disposition(0, 1, 10), (false, false));
}

#[test]
fn message_event_filter() {
    assert!(is_message_event("Frost", "Frost", "MessageReceived"));
    assert!(!is_message_event("Frost", "Balances", "MessageReceived"));
    assert!(!is_message_event("Frost", "Frost", "Transfer"));
}

#[test]
fn block_events_skip_unrelated_and_broken() {
    let good = sent_bytes(1, 2, vec![1], 1, 1, None);
    let events = vec![
        PalletEvent { pallet: "Frost".to_string(), variant: "MessageSent".to_string(), fields: good.clone() },
        PalletEvent { pallet: "Balances".to_string(), variant: "MessageSent".to_string(), fields: good.clone() },
        PalletEvent { pallet: "Frost".to_string(), variant: "MessageSent".to_string(), fields: vec![1] },
        PalletEvent { pallet: "Frost".to_string(), variant: "Other".to_string(), fields: good.clone() },
        PalletEvent { pallet: "Frost".to_string(), variant: "MessageSent".to_string(), fields: good },
    ];
    let out = block_message_events("Frost", 12, &events);
    assert_eq!(out.len(), 2);
    assert_eq!(out[0].block_number, Some(12));
}

fn event(id: u128, block: Option<u64>, ts: u64) -> MessageEvent {
    MessageEvent {
        message: FrostMessage {
            id,
            from_chain: ChainId::Ethereum,
            to_chain: ChainId::Polkadot,
            payload: vec![],
            proof: None,
            timestamp: ts,
            nonce: 0,
            signature: None,
            fee: None,
            metadata: None,
        },
        block_number: block,
        tx_hash: None,
    }
}

#[test]
fn event_hash_matches_blake2() {
    let e = event(0x0102, Some(9), 0);
    let mut data = 0x0102u128.to_be_bytes().to_vec();
    data.extend_from_slice(&9u64.to_be_bytes());
    let digest = Blake2b512::digest(&data);
    assert_eq!(compute_event_hash(&e), digest[..32].to_vec());
    let mut with_tx = event(0x0102, None, 0);
    with_tx.tx_hash = Some(vec![1, 2]);
    let mut data = 0x0102u128.to_be_bytes().to_vec();
    data.extend_from_slice(&[1, 2]);
    assert_eq!(compute_event_hash(&with_tx), Blake2b512::digest(&data)[..32].to_vec());
}

#[test]
fn cache_deduplicates_and_expires() {
    let mut cache = EventCache::new();
    let now = 10_000;
    let fresh = cache.accept_batch(vec![event(1, Some(1), now), event(2, Some(1), now)], now);
    assert_eq!(fresh.len(), 2);
    assert_eq!(cache.len(), 2);
    // The same events again are filtered out; a new one passes.
    let fresh = cache.accept_batch(vec![event(1, Some(1), now), event(3, Some(1), now)], now);
    assert_eq!(fresh.len(), 1);
    assert_eq!(fresh[0].message.id, 3);
    // Of duplicates within one batch only the first passes.
    let fresh = cache.accept_batch(vec![event(4, Some(1), now), event(4, Some(1), now), event(5, Some(1), now)], now);
    assert_eq!(fresh.len(), 2);
    assert_eq!((fresh[0].message.id, fresh[1].message.id), (4, 5));
    assert_eq!(cache.len(), 5);
    // An hour later everything has expired.
    cache.cleanup(now + 3600);
    assert_eq!(cache.len(), 0);
    assert!(!cache.contains(&compute_event_hash(&event(1, Some(1), now))));
}

#[test]
fn cache_keeps_the_newest_ten_thousand() {
    let mut cache = EventCache::new();
    let now = 100_000;
    // Entries 0..5 are the oldest; the rest are newer.
    for i in 0..10_005u128 {
        let ts = if i < 5 { now - 3000 } else { now - 1000 };
        let h = compute_event_hash(&event(i, None, ts));
        cache.insert(h, ts);
    }
    assert_eq!(cache.len(), 10_005);
    cache.cleanup(now);
    assert_eq!(cache.len(), 10_000);
    for i in 0..5u128 {
        assert!(!cache.contains(&compute_event_hash(&event(i, None, now - 3000))));
    }
    assert!(cache.contains(&compute_event_hash(&event(5, None, now - 1000))));
    assert!(cache.contains(&compute_event_hash(&event(10_004, None, now - 1000))));
}

#[test]
fn uuid_from_given_digest() {
    let digest: Vec<u8> = (0u8..64).collect();
    let id = frostgate_icap::substrate::events::uuid_from_digest(&digest);
    // Bytes 0..16 with byte 6 = (6 & 0x0f) | 0x50 = 0x56 and byte 8 = (8 & 0x3f) | 0x80 = 0x88.
    assert_eq!(id, 0x0001_0203_0405_5607_8809_0a0b_0c0d_0e0f);
    let all_ones = vec![0xffu8; 16];
    assert_eq!(frostgate_icap::substrate::events::uuid_from_digest(&all_ones), 0xffff_ffff_ffff_5fff_bfff_ffff_ffff_ffff);
}

#[test]
fn block_timestamps() {
    let call = |p: &str, c: &str, f: Option<u64>| ExtrinsicCall { pallet: p.to_string(), call: c.to_string(), first_field: f };
    let xs = vec![call("Balances", "set", Some(1)), call("Timestamp", "set", None), call("Timestamp", "set", Some(1234)), call("Timestamp", "set", Some(9))];
    assert_eq!(block_timestamp(&xs, 77), 1234);
    assert_eq!(block_timestamp(&xs[..2], 77), 77);
    assert_eq!(block_timestamp(&[], 5), 5);
}

#[test]
fn proof_inputs_and_outcomes() {
    let e = event(1, None, 0x0102);
    let mut m = e.message.clone();
    m.payload = vec![0xaa, 0xbb];
    m.nonce = 3;
    let mut expected = 1u64.to_be_bytes().to_vec();
    expected.extend_from_slice(&2u64.to_be_bytes());
    expected.extend_from_slice(&[0xaa, 0xbb]);
    expected.extend_from_slice(&3u64.to_be_bytes());
    expected.extend_from_slice(&0x0102u64.to_be_bytes());
    assert_eq!(verification_input(&m), expected);
    assert_eq!(missing_proof_error(), AdapterError::Other("Message has no attached proof".to_string()));
    assert_eq!(proof_check_outcome(true), Ok(()));
    assert_eq!(proof_check_outcome(false), Err(AdapterError::Other("Invalid proof".to_string())));
}

#[test]
fn verifier_cache_expiry_and_usage() {
    let mut cache: VerifierCache<&str> = VerifierCache::new();
    cache.insert(vec![1], "one", 100);
    cache.insert(vec![2], "two", 100);
    assert_eq!(cache.get(&[1]), Some(&"one"));
    assert!(cache.touch(&[1], 4000));
    assert!(!cache.touch(&[3], 4000));
    // At 4100 s the second verifier, last used at 100 s, has expired.
    cache.cleanup(4100);
    assert_eq!(cache.len(), 1);
    assert_eq!(cache.get(&[2]), None);
    // A use later than the cleanup time does not count as fresh.
    cache.cleanup(3800);
    assert_eq!(cache.len(), 0);
    cache.insert(vec![1], "again", 10);
    cache.insert(vec![1], "replaced", 11);
    assert_eq!(cache.len(), 1);
    assert_eq!(cache.get(&[1]), Some(&"replaced"));
}

#[test]
fn verifier_cache_keeps_most_used() {
    let mut cache: VerifierCache<u32> = VerifierCache::new();
    for i in 0..1003u32 {
        cache.insert(i.to_be_bytes().to_vec(), i, 50);
    }
    for i in 0..1000u32 {
        assert!(cache.touch(&i.to_be_bytes(), 60));
    }
    cache.cleanup(100);
    assert_eq!(cache.len(), 1000);
    assert_eq!(cache.get(&1001u32.to_be_bytes()), None);
    assert_eq!(cache.get(&5u32.to_be_bytes()), Some(&5));
}

#[test]
fn encoded_events_decode_back_with_trailing_bytes() {
    let big = vec![3u8; 20_000];
    let mut bytes = sent_bytes(7, 8, big.clone(), u64::MAX, 12, Some(u128::MAX));
    bytes.extend_from_slice(&[0xaa, 0xbb]);
    let e = decode_message_sent(&bytes).unwrap();
    assert_eq!((e.from_chain, e.to_chain, e.nonce, e.timestamp, e.fee), (7, 8, u64::MAX, 12, Some(u128::MAX)));
    assert_eq!(e.payload, big);

    let mut received = (2u32, 1u32, [9u8; 32], vec![1u8; 64], 3u64, 4u64).encode();
    received.push(0);
    let r = decode_message_received(&received).unwrap();
    assert_eq!(r.recipient, vec![9u8; 32]);
    assert_eq!(r.payload, vec![1u8; 64]);

    let mut failed = (4u32, 2u32, vec![5u8; 2], "délai dépassé".to_string(), 77u64).encode();
    failed.extend_from_slice(&[1, 2, 3]);
    let f = decode_message_failed(&failed).unwrap();
    assert_eq!(f.error, "délai dépassé");
    assert_eq!((f.from_chain, f.to_chain, f.payload.clone(), f.timestamp), (4, 2, vec![5u8; 2], 77));
}

#[test]
fn pallet_events_decode_by_variant() {
    let sent = (1u32, 2u32, vec![9u8, 8], 500u128).encode();
    let e = decode_event("MessageSent", &sent, 77, 1_700, 42).unwrap();
    assert_eq!((e.id, e.from_chain, e.to_chain, e.fee, e.status), (42, 1, 2, Some(500), ObservedStatus::Sent));
    assert_eq!((e.payload.clone(), e.timestamp, e.block_number, e.error.clone()), (vec![9u8, 8], 1_700, Some(77), None));
    let r = decode_event("MessageReceived", &sent, 78, 1_701, 43).unwrap();
    assert_eq!(r.status, ObservedStatus::Received);
    let failed = (3u32, 4u32, vec![1u8], "no funds".to_string()).encode();
    let f = decode_event("MessageFailed", &failed, 79, 1_702, 44).unwrap();
    assert_eq!((f.status, f.fee, f.error.as_deref()), (ObservedStatus::Failed, None, Some("no funds")));
    assert_eq!(
        decode_event("MessageSent", &sent[..sent.len() - 1], 1, 1, 1).unwrap_err(),
        AdapterError::Serialization("Failed to decode MessageSent event: Not enough data to fill buffer".to_string())
    );
    assert_eq!(
        decode_event("Transfer", &sent, 1, 1, 1).unwrap_err(),
        AdapterError::Other("Unknown event variant".to_string())
    );
    let a = decode_observed_event("MessageSent", &sent, 77, 1_700).unwrap();
    let b = decode_observed_event("MessageSent", &sent, 77, 1_700).unwrap();
    assert_eq!((a.from_chain, a.fee), (1, Some(500)));
    assert_ne!(a.id, b.id);
}

#[test]
fn decoding_failures_say_why() {
    // A payload length beyond the input.
    let mut short = (1u32, 2u32, [7u8; 32]).encode();
    short.extend_from_slice(&[40u8 << 2, 1, 2]);
    assert_eq!(decode_message_sent(&short).unwrap_err(), ScaleFailure::VectorTruncated);
    // A compact length not in its shortest form.
    let mut wide = (1u32, 2u32, [7u8; 32]).encode();
    wide.extend_from_slice(&[(3u8 << 2) | 1, 0]);
    assert_eq!(decode_message_sent(&wide).unwrap_err(), ScaleFailure::CompactOutOfRange);
    // An option tag that is neither 0 nor 1.
    let mut tagged = (1u32, 2u32, [7u8; 32], Vec::<u8>::new(), 3u64, 4u64).encode();
    tagged.push(7);
    assert_eq!(decode_message_sent(&tagged).unwrap_err(), ScaleFailure::InvalidOptionTag);
    assert_eq!(
        convert_event_to_message_event("MessageSent", &tagged, 1).unwrap_err(),
        AdapterError::Deserialization("Failed to decode MessageSent event: unexpected first byte decoding Option".to_string())
    );
    let bad_utf8 = (4u32, 2u32, vec![0u8; 3], vec![0xffu8, 0xfe], 77u64).encode();
    assert_eq!(
        convert_event_to_message_event("MessageFailed", &bad_utf8, 1).unwrap_err(),
        AdapterError::Deserialization("Failed to decode MessageFailed event: Invalid utf8 sequence".to_string())
    );
    // The codec itself refuses the same inputs.
    assert!(<(u32, u32, [u8; 32], Vec<u8>, u64, u64, Option<u128>)>::decode(&mut &short[..]).is_err());
    assert!(<(u32, u32, [u8; 32], Vec<u8>, u64, u64, Option<u128>)>::decode(&mut &tagged[..]).is_err());
}
