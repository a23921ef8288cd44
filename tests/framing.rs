use geyser_quic::defaults::MAX_DATAGRAM_SIZE;
use geyser_quic::framer::{Reassembly, RecvError, RecvStep, StreamRead};
use geyser_quic::message::{
    convert_binary_to_message, decode_message, encode_message, DecodeError, Message,
};
use geyser_quic::types::{
    Account, BlockMeta, CommitmentLevel, Pubkey, SlotIdentifier, SlotMeta, Transaction,
};

fn account_for_test(slot: u64, size: usize) -> Account {
    let data: Vec<u8> = (0..size).map(|i| (i % 251) as u8).collect();
    let mut bytes = [0u8; 32];
    for (i, b) in bytes.iter_mut().enumerate() {
        *b = (slot as u8).wrapping_add(i as u8);
    }
    Account { slot_identifier: SlotIdentifier { slot }, pubkey: Pubkey { bytes }, data }
}

fn deliver(stream_id: u64, bytes: &[u8]) -> Message {
    let mut r = Reassembly::new(stream_id);
    let chunks: Vec<&[u8]> = bytes.chunks(MAX_DATAGRAM_SIZE).collect();
    for (i, c) in chunks.iter().enumerate() {
        let fin = i + 1 == chunks.len();
        match r.step(StreamRead::Data { chunk: c.to_vec(), fin }) {
            RecvStep::Pending => assert!(!fin),
            RecvStep::Complete(m) => {
                assert!(fin);
                return m;
            }
            RecvStep::Failed(e) => panic!("failed: {:?}", e),
        }
    }
    panic!("stream ended without a message")
}

#[test]
fn test_send_and_recieve_of_small_account() {
    let account = account_for_test(123456, 2);
    let message = Message::AccountMsg(account);
    let bytes = encode_message(&message);
    assert!(bytes.len() <= MAX_DATAGRAM_SIZE);
    let recvd_message = deliver(4, &bytes);
    assert_eq!(recvd_message, message);
}

#[test]
fn test_send_and_recieve_of_large_account() {
    let account = account_for_test(123456, 10_000_000);
    let message = Message::AccountMsg(account);
    let bytes = encode_message(&message);
    assert!(bytes.len() > MAX_DATAGRAM_SIZE);
    let recvd_message = deliver(0, &bytes);
    assert_eq!(recvd_message, message);
}

#[test]
fn slot_message_has_exact_bytes() {
    let m = Message::SlotMsg(SlotMeta {
        slot: 0x0102,
        parent: 7,
        commitment_level: CommitmentLevel::Finalized,
    });
    let bytes = encode_message(&m);
    let expected: Vec<u8> = vec![
        1, 0, 0, 0, 2, 1, 0, 0, 0, 0, 0, 0, 7, 0, 0, 0, 0, 0, 0, 0, 2, 0, 0, 0,
    ];
    assert_eq!(bytes, expected);
    assert_eq!(decode_message(&bytes), Ok(m));
}

#[test]
fn account_message_has_exact_bytes() {
    let m = Message::AccountMsg(Account {
        slot_identifier: SlotIdentifier { slot: 9 },
        pubkey: Pubkey { bytes: [0xaa; 32] },
        data: vec![5, 6],
    });
    let bytes = encode_message(&m);
    let mut expected: Vec<u8> = vec![0, 0, 0, 0, 9, 0, 0, 0, 0, 0, 0, 0];
    expected.extend_from_slice(&[0xaa; 32]);
    expected.extend_from_slice(&[2, 0, 0, 0, 0, 0, 0, 0, 5, 6]);
    assert_eq!(bytes, expected);
}

#[test]
fn every_variant_round_trips() {
    let messages = vec![
        Message::AccountMsg(account_for_test(1, 0)),
        Message::AccountMsg(account_for_test(u64::MAX, 3000)),
        Message::SlotMsg(SlotMeta { slot: 5, parent: 4, commitment_level: CommitmentLevel::Processed }),
        Message::SlotMsg(SlotMeta { slot: 5, parent: 4, commitment_level: CommitmentLevel::Confirmed }),
        Message::BlockMetaMsg(BlockMeta {
            slot: 10,
            parent_slot: 9,
            blockhash: b"4sGjMW1sUnHzSxGspuhpqLDx6wiyjNtZ".to_vec(),
            executed_transaction_count: 1234,
        }),
        Message::TransactionMsg(Transaction {
            slot_identifier: SlotIdentifier { slot: 11 },
            signature: vec![3; 64],
            is_vote: true,
            payload: vec![1, 2, 3],
        }),
        Message::TransactionMsg(Transaction {
            slot_identifier: SlotIdentifier { slot: 12 },
            signature: vec![],
            is_vote: false,
            payload: vec![],
        }),
    ];
    for m in messages {
        let bytes = encode_message(&m);
        assert_eq!(convert_binary_to_message(bytes.clone()), Ok(m.clone()));
        assert_eq!(deliver(8, &bytes), m);
    }
}

#[test]
fn malformed_bytes_are_refused() {
    let good = encode_message(&Message::TransactionMsg(Transaction {
        slot_identifier: SlotIdentifier { slot: 1 },
        signature: vec![1],
        is_vote: false,
        payload: vec![2],
    }));
    assert_eq!(decode_message(&[]), Err(DecodeError::Malformed));
    assert_eq!(decode_message(&[4, 0, 0, 0]), Err(DecodeError::Malformed));
    let mut trailing = good.clone();
    trailing.push(0);
    assert_eq!(decode_message(&trailing), Err(DecodeError::Malformed));
    let truncated = &good[..good.len() - 1];
    assert_eq!(decode_message(truncated), Err(DecodeError::Malformed));
    let mut bad_flag = good.clone();
    bad_flag[4 + 8 + 8 + 1] = 2;
    assert_eq!(decode_message(&bad_flag), Err(DecodeError::Malformed));
    let mut bad_level = encode_message(&Message::SlotMsg(SlotMeta {
        slot: 1,
        parent: 0,
        commitment_level: CommitmentLevel::Processed,
    }));
    bad_level[20] = 3;
    assert_eq!(decode_message(&bad_level), Err(DecodeError::Malformed));
    let mut huge_len = encode_message(&Message::AccountMsg(account_for_test(1, 4)));
    huge_len[44 + 7] = 0xff;
    assert_eq!(decode_message(&huge_len), Err(DecodeError::Malformed));
}

#[test]
fn stream_end_with_garbage_fails_to_decode() {
    let mut r = Reassembly::new(3);
    assert!(matches!(r.step(StreamRead::Data { chunk: vec![9, 9], fin: false }), RecvStep::Pending));
    assert!(matches!(
        r.step(StreamRead::Data { chunk: vec![9], fin: true }),
        RecvStep::Failed(RecvError::Decode(DecodeError::Malformed))
    ));
}

#[test]
fn not_ready_waits_and_failure_is_reported() {
    let bytes = encode_message(&Message::AccountMsg(account_for_test(2, 100)));
    let mut r = Reassembly::new(12);
    assert!(matches!(r.step(StreamRead::Data { chunk: bytes[..10].to_vec(), fin: false }), RecvStep::Pending));
    assert!(matches!(r.step(StreamRead::NotReady), RecvStep::Pending));
    assert!(matches!(
        r.step(StreamRead::Failed),
        RecvStep::Failed(RecvError::StreamRead { stream_id: 12 })
    ));
}

#[test]
fn interleaved_streams_keep_their_messages_apart() {
    let a = Message::AccountMsg(account_for_test(20, 5000));
    let b = Message::AccountMsg(account_for_test(21, 7000));
    let ea = encode_message(&a);
    let eb = encode_message(&b);
    let ca: Vec<&[u8]> = ea.chunks(MAX_DATAGRAM_SIZE).collect();
    let cb: Vec<&[u8]> = eb.chunks(MAX_DATAGRAM_SIZE).collect();
    let mut ra = Reassembly::new(0);
    let mut rb = Reassembly::new(4);
    let mut got_a = None;
    let mut got_b = None;
    for i in 0..ca.len().max(cb.len()) {
        if i < cb.len() {
            if let RecvStep::Complete(m) =
                rb.step(StreamRead::Data { chunk: cb[i].to_vec(), fin: i + 1 == cb.len() })
            {
                got_b = Some(m);
            }
        }
        if i < ca.len() {
            if let RecvStep::Complete(m) =
                ra.step(StreamRead::Data { chunk: ca[i].to_vec(), fin: i + 1 == ca.len() })
            {
                got_a = Some(m);
            }
        }
    }
    assert_eq!(got_a, Some(a));
    assert_eq!(got_b, Some(b));
}
