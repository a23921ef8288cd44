use geyser_quic::channel_message::{AccountData, ChannelMessage, LedgerAccount};
use geyser_quic::message::Message;
use geyser_quic::reconcile::WriteVersions;
use geyser_quic::types::{Account, CommitmentLevel, Pubkey, SlotIdentifier, SlotMeta, Transaction};

fn key(b: u8) -> Pubkey {
    Pubkey { bytes: [b; 32] }
}

#[test]
fn lower_write_version_after_higher_is_stale() {
    let mut seen = WriteVersions::new();
    assert!(seen.observe(&key(1), 5));
    assert!(seen.is_stale(&key(1), 3));
    assert!(!seen.observe(&key(1), 3));
    assert!(!seen.is_stale(&key(1), 5));
    assert!(seen.observe(&key(1), 6));
    assert!(seen.is_stale(&key(1), 5));
}

#[test]
fn write_versions_are_per_account() {
    let mut seen = WriteVersions::new();
    assert!(seen.observe(&key(1), 5));
    assert!(!seen.is_stale(&key(2), 3));
    assert!(seen.observe(&key(2), 3));
    assert!(seen.observe(&key(1), 5));
    assert!(!seen.observe(&key(2), 2));
}

#[test]
fn channel_messages_map_to_wire_messages() {
    let account = LedgerAccount {
        lamports: 42,
        data: vec![1, 2, 3],
        owner: key(9),
        executable: false,
        rent_epoch: 0,
    };
    let update = ChannelMessage::Account(
        AccountData { pubkey: key(7), account, write_version: 5 },
        100,
        true,
    );
    assert_eq!(
        update.into_message(),
        Message::AccountMsg(Account {
            slot_identifier: SlotIdentifier { slot: 100 },
            pubkey: key(7),
            data: vec![1, 2, 3],
        })
    );
    assert_eq!(
        ChannelMessage::Slot(8, 7, CommitmentLevel::Confirmed).into_message(),
        Message::SlotMsg(SlotMeta { slot: 8, parent: 7, commitment_level: CommitmentLevel::Confirmed })
    );
    let tx = Transaction {
        slot_identifier: SlotIdentifier { slot: 3 },
        signature: vec![1; 64],
        is_vote: false,
        payload: vec![],
    };
    assert_eq!(
        ChannelMessage::Transaction(Box::new(tx.clone())).into_message(),
        Message::TransactionMsg(tx)
    );
}
