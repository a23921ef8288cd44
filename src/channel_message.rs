use crate::message::{Message, MessageV};
use crate::types::{Account, BlockMeta, CommitmentLevel, Pubkey, SlotIdentifier, SlotMeta, Transaction};
use vstd::prelude::*;

verus! {

/// An account's state as the ledger holds it.
#[derive(Clone, Debug, PartialEq, Eq)]
pub struct LedgerAccount {
    pub lamports: u64,
    pub data: Vec<u8>,
    pub owner: Pubkey,
    pub executable: bool,
    pub rent_epoch: u64,
}

/// One account write; `write_version` orders the writes of one account.
#[derive(Clone, Debug, PartialEq, Eq)]
pub struct AccountData {
    pub pubkey: Pubkey,
    pub account: LedgerAccount,
    pub write_version: u64,
}

/// An update as the producer hands it over.
#[derive(Clone, Debug, PartialEq, Eq)]
pub enum ChannelMessage {
    /// An account write at a slot; the flag marks snapshot replay at startup.
    Account(AccountData, u64, bool),
    /// A slot, its parent, and the commitment level it reached.
    Slot(u64, u64, CommitmentLevel),
    BlockMeta(BlockMeta),
    Transaction(Box<Transaction>),
}

/// The wire message that carries an update.
pub open spec fn message_of(c: ChannelMessage) -> MessageV {
    match c {
        ChannelMessage::Account(a, slot, _) => MessageV::Account {
            slot,
            pubkey: a.pubkey.bytes@,
            data: a.account.data@,
        },
        ChannelMessage::Slot(slot, parent, commitment_level) => MessageV::Slot {
            slot,
            parent,
            commitment_level,
        },
        ChannelMessage::BlockMeta(b) => MessageV::BlockMeta {
            slot: b.slot,
            parent_slot: b.parent_slot,
            blockhash: b.blockhash@,
            executed_transaction_count: b.executed_transaction_count,
        },
        ChannelMessage::Transaction(t) => MessageV::Transaction {
            slot: t.slot_identifier.slot,
            signature: t.signature@,
            is_vote: t.is_vote,
            payload: t.payload@,
        },
    }
}

impl ChannelMessage {
    /// The wire message that carries this update.
    pub fn into_message(self) -> (r: Message)
        ensures
            r@ == message_of(self),
    {
        match self {
            ChannelMessage::Account(a, slot, _) => Message::AccountMsg(
                Account {
                    slot_identifier: SlotIdentifier { slot },
                    pubkey: a.pubkey,
                    data: a.account.data,
                },
            ),
            ChannelMessage::Slot(slot, parent, commitment_level) => Message::SlotMsg(
                SlotMeta { slot, parent, commitment_level },
            ),
            ChannelMessage::BlockMeta(b) => Message::BlockMetaMsg(b),
            ChannelMessage::Transaction(t) => Message::TransactionMsg(*t),
        }
    }
}

} // verus!
