use vstd::prelude::*;

verus! {

/// A 32-byte account address.
#[derive(Clone, Copy, Debug, PartialEq, Eq)]
pub struct Pubkey {
    pub bytes: [u8; 32],
}

/// The slot that a record belongs to.
#[derive(Clone, Copy, Debug, PartialEq, Eq, Structural)]
pub struct SlotIdentifier {
    pub slot: u64,
}

/// The state of one account as carried on the wire.
#[derive(Clone, Debug, PartialEq, Eq)]
pub struct Account {
    pub slot_identifier: SlotIdentifier,
    pub pubkey: Pubkey,
    pub data: Vec<u8>,
}

/// Degree of finality reached by a slot.
#[derive(Clone, Copy, Debug, PartialEq, Eq, Structural)]
pub enum CommitmentLevel {
    Processed,
    Confirmed,
    Finalized,
}

/// A slot reaching a commitment level.
#[derive(Clone, Copy, Debug, PartialEq, Eq, Structural)]
pub struct SlotMeta {
    pub slot: u64,
    pub parent: u64,
    pub commitment_level: CommitmentLevel,
}

/// Metadata of a completed block, keyed by its slot.
#[derive(Clone, Debug, PartialEq, Eq)]
pub struct BlockMeta {
    pub slot: u64,
    pub parent_slot: u64,
    pub blockhash: Vec<u8>,
    pub executed_transaction_count: u64,
}

/// The outcome of one transaction in its slot.
#[derive(Clone, Debug, PartialEq, Eq)]
pub struct Transaction {
    pub slot_identifier: SlotIdentifier,
    pub signature: Vec<u8>,
    pub is_vote: bool,
    pub payload: Vec<u8>,
}

} // verus!
