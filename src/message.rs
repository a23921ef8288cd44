use crate::types::{
    Account, BlockMeta, CommitmentLevel, Pubkey, SlotIdentifier, SlotMeta, Transaction,
};
use crate::wire::{
    copy_range, get32, get64, le32, le64, lemma_join4_le32, lemma_join8_le64, put_bytes, put_u32,
    put_u64, read_u32, read_u64,
};
use vstd::prelude::*;

verus! {

/// The envelope that one stream carries: exactly one update.
#[derive(Clone, Debug, PartialEq, Eq)]
pub enum Message {
    AccountMsg(Account),
    SlotMsg(SlotMeta),
    BlockMetaMsg(BlockMeta),
    TransactionMsg(Transaction),
}

/// A message as a mathematical value.
pub enum MessageV {
    Account { slot: u64, pubkey: Seq<u8>, data: Seq<u8> },
    Slot { slot: u64, parent: u64, commitment_level: CommitmentLevel },
    BlockMeta { slot: u64, parent_slot: u64, blockhash: Seq<u8>, executed_transaction_count: u64 },
    Transaction { slot: u64, signature: Seq<u8>, is_vote: bool, payload: Seq<u8> },
}

impl View for Message {
    type V = MessageV;

    open spec fn view(&self) -> MessageV {
        match self {
            Message::AccountMsg(a) => MessageV::Account {
                slot: a.slot_identifier.slot,
                pubkey: a.pubkey.bytes@,
                data: a.data@,
            },
            Message::SlotMsg(s) => MessageV::Slot {
                slot: s.slot,
                parent: s.parent,
                commitment_level: s.commitment_level,
            },
            Message::BlockMetaMsg(b) => MessageV::BlockMeta {
                slot: b.slot,
                parent_slot: b.parent_slot,
                blockhash: b.blockhash@,
                executed_transaction_count: b.executed_transaction_count,
            },
            Message::TransactionMsg(t) => MessageV::Transaction {
                slot: t.slot_identifier.slot,
                signature: t.signature@,
                is_vote: t.is_vote,
                payload: t.payload@,
            },
        }
    }
}

/// Why a byte sequence is not a message.
#[derive(Clone, Copy, Debug, PartialEq, Eq, Structural)]
pub enum DecodeError {
    /// The bytes do not follow the message layout.
    Malformed,
}

pub open spec fn commitment_tag(c: CommitmentLevel) -> u32 {
    match c {
        CommitmentLevel::Processed => 0,
        CommitmentLevel::Confirmed => 1,
        CommitmentLevel::Finalized => 2,
    }
}

pub open spec fn commitment_of(t: u32) -> Option<CommitmentLevel> {
    if t == 0 {
        Some(CommitmentLevel::Processed)
    } else if t == 1 {
        Some(CommitmentLevel::Confirmed)
    } else if t == 2 {
        Some(CommitmentLevel::Finalized)
    } else {
        None
    }
}

/// A byte string preceded by its length.
pub open spec fn field(b: Seq<u8>) -> Seq<u8> {
    le64(b.len() as u64) + b
}

pub open spec fn flag(v: bool) -> Seq<u8> {
    seq![if v { 1u8 } else { 0u8 }]
}

/// The wire form of a message: a 32-bit variant index, then the fields in order; integers
/// little-endian, byte strings after their 64-bit length, a key as its 32 bytes, a flag as
/// one byte. Nothing marks the end: the stream's end does.
pub open spec fn encoding(m: MessageV) -> Seq<u8> {
    match m {
        MessageV::Account { slot, pubkey, data } => le32(0) + le64(slot) + pubkey + field(data),
        MessageV::Slot { slot, parent, commitment_level } => le32(1) + le64(slot) + le64(parent)
            + le32(commitment_tag(commitment_level)),
        MessageV::BlockMeta { slot, parent_slot, blockhash, executed_transaction_count } => le32(2)
            + le64(slot) + le64(parent_slot) + field(blockhash) + le64(executed_transaction_count),
        MessageV::Transaction { slot, signature, is_vote, payload } => le32(3) + le64(slot) + field(
            signature,
        ) + flag(is_vote) + field(payload),
    }
}

/// The values that the layout can hold: a 32-byte key, lengths that fit in 64 bits.
pub open spec fn encodable(m: MessageV) -> bool {
    match m {
        MessageV::Account { pubkey, data, .. } => pubkey.len() == 32 && data.len() <= u64::MAX,
        MessageV::Slot { .. } => true,
        MessageV::BlockMeta { blockhash, .. } => blockhash.len() <= u64::MAX,
        MessageV::Transaction { signature, payload, .. } => signature.len() <= u64::MAX
            && payload.len() <= u64::MAX,
    }
}

pub open spec fn rd32(b: Seq<u8>, p: int) -> Option<(u32, int)> {
    if 0 <= p && p + 4 <= b.len() {
        Some((get32(b, p), p + 4))
    } else {
        None
    }
}

pub open spec fn rd64(b: Seq<u8>, p: int) -> Option<(u64, int)> {
    if 0 <= p && p + 8 <= b.len() {
        Some((get64(b, p), p + 8))
    } else {
        None
    }
}

pub open spec fn rdfield(b: Seq<u8>, p: int) -> Option<(Seq<u8>, int)> {
    match rd64(b, p) {
        Some((n, q)) => if q + n <= b.len() {
            Some((b.subrange(q, q + n), q + n))
        } else {
            None
        },
        None => None,
    }
}

pub open spec fn rdkey(b: Seq<u8>, p: int) -> Option<(Seq<u8>, int)> {
    if 0 <= p && p + 32 <= b.len() {
        Some((b.subrange(p, p + 32), p + 32))
    } else {
        None
    }
}

pub open spec fn rdflag(b: Seq<u8>, p: int) -> Option<(bool, int)> {
    if 0 <= p < b.len() && b[p] <= 1 {
        Some((b[p] == 1, p + 1))
    } else {
        None
    }
}

pub open spec fn decoding_account(b: Seq<u8>, p: int) -> Option<MessageV> {
    match rd64(b, p) {
        None => None,
        Some((slot, p1)) => match rdkey(b, p1) {
            None => None,
            Some((pubkey, p2)) => match rdfield(b, p2) {
                None => None,
                Some((data, p3)) => if p3 == b.len() {
                    Some(MessageV::Account { slot, pubkey, data })
                } else {
                    None
                },
            },
        },
    }
}

pub open spec fn decoding_slot(b: Seq<u8>, p: int) -> Option<MessageV> {
    match rd64(b, p) {
        None => None,
        Some((slot, p1)) => match rd64(b, p1) {
            None => None,
            Some((parent, p2)) => match rd32(b, p2) {
                None => None,
                Some((t, p3)) => match commitment_of(t) {
                    Some(commitment_level) if p3 == b.len() => Some(
                        MessageV::Slot { slot, parent, commitment_level },
                    ),
                    _ => None,
                },
            },
        },
    }
}

pub open spec fn decoding_block_meta(b: Seq<u8>, p: int) -> Option<MessageV> {
    match rd64(b, p) {
        None => None,
        Some((slot, p1)) => match rd64(b, p1) {
            None => None,
            Some((parent_slot, p2)) => match rdfield(b, p2) {
                None => None,
                Some((blockhash, p3)) => match rd64(b, p3) {
                    Some((executed_transaction_count, p4)) if p4 == b.len() => Some(
                        MessageV::BlockMeta {
                            slot,
                            parent_slot,
                            blockhash,
                            executed_transaction_count,
                        },
                    ),
                    _ => None,
                },
            },
        },
    }
}

pub open spec fn decoding_transaction(b: Seq<u8>, p: int) -> Option<MessageV> {
    match rd64(b, p) {
        None => None,
        Some((slot, p1)) => match rdfield(b, p1) {
            None => None,
            Some((signature, p2)) => match rdflag(b, p2) {
                None => None,
                Some((is_vote, p3)) => match rdfield(b, p3) {
                    Some((payload, p4)) if p4 == b.len() => Some(
                        MessageV::Transaction { slot, signature, is_vote, payload },
                    ),
                    _ => None,
                },
            },
        },
    }
}

/// The message that a byte sequence holds, if it follows the layout exactly.
pub open spec fn decoding(b: Seq<u8>) -> Option<MessageV> {
    match rd32(b, 0) {
        None => None,
        Some((tag, p)) => if tag == 0 {
            decoding_account(b, p)
        } else if tag == 1 {
            decoding_slot(b, p)
        } else if tag == 2 {
            decoding_block_meta(b, p)
        } else if tag == 3 {
            decoding_transaction(b, p)
        } else {
            None
        },
    }
}

proof fn lemma_rd64(b: Seq<u8>, p: int, x: u64)
    requires
        0 <= p,
        p + 8 <= b.len(),
        b.subrange(p, p + 8) == le64(x),
    ensures
        rd64(b, p) == Some((x, p + 8)),
{
    assert forall|i: int| 0 <= i < 8 implies b[p + i] == le64(x)[i] by {
        assert(b.subrange(p, p + 8)[i] == b[p + i]);
    }
    lemma_join8_le64(x);
}

proof fn lemma_rd32(b: Seq<u8>, p: int, x: u32)
    requires
        0 <= p,
        p + 4 <= b.len(),
        b.subrange(p, p + 4) == le32(x),
    ensures
        rd32(b, p) == Some((x, p + 4)),
{
    assert forall|i: int| 0 <= i < 4 implies b[p + i] == le32(x)[i] by {
        assert(b.subrange(p, p + 4)[i] == b[p + i]);
    }
    lemma_join4_le32(x);
}

proof fn lemma_rdfield(b: Seq<u8>, p: int, d: Seq<u8>)
    requires
        0 <= p,
        d.len() <= u64::MAX,
        p + 8 + d.len() <= b.len(),
        b.subrange(p, p + 8 + d.len()) == field(d),
    ensures
        rdfield(b, p) == Some((d, p + 8 + d.len())),
{
    let f = b.subrange(p, p + 8 + d.len());
    assert(b.subrange(p, p + 8) =~= f.subrange(0, 8));
    assert(f.subrange(0, 8) =~= le64(d.len() as u64));
    lemma_rd64(b, p, d.len() as u64);
    assert(b.subrange(p + 8, p + 8 + d.len()) =~= f.subrange(8, 8 + d.len() as int));
    assert(f.subrange(8, 8 + d.len() as int) =~= d);
}

proof fn lemma_rdflag(b: Seq<u8>, p: int, v: bool)
    requires
        0 <= p,
        p + 1 <= b.len(),
        b.subrange(p, p + 1) == flag(v),
    ensures
        rdflag(b, p) == Some((v, p + 1)),
{
    assert(b.subrange(p, p + 1)[0] == b[p]);
}

proof fn lemma_round_trip_account(slot: u64, pubkey: Seq<u8>, data: Seq<u8>)
    requires
        pubkey.len() == 32,
        data.len() <= u64::MAX,
    ensures
        decoding(encoding(MessageV::Account { slot, pubkey, data })) == Some(
            MessageV::Account { slot, pubkey, data },
        ),
{
    let e = encoding(MessageV::Account { slot, pubkey, data });
    assert(e.subrange(0, 4) =~= le32(0));
    lemma_rd32(e, 0, 0);
    assert(e.subrange(4, 12) =~= le64(slot));
    lemma_rd64(e, 4, slot);
    assert(e.subrange(12, 44) =~= pubkey);
    assert(e.subrange(44, 52 + data.len() as int) =~= field(data));
    lemma_rdfield(e, 44, data);
}

proof fn lemma_round_trip_slot(slot: u64, parent: u64, commitment_level: CommitmentLevel)
    ensures
        decoding(encoding(MessageV::Slot { slot, parent, commitment_level })) == Some(
            MessageV::Slot { slot, parent, commitment_level },
        ),
{
    let e = encoding(MessageV::Slot { slot, parent, commitment_level });
    assert(e.subrange(0, 4) =~= le32(1));
    lemma_rd32(e, 0, 1);
    assert(e.subrange(4, 12) =~= le64(slot));
    lemma_rd64(e, 4, slot);
    assert(e.subrange(12, 20) =~= le64(parent));
    lemma_rd64(e, 12, parent);
    assert(e.subrange(20, 24) =~= le32(commitment_tag(commitment_level)));
    lemma_rd32(e, 20, commitment_tag(commitment_level));
}

proof fn lemma_round_trip_block_meta(
    slot: u64,
    parent_slot: u64,
    blockhash: Seq<u8>,
    executed_transaction_count: u64,
)
    requires
        blockhash.len() <= u64::MAX,
    ensures
        decoding(
            encoding(
                MessageV::BlockMeta { slot, parent_slot, blockhash, executed_transaction_count },
            ),
        ) == Some(MessageV::BlockMeta { slot, parent_slot, blockhash, executed_transaction_count }),
{
    let e = encoding(
        MessageV::BlockMeta { slot, parent_slot, blockhash, executed_transaction_count },
    );
    let n = blockhash.len() as int;
    assert(e.subrange(0, 4) =~= le32(2));
    lemma_rd32(e, 0, 2);
    assert(e.subrange(4, 12) =~= le64(slot));
    lemma_rd64(e, 4, slot);
    assert(e.subrange(12, 20) =~= le64(parent_slot));
    lemma_rd64(e, 12, parent_slot);
    assert(e.subrange(20, 28 + n) =~= field(blockhash));
    lemma_rdfield(e, 20, blockhash);
    assert(e.subrange(28 + n, 36 + n) =~= le64(executed_transaction_count));
    lemma_rd64(e, 28 + n, executed_transaction_count);
}

proof fn lemma_round_trip_transaction(
    slot: u64,
    signature: Seq<u8>,
    is_vote: bool,
    payload: Seq<u8>,
)
    requires
        signature.len() <= u64::MAX,
        payload.len() <= u64::MAX,
    ensures
        decoding(encoding(MessageV::Transaction { slot, signature, is_vote, payload })) == Some(
            MessageV::Transaction { slot, signature, is_vote, payload },
        ),
{
    let e = encoding(MessageV::Transaction { slot, signature, is_vote, payload });
    let n = signature.len() as int;
    let k = payload.len() as int;
    assert(e.subrange(0, 4) =~= le32(3));
    lemma_rd32(e, 0, 3);
    assert(e.subrange(4, 12) =~= le64(slot));
    lemma_rd64(e, 4, slot);
    assert(e.subrange(12, 20 + n) =~= field(signature));
    lemma_rdfield(e, 12, signature);
    assert(e.subrange(20 + n, 21 + n) =~= flag(is_vote));
    lemma_rdflag(e, 20 + n, is_vote);
    assert(e.subrange(21 + n, 29 + n + k) =~= field(payload));
    lemma_rdfield(e, 21 + n, payload);
}

/// Decoding the encoding of any message that the layout can hold gives that message back,
/// whatever the size of its byte strings.
pub proof fn lemma_round_trip(m: MessageV)
    requires
        encodable(m),
    ensures
        decoding(encoding(m)) == Some(m),
{
    match m {
        MessageV::Account { slot, pubkey, data } => lemma_round_trip_account(slot, pubkey, data),
        MessageV::Slot { slot, parent, commitment_level } => lemma_round_trip_slot(
            slot,
            parent,
            commitment_level,
        ),
        MessageV::BlockMeta { slot, parent_slot, blockhash, executed_transaction_count } =>
            lemma_round_trip_block_meta(slot, parent_slot, blockhash, executed_transaction_count),
        MessageV::Transaction { slot, signature, is_vote, payload } =>
            lemma_round_trip_transaction(slot, signature, is_vote, payload),
    }
}

proof fn lemma_le64_get64(b: Seq<u8>, p: int)
    requires
        0 <= p,
        p + 8 <= b.len(),
    ensures
        le64(get64(b, p)) == b.subrange(p, p + 8),
{
    let (b0, b1, b2, b3) = (b[p], b[p + 1], b[p + 2], b[p + 3]);
    let (b4, b5, b6, b7) = (b[p + 4], b[p + 5], b[p + 6], b[p + 7]);
    let x = get64(b, p);
    assert(x == (b0 as u64) | ((b1 as u64) << 8) | ((b2 as u64) << 16) | ((b3 as u64) << 24) | ((
    b4 as u64) << 32) | ((b5 as u64) << 40) | ((b6 as u64) << 48) | ((b7 as u64) << 56));
    assert(x == (b0 as u64) | ((b1 as u64) << 8) | ((b2 as u64) << 16) | ((b3 as u64) << 24) | ((
    b4 as u64) << 32) | ((b5 as u64) << 40) | ((b6 as u64) << 48) | ((b7 as u64) << 56) ==> (x
        & 0xff) as u8 == b0 && ((x >> 8) & 0xff) as u8 == b1 && ((x >> 16) & 0xff) as u8 == b2
        && ((x >> 24) & 0xff) as u8 == b3 && ((x >> 32) & 0xff) as u8 == b4 && ((x >> 40) & 0xff)
        as u8 == b5 && ((x >> 48) & 0xff) as u8 == b6 && ((x >> 56) & 0xff) as u8 == b7)
        by (bit_vector);
    assert(le64(x) =~= b.subrange(p, p + 8));
}

proof fn lemma_le32_get32(b: Seq<u8>, p: int)
    requires
        0 <= p,
        p + 4 <= b.len(),
    ensures
        le32(get32(b, p)) == b.subrange(p, p + 4),
{
    let (b0, b1, b2, b3) = (b[p], b[p + 1], b[p + 2], b[p + 3]);
    let x = get32(b, p);
    assert(x == (b0 as u32) | ((b1 as u32) << 8) | ((b2 as u32) << 16) | ((b3 as u32) << 24));
    assert(x == (b0 as u32) | ((b1 as u32) << 8) | ((b2 as u32) << 16) | ((b3 as u32) << 24) ==> (x
        & 0xff) as u8 == b0 && ((x >> 8) & 0xff) as u8 == b1 && ((x >> 16) & 0xff) as u8 == b2
        && ((x >> 24) & 0xff) as u8 == b3) by (bit_vector);
    assert(le32(x) =~= b.subrange(p, p + 4));
}

proof fn lemma_rdfield_exact(b: Seq<u8>, p: int)
    requires
        rdfield(b, p) is Some,
    ensures
        ({
            let (d, q) = rdfield(b, p)->Some_0;
            &&& d.len() <= u64::MAX
            &&& p <= q <= b.len()
            &&& b.subrange(p, q) == field(d)
        }),
{
    let (d, q) = rdfield(b, p)->Some_0;
    let n = get64(b, p);
    lemma_le64_get64(b, p);
    assert(d.len() == n);
    assert(b.subrange(p, q) =~= b.subrange(p, p + 8) + d);
}

proof fn lemma_rd32_exact(b: Seq<u8>, p: int)
    requires
        rd32(b, p) is Some,
    ensures
        b.subrange(p, p + 4) == le32(rd32(b, p)->Some_0.0),
{
    lemma_le32_get32(b, p);
}

proof fn lemma_rd64_exact(b: Seq<u8>, p: int)
    requires
        rd64(b, p) is Some,
    ensures
        b.subrange(p, p + 8) == le64(rd64(b, p)->Some_0.0),
{
    lemma_le64_get64(b, p);
}

proof fn lemma_commitment_tag(t: u32)
    requires
        commitment_of(t) is Some,
    ensures
        commitment_tag(commitment_of(t)->Some_0) == t,
{
}

/// Only the encoding of a message decodes: whatever decodes to `m` is `m`'s encoding.
pub proof fn lemma_decoding_exact(b: Seq<u8>)
    requires
        decoding(b) is Some,
    ensures
        encodable(decoding(b)->Some_0),
        encoding(decoding(b)->Some_0) == b,
{
    let m = decoding(b)->Some_0;
    lemma_rd32_exact(b, 0);
    lemma_rd64_exact(b, 4);
    match m {
        MessageV::Account { slot, pubkey, data } => {
            lemma_rdfield_exact(b, 44);
            assert(b =~= b.subrange(0, 4) + b.subrange(4, 12) + b.subrange(12, 44) + b.subrange(
                44,
                b.len() as int,
            ));
        },
        MessageV::Slot { slot, parent, commitment_level } => {
            lemma_rd64_exact(b, 12);
            lemma_rd32_exact(b, 20);
            lemma_commitment_tag(get32(b, 20));
            assert(b =~= b.subrange(0, 4) + b.subrange(4, 12) + b.subrange(12, 20) + b.subrange(
                20,
                24,
            ));
        },
        MessageV::BlockMeta { slot, parent_slot, blockhash, executed_transaction_count } => {
            lemma_rd64_exact(b, 12);
            lemma_rdfield_exact(b, 20);
            let q = rdfield(b, 20)->Some_0.1;
            lemma_rd64_exact(b, q);
            assert(b =~= b.subrange(0, 4) + b.subrange(4, 12) + b.subrange(12, 20) + b.subrange(
                20,
                q,
            ) + b.subrange(q, q + 8));
        },
        MessageV::Transaction { slot, signature, is_vote, payload } => {
            lemma_rdfield_exact(b, 12);
            let q = rdfield(b, 12)->Some_0.1;
            lemma_rdfield_exact(b, q + 1);
            assert(b.subrange(q, q + 1) =~= flag(is_vote));
            assert(b =~= b.subrange(0, 4) + b.subrange(4, 12) + b.subrange(12, q) + b.subrange(
                q,
                q + 1,
            ) + b.subrange(q + 1, b.len() as int));
        },
    }
}

fn take_u32(b: &[u8], p: usize) -> (r: Option<(u32, usize)>)
    ensures
        match r {
            Some((x, q)) => rd32(b@, p as int) == Some((x, q as int)),
            None => rd32(b@, p as int) is None,
        },
{
    match read_u32(b, p) {
        Some(x) => Some((x, p + 4)),
        None => None,
    }
}

fn take_u64(b: &[u8], p: usize) -> (r: Option<(u64, usize)>)
    ensures
        match r {
            Some((x, q)) => rd64(b@, p as int) == Some((x, q as int)),
            None => rd64(b@, p as int) is None,
        },
{
    match read_u64(b, p) {
        Some(x) => Some((x, p + 8)),
        None => None,
    }
}

fn take_field(b: &[u8], p: usize) -> (r: Option<(Vec<u8>, usize)>)
    ensures
        match r {
            Some((v, q)) => rdfield(b@, p as int) == Some((v@, q as int)),
            None => rdfield(b@, p as int) is None,
        },
{
    match take_u64(b, p) {
        None => None,
        Some((n, q)) => {
            if n <= (b.len() - q) as u64 {
                let e = q + n as usize;
                Some((copy_range(b, q, e), e))
            } else {
                None
            }
        },
    }
}

fn take_key(b: &[u8], p: usize) -> (r: Option<(Pubkey, usize)>)
    ensures
        match r {
            Some((k, q)) => rdkey(b@, p as int) == Some((k.bytes@, q as int)),
            None => rdkey(b@, p as int) is None,
        },
{
    if p > b.len() || b.len() - p < 32 {
        return None;
    }
    let mut k: [u8; 32] = [0u8; 32];
    let mut i: usize = 0;
    while i < 32
        invariant
            p + 32 <= b@.len() == b.len(),
            i <= 32,
            k@.len() == 32,
            forall|j: int| 0 <= j < i ==> k@[j] == b@[p + j],
        decreases 32 - i,
    {
        k[i] = b[p + i];
        i = i + 1;
    }
    assert(k@ =~= b@.subrange(p as int, p + 32));
    Some((Pubkey { bytes: k }, p + 32))
}

fn take_flag(b: &[u8], p: usize) -> (r: Option<(bool, usize)>)
    ensures
        match r {
            Some((v, q)) => rdflag(b@, p as int) == Some((v, q as int)),
            None => rdflag(b@, p as int) is None,
        },
{
    if p < b.len() && b[p] <= 1 {
        Some((b[p] == 1, p + 1))
    } else {
        None
    }
}

fn commitment_from(t: u32) -> (r: Option<CommitmentLevel>)
    ensures
        r == commitment_of(t),
{
    if t == 0 {
        Some(CommitmentLevel::Processed)
    } else if t == 1 {
        Some(CommitmentLevel::Confirmed)
    } else if t == 2 {
        Some(CommitmentLevel::Finalized)
    } else {
        None
    }
}

fn decode_account(b: &[u8], p: usize) -> (r: Option<Message>)
    ensures
        match r {
            Some(m) => decoding_account(b@, p as int) == Some(m@),
            None => decoding_account(b@, p as int) is None,
        },
{
    let (slot, p1) = match take_u64(b, p) {
        Some(v) => v,
        None => return None,
    };
    let (pubkey, p2) = match take_key(b, p1) {
        Some(v) => v,
        None => return None,
    };
    let (data, p3) = match take_field(b, p2) {
        Some(v) => v,
        None => return None,
    };
    if p3 != b.len() {
        return None;
    }
    Some(Message::AccountMsg(Account { slot_identifier: SlotIdentifier { slot }, pubkey, data }))
}

fn decode_slot(b: &[u8], p: usize) -> (r: Option<Message>)
    ensures
        match r {
            Some(m) => decoding_slot(b@, p as int) == Some(m@),
            None => decoding_slot(b@, p as int) is None,
        },
{
    let (slot, p1) = match take_u64(b, p) {
        Some(v) => v,
        None => return None,
    };
    let (parent, p2) = match take_u64(b, p1) {
        Some(v) => v,
        None => return None,
    };
    let (t, p3) = match take_u32(b, p2) {
        Some(v) => v,
        None => return None,
    };
    match commitment_from(t) {
        Some(commitment_level) if p3 == b.len() => Some(
            Message::SlotMsg(SlotMeta { slot, parent, commitment_level }),
        ),
        _ => None,
    }
}

fn decode_block_meta(b: &[u8], p: usize) -> (r: Option<Message>)
    ensures
        match r {
            Some(m) => decoding_block_meta(b@, p as int) == Some(m@),
            None => decoding_block_meta(b@, p as int) is None,
        },
{
    let (slot, p1) = match take_u64(b, p) {
        Some(v) => v,
        None => return None,
    };
    let (parent_slot, p2) = match take_u64(b, p1) {
        Some(v) => v,
        None => return None,
    };
    let (blockhash, p3) = match take_field(b, p2) {
        Some(v) => v,
        None => return None,
    };
    match take_u64(b, p3) {
        Some((executed_transaction_count, p4)) if p4 == b.len() => Some(
            Message::BlockMetaMsg(
                BlockMeta { slot, parent_slot, blockhash, executed_transaction_count },
            ),
        ),
        _ => None,
    }
}

fn decode_transaction(b: &[u8], p: usize) -> (r: Option<Message>)
    ensures
        match r {
            Some(m) => decoding_transaction(b@, p as int) == Some(m@),
            None => decoding_transaction(b@, p as int) is None,
        },
{
    let (slot, p1) = match take_u64(b, p) {
        Some(v) => v,
        None => return None,
    };
    let (signature, p2) = match take_field(b, p1) {
        Some(v) => v,
        None => return None,
    };
    let (is_vote, p3) = match take_flag(b, p2) {
        Some(v) => v,
        None => return None,
    };
    match take_field(b, p3) {
        Some((payload, p4)) if p4 == b.len() => Some(
            Message::TransactionMsg(
                Transaction { slot_identifier: SlotIdentifier { slot }, signature, is_vote, payload },
            ),
        ),
        _ => None,
    }
}

/// Decodes one whole message from `b`; fails exactly when `b` is no message's encoding.
pub fn decode_message(b: &[u8]) -> (r: Result<Message, DecodeError>)
    ensures
        match r {
            Ok(m) => decoding(b@) == Some(m@) && b@ == encoding(m@),
            Err(e) => decoding(b@) is None && e == DecodeError::Malformed && forall|m: MessageV|
                encodable(m) ==> encoding(m) != b@,
        },
{
    let (tag, p) = match take_u32(b, 0) {
        Some(v) => v,
        None => return Err(DecodeError::Malformed),
    };
    let m = if tag == 0 {
        decode_account(b, p)
    } else if tag == 1 {
        decode_slot(b, p)
    } else if tag == 2 {
        decode_block_meta(b, p)
    } else if tag == 3 {
        decode_transaction(b, p)
    } else {
        None
    };
    match m {
        Some(m) => {
            proof {
                lemma_decoding_exact(b@);
            }
            Ok(m)
        },
        None => {
            assert forall|v: MessageV| encodable(v) implies encoding(v) != b@ by {
                lemma_round_trip(v);
            }
            Err(DecodeError::Malformed)
        },
    }
}

/// Decodes the bytes that one stream carried into its message.
pub fn convert_binary_to_message(bytes: Vec<u8>) -> (r: Result<Message, DecodeError>)
    ensures
        match r {
            Ok(m) => decoding(bytes@) == Some(m@) && bytes@ == encoding(m@),
            Err(e) => decoding(bytes@) is None && e == DecodeError::Malformed && forall|m: MessageV|
                encodable(m) ==> encoding(m) != bytes@,
        },
{
    decode_message(bytes.as_slice())
}

fn put_field(out: &mut Vec<u8>, b: &[u8])
    ensures
        final(out)@ == old(out)@ + field(b@),
{
    put_u64(out, b.len() as u64);
    put_bytes(out, b);
    assert(out@ =~= old(out)@ + field(b@));
}

/// The bytes that carry `m` on a stream.
pub fn encode_message(m: &Message) -> (r: Vec<u8>)
    ensures
        r@ == encoding(m@),
{
    let mut out: Vec<u8> = Vec::new();
    match m {
        Message::AccountMsg(a) => {
            put_u32(&mut out, 0);
            put_u64(&mut out, a.slot_identifier.slot);
            put_bytes(&mut out, a.pubkey.bytes.as_slice());
            put_field(&mut out, a.data.as_slice());
        },
        Message::SlotMsg(s) => {
            put_u32(&mut out, 1);
            put_u64(&mut out, s.slot);
            put_u64(&mut out, s.parent);
            let t: u32 = match s.commitment_level {
                CommitmentLevel::Processed => 0,
                CommitmentLevel::Confirmed => 1,
                CommitmentLevel::Finalized => 2,
            };
            put_u32(&mut out, t);
        },
        Message::BlockMetaMsg(bm) => {
            put_u32(&mut out, 2);
            put_u64(&mut out, bm.slot);
            put_u64(&mut out, bm.parent_slot);
            put_field(&mut out, bm.blockhash.as_slice());
            put_u64(&mut out, bm.executed_transaction_count);
        },
        Message::TransactionMsg(t) => {
            put_u32(&mut out, 3);
            put_u64(&mut out, t.slot_identifier.slot);
            put_field(&mut out, t.signature.as_slice());
            put_bytes(&mut out, if t.is_vote { &[1u8] } else { &[0u8] });
            put_field(&mut out, t.payload.as_slice());
        },
    }
    assert(out@ =~= encoding(m@));
    out
}

} // verus!
