//! The instruction payload: fixed 40-byte records packed back to back, each a
//! 32-byte recipient key followed by an amount as 8 little-endian bytes.

use vstd::prelude::*;

use crate::error::AirdropError;
use crate::le::{
    le_bytes, le_value, lemma_le_bytes_len, lemma_le_bytes_of_value, lemma_le_limit_u64,
    lemma_le_value_bound, lemma_le_value_of_bytes, push_u64_le, read_u64_le,
};

verus! {

/// Bytes in a key.
pub const KEY_LEN: usize = 32;

/// Bytes in one record of the payload.
pub const RECORD_LEN: usize = 40;

/// One decoded record: who receives, and how much.
#[derive(Clone, Copy, Debug, PartialEq, Eq)]
pub struct TransferInstruction {
    pub recipient: [u8; 32],
    pub amount: u64,
}

/// The mathematical value of a `TransferInstruction`.
pub struct Transfer {
    pub recipient: Seq<u8>,
    pub amount: nat,
}

impl View for TransferInstruction {
    type V = Transfer;

    open spec fn view(&self) -> Transfer {
        Transfer { recipient: self.recipient@, amount: self.amount as nat }
    }
}

/// The values of a sequence of instructions, in order.
pub open spec fn transfers(wallets: Seq<TransferInstruction>) -> Seq<Transfer> {
    wallets.map_values(|t: TransferInstruction| t@)
}

/// What one record of 40 bytes says.
pub open spec fn decode_record(bytes: Seq<u8>) -> Transfer
    recommends
        bytes.len() == 40,
{
    Transfer { recipient: bytes.subrange(0, 32), amount: le_value(bytes.subrange(32, 40)) }
}

/// The 40 bytes that say `transfer`.
pub open spec fn encode_record(transfer: Transfer) -> Seq<u8>
    recommends
        encodable(transfer),
{
    transfer.recipient + le_bytes(transfer.amount, 8)
}

/// Whether `transfer` can stand in a record: a key of 32 bytes and an amount
/// that eight bytes can spell.
pub open spec fn encodable(transfer: Transfer) -> bool {
    transfer.recipient.len() == 32 && transfer.amount <= u64::MAX
}

/// Whether `payload` is a whole number of records.
pub open spec fn well_formed(payload: Seq<u8>) -> bool {
    payload.len() % 40 == 0
}

/// The records of `payload`, in order. A remainder that fills no record is
/// not looked at.
pub open spec fn decode(payload: Seq<u8>) -> Seq<Transfer> {
    Seq::new(
        (payload.len() / 40) as nat,
        |i: int| decode_record(payload.subrange(40 * i, 40 * i + 40)),
    )
}

/// The records of `transfers` back to back, in order.
pub open spec fn encode(transfers: Seq<Transfer>) -> Seq<u8>
    decreases transfers.len(),
{
    if transfers.len() == 0 {
        Seq::empty()
    } else {
        encode(transfers.drop_last()) + encode_record(transfers.last())
    }
}

/// Reads the 32 bytes of `data` from `start` on as a key.
fn read_key(data: &[u8], start: usize) -> (key: [u8; 32])
    requires
        start + 32 <= data@.len(),
    ensures
        key@ == data@.subrange(start as int, start + 32),
{
    let len: usize = data.len();
    let mut key = [0u8; 32];
    let mut i: usize = 0;
    while i < 32
        invariant
            i <= 32,
            start + 32 <= len == data@.len(),
            forall|j: int| 0 <= j < i ==> key@[j] == data@[start + j],
        decreases 32 - i,
    {
        key[i] = data[start + i];
        i += 1;
    }
    assert(key@ =~= data@.subrange(start as int, start + 32));
    key
}

/// Decodes the instruction payload into its transfer instructions, in order.
///
/// The payload must be a whole number of 40-byte records; one that is not is
/// refused as `MalformedPayload`, and nothing of it is decoded.
pub fn deserialize_wallets(instruction_data: &[u8]) -> (r: Result<
    Vec<TransferInstruction>,
    AirdropError,
>)
    ensures
        match r {
            Ok(wallets) => well_formed(instruction_data@) && wallets@.len() * 40
                == instruction_data@.len() && transfers(wallets@) == decode(instruction_data@),
            Err(e) => !well_formed(instruction_data@) && e == AirdropError::MalformedPayload,
        },
{
    let len: usize = instruction_data.len();
    if len % RECORD_LEN != 0 {
        return Err(AirdropError::MalformedPayload);
    }
    let count: usize = len / RECORD_LEN;
    let mut wallets: Vec<TransferInstruction> = Vec::new();
    let mut i: usize = 0;
    while i < count
        invariant
            i <= count,
            count * 40 == len == instruction_data@.len(),
            wallets@.len() == i,
            forall|j: int|
                0 <= j < i ==> (#[trigger] wallets@[j])@ == decode(instruction_data@)[j],
        decreases count - i,
    {
        let offset: usize = i * RECORD_LEN;
        let recipient = read_key(instruction_data, offset);
        let amount: u64 = read_u64_le(instruction_data, offset + KEY_LEN);
        proof {
            let record = instruction_data@.subrange(40 * i, 40 * i + 40);
            assert(record.subrange(0, 32) =~= instruction_data@.subrange(
                offset as int,
                offset + 32,
            ));
            assert(record.subrange(32, 40) =~= instruction_data@.subrange(
                offset + 32,
                offset + 32 + 8,
            ));
        }
        wallets.push(TransferInstruction { recipient, amount });
        i += 1;
    }
    assert(transfers(wallets@) =~= decode(instruction_data@));
    Ok(wallets)
}

/// Encodes transfer instructions as a payload: the inverse of
/// `deserialize_wallets`.
pub fn serialize_wallets(wallets: &[TransferInstruction]) -> (payload: Vec<u8>)
    ensures
        payload@ == encode(transfers(wallets@)),
{
    let mut payload: Vec<u8> = Vec::new();
    let mut i: usize = 0;
    while i < wallets.len()
        invariant
            i <= wallets@.len(),
            payload@ == encode(transfers(wallets@.subrange(0, i as int))),
        decreases wallets@.len() - i,
    {
        let wallet = &wallets[i];
        let ghost before = payload@;
        let mut k: usize = 0;
        while k < 32
            invariant
                k <= 32,
                payload@ == before + wallet.recipient@.subrange(0, k as int),
            decreases 32 - k,
        {
            payload.push(wallet.recipient[k]);
            assert(wallet.recipient@.subrange(0, k + 1) =~= wallet.recipient@.subrange(
                0,
                k as int,
            ).push(wallet.recipient@[k as int]));
            k += 1;
        }
        push_u64_le(&mut payload, wallet.amount);
        proof {
            let done = transfers(wallets@.subrange(0, i + 1));
            assert(done.drop_last() =~= transfers(wallets@.subrange(0, i as int)));
            assert(done.last() == wallet@);
            assert(wallet.recipient@.subrange(0, 32) =~= wallet.recipient@);
        }
        i += 1;
    }
    assert(wallets@.subrange(0, i as int) =~= wallets@);
    payload
}

/// A record that is decoded and encoded again is the same 40 bytes.
pub proof fn lemma_record_round_trip(bytes: Seq<u8>)
    requires
        bytes.len() == 40,
    ensures
        encodable(decode_record(bytes)),
        encode_record(decode_record(bytes)) == bytes,
{
    let amount = bytes.subrange(32, 40);
    lemma_le_bytes_of_value(amount);
    lemma_le_value_bound(amount);
    lemma_le_limit_u64();
    assert(bytes.subrange(0, 32) + amount =~= bytes);
}

/// A transfer that is encoded fills one record, and decoding it gives the
/// transfer back.
pub proof fn lemma_transfer_round_trip(transfer: Transfer)
    requires
        encodable(transfer),
    ensures
        encode_record(transfer).len() == 40,
        decode_record(encode_record(transfer)) == transfer,
{
    let amount = le_bytes(transfer.amount, 8);
    lemma_le_bytes_len(transfer.amount, 8);
    lemma_le_limit_u64();
    lemma_le_value_of_bytes(transfer.amount, 8);
    let bytes = encode_record(transfer);
    assert(bytes.subrange(0, 32) =~= transfer.recipient);
    assert(bytes.subrange(32, 40) =~= amount);
}

/// Round trip from bytes: decoding a well-formed payload and encoding the
/// result gives the payload back, byte for byte.
pub proof fn lemma_decode_encode(payload: Seq<u8>)
    requires
        well_formed(payload),
    ensures
        encode(decode(payload)) == payload,
    decreases payload.len(),
{
    let decoded = decode(payload);
    if payload.len() == 0 {
        assert(encode(decoded) =~= payload);
    } else {
        let cut = payload.len() - 40;
        let front = payload.subrange(0, cut);
        let back = payload.subrange(cut, payload.len() as int);
        lemma_decode_encode(front);
        lemma_record_round_trip(back);
        assert(decoded.len() == decode(front).len() + 1);
        assert forall|i: int| 0 <= i < decode(front).len() implies decode(front)[i] == decoded[i] by {
            assert(front.subrange(40 * i, 40 * i + 40) =~= payload.subrange(40 * i, 40 * i + 40));
        }
        assert(decoded.drop_last() =~= decode(front));
        assert(payload.subrange(40 * (decoded.len() - 1), 40 * (decoded.len() - 1) + 40) =~= back);
        assert(decoded.last() == decode_record(back));
        assert(front + back =~= payload);
    }
}

/// The payload of `n` transfers is `40 * n` bytes long.
pub proof fn lemma_encode_len(transfers: Seq<Transfer>)
    requires
        forall|i: int| 0 <= i < transfers.len() ==> encodable(#[trigger] transfers[i]),
    ensures
        encode(transfers).len() == 40 * transfers.len(),
        well_formed(encode(transfers)),
    decreases transfers.len(),
{
    if transfers.len() > 0 {
        lemma_encode_len(transfers.drop_last());
        lemma_transfer_round_trip(transfers.last());
    }
}

/// Round trip from values: encoding transfers and decoding the payload gives
/// the transfers back, in order.
pub proof fn lemma_encode_decode(transfers: Seq<Transfer>)
    requires
        forall|i: int| 0 <= i < transfers.len() ==> encodable(#[trigger] transfers[i]),
    ensures
        decode(encode(transfers)) == transfers,
    decreases transfers.len(),
{
    let payload = encode(transfers);
    lemma_encode_len(transfers);
    if transfers.len() == 0 {
        assert(decode(payload) =~= transfers);
    } else {
        let init = transfers.drop_last();
        let front = encode(init);
        let back = encode_record(transfers.last());
        lemma_encode_len(init);
        lemma_encode_decode(init);
        lemma_transfer_round_trip(transfers.last());
        assert forall|i: int| 0 <= i < transfers.len() implies decode(payload)[i]
            == transfers[i] by {
            let record = payload.subrange(40 * i, 40 * i + 40);
            if i < init.len() {
                assert(record =~= front.subrange(40 * i, 40 * i + 40));
                assert(decode(front)[i] == init[i]);
            } else {
                assert(record =~= back);
            }
        }
        assert(decode(payload) =~= transfers);
    }
}

} // verus!
