//! Decoding raw log entries: matching the payload of an entry against the
//! two event signatures and reading the fields that the stages use.
//!
//! A raw entry carries the emitting address, the topics and the data. The
//! first topic is the hash of the event signature; an indexed parameter
//! fills one topic, the others fill one 32-byte word of the data each, in
//! the order of the signature. An address sits in the low 20 bytes of its
//! word; what the high 12 bytes hold is not looked at.

use vstd::prelude::*;

use crate::address::Address;
use crate::amount::Uint256;
use crate::block::{AccountDeployedEvent, Block, EventPayload, LogEntry, TransferEvent};

verus! {

/// Signature hash of `AccountDeployed(bytes32,address,address,address)`. The
/// first two parameters are indexed: the hash of the operation and the
/// account; the factory and the paymaster follow in the data.
pub const ACCOUNT_DEPLOYED_TOPIC: [u8; 32] = [
    0xd5, 0x1a, 0x9c, 0x61, 0x26, 0x7a, 0xa6, 0x19, 0x69, 0x61, 0x88, 0x3e, 0xcf, 0x5f, 0xf2, 0xda,
    0x66, 0x19, 0xc3, 0x7d, 0xac, 0x0f, 0xa9, 0x21, 0x22, 0x51, 0x3f, 0xb3, 0x2c, 0x03, 0x2d, 0x2d,
];

/// Signature hash of `Transfer(address,address,uint256)`. The first two
/// parameters are indexed: the payer and the recipient; the amount is the
/// data.
pub const TRANSFER_TOPIC: [u8; 32] = [
    0xdd, 0xf2, 0x52, 0xad, 0x1b, 0xe2, 0xc8, 0x9b, 0x69, 0xc2, 0xb0, 0x68, 0xfc, 0x37, 0x8d, 0xaa,
    0x95, 0x2b, 0xa7, 0xf1, 0x63, 0xc4, 0xa1, 0x16, 0x28, 0xf5, 0x5a, 0x4d, 0xf5, 0x23, 0xb3, 0xef,
];

/// A log entry as the chain hands it out.
#[derive(Clone, Debug, PartialEq, Eq)]
pub struct RawLog {
    /// The contract that emitted the entry.
    pub address: Vec<u8>,
    /// The topics, the signature hash first.
    pub topics: Vec<Vec<u8>>,
    /// The data.
    pub data: Vec<u8>,
}

impl RawLog {
    /// Topic `i` as bytes.
    pub open spec fn topic(self, i: int) -> Seq<u8> {
        self.topics@[i]@
    }

    /// Whether the entry is an account deployment: three topics of which the
    /// first is the signature hash, two words of data, and each indexed
    /// parameter filling a whole word.
    pub open spec fn is_account_deployed(self) -> bool {
        &&& self.topics@.len() == 3
        &&& self.data@.len() == 64
        &&& self.topic(0) == ACCOUNT_DEPLOYED_TOPIC@
        &&& self.topic(1).len() >= 32
        &&& self.topic(2).len() >= 32
    }

    /// Whether the entry is a transfer: three topics of which the first is
    /// the signature hash, one word of data, and each indexed parameter
    /// filling a whole word.
    pub open spec fn is_transfer(self) -> bool {
        &&& self.topics@.len() == 3
        &&& self.data@.len() == 32
        &&& self.topic(0) == TRANSFER_TOPIC@
        &&& self.topic(1).len() >= 32
        &&& self.topic(2).len() >= 32
    }

    /// Whether `payload` is what the topics and the data decode to.
    pub open spec fn decodes_to(self, payload: EventPayload) -> bool {
        match payload {
            EventPayload::AccountDeployed(event) => {
                &&& self.is_account_deployed()
                &&& event.sender.bytes@ == self.topic(2).subrange(12, 32)
                &&& event.factory.bytes@ == self.data@.subrange(12, 32)
            },
            EventPayload::Transfer(event) => {
                &&& self.is_transfer()
                &&& event.to.bytes@ == self.topic(2).subrange(12, 32)
                &&& event.value.bytes@ == self.data@.subrange(0, 32)
            },
            EventPayload::Unmatched => !self.is_account_deployed() && !self.is_transfer(),
        }
    }

    /// Whether `entry` is this raw entry, decoded.
    pub open spec fn is_entry(self, entry: LogEntry) -> bool {
        &&& entry.address.bytes@ == self.address@
        &&& self.decodes_to(entry.payload)
    }
}

/// Whether `bytes` are exactly the 32 bytes of `hash`.
fn is_hash(bytes: &[u8], hash: &[u8; 32]) -> (same: bool)
    ensures
        same == (bytes@ == hash@),
{
    if bytes.len() != 32 {
        return false;
    }
    let mut i: usize = 0;
    while i < 32
        invariant
            i <= 32,
            bytes@.len() == 32,
            forall|j: int| 0 <= j < i ==> bytes@[j] == hash@[j],
        decreases 32 - i,
    {
        if bytes[i] != hash[i] {
            return false;
        }
        i += 1;
    }
    assert(bytes@ =~= hash@);
    true
}

/// The address in the word that `word` starts with: its bytes 12 to 31.
fn read_address(word: &[u8]) -> (address: Address)
    requires
        word@.len() >= 32,
    ensures
        address.bytes@ == word@.subrange(12, 32),
{
    let mut bytes = [0u8; 20];
    let mut i: usize = 0;
    while i < 20
        invariant
            i <= 20,
            word@.len() >= 32,
            forall|j: int| 0 <= j < i ==> bytes[j] == word@[12 + j],
        decreases 20 - i,
    {
        bytes[i] = word[12 + i];
        i += 1;
    }
    assert(bytes@ =~= word@.subrange(12, 32));
    Address { bytes }
}

/// The unsigned integer in the word that `word` starts with.
fn read_uint(word: &[u8]) -> (value: Uint256)
    requires
        word@.len() >= 32,
    ensures
        value.bytes@ == word@.subrange(0, 32),
{
    let mut bytes = [0u8; 32];
    let mut i: usize = 0;
    while i < 32
        invariant
            i <= 32,
            word@.len() >= 32,
            forall|j: int| 0 <= j < i ==> bytes[j] == word@[j],
        decreases 32 - i,
    {
        bytes[i] = word[i];
        i += 1;
    }
    assert(bytes@ =~= word@.subrange(0, 32));
    Uint256 { bytes }
}

/// Decodes the payload of a raw entry. An entry that matches neither
/// signature, or matches one but does not decode, is `Unmatched`: that is
/// no fault.
pub fn decode_payload(raw: &RawLog) -> (payload: EventPayload)
    ensures
        raw.decodes_to(payload),
{
    if raw.topics.len() != 3 {
        return EventPayload::Unmatched;
    }
    if raw.topics[1].len() < 32 || raw.topics[2].len() < 32 {
        return EventPayload::Unmatched;
    }
    if raw.data.len() == 64 && is_hash(raw.topics[0].as_slice(), &ACCOUNT_DEPLOYED_TOPIC) {
        let sender = read_address(raw.topics[2].as_slice());
        let factory = read_address(raw.data.as_slice());
        return EventPayload::AccountDeployed(AccountDeployedEvent { factory, sender });
    }
    if raw.data.len() == 32 && is_hash(raw.topics[0].as_slice(), &TRANSFER_TOPIC) {
        let to = read_address(raw.topics[2].as_slice());
        let value = read_uint(raw.data.as_slice());
        return EventPayload::Transfer(TransferEvent { to, value });
    }
    EventPayload::Unmatched
}

/// Decodes a raw entry: `None` exactly when the emitting address is not 20
/// bytes long, which no well-formed block holds.
pub fn decode_log(raw: &RawLog) -> (entry: Option<LogEntry>)
    ensures
        entry is Some <==> raw.address@.len() == 20,
        entry matches Some(decoded) ==> raw.is_entry(decoded),
{
    match Address::from_slice(raw.address.as_slice()) {
        Some(address) => Some(LogEntry { address, payload: decode_payload(raw) }),
        None => None,
    }
}

/// Decodes the entries of a block, in order: `None` exactly when some
/// emitting address is not 20 bytes long.
pub fn decode_block(logs: &Vec<RawLog>) -> (block: Option<Block>)
    ensures
        block is Some <==> forall|i: int| 0 <= i < logs@.len() ==> (#[trigger] logs@[i]).address@.len() == 20,
        block matches Some(decoded) ==> {
            &&& decoded@.len() == logs@.len()
            &&& forall|i: int| 0 <= i < logs@.len() ==> (#[trigger] logs@[i]).is_entry(decoded@[i])
        },
{
    let mut entries: Vec<LogEntry> = Vec::new();
    let mut i: usize = 0;
    while i < logs.len()
        invariant
            i <= logs@.len(),
            entries@.len() == i,
            forall|j: int| 0 <= j < i ==> (#[trigger] logs@[j]).address@.len() == 20,
            forall|j: int| 0 <= j < i ==> (#[trigger] logs@[j]).is_entry(entries@[j]),
        decreases logs@.len() - i,
    {
        match decode_log(&logs[i]) {
            Some(entry) => entries.push(entry),
            None => {
                return None;
            },
        }
        i += 1;
    }
    Some(Block { logs: entries })
}

/// A raw entry decodes to one entry only.
pub proof fn lemma_decoding_unique(raw: RawLog, first: LogEntry, second: LogEntry)
    requires
        raw.is_entry(first),
        raw.is_entry(second),
    ensures
        first == second,
{
    assert(first.address.bytes =~= second.address.bytes);
    assert(TRANSFER_TOPIC@[0] != ACCOUNT_DEPLOYED_TOPIC@[0]);
    match first.payload {
        EventPayload::AccountDeployed(a) => {
            let b = second.payload->AccountDeployed_0;
            assert(a.sender.bytes =~= b.sender.bytes);
            assert(a.factory.bytes =~= b.factory.bytes);
        },
        EventPayload::Transfer(a) => {
            let b = second.payload->Transfer_0;
            assert(a.to.bytes =~= b.to.bytes);
            assert(a.value.bytes =~= b.value.bytes);
        },
        EventPayload::Unmatched => {},
    }
}

} // verus!
