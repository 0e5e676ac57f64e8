//! The third stage: which transfers of a block went to a recorded account?
//!
//! The stage only reads the store. It runs after the accounts of the same
//! block were recorded, so a transfer to an account deployed in this block
//! is reported like one to an account deployed long before.

use vstd::prelude::*;

use crate::account_store::{
    holds_accounts_only, lemma_names_one_of, lemma_record_accounts, names_one_of, record_accounts,
};
use crate::accounts::{accounts_of, deployment_of};
use crate::address::Address;
use crate::block::{Block, EventPayload, LogEntry};
use crate::key::{account_key, key_of, lemma_key_of_injective};
use crate::select::{kept_indices, lemma_filter_map_in_order, lemma_filter_map_keeps};
use crate::store::KeyValueStore;

verus! {

/// One reported transfer.
#[derive(Clone, Copy, Debug, PartialEq, Eq)]
pub struct Transfer {
    /// The token contract that emitted the transfer.
    pub asset: Address,
    /// The account that received it, as the store holds it.
    pub receiver: Address,
}

/// The reported transfers of one block, in the order of their log entries.
#[derive(Clone, Debug, PartialEq, Eq)]
pub struct Transfers {
    pub transfers: Vec<Transfer>,
}

impl View for Transfers {
    type V = Seq<Transfer>;

    open spec fn view(&self) -> Seq<Transfer> {
        self.transfers@
    }
}

/// The key that the stage looks up for `entry`, if it looks one up: the entry
/// was emitted by an allow-listed token contract, its payload is a transfer,
/// and the amount is not zero. The key is that of the recipient.
pub open spec fn lookup_of(entry: LogEntry, tokens: Seq<Address>) -> Option<Seq<char>> {
    match entry.payload {
        EventPayload::Transfer(event) => if tokens.contains(entry.address) && event.value.value()
            != 0 {
            Some(key_of(event.to))
        } else {
            None
        },
        _ => None,
    }
}

/// The transfer reported for `entry`, if one is: the stage looks a key up
/// for it and the store holds that key. The receiver is what the store
/// answers.
pub open spec fn correlated(
    entry: LogEntry,
    contents: Map<Seq<char>, Address>,
    tokens: Seq<Address>,
) -> Option<Transfer> {
    match lookup_of(entry, tokens) {
        Some(key) => if contents.dom().contains(key) {
            Some(Transfer { asset: entry.address, receiver: contents[key] })
        } else {
            None
        },
        None => None,
    }
}

/// The transfers reported for a sequence of log entries, in log order.
pub open spec fn transfers_of(
    logs: Seq<LogEntry>,
    contents: Map<Seq<char>, Address>,
    tokens: Seq<Address>,
) -> Seq<Transfer> {
    logs.filter_map(|entry: LogEntry| correlated(entry, contents, tokens))
}

/// The keys that the stage looks up for a sequence of log entries, in log
/// order.
pub open spec fn lookups_of(logs: Seq<LogEntry>, tokens: Seq<Address>) -> Seq<Seq<char>> {
    logs.filter_map(|entry: LogEntry| lookup_of(entry, tokens))
}

/// Whether `address` is one of `tokens`.
fn is_listed(tokens: &[Address], address: &Address) -> (listed: bool)
    ensures
        listed == tokens@.contains(*address),
{
    let mut i: usize = 0;
    while i < tokens.len()
        invariant
            i <= tokens@.len(),
            forall|j: int| 0 <= j < i ==> tokens@[j] != *address,
        decreases tokens@.len() - i,
    {
        if tokens[i] == *address {
            return true;
        }
        i += 1;
    }
    false
}

/// The recipient whose key the stage looks up for `entry`, if it looks one up.
fn lookup_recipient(entry: &LogEntry, tokens: &[Address]) -> (recipient: Option<Address>)
    ensures
        match recipient {
            Some(to) => lookup_of(*entry, tokens@) == Some(key_of(to)),
            None => lookup_of(*entry, tokens@) is None,
        },
{
    if let EventPayload::Transfer(event) = entry.payload {
        if is_listed(tokens, &entry.address) && !event.value.is_zero() {
            return Some(event.to);
        }
    }
    None
}

/// Reports the transfers of `block` that an allow-listed token contract
/// emitted, that move a non-zero amount, and whose recipient `store` knows.
/// A block without such transfers gives an empty list. The store is not
/// changed.
pub fn map_transfers(block: &Block, store: &KeyValueStore, tokens: &[Address]) -> (out: Transfers)
    ensures
        out@ == transfers_of(block@, store@, tokens@),
{
    let mut transfers: Vec<Transfer> = Vec::new();
    let mut i: usize = 0;
    while i < block.logs.len()
        invariant
            i <= block.logs@.len(),
            transfers@ == transfers_of(block.logs@.take(i as int), store@, tokens@),
        decreases block.logs@.len() - i,
    {
        let entry = block.logs[i];
        proof {
            block.logs@.lemma_filter_map_take_succ(
                |entry: LogEntry| correlated(entry, store@, tokens@),
                i as int,
            );
        }
        if let Some(to) = lookup_recipient(&entry, tokens) {
            let key = account_key(&to);
            if let Some(receiver) = store.get_last(&key) {
                transfers.push(Transfer { asset: entry.address, receiver });
            }
        }
        i += 1;
    }
    assert(block.logs@.take(block.logs@.len() as int) =~= block.logs@);
    Transfers { transfers }
}

/// The keys that `map_transfers` looks up for `block`, in log order. A host
/// that keeps the store elsewhere reads these keys there, writes what it
/// finds into a `KeyValueStore`, and hands that store to `map_transfers`.
pub fn recipient_keys(block: &Block, tokens: &[Address]) -> (keys: Vec<String>)
    ensures
        keys@.len() == lookups_of(block@, tokens@).len(),
        forall|k: int| 0 <= k < keys@.len() ==> (#[trigger] keys@[k])@ == lookups_of(block@, tokens@)[k],
{
    let mut keys: Vec<String> = Vec::new();
    let mut i: usize = 0;
    while i < block.logs.len()
        invariant
            i <= block.logs@.len(),
            keys@.len() == lookups_of(block.logs@.take(i as int), tokens@).len(),
            forall|k: int|
                0 <= k < keys@.len() ==> (#[trigger] keys@[k])@ == lookups_of(
                    block.logs@.take(i as int),
                    tokens@,
                )[k],
        decreases block.logs@.len() - i,
    {
        let entry = block.logs[i];
        proof {
            block.logs@.lemma_filter_map_take_succ(
                |entry: LogEntry| lookup_of(entry, tokens@),
                i as int,
            );
        }
        if let Some(to) = lookup_recipient(&entry, tokens) {
            keys.push(account_key(&to));
        }
        i += 1;
    }
    assert(block.logs@.take(block.logs@.len() as int) =~= block.logs@);
    keys
}

/// The position in `logs` of each transfer of `transfers_of(logs, ..)`.
pub open spec fn transfer_indices(
    logs: Seq<LogEntry>,
    contents: Map<Seq<char>, Address>,
    tokens: Seq<Address>,
) -> Seq<int> {
    kept_indices(logs, |entry: LogEntry| correlated(entry, contents, tokens))
}

/// The reported transfers are in log order and are exactly those that the
/// log entries give rise to: transfer `k` comes from the `k`-th entry that
/// gives rise to one, later transfers come from later entries, every such
/// entry has its transfer in the list, and no other entry has a place in it.
pub proof fn lemma_transfers_in_log_order(
    logs: Seq<LogEntry>,
    contents: Map<Seq<char>, Address>,
    tokens: Seq<Address>,
)
    ensures
        transfer_indices(logs, contents, tokens).len() == transfers_of(logs, contents, tokens).len(),
        forall|k: int|
            0 <= k < transfers_of(logs, contents, tokens).len() ==> {
                &&& 0 <= #[trigger] transfer_indices(logs, contents, tokens)[k] < logs.len()
                &&& correlated(logs[transfer_indices(logs, contents, tokens)[k]], contents, tokens)
                    == Some(transfers_of(logs, contents, tokens)[k])
            },
        forall|k1: int, k2: int|
            0 <= k1 < k2 < transfers_of(logs, contents, tokens).len() ==> #[trigger] transfer_indices(
                logs,
                contents,
                tokens,
            )[k1] < #[trigger] transfer_indices(logs, contents, tokens)[k2],
        forall|i: int|
            0 <= i < logs.len() && correlated(#[trigger] logs[i], contents, tokens) is Some
                ==> transfer_indices(logs, contents, tokens).contains(i),
        forall|i: int| #[trigger]
            transfer_indices(logs, contents, tokens).contains(i) ==> 0 <= i < logs.len()
                && correlated(logs[i], contents, tokens) is Some,
{
    lemma_filter_map_in_order(logs, |entry: LogEntry| correlated(entry, contents, tokens));
}

/// Whether `entry` gives rise to `transfer`: an allow-listed token contract
/// emitted it, its payload is a transfer of a non-zero amount, the store
/// holds the key of the recipient, and `transfer` names the emitting
/// contract and what the store holds.
pub open spec fn reports(
    entry: LogEntry,
    contents: Map<Seq<char>, Address>,
    tokens: Seq<Address>,
    transfer: Transfer,
) -> bool {
    &&& tokens.contains(entry.address)
    &&& entry.payload matches EventPayload::Transfer(event)
    &&& event.value.value() != 0
    &&& contents.dom().contains(key_of(event.to))
    &&& transfer.asset == entry.address
    &&& transfer.receiver == contents[key_of(event.to)]
}

/// Every reported transfer comes from an entry that passes all the checks.
/// So a transfer of zero never appears in the output, nor one to a recipient
/// that the store does not hold, nor one from a contract off the allow-list.
pub proof fn lemma_transfer_source(
    logs: Seq<LogEntry>,
    contents: Map<Seq<char>, Address>,
    tokens: Seq<Address>,
    k: int,
)
    requires
        0 <= k < transfers_of(logs, contents, tokens).len(),
    ensures
        exists|i: int|
            0 <= i < logs.len() && reports(
                #[trigger] logs[i],
                contents,
                tokens,
                transfers_of(logs, contents, tokens)[k],
            ),
{
    lemma_transfers_in_log_order(logs, contents, tokens);
    let i = transfer_indices(logs, contents, tokens)[k];
    let transfer = transfers_of(logs, contents, tokens)[k];
    assert(correlated(logs[i], contents, tokens) == Some(transfer));
    assert(reports(logs[i], contents, tokens, transfer));
}

/// A transfer of zero is never reported, whatever the store holds.
pub proof fn lemma_zero_value_excluded(
    entry: LogEntry,
    contents: Map<Seq<char>, Address>,
    tokens: Seq<Address>,
)
    requires
        entry.payload is Transfer,
        entry.payload->Transfer_0.value.value() == 0,
    ensures
        correlated(entry, contents, tokens) is None,
{
}

/// A transfer to a recipient whose key the store does not hold is never
/// reported.
pub proof fn lemma_unknown_recipient_excluded(
    entry: LogEntry,
    contents: Map<Seq<char>, Address>,
    tokens: Seq<Address>,
)
    requires
        entry.payload is Transfer,
        !contents.dom().contains(key_of(entry.payload->Transfer_0.to)),
    ensures
        correlated(entry, contents, tokens) is None,
{
}

/// A transfer to an address that was never recorded is never reported. If
/// the store did not hold the key of the recipient, and the recipient is not
/// among the accounts recorded since, then the store still does not hold the
/// key and nothing is reported for the entry.
pub proof fn lemma_unrecorded_recipient_excluded(
    entry: LogEntry,
    contents: Map<Seq<char>, Address>,
    accounts: Seq<Address>,
    tokens: Seq<Address>,
)
    requires
        entry.payload is Transfer,
        !contents.dom().contains(key_of(entry.payload->Transfer_0.to)),
        !accounts.contains(entry.payload->Transfer_0.to),
    ensures
        !record_accounts(contents, accounts).dom().contains(key_of(entry.payload->Transfer_0.to)),
        correlated(entry, record_accounts(contents, accounts), tokens) is None,
{
    lemma_record_accounts(contents, accounts);
    lemma_names_one_of(entry.payload->Transfer_0.to, accounts);
}

/// A transfer that a contract off the allow-list emitted is never reported.
pub proof fn lemma_unlisted_token_excluded(
    entry: LogEntry,
    contents: Map<Seq<char>, Address>,
    tokens: Seq<Address>,
)
    requires
        !tokens.contains(entry.address),
    ensures
        correlated(entry, contents, tokens) is None,
{
}

/// In a store of accounts the receiver of a reported transfer is the
/// recipient that the transfer event names.
pub proof fn lemma_receiver_is_recipient(
    entry: LogEntry,
    contents: Map<Seq<char>, Address>,
    tokens: Seq<Address>,
)
    requires
        holds_accounts_only(contents),
        correlated(entry, contents, tokens) is Some,
    ensures
        entry.payload is Transfer,
        correlated(entry, contents, tokens)->0.receiver == entry.payload->Transfer_0.to,
{
    let to = entry.payload->Transfer_0.to;
    let receiver = contents[key_of(to)];
    assert(contents.dom().contains(key_of(to)));
    lemma_key_of_injective(to, receiver);
}

/// Same-block visibility. Take a block in which one entry deploys account
/// `a` and another, before or after it, is a transfer of a non-zero amount
/// to `a` from an allow-listed token contract. Once the accounts of the
/// block are recorded, the transfers of that same block include the one to
/// `a`, whatever the store held before.
pub proof fn lemma_same_block_visibility(
    logs: Seq<LogEntry>,
    contents: Map<Seq<char>, Address>,
    tokens: Seq<Address>,
    deploy: int,
    transfer: int,
)
    requires
        0 <= deploy < logs.len(),
        0 <= transfer < logs.len(),
        deployment_of(logs[deploy]) is Some,
        logs[transfer].payload is Transfer,
        logs[transfer].payload->Transfer_0.to == deployment_of(logs[deploy])->0,
        logs[transfer].payload->Transfer_0.value.value() != 0,
        tokens.contains(logs[transfer].address),
    ensures
        transfers_of(logs, record_accounts(contents, accounts_of(logs)), tokens).contains(
            Transfer {
                asset: logs[transfer].address,
                receiver: deployment_of(logs[deploy])->0,
            },
        ),
{
    let account = deployment_of(logs[deploy])->0;
    let accounts = accounts_of(logs);
    let after = record_accounts(contents, accounts);
    lemma_filter_map_keeps(logs, |entry: LogEntry| deployment_of(entry), deploy);
    assert(accounts.contains(account));
    let at = choose|at: int| 0 <= at < accounts.len() && accounts[at] == account;
    lemma_record_accounts(contents, accounts);
    assert(after[key_of(accounts[at])] == accounts[at]);
    assert(names_one_of(key_of(account), accounts));
    assert(after.dom().contains(key_of(account)));
    lemma_filter_map_keeps(logs, |entry: LogEntry| correlated(entry, after, tokens), transfer);
}

/// The transfers depend on the store only through the keys that the stage
/// looks up: two stores that answer alike for each of them give the same
/// transfers.
pub proof fn lemma_transfers_depend_on_lookups(
    logs: Seq<LogEntry>,
    first: Map<Seq<char>, Address>,
    second: Map<Seq<char>, Address>,
    tokens: Seq<Address>,
)
    requires
        forall|i: int|
            0 <= i < logs.len() && lookup_of(#[trigger] logs[i], tokens) is Some ==> {
                let key = lookup_of(logs[i], tokens)->0;
                &&& first.dom().contains(key) == second.dom().contains(key)
                &&& first.dom().contains(key) ==> first[key] == second[key]
            },
    ensures
        transfers_of(logs, first, tokens) == transfers_of(logs, second, tokens),
    decreases logs.len(),
{
    if logs.len() > 0 {
        let front = logs.drop_last();
        assert forall|i: int|
            0 <= i < front.len() && lookup_of(#[trigger] front[i], tokens) is Some implies {
            let key = lookup_of(front[i], tokens)->0;
            &&& first.dom().contains(key) == second.dom().contains(key)
            &&& first.dom().contains(key) ==> first[key] == second[key]
        } by {
            assert(front[i] == logs[i]);
        }
        lemma_transfers_depend_on_lookups(front, first, second, tokens);
        assert(logs[logs.len() - 1] == logs.last());
        assert(correlated(logs.last(), first, tokens) == correlated(logs.last(), second, tokens));
    }
}

/// Each key that the stage looks up is the key of the recipient of a
/// transfer entry that passed the checks made before the store is read.
pub proof fn lemma_lookups_in_log_order(logs: Seq<LogEntry>, tokens: Seq<Address>, k: int)
    requires
        0 <= k < lookups_of(logs, tokens).len(),
    ensures
        exists|i: int|
            0 <= i < logs.len() && lookup_of(#[trigger] logs[i], tokens) == Some(
                lookups_of(logs, tokens)[k],
            ),
{
    lemma_filter_map_in_order(logs, |entry: LogEntry| lookup_of(entry, tokens));
    let i = kept_indices(logs, |entry: LogEntry| lookup_of(entry, tokens))[k];
    assert(lookup_of(logs[i], tokens) == Some(lookups_of(logs, tokens)[k]));
}

/// Determinism: whatever `map_transfers` returns for a block, a store and
/// an allow-list, it returns the same transfers each time it runs on them.
pub proof fn lemma_map_transfers_deterministic(
    block: &Block,
    store: &KeyValueStore,
    tokens: &[Address],
    first: Transfers,
    second: Transfers,
)
    requires
        call_ensures(map_transfers, (block, store, tokens), first),
        call_ensures(map_transfers, (block, store, tokens), second),
    ensures
        first@ == second@,
{
}

} // verus!
