//! The first stage: which accounts did the tracked factory deploy in a block?

use vstd::prelude::*;

use crate::address::Address;
use crate::block::{Block, EventPayload, LogEntry};
use crate::select::{kept_indices, lemma_filter_map_in_order};

verus! {

/// The accounts deployed in one block, in the order of their log entries.
#[derive(Clone, Debug, PartialEq, Eq)]
pub struct Accounts {
    pub accounts: Vec<Address>,
}

impl View for Accounts {
    type V = Seq<Address>;

    open spec fn view(&self) -> Seq<Address> {
        self.accounts@
    }
}

/// The account that `entry` announces, if it announces one: the entry was
/// emitted by the deployer contract, its payload is an account deployment,
/// and the deployment names the tracked factory.
pub open spec fn deployment_of(entry: LogEntry) -> Option<Address> {
    match entry.payload {
        EventPayload::AccountDeployed(event) => if entry.address == Address::deployer()
            && event.factory == Address::factory() {
            Some(event.sender)
        } else {
            None
        },
        _ => None,
    }
}

/// The accounts that a sequence of log entries announces, in log order.
pub open spec fn accounts_of(logs: Seq<LogEntry>) -> Seq<Address> {
    logs.filter_map(|entry: LogEntry| deployment_of(entry))
}

/// Extracts the accounts deployed in `block`. A block without deployments
/// gives an empty list.
pub fn map_accounts(block: &Block) -> (out: Accounts)
    ensures
        out@ == accounts_of(block@),
{
    let deployer = Address::deployer();
    let factory = Address::factory();
    let mut accounts: Vec<Address> = Vec::new();
    let mut i: usize = 0;
    while i < block.logs.len()
        invariant
            i <= block.logs@.len(),
            deployer == Address::deployer(),
            factory == Address::factory(),
            accounts@ == accounts_of(block.logs@.take(i as int)),
        decreases block.logs@.len() - i,
    {
        let entry = block.logs[i];
        proof {
            block.logs@.lemma_filter_map_take_succ(|entry: LogEntry| deployment_of(entry), i as int);
        }
        if entry.address == deployer {
            if let EventPayload::AccountDeployed(event) = entry.payload {
                if event.factory == factory {
                    accounts.push(event.sender);
                }
            }
        }
        i += 1;
    }
    assert(block.logs@.take(block.logs@.len() as int) =~= block.logs@);
    Accounts { accounts }
}

/// The position in `logs` of each account of `accounts_of(logs)`.
pub open spec fn deployment_indices(logs: Seq<LogEntry>) -> Seq<int> {
    kept_indices(logs, |entry: LogEntry| deployment_of(entry))
}

/// The accounts are in log order and are exactly those that the log entries
/// announce: account `k` is the one announced by the `k`-th announcing entry,
/// later accounts come from later entries, every announcing entry has its
/// account in the list, and no other entry has a place in it.
pub proof fn lemma_accounts_in_log_order(logs: Seq<LogEntry>)
    ensures
        deployment_indices(logs).len() == accounts_of(logs).len(),
        forall|k: int|
            0 <= k < accounts_of(logs).len() ==> {
                &&& 0 <= #[trigger] deployment_indices(logs)[k] < logs.len()
                &&& deployment_of(logs[deployment_indices(logs)[k]]) == Some(accounts_of(logs)[k])
            },
        forall|k1: int, k2: int|
            0 <= k1 < k2 < accounts_of(logs).len() ==> #[trigger] deployment_indices(logs)[k1]
                < #[trigger] deployment_indices(logs)[k2],
        forall|i: int|
            0 <= i < logs.len() && deployment_of(#[trigger] logs[i]) is Some
                ==> deployment_indices(logs).contains(i),
        forall|i: int| #[trigger]
            deployment_indices(logs).contains(i) ==> 0 <= i < logs.len() && deployment_of(logs[i])
                is Some,
{
    lemma_filter_map_in_order(logs, |entry: LogEntry| deployment_of(entry));
}

/// Whether `entry` is a deployment of `account` that passes both address
/// checks: emitted by the deployer contract, and naming the tracked factory.
pub open spec fn announces(entry: LogEntry, account: Address) -> bool {
    &&& entry.address == Address::deployer()
    &&& entry.payload matches EventPayload::AccountDeployed(event)
    &&& event.factory == Address::factory()
    &&& event.sender == account
}

/// Only the allow-listed pair counts: every account in the output comes from
/// an entry that the deployer contract emitted and that names the tracked
/// factory.
pub proof fn lemma_accounts_allow_list(logs: Seq<LogEntry>, k: int)
    requires
        0 <= k < accounts_of(logs).len(),
    ensures
        exists|i: int| 0 <= i < logs.len() && announces(#[trigger] logs[i], accounts_of(logs)[k]),
{
    lemma_accounts_in_log_order(logs);
    let i = deployment_indices(logs)[k];
    assert(deployment_of(logs[i]) == Some(accounts_of(logs)[k]));
    assert(announces(logs[i], accounts_of(logs)[k]));
}

/// A deployment that names another factory than the tracked one announces
/// nothing, though the deployer contract emitted it; and an entry emitted by
/// another contract announces nothing, whatever its payload.
pub proof fn lemma_outside_allow_list_excluded(entry: LogEntry)
    ensures
        entry.address != Address::deployer() ==> deployment_of(entry) is None,
        entry.payload is AccountDeployed && entry.payload->AccountDeployed_0.factory
            != Address::factory() ==> deployment_of(entry) is None,
{
}

/// Determinism: whatever `map_accounts` returns for a block, it returns the
/// same accounts each time it runs on that block.
pub proof fn lemma_map_accounts_deterministic(block: &Block, first: Accounts, second: Accounts)
    requires
        call_ensures(map_accounts, (block,), first),
        call_ensures(map_accounts, (block,), second),
    ensures
        first@ == second@,
{
}

} // verus!
