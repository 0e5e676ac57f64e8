//! A block as the stages see it: log entries in on-chain execution order,
//! each with the contract that emitted it and what its payload decoded to.

use vstd::prelude::*;

use crate::address::Address;
use crate::amount::Uint256;

verus! {

/// An account deployment, as announced by the deployer contract.
#[derive(Clone, Copy, Debug, PartialEq, Eq)]
pub struct AccountDeployedEvent {
    /// The factory that created the account.
    pub factory: Address,
    /// The account that was created.
    pub sender: Address,
}

/// A token transfer, as announced by a token contract.
#[derive(Clone, Copy, Debug, PartialEq, Eq)]
pub struct TransferEvent {
    /// The recipient.
    pub to: Address,
    /// The amount moved.
    pub value: Uint256,
}

/// What the payload of a log entry decoded to.
#[derive(Clone, Copy, Debug, PartialEq, Eq)]
pub enum EventPayload {
    /// The payload matched the account-deployment signature.
    AccountDeployed(AccountDeployedEvent),
    /// The payload matched the transfer signature.
    Transfer(TransferEvent),
    /// The payload matched neither signature.
    Unmatched,
}

/// One log entry of a block.
#[derive(Clone, Copy, Debug, PartialEq, Eq)]
pub struct LogEntry {
    /// The contract that emitted the entry.
    pub address: Address,
    /// The decoded payload.
    pub payload: EventPayload,
}

/// One block: its log entries in the order in which they were emitted.
#[derive(Clone, Debug, PartialEq, Eq)]
pub struct Block {
    pub logs: Vec<LogEntry>,
}

impl View for Block {
    type V = Seq<LogEntry>;

    open spec fn view(&self) -> Seq<LogEntry> {
        self.logs@
    }
}

} // verus!
