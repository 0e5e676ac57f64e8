//! One block through the three stages, in the order that makes a write of
//! the second stage visible to the third.

use vstd::prelude::*;

use crate::account_store::{record_accounts, store_accounts};
use crate::accounts::{accounts_of, map_accounts, Accounts};
use crate::address::Address;
use crate::block::Block;
use crate::store::KeyValueStore;
use crate::transfers::{map_transfers, transfers_of, Transfers};

verus! {

/// Runs the stages on `block`: extracts its accounts, records them in
/// `store`, and only then correlates its transfers against `store`. The
/// transfers are therefore those seen by a store that already holds the
/// accounts of this block, besides what it held before.
pub fn process_block(block: &Block, store: &mut KeyValueStore, tokens: &[Address]) -> (out: (
    Accounts,
    Transfers,
))
    ensures
        out.0@ == accounts_of(block@),
        final(store)@ == record_accounts(old(store)@, accounts_of(block@)),
        out.1@ == transfers_of(block@, final(store)@, tokens@),
{
    let accounts = map_accounts(block);
    store_accounts(&accounts, store);
    let transfers = map_transfers(block, store, tokens);
    (accounts, transfers)
}

} // verus!
