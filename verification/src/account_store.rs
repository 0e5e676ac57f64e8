//! The second stage: recording the accounts of a block in the store.

use vstd::prelude::*;

use crate::accounts::Accounts;
use crate::address::Address;
use crate::key::{account_key, key_of, lemma_key_of_injective};
use crate::store::{apply_writes, KeyValueStore, Record};

verus! {

/// The contents of a store after `accounts` were recorded in it one by one,
/// each under its own key.
pub open spec fn record_accounts(
    contents: Map<Seq<char>, Address>,
    accounts: Seq<Address>,
) -> Map<Seq<char>, Address>
    decreases accounts.len(),
{
    if accounts.len() == 0 {
        contents
    } else {
        record_accounts(contents, accounts.drop_last()).insert(
            key_of(accounts.last()),
            accounts.last(),
        )
    }
}

/// Whether `key` is the key of one of `accounts`.
pub open spec fn names_one_of(key: Seq<char>, accounts: Seq<Address>) -> bool {
    exists|i: int| 0 <= i < accounts.len() && key_of(#[trigger] accounts[i]) == key
}

/// Whether every entry of a store is an account under its own key.
pub open spec fn holds_accounts_only(contents: Map<Seq<char>, Address>) -> bool {
    forall|key: Seq<char>| #[trigger]
        contents.dom().contains(key) ==> key == key_of(contents[key])
}

/// Records every account of `accounts` in `store`, each under its own key.
/// Earlier entries of the store stay, but for a key written again, which
/// then holds the account that was written last.
pub fn store_accounts(accounts: &Accounts, store: &mut KeyValueStore)
    ensures
        final(store)@ == record_accounts(old(store)@, accounts@),
{
    let ghost initial = store@;
    let mut i: usize = 0;
    while i < accounts.accounts.len()
        invariant
            i <= accounts.accounts@.len(),
            store@ == record_accounts(initial, accounts.accounts@.take(i as int)),
        decreases accounts.accounts@.len() - i,
    {
        let account = accounts.accounts[i];
        store.set(account_key(&account), account);
        assert(accounts.accounts@.take(i + 1).drop_last() =~= accounts.accounts@.take(i as int));
        i += 1;
    }
    assert(accounts.accounts@.take(accounts.accounts@.len() as int) =~= accounts.accounts@);
}

/// The writes that recording `accounts` makes, in order: one for each
/// account, its key and the account itself. For a host that keeps the
/// store.
pub fn account_records(accounts: &Accounts) -> (records: Vec<Record>)
    ensures
        records@.len() == accounts@.len(),
        forall|i: int|
            0 <= i < accounts@.len() ==> (#[trigger] records@[i]).key@ == key_of(accounts@[i])
                && records@[i].value == accounts@[i],
{
    let mut records: Vec<Record> = Vec::new();
    let mut i: usize = 0;
    while i < accounts.accounts.len()
        invariant
            i <= accounts.accounts@.len(),
            records@.len() == i,
            forall|j: int|
                0 <= j < i ==> (#[trigger] records@[j]).key@ == key_of(accounts.accounts@[j])
                    && records@[j].value == accounts.accounts@[j],
        decreases accounts.accounts@.len() - i,
    {
        let account = accounts.accounts[i];
        records.push(Record { key: account_key(&account), value: account });
        i += 1;
    }
    records
}

/// Making the writes of `account_records`, in order, is recording the
/// accounts: a store that receives them ends with the contents that
/// `store_accounts` leaves.
pub proof fn lemma_account_records_record(
    contents: Map<Seq<char>, Address>,
    accounts: Seq<Address>,
    records: Seq<Record>,
)
    requires
        records.len() == accounts.len(),
        forall|i: int|
            0 <= i < accounts.len() ==> (#[trigger] records[i]).key@ == key_of(accounts[i])
                && records[i].value == accounts[i],
    ensures
        apply_writes(contents, records) == record_accounts(contents, accounts),
    decreases accounts.len(),
{
    if accounts.len() > 0 {
        assert(records.last() == records[records.len() - 1]);
        lemma_account_records_record(contents, accounts.drop_last(), records.drop_last());
    }
}

/// What recording does to a store, key by key. Afterwards a key is present
/// exactly if it was present before or is the key of a recorded account;
/// each recorded account is found under its key; and every other key holds
/// what it held before. Nothing is removed.
pub proof fn lemma_record_accounts(contents: Map<Seq<char>, Address>, accounts: Seq<Address>)
    ensures
        forall|key: Seq<char>| #[trigger]
            record_accounts(contents, accounts).dom().contains(key) <==> contents.dom().contains(
                key,
            ) || names_one_of(key, accounts),
        forall|i: int|
            0 <= i < accounts.len() ==> record_accounts(contents, accounts)[key_of(
                #[trigger] accounts[i],
            )] == accounts[i],
        forall|key: Seq<char>|
            contents.dom().contains(key) && !names_one_of(key, accounts) ==> #[trigger] record_accounts(
                contents,
                accounts,
            )[key] == contents[key],
    decreases accounts.len(),
{
    let after = record_accounts(contents, accounts);
    if accounts.len() > 0 {
        let front = accounts.drop_last();
        let last = accounts.last();
        let before = record_accounts(contents, front);
        lemma_record_accounts(contents, front);
        assert(after == before.insert(key_of(last), last));
        assert forall|key: Seq<char>| names_one_of(key, accounts) <==> (names_one_of(key, front)
            || key == key_of(last)) by {
            if names_one_of(key, accounts) {
                let i = choose|i: int| 0 <= i < accounts.len() && key_of(#[trigger] accounts[i]) == key;
                if i < front.len() {
                    assert(front[i] == accounts[i]);
                }
            }
            if names_one_of(key, front) {
                let i = choose|i: int| 0 <= i < front.len() && key_of(#[trigger] front[i]) == key;
                assert(accounts[i] == front[i]);
            }
            if key == key_of(last) {
                assert(accounts[accounts.len() - 1] == last);
            }
        }
        assert forall|key: Seq<char>| #[trigger]
            after.dom().contains(key) <==> contents.dom().contains(key) || names_one_of(
                key,
                accounts,
            ) by {
            assert(before.dom().contains(key) <==> contents.dom().contains(key) || names_one_of(
                key,
                front,
            ));
        }
        assert forall|i: int| 0 <= i < accounts.len() implies after[key_of(#[trigger] accounts[i])]
            == accounts[i] by {
            if i < front.len() {
                assert(front[i] == accounts[i]);
                if key_of(accounts[i]) == key_of(last) {
                    lemma_key_of_injective(accounts[i], last);
                }
            }
        }
        assert forall|key: Seq<char>|
            contents.dom().contains(key) && !names_one_of(key, accounts) implies #[trigger] after[key]
                == contents[key] by {
            assert(!names_one_of(key, front));
            assert(before.dom().contains(key));
            assert(before[key] == contents[key]);
        }
    } else {
        assert forall|key: Seq<char>| !names_one_of(key, accounts) by {}
    }
}

/// A key is that of one of `accounts` exactly if it is the key of an account
/// among them: no other address shares it.
pub proof fn lemma_names_one_of(account: Address, accounts: Seq<Address>)
    ensures
        names_one_of(key_of(account), accounts) <==> accounts.contains(account),
{
    if names_one_of(key_of(account), accounts) {
        let i = choose|i: int| 0 <= i < accounts.len() && key_of(#[trigger] accounts[i]) == key_of(account);
        lemma_key_of_injective(accounts[i], account);
    }
    if accounts.contains(account) {
        let i = choose|i: int| 0 <= i < accounts.len() && accounts[i] == account;
        assert(key_of(accounts[i]) == key_of(account));
    }
}

/// Recording accounts keeps a store of accounts a store of accounts: if
/// every entry was an account under its own key, so is every entry afterwards.
pub proof fn lemma_record_accounts_keeps_keys(
    contents: Map<Seq<char>, Address>,
    accounts: Seq<Address>,
)
    requires
        holds_accounts_only(contents),
    ensures
        holds_accounts_only(record_accounts(contents, accounts)),
    decreases accounts.len(),
{
    if accounts.len() > 0 {
        lemma_record_accounts_keeps_keys(contents, accounts.drop_last());
    }
}

/// What a store of accounts holds, it keeps: recording further accounts, in
/// this block or any later one, neither removes a key nor changes the
/// address under it.
pub proof fn lemma_records_persist(
    contents: Map<Seq<char>, Address>,
    accounts: Seq<Address>,
    key: Seq<char>,
)
    requires
        holds_accounts_only(contents),
        contents.dom().contains(key),
    ensures
        record_accounts(contents, accounts).dom().contains(key),
        record_accounts(contents, accounts)[key] == contents[key],
{
    lemma_record_accounts(contents, accounts);
    if names_one_of(key, accounts) {
        let i = choose|i: int| 0 <= i < accounts.len() && key_of(#[trigger] accounts[i]) == key;
        lemma_key_of_injective(accounts[i], contents[key]);
    }
}

/// Recording the same accounts a second time, in this block or a later one,
/// changes nothing in a store of accounts: every read answers as before.
pub proof fn lemma_record_accounts_idempotent(
    contents: Map<Seq<char>, Address>,
    accounts: Seq<Address>,
)
    ensures
        record_accounts(record_accounts(contents, accounts), accounts) == record_accounts(
            contents,
            accounts,
        ),
{
    let once = record_accounts(contents, accounts);
    let twice = record_accounts(once, accounts);
    lemma_record_accounts(contents, accounts);
    lemma_record_accounts(once, accounts);
    assert forall|key: Seq<char>| twice.dom().contains(key) <==> once.dom().contains(key) by {}
    assert forall|key: Seq<char>| once.dom().contains(key) implies #[trigger] twice[key] == once[key] by {
        if names_one_of(key, accounts) {
            let i = choose|i: int| 0 <= i < accounts.len() && key_of(#[trigger] accounts[i]) == key;
            assert(twice[key_of(accounts[i])] == accounts[i]);
            assert(once[key_of(accounts[i])] == accounts[i]);
        }
    }
    assert(twice =~= once);
}

/// Determinism: two runs of `store_accounts` on the same accounts, begun on
/// stores with the same contents, leave stores with the same contents.
/// Here `first` and `second` stand for the stores handed to the two runs.
pub proof fn lemma_store_accounts_deterministic(
    accounts: &Accounts,
    first: &mut KeyValueStore,
    second: &mut KeyValueStore,
)
    requires
        call_ensures(store_accounts, (accounts, old(first)), ()),
        call_ensures(store_accounts, (accounts, old(second)), ()),
        old(first)@ == old(second)@,
    ensures
        final(old(first))@ == final(old(second))@,
{
}

} // verus!
