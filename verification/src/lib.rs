//! Correlates, block by block, the accounts that one factory deployed with the
//! token transfers those accounts later receive.
//!
//! Three stages run on every block, in this order: [`map_accounts`] extracts
//! the accounts deployed in the block, [`store_accounts`] records them in a
//! [`KeyValueStore`], and [`map_transfers`] reports the transfers whose
//! recipient the store knows. Because the second stage completes before the
//! third starts, an account deployed and paid in the same block is reported.
//! [`process_block`] runs the three in that order.
//!
//! The stages work on decoded log entries; [`decode_block`] makes them from
//! the raw entries of a block. None of the stages keeps state of its own:
//! what lasts from block to block is in the store, which is only added to.
//!
//! Every function states what it returns over plain mathematical values, and
//! the properties that tie the stages together are proved beside them.

pub mod account_store;
pub mod accounts;
pub mod address;
pub mod amount;
pub mod block;
pub mod decode;
pub mod key;
pub mod pipeline;
pub mod select;
pub mod store;
pub mod transfers;

pub use account_store::{account_records, store_accounts};
pub use accounts::{map_accounts, Accounts};
pub use address::{Address, DEPLOYER, FACTORY};
pub use amount::Uint256;
pub use block::{AccountDeployedEvent, Block, EventPayload, LogEntry, TransferEvent};
pub use decode::{
    decode_block, decode_log, decode_payload, RawLog, ACCOUNT_DEPLOYED_TOPIC, TRANSFER_TOPIC,
};
pub use key::account_key;
pub use pipeline::process_block;
pub use store::{KeyValueStore, Record};
pub use transfers::{map_transfers, recipient_keys, Transfer, Transfers};
