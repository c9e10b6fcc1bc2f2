//! A text-driven credit game for one participant: the session's command
//! dispatch, the ledger of player records and the store text it is kept in.

pub mod codec;
pub mod command;
pub mod document;
pub mod failure;
pub mod intake;
pub mod ledger;
pub mod message;
pub mod production;
pub mod session;
pub mod store;
pub mod text;
