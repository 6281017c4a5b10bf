//! A ticket-sale ledger for events ("games"): each game offers priced,
//! supply-capped ticket types; purchases run as a two-stage saga (validate,
//! reserve, request issuance, then confirm or compensate on the callback),
//! and issued tickets can be redeemed exactly once.

pub mod types;
pub mod ids;
pub mod state;
pub mod contract;
pub mod laws;
