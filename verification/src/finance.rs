//! Finance ledger: money amounts, transaction dates and how bills and claims
//! link to ledger entries.
pub mod form;
pub mod model;
pub mod overview;
pub mod summary;
