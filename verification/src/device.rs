//! Device management: cameras, access control, meters and edge gateways.
pub mod gateway;
pub mod ledger;
pub mod model;
