//! Facility maintenance: transformers, elevators, firefighting assets and
//! repair orders.
pub mod firefighting;
pub mod forms;
pub mod inspect;
pub mod ledger;
pub mod model;
pub mod overview;
pub mod transformer;
