//! The data map: how many rows every table has and how many of them hang
//! off a live parent.
pub mod model;
