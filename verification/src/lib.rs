//! Date, money and record arithmetic behind the park workspace pages.
pub mod badge;
pub mod calendar;
pub mod clock;
pub mod data_map;
pub mod daytime;
pub mod device;
pub mod finance;
pub mod hr;
pub mod images;
pub mod login;
pub mod maintenance;
pub mod pager;
pub mod records;
pub mod search;
pub mod sets;
pub mod tally;
pub mod text;
pub mod timestamp;
pub mod workspace;
