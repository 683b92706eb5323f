//! Checking on satellites, addressed either by number or by value.
pub mod by_id;
pub mod by_value;
