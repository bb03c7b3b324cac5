//! How connections are reached, how many there may be, and the record of what was done to them.

pub mod peer;
pub mod places;
pub mod record;
