//! A write-once store of short messages ("wishes"): each record is kept at an
//! address derived from its author and its title, is laid out in a fixed byte
//! format, and can be created only once.

pub mod address;
pub mod ledger;
pub mod record;
pub mod runtime;
