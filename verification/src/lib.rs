//! Reorderable group memberships.
//!
//! An item's place inside a group is a rank. Ranks are chosen so that an
//! item can be appended, or put between two neighbours, without touching the
//! rank of any other member of the group.

pub mod bean;
pub mod rank;
pub mod error;
pub mod placement;
pub mod membership;
pub mod database;
pub mod store;
pub mod foreign;
pub mod validation;
