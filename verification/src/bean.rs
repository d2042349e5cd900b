//! The plain records that cross the boundary of the service.

pub mod custom_error;
pub mod db;
