//! The records that cross the boundary of the library.

pub mod db_types;
pub mod project;
