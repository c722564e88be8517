//! Multi-engine table inspector: the rules by which a developer tool reads and
//! edits the database of a project, stated and proved over plain values.
//!
//! The library resolves how to reach the database of a project, plans each
//! operation as a statement with bound values for one of two engines, and
//! turns what the engine answers into one uniform result. It holds no
//! connection: a caller issues the statements and hands the raw answers back.

pub mod text;
pub mod identifier;
pub mod error;
pub mod json;
pub mod sorting;
pub mod models;
pub mod credentials;
pub mod query;
pub mod value;
pub mod db_factory;
pub mod cache;
pub mod commands;
