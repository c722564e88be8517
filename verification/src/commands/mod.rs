//! The decisions behind the commands of the tool that touch no database.

pub mod lang_commands;
pub mod log_commands;
pub mod project_commands;
