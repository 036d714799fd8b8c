//! The master: the workers it knows, and the commands it runs on them.

pub mod pool;
pub mod select;
pub mod report;
pub mod run;
pub mod commands;
pub mod laws;
pub mod report_laws;
pub mod command_laws;
