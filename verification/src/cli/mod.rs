//! The command line: what each command asks for, does and prints.

pub mod command_laws;
pub mod control;
pub mod objects;
pub mod poll;
pub mod process_laws;
pub mod processes;
pub mod report;
pub mod report_laws;
pub mod service;
pub mod skills;
pub mod up;
