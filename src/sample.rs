//! Sample code of the kind the engine analyses: a module with no findings, and a small
//! project with a library and a command.
pub mod clean;
pub mod cli;
pub mod project;
