//! The installation configuration, the host facts the installer reads, and
//! the help table.
pub mod config_parser;
pub mod runner;
pub mod help;
