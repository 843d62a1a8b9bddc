//! Command-line driven package installer: lexing and parsing of the
//! command line, the installation configuration, and the plans of outside
//! work (package manager runs, shell commands, the installer's own update,
//! notices) that a run carries out.
pub mod installer;
pub mod lexer;
pub mod parser;
pub mod plan;
pub mod text;
pub mod utils;
