//! Planning for a tool that copies or moves the files of one directory tree
//! into another.
//!
//! The crate decides; it never touches a file system. A caller lists
//! directories and performs transfers, and hands the outcomes back.

pub mod arguments;
pub mod config;
pub mod entry;
pub mod filter;
pub mod lifecycle;
pub mod path;
pub mod run;
pub mod text;
pub mod transfer;
pub mod traverse;

