//! A configuration model over a structured document tree.
//!
//! A configuration file is parsed into a generic tree of scalars, sequences
//! and mappings. A [`Conf`](conf::Conf) holds the whole parsed document plus
//! the subtree found under the top-level key `programs`, lists the program
//! names defined there, and compares the settings of a named program between
//! two configurations.

pub mod conf;
pub mod node;
pub mod yaml;
