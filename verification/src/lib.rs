//! Lints XML documents against rules that name, per element tag, the
//! attributes every such element must carry.

pub mod config;
pub mod error;
pub mod laws;
pub mod lint;
pub mod requirements;
pub mod run;
pub mod tag_map;
pub mod text;
pub mod toml_tree;
pub mod violation;
pub mod xml;
