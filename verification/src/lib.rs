//! Request routing, method renaming and cache policy of an API caching
//! layer for Hive JSON-RPC nodes.

pub mod json;
pub mod text;
pub mod tables;
pub mod trie;
pub mod config;
pub mod protocol;
pub mod method_renamer;
pub mod chain;
pub mod cache_control;
pub mod cache;
pub mod handler;
