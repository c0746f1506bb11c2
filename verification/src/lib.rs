//! Coordination engine of a bounded web crawler: the visited registry, the
//! shared and the per-worker frontier, a prefix trie for URL membership, and
//! the worker's decisions, each with a machine-checked contract.

pub mod bindings;
pub mod crawler_datatypes;
pub mod crawler_utilities;
pub mod link_list;
pub mod local_urls;
pub mod site_map;
pub mod url_tree;
pub mod worker;
