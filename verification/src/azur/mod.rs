//! Decisions of the Azur Lane commands that work on plain values: paging a search
//! result, and indexing the loaded game data.

pub mod paging;
pub mod index;
