//! Filtering and ranking of candidate lines against a fuzzy query.
pub mod cache;
pub mod command;
pub mod dynamic;
pub mod filter;
pub mod grep;
pub mod matcher;
pub mod rank;
pub mod truncate;
