//! A small podcast-feed catalog: a store keeping one record per feed URL,
//! and a fetcher that turns a downloaded feed document into such a record.

pub mod db;
pub mod fetch;
pub mod laws;
pub mod podcast;
