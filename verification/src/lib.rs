//! A local mirror of a Google-Reader-compatible feed service: the store of
//! categories, feeds and articles, the requests that the remote service
//! understands, and the steps of one synchronisation cycle.

pub mod article;
pub mod category;
pub mod config;
pub mod cycle;
pub mod db;
pub mod error;
pub mod feed;
pub mod greader;
pub mod ident;
pub mod laws;
pub mod merge;
pub mod model;
pub mod request;
pub mod sync;
pub mod text;
pub mod tree_entry;
pub mod utils;
pub mod views;
