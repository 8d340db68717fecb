//! # Summa
//!
//! Structured summaries of web pages, kept in two stores: a record store
//! that holds the summaries themselves, one for each URL, and a search index
//! over their texts that follows the record store as well as it can and can
//! be rebuilt from it. A query is answered from the index where that is
//! possible and by a scan of the record store where it is not.
//!
//! - [`storage`] is the record store, [`codec`] the encoding of its records,
//!   [`keys`] the keys they are stored under and [`listing`] their order.
//! - [`search`] is the search index, [`ingest`] writes to both stores and
//!   [`resolver`] answers queries.
//! - [`laws`] states what holds of the stores whatever they contain.
//! - [`summary`], [`config`], [`agent`], [`scraper`], [`ui`] and [`text`]
//!   hold the summary itself and what the application around the stores
//!   computes: settings, prompts, the text of pages and the state of the
//!   terminal interface.

pub mod agent;
pub mod codec;
pub mod config;
pub mod db;
pub mod ingest;
pub mod keys;
pub mod laws;
pub mod listing;
pub mod resolver;
pub mod scraper;
pub mod search;
pub mod storage;
pub mod summary;
pub mod text;
pub mod ui;

pub use config::Config;
pub use db::{SearchIndex, Storage};
pub use summary::Summary;
