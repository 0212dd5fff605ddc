//! Scraping of a Bandcamp artist's catalog and the bookkeeping of a
//! multiplexed download of its tracks.
//!
//! Everything in this crate computes on plain values. Fetching pages, moving
//! bytes over sockets and writing files belong to the program that uses it.

pub mod address;
pub mod cli;
pub mod completion;
pub mod error;
pub mod html;
pub mod json;
pub mod logger;
pub mod models;
pub mod multi_dl;
pub mod search;
pub mod spider;
pub mod text;
pub mod utils;
