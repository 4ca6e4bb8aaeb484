//! Stonktop's watchlist logic: symbols and their shortcuts, the quote
//! ordering, the key map, the application state and every command on it,
//! price alerts, the decisions around fetching quotes, and the configuration
//! values the logic reads. Prices are carried as integer order keys; the
//! terminal, the network, the files and floating-point arithmetic stay with
//! the program that drives this library.
use vstd::prelude::*;

pub mod app;
pub mod clock;
pub mod config;
pub mod csv;
pub mod fetch;
pub mod input;
pub mod laws;
pub mod models;
pub mod sorting;
pub mod symbols;
pub mod text;

verus! {

} // verus!
