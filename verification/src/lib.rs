//! A verified core for a federated twin-directory crawler.
//!
//! The crate models the engine of a command-line tool that discovers
//! network hosts through a streamed directory search, enriches every
//! discovered host independently (network address, version marker, twin
//! registry), resolves per-twin identity documents through an on-disk
//! cache, and aggregates everything into a printed report or a
//! knowledge-graph export.
//!
//! All decision logic lives here with contracts; the thin driver around
//! it performs the actual network and file traffic.

pub mod commands;
pub mod coordinator;
pub mod graph;
pub mod host_worker;
pub mod json;
pub mod resolver;
pub mod settings;
pub mod text;
