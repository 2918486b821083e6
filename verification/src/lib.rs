//! Verified core of the gulfi search tool: the search-query language,
//! text normalisation, document metadata checks, SQL text generation and
//! the small state machines used around the database and the embedding
//! provider.

pub mod auth;
pub mod cli;
pub mod commands;
pub mod common;
pub mod datasources;
pub mod embeddings;
pub mod ingest;
pub mod favorites;
pub mod migrations;
pub mod progress;
pub mod query;
pub mod responses;
pub mod search;
pub mod server;
pub mod text;
pub mod tnea;
pub mod ui;

use vstd::prelude::*;

verus! {

} // verus!
