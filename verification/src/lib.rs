//! Library for resolving and writing canonical metadata of local audio files.
//!
//! The core pieces are a filename-parsing heuristic that recovers artist and
//! title hints from common naming conventions, a tag codec that reads, merges
//! and writes embedded metadata records, catalog-source parsing for two remote
//! catalogs, a directory-scan classifier, and a collision-safe rename planner.

pub mod config;
pub mod melon;
pub mod models;
pub mod parser;
pub mod renamer;
pub mod scanner;
pub mod sources;
pub mod spotify;
pub mod strutil;
pub mod tagger;
