//! Verified core of a fetch-and-extract installer.
//!
//! A run locates a target directory, fetches an archive over HTTP unless it
//! is on disk already, and extracts it over the target: what exists is left
//! alone, except files of a protected extension, which are always written
//! afresh.
//!
//! The crate decides; its caller performs. Every network, file and archive
//! operation is requested from the caller as an action and answered with an
//! event, so that the order of operations, the overwrite policy and the
//! progress arithmetic are all fixed by verified code.
//!
//! - `pipeline`: the run as a whole, stage after stage.
//! - `locate`: the judgement on what the search for the target found.
//! - `download`: the fetch, from the probe of the destination to the last chunk.
//! - `extract`: the extraction, entry by entry and block by block.
//! - `archive`: the entry list of an opened archive and its total size.
//! - `path`: entry names as paths.
//! - `model`: the destination tree and what an extraction does to it.
//! - `driver`: what an extraction and a truthful caller do together.
//! - `config`, `error`: the settings of a run and the ways it can fail.

pub mod archive;
pub mod config;
pub mod download;
pub mod driver;
pub mod error;
pub mod extract;
pub mod locate;
pub mod model;
pub mod path;
pub mod pipeline;
