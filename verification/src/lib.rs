//! Ingestion of bibliographic metadata snapshots.
//!
//! A snapshot comes as files of three kinds, told apart by their names: a
//! gzip-compressed JSON document with an array of items, a gzip-compressed
//! tar archive of line-delimited JSON files, and a gzip-compressed file of
//! line-delimited JSON. The library picks the snapshot files out of a walk
//! of a directory ([`scan`]), chooses the decoder by the name ([`format`]),
//! decodes files to records ([`read`]), looks up the DOI of a record
//! ([`metadata`]), keeps statistics over the records in one pass
//! ([`stats`], [`histogram`]) and writes records out again as one
//! compressed file of line-delimited JSON ([`write`]).
//!
//! The library touches no file. It takes bytes and gives bytes; reading,
//! writing, threads and printing are for the program around it, which asks
//! [`cli`] what to do and in which order.
//!
//! JSON, gzip and tar are the work of `serde_json`, `flate2` and `tar`. The
//! calls into them stand in [`json`] and [`codec`], each with a contract that
//! is believed and not proved; all else is proved from those.

pub mod cli;
pub mod codec;
pub mod format;
pub mod histogram;
pub mod json;
pub mod lines;
pub mod metadata;
pub mod read;
pub mod scan;
pub mod stats;
pub mod strings;
pub mod write;
