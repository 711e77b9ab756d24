//! The containers that snapshots travel in: gzip streams and tar archives.
//!
//! Both are the work of outside crates, `flate2` and `tar`. What they give
//! for given bytes is named here, not described.

use std::io::{Read, Write};
use vstd::prelude::*;

verus! {

#[verifier::external_type_specification]
#[verifier::external_body]
pub struct ExIoError(std::io::Error);

/// The level at which files are compressed: the highest of the scale from
/// zero to nine, which gives the smallest files.
pub const BEST_COMPRESSION: u32 = 9;

/// The gzip stream that `flate2` writes into memory for `data` at the
/// compression level `level`, or `None` where it reports an error.
pub uninterp spec fn gzip_of(data: Seq<u8>, level: u32) -> Option<Seq<u8>>;

/// What `flate2` reads out of the gzip stream `stream`, or `None` where it
/// reports an error.
pub uninterp spec fn gunzip_of(stream: Seq<u8>) -> Option<Seq<u8>>;

/// The entries that `tar` finds in `archive`, each with its path and its
/// contents, in the order of the archive; `None` where it reports an error.
/// A path that is no UTF-8 is given with the replacement character in the
/// place of what is none.
pub uninterp spec fn tar_entries(archive: Seq<u8>) -> Option<Seq<(Seq<char>, Seq<u8>)>>;

/// One entry of a tar archive.
#[derive(Debug)]
pub struct ArchiveEntry {
    /// The path that the archive gives the entry.
    pub name: String,
    /// What the entry holds.
    pub data: Vec<u8>,
}

/// The entries of `entries` as pairs of path and contents.
pub open spec fn entry_views(entries: Seq<ArchiveEntry>) -> Seq<(Seq<char>, Seq<u8>)> {
    entries.map_values(|entry: ArchiveEntry| (entry.name@, entry.data@))
}

/// Writes `data` through `flate2::write::GzEncoder` into memory at the given
/// level, one of the scale from zero to nine, and finishes the stream.
/// Trusted: the outcome depends on the data and the level alone, so it is
/// named by `gzip_of`; and reading a stream that was written gives `data`
/// back, gzip being lossless. That the encoder succeeds is not claimed.
#[verifier::external_body]
fn gz_encode(data: &[u8], level: u32) -> (r: Result<Vec<u8>, std::io::Error>)
    requires
        level <= 9,
    ensures
        r matches Ok(stream) ==> gzip_of(data@, level) == Some(stream@) && gunzip_of(stream@)
            == Some(data@),
        r is Err ==> gzip_of(data@, level) is None,
{
    let mut encoder = flate2::write::GzEncoder::new(Vec::new(), flate2::Compression::new(level));
    encoder.write_all(data)?;
    encoder.finish()
}

/// Reads `stream` to its end through `flate2::read::GzDecoder`. Trusted: the
/// outcome depends on the bytes alone, so it is named by `gunzip_of`.
#[verifier::external_body]
fn gz_decode(stream: &[u8]) -> (r: Result<Vec<u8>, std::io::Error>)
    ensures
        match r {
            Ok(data) => gunzip_of(stream@) == Some(data@),
            Err(_) => gunzip_of(stream@) is None,
        },
{
    let mut data = Vec::new();
    flate2::read::GzDecoder::new(stream).read_to_end(&mut data).map(|_| data)
}

/// Walks `archive` with `tar::Archive::entries` and reads every entry to its
/// end. Trusted: the outcome depends on the bytes alone, so it is named by
/// `tar_entries`.
#[verifier::external_body]
fn tar_read(archive: &[u8]) -> (r: Result<Vec<ArchiveEntry>, std::io::Error>)
    ensures
        match r {
            Ok(entries) => tar_entries(archive@) == Some(entry_views(entries@)),
            Err(_) => tar_entries(archive@) is None,
        },
{
    let mut entries = Vec::new();
    for entry in tar::Archive::new(archive).entries()? {
        let mut entry = entry?;
        let name = String::from_utf8_lossy(&entry.path_bytes()).into_owned();
        let mut data = Vec::new();
        entry.read_to_end(&mut data)?;
        entries.push(ArchiveEntry { name, data });
    }
    Ok(entries)
}

/// Compresses `data` into one gzip stream at the best compression level:
/// the stream that the encoder writes for it, which reads back as `data`,
/// and `None` exactly where the encoder reports an error.
pub fn gzip(data: &[u8]) -> (r: Option<Vec<u8>>)
    ensures
        match r {
            Some(stream) => gzip_of(data@, BEST_COMPRESSION) == Some(stream@) && gunzip_of(
                stream@,
            ) == Some(data@),
            None => gzip_of(data@, BEST_COMPRESSION) is None,
        },
{
    match gz_encode(data, BEST_COMPRESSION) {
        Ok(stream) => Some(stream),
        Err(_) => None,
    }
}

/// Reads a gzip stream; `None` where `stream` is none.
pub fn gunzip(stream: &[u8]) -> (r: Option<Vec<u8>>)
    ensures
        match r {
            Some(data) => gunzip_of(stream@) == Some(data@),
            None => gunzip_of(stream@) is None,
        },
{
    match gz_decode(stream) {
        Ok(data) => Some(data),
        Err(_) => None,
    }
}

/// Reads the entries of a tar archive; `None` where `archive` is none.
pub fn untar(archive: &[u8]) -> (r: Option<Vec<ArchiveEntry>>)
    ensures
        match r {
            Some(entries) => tar_entries(archive@) == Some(entry_views(entries@)),
            None => tar_entries(archive@) is None,
        },
{
    match tar_read(archive) {
        Ok(entries) => Some(entries),
        Err(_) => None,
    }
}

} // verus!
