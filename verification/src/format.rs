//! The snapshot formats, told apart by the end of a file's name.

use crate::strings::{ends_with, has_suffix};
use vstd::prelude::*;

verus! {

/// The formats in which snapshots come.
#[derive(Clone, Copy, Debug, PartialEq, Eq, Structural)]
pub enum Format {
    /// A gzip-compressed tar archive whose `.jsonl` entries hold one record
    /// per line.
    TarGz,
    /// A gzip-compressed JSON document with the records in the array `items`.
    JsonGz,
    /// A gzip-compressed file with one record per line.
    JsonLinesGz,
}

/// The format that a file called `name` is taken to have: the archive suffix
/// is looked for first, then that of the single document, then that of the
/// line-delimited file.
pub open spec fn format_of(name: Seq<char>) -> Option<Format> {
    if ends_with(name, ".tgz"@) {
        Some(Format::TarGz)
    } else if ends_with(name, ".json.gz"@) {
        Some(Format::JsonGz)
    } else if ends_with(name, ".jsonl.gz"@) {
        Some(Format::JsonLinesGz)
    } else {
        None
    }
}

/// Picks the decoder for a file by its name; `None` for a name that ends in
/// none of the known suffixes.
pub fn detect_format(name: &str) -> (r: Option<Format>)
    ensures
        r == format_of(name@),
{
    if has_suffix(name, ".tgz") {
        Some(Format::TarGz)
    } else if has_suffix(name, ".json.gz") {
        Some(Format::JsonGz)
    } else if has_suffix(name, ".jsonl.gz") {
        Some(Format::JsonLinesGz)
    } else {
        None
    }
}

/// No name has two formats to choose from: the three suffixes exclude one
/// another, so the order in which they are looked for decides nothing.
pub proof fn lemma_suffixes_exclude_one_another(name: Seq<char>)
    ensures
        !(ends_with(name, ".tgz"@) && ends_with(name, ".json.gz"@)),
        !(ends_with(name, ".tgz"@) && ends_with(name, ".jsonl.gz"@)),
        !(ends_with(name, ".json.gz"@) && ends_with(name, ".jsonl.gz"@)),
{
    reveal_strlit(".tgz");
    reveal_strlit(".json.gz");
    reveal_strlit(".jsonl.gz");
    let n = name.len() as int;
    if ends_with(name, ".tgz"@) {
        assert(name.subrange(n - 4, n)[1] == 't');
        if ends_with(name, ".json.gz"@) {
            assert(name.subrange(n - 8, n)[5] == '.');
        }
        if ends_with(name, ".jsonl.gz"@) {
            assert(name.subrange(n - 9, n)[6] == '.');
        }
    }
    if ends_with(name, ".json.gz"@) && ends_with(name, ".jsonl.gz"@) {
        assert(name.subrange(n - 8, n)[4] == 'n');
        assert(name.subrange(n - 9, n)[5] == 'l');
    }
}

} // verus!
