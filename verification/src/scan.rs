//! Choosing the snapshot files among what a walk of the input directory met.

use crate::format::{detect_format, format_of};
use crate::strings::string_views;
use vstd::prelude::*;

verus! {

/// One thing met on the walk through the input directory. The walk goes depth
/// first and reports what it meets in the order in which it meets it.
#[derive(Debug)]
pub enum Visit {
    /// A regular file, with its path.
    File(String),
    /// A directory, with its path.
    Directory(String),
    /// Anything else, with its path.
    Other(String),
    /// A directory that could not be read, with the reason.
    Failed(String),
}

/// Why a scan gave no list of files.
#[derive(Debug)]
pub struct ScanError {
    /// The reason that the walk gave for the directory it could not read.
    pub reason: String,
}

/// Whether `visit` is a regular file whose name ends like a snapshot's.
pub open spec fn is_snapshot(visit: Visit) -> bool {
    match visit {
        Visit::File(path) => format_of(path@) is Some,
        _ => false,
    }
}

/// The paths of the snapshot files among `listing`, in the order of the walk.
pub open spec fn snapshot_paths(listing: Seq<Visit>) -> Seq<Seq<char>>
    decreases listing.len(),
{
    if listing.len() == 0 {
        Seq::empty()
    } else {
        let before = snapshot_paths(listing.drop_last());
        match listing.last() {
            Visit::File(path) => if format_of(path@) is Some {
                before.push(path@)
            } else {
                before
            },
            _ => before,
        }
    }
}

/// The place of the first unreadable directory in `listing`, which is the
/// length of `listing` where every directory could be read.
pub open spec fn first_failure(listing: Seq<Visit>) -> int
    decreases listing.len(),
{
    if listing.len() == 0 {
        0
    } else if listing[0] is Failed {
        0
    } else {
        1 + first_failure(listing.drop_first())
    }
}

/// The first failure is a failure, nothing before it is one, and it lies
/// within the listing or at its end.
pub proof fn lemma_first_failure(listing: Seq<Visit>)
    ensures
        0 <= first_failure(listing) <= listing.len(),
        first_failure(listing) < listing.len() ==> listing[first_failure(listing)] is Failed,
        forall|i: int| 0 <= i < first_failure(listing) ==> !(listing[i] is Failed),
    decreases listing.len(),
{
    if listing.len() > 0 && !(listing[0] is Failed) {
        let rest = listing.drop_first();
        lemma_first_failure(rest);
        assert forall|i: int| 0 <= i < first_failure(listing) implies !(listing[i] is Failed) by {
            if i > 0 {
                assert(rest[i - 1] == listing[i]);
            }
        }
    }
}

/// What a scan of `listing` gives: the reason of the first failure where a
/// directory could not be read, else the snapshot paths.
pub open spec fn scan_result(listing: Seq<Visit>) -> Result<Seq<Seq<char>>, Seq<char>> {
    let at = first_failure(listing);
    if at < listing.len() {
        Err(listing[at]->Failed_0@)
    } else {
        Ok(snapshot_paths(listing))
    }
}

/// `result` is `expected`, each string taken by its view.
pub open spec fn is_scan_result(
    result: Result<Vec<String>, ScanError>,
    expected: Result<Seq<Seq<char>>, Seq<char>>,
) -> bool {
    match result {
        Ok(paths) => expected == Ok::<Seq<Seq<char>>, Seq<char>>(string_views(paths@)),
        Err(error) => expected == Err::<Seq<Seq<char>>, Seq<char>>(error.reason@),
    }
}

/// Picks the snapshot files out of a walk: every regular file whose name ends
/// in a known suffix, in the order of the walk. One directory that could not
/// be read fails the whole scan, and no file is given then.
pub fn find_input_files(listing: &Vec<Visit>) -> (r: Result<Vec<String>, ScanError>)
    ensures
        is_scan_result(r, scan_result(listing@)),
{
    let mut paths: Vec<String> = Vec::new();
    let mut i: usize = 0;
    assert(listing@.skip(0) =~= listing@);
    while i < listing.len()
        invariant
            i <= listing.len(),
            string_views(paths@) == snapshot_paths(listing@.take(i as int)),
            first_failure(listing@) == i + first_failure(listing@.skip(i as int)),
        decreases listing.len() - i,
    {
        proof {
            assert(listing@.take(i + 1).drop_last() =~= listing@.take(i as int));
            assert(listing@.skip(i as int).drop_first() =~= listing@.skip(i + 1));
        }
        match &listing[i] {
            Visit::File(path) => {
                if detect_format(path.as_str()).is_some() {
                    paths.push(path.clone());
                }
            },
            Visit::Failed(reason) => {
                return Err(ScanError { reason: reason.clone() });
            },
            _ => {},
        }
        i += 1;
    }
    Ok(paths)
}

} // verus!
