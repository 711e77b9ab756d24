//! What a run was asked to do, and what it may do.

use crate::scan::{find_input_files, scan_result, ScanError, Visit};
use crate::strings::string_views;
use vstd::prelude::*;

verus! {

/// A path: as it was written, and taken apart into its components.
#[derive(Debug)]
pub struct FilePath {
    /// The path as it was given.
    pub text: String,
    /// The components of the path, outermost first.
    pub components: Vec<String>,
}

/// The options of a run.
#[derive(Debug)]
pub struct Options {
    /// Show the version.
    pub version: bool,
    /// List the snapshot files found in the input directory.
    pub list_input_files: bool,
    /// The directory that holds the snapshot files.
    pub input: Option<FilePath>,
    /// Report statistics of the records.
    pub stats: bool,
    /// Tell of progress on the error stream.
    pub verbose: bool,
    /// Write all records to this file.
    pub output_file: Option<FilePath>,
    /// Print the DOI of every record.
    pub print_dois: bool,
}

/// One of the things a run can do.
#[derive(Clone, Copy, Debug, PartialEq, Eq, Structural)]
pub enum Task {
    /// Print the version.
    ShowVersion,
    /// Print the paths of the snapshot files.
    ListInputFiles,
    /// Print the statistics of the records.
    Stats,
    /// Print the DOIs of the records.
    PrintDois,
    /// Write the records to the output file.
    WriteOutput,
}

/// Why a run cannot do what it was asked to do.
#[derive(Debug)]
pub enum UsageError {
    /// No input directory was given.
    MissingInput,
    /// The input directory could not be scanned.
    Scan(ScanError),
    /// The output file lies in the input directory.
    OutputInsideInput,
}

/// `task`, where `wanted`; nothing otherwise.
pub open spec fn when(wanted: bool, task: Task) -> Seq<Task> {
    if wanted {
        seq![task]
    } else {
        Seq::empty()
    }
}

/// The tasks that `options` ask for, in the order in which a run does them.
pub open spec fn tasks_of(options: Options) -> Seq<Task> {
    when(options.version, Task::ShowVersion) + when(
        options.list_input_files,
        Task::ListInputFiles,
    ) + when(options.stats, Task::Stats) + when(options.print_dois, Task::PrintDois) + when(
        options.output_file is Some,
        Task::WriteOutput,
    )
}

/// The tasks of a run, in the order in which it does them. A task that fails
/// ends the run: the tasks after it are not begun.
pub fn tasks(options: &Options) -> (r: Vec<Task>)
    ensures
        r@ == tasks_of(*options),
{
    let mut r: Vec<Task> = Vec::new();
    if options.version {
        r.push(Task::ShowVersion);
    }
    if options.list_input_files {
        r.push(Task::ListInputFiles);
    }
    if options.stats {
        r.push(Task::Stats);
    }
    if options.print_dois {
        r.push(Task::PrintDois);
    }
    if options.output_file.is_some() {
        r.push(Task::WriteOutput);
    }
    r
}

/// What `expect_input_files` gives for `options` and `listing`: the text of
/// the input directory with the snapshot paths, or the reason why there is
/// none.
pub open spec fn is_expected_input(
    result: Result<(String, Vec<String>), UsageError>,
    options: Options,
    listing: Seq<Visit>,
) -> bool {
    match options.input {
        None => result matches Err(UsageError::MissingInput),
        Some(input) => match scan_result(listing) {
            Ok(paths) => result matches Ok((text, files)) && text@ == input.text@ && string_views(
                files@,
            ) == paths,
            Err(reason) => result matches Err(UsageError::Scan(error)) && error.reason@ == reason,
        },
    }
}

/// The input directory and the snapshot files found in it, given what the
/// walk of that directory met. Fails where no input directory was given or
/// the walk met a directory that it could not read.
pub fn expect_input_files(options: &Options, listing: &Vec<Visit>) -> (r: Result<
    (String, Vec<String>),
    UsageError,
>)
    ensures
        is_expected_input(r, *options, listing@),
{
    match &options.input {
        Some(input) => match find_input_files(listing) {
            Ok(files) => Ok((input.text.clone(), files)),
            Err(error) => Err(UsageError::Scan(error)),
        },
        None => Err(UsageError::MissingInput),
    }
}

/// `path` is `base` or lies under it: the components of `base` are the first
/// components of `path`.
pub open spec fn lies_within(path: Seq<Seq<char>>, base: Seq<Seq<char>>) -> bool {
    base.len() <= path.len() && forall|i: int| 0 <= i < base.len() ==> path[i] == base[i]
}

impl FilePath {
    /// Whether the path is `base` or lies under it, by whole components.
    pub fn starts_with(&self, base: &FilePath) -> (r: bool)
        ensures
            r == lies_within(string_views(self.components@), string_views(base.components@)),
    {
        if base.components.len() > self.components.len() {
            return false;
        }
        let mut i: usize = 0;
        while i < base.components.len()
            invariant
                i <= base.components.len() <= self.components.len(),
                forall|k: int|
                    0 <= k < i ==> string_views(self.components@)[k] == string_views(
                        base.components@,
                    )[k],
            decreases base.components.len() - i,
        {
            if self.components[i] != base.components[i] {
                assert(string_views(self.components@)[i as int] != string_views(
                    base.components@,
                )[i as int]);
                return false;
            }
            i += 1;
        }
        true
    }
}

/// What `plan_output` gives: the snapshot paths to read, where the input is
/// there and the output file lies outside of it.
pub open spec fn is_output_plan(
    result: Result<Vec<String>, UsageError>,
    options: Options,
    output_file: FilePath,
    listing: Seq<Visit>,
) -> bool {
    match options.input {
        None => result matches Err(UsageError::MissingInput),
        Some(input) => match scan_result(listing) {
            Ok(paths) => if lies_within(
                string_views(output_file.components@),
                string_views(input.components@),
            ) {
                result matches Err(UsageError::OutputInsideInput)
            } else {
                result matches Ok(files) && string_views(files@) == paths
            },
            Err(reason) => result matches Err(UsageError::Scan(error)) && error.reason@ == reason,
        },
    }
}

/// Decides whether the records may be written to `output_file`, before a
/// byte is written: never into the input directory or below it, where a
/// later run would read the file as a snapshot. Gives the snapshot files to
/// read where writing may begin.
pub fn plan_output(options: &Options, output_file: &FilePath, listing: &Vec<Visit>) -> (r: Result<
    Vec<String>,
    UsageError,
>)
    ensures
        is_output_plan(r, *options, *output_file, listing@),
        options.input matches Some(input) && lies_within(
            string_views(output_file.components@),
            string_views(input.components@),
        ) ==> r is Err,
{
    match &options.input {
        Some(input) => match find_input_files(listing) {
            Ok(files) => {
                if output_file.starts_with(input) {
                    Err(UsageError::OutputInsideInput)
                } else {
                    Ok(files)
                }
            },
            Err(error) => Err(UsageError::Scan(error)),
        },
        None => Err(UsageError::MissingInput),
    }
}

/// After how many records a run tells of its progress.
pub const PROGRESS_INTERVAL: usize = 10000;

/// Whether a run that has handled `count` records tells of its progress now.
pub fn progress_due(verbose: bool, count: usize) -> (r: bool)
    ensures
        r == (verbose && count % PROGRESS_INTERVAL == 0),
{
    verbose && count % PROGRESS_INTERVAL == 0
}

} // verus!
