//! The decoders: from the bytes of a snapshot file to its records.

use crate::codec::{entry_views, gunzip, gunzip_of, tar_entries, untar, ArchiveEntry};
use crate::format::{detect_format, format_of, Format};
use crate::json::{json_array_member, json_parse, texts, Record};
use crate::lines::{lemma_line_length, line_end, split_lines};
use crate::strings::{ends_with, has_suffix};
use vstd::prelude::*;
use vstd::slice::slice_subrange;

verus! {

/// Why a file could not be decoded to its end.
#[derive(Clone, Copy, Debug, PartialEq, Eq, Structural)]
pub enum Fault {
    /// The file is no gzip stream.
    Gzip,
    /// The gzip stream holds no tar archive.
    Archive,
    /// The gzip stream holds no JSON document.
    Document,
    /// The line with this number, counted from zero through the file, is no
    /// JSON.
    Line(usize),
}

/// How the decoding of a file ended.
#[derive(Clone, Copy, Debug, PartialEq, Eq, Structural)]
pub enum Outcome {
    /// Every record of the file was decoded.
    Complete,
    /// The document has no array of items: the file gives no record, which
    /// is worth a remark and no more.
    NoItems,
    /// Decoding stopped at a fault; the records before it were decoded.
    Failed(Fault),
}

/// What a file was decoded to.
#[derive(Debug)]
pub struct Decoded {
    /// The records, in the order of the file.
    pub records: Vec<Record>,
    /// How decoding ended.
    pub outcome: Outcome,
}

impl View for Decoded {
    type V = (Seq<Seq<char>>, Outcome);

    /// The compact texts of the records, and the outcome.
    open spec fn view(&self) -> (Seq<Seq<char>>, Outcome) {
        (texts(self.records@), self.outcome)
    }
}

/// The number of lines before the first that is no JSON, which is the number
/// of lines where each of them is JSON.
pub open spec fn first_malformed(lines: Seq<Seq<u8>>) -> int
    decreases lines.len(),
{
    if lines.len() == 0 || json_parse(lines[0]) is None {
        0
    } else {
        1 + first_malformed(lines.drop_first())
    }
}

/// The records of the lines before the first that is no JSON, as compact
/// texts.
pub open spec fn parsed(lines: Seq<Seq<u8>>) -> Seq<Seq<char>> {
    Seq::new(first_malformed(lines) as nat, |i: int| json_parse(lines[i])->Some_0)
}

/// How the decoding of `lines` ends: at the first line that is no JSON, if
/// there is one.
pub open spec fn lines_outcome(lines: Seq<Seq<u8>>) -> Outcome {
    if first_malformed(lines) < lines.len() {
        Outcome::Failed(Fault::Line(first_malformed(lines) as usize))
    } else {
        Outcome::Complete
    }
}

/// The first malformed line is malformed, every line before it is JSON, and
/// it lies among the lines or at their end.
pub proof fn lemma_first_malformed(lines: Seq<Seq<u8>>)
    ensures
        0 <= first_malformed(lines) <= lines.len(),
        first_malformed(lines) < lines.len() ==> json_parse(lines[first_malformed(lines)]) is None,
        forall|i: int| 0 <= i < first_malformed(lines) ==> json_parse(#[trigger] lines[i]) is Some,
    decreases lines.len(),
{
    if lines.len() > 0 && json_parse(lines[0]) is Some {
        let rest = lines.drop_first();
        lemma_first_malformed(rest);
        assert forall|i: int| 0 <= i < first_malformed(lines) implies json_parse(
            #[trigger] lines[i],
        ) is Some by {
            if i > 0 {
                assert(rest[i - 1] == lines[i]);
            }
        }
    }
}

/// Lines that are all JSON give a record each: as many records as there are
/// lines, and decoding reaches the end.
pub proof fn lemma_every_line_gives_a_record(lines: Seq<Seq<u8>>)
    requires
        forall|i: int| 0 <= i < lines.len() ==> json_parse(#[trigger] lines[i]) is Some,
    ensures
        parsed(lines).len() == lines.len(),
        lines_outcome(lines) == Outcome::Complete,
{
    lemma_first_malformed(lines);
}

/// Decoding lines that follow other lines: where the first lines are all
/// JSON, decoding goes on into the later ones; else it ends among the first.
pub proof fn lemma_decoding_goes_on(first: Seq<Seq<u8>>, later: Seq<Seq<u8>>)
    ensures
        first_malformed(first) == first.len() ==> first_malformed(first + later) == first.len()
            + first_malformed(later) && parsed(first + later) == parsed(first) + parsed(later),
        first_malformed(first) < first.len() ==> first_malformed(first + later) == first_malformed(
            first,
        ) && parsed(first + later) == parsed(first),
    decreases first.len(),
{
    lemma_first_malformed(first);
    lemma_first_malformed(later);
    if first.len() > 0 {
        assert((first + later).drop_first() =~= first.drop_first() + later);
        if json_parse(first[0]) is Some {
            lemma_decoding_goes_on(first.drop_first(), later);
        }
    }
}

/// The lines of the entries of an archive that hold records: those of every
/// entry whose path ends in `.jsonl`, in the order of the archive.
pub open spec fn archive_lines(entries: Seq<(Seq<char>, Seq<u8>)>) -> Seq<Seq<u8>>
    decreases entries.len(),
{
    if entries.len() == 0 {
        Seq::empty()
    } else {
        archive_lines(entries.drop_last()) + if ends_with(entries.last().0, ".jsonl"@) {
            split_lines(entries.last().1)
        } else {
            Seq::empty()
        }
    }
}

/// The lines of an archive are the lines of its first entries followed by
/// those of the others.
pub proof fn lemma_archive_lines_concat(
    first: Seq<(Seq<char>, Seq<u8>)>,
    later: Seq<(Seq<char>, Seq<u8>)>,
)
    ensures
        archive_lines(first + later) == archive_lines(first) + archive_lines(later),
    decreases later.len(),
{
    if later.len() > 0 {
        assert((first + later).drop_last() =~= first + later.drop_last());
        lemma_archive_lines_concat(first, later.drop_last());
    }
}

/// What the lines `lines` decode to.
pub open spec fn lines_decoding(lines: Seq<Seq<u8>>) -> (Seq<Seq<char>>, Outcome) {
    (parsed(lines), lines_outcome(lines))
}

/// What the JSON document `document` decodes to: the elements of its array
/// `items`.
pub open spec fn document_decoding(document: Seq<u8>) -> (Seq<Seq<char>>, Outcome) {
    match json_parse(document) {
        Some(text) => match json_array_member(text, "items"@) {
            Some(items) => (items, Outcome::Complete),
            None => (Seq::empty(), Outcome::NoItems),
        },
        None => (Seq::empty(), Outcome::Failed(Fault::Document)),
    }
}

/// What the contents `contents` of a gzip stream decode to in the format
/// `format`.
pub open spec fn contents_decoding(format: Format, contents: Seq<u8>) -> (Seq<Seq<char>>, Outcome) {
    match format {
        Format::TarGz => match tar_entries(contents) {
            Some(entries) => lines_decoding(archive_lines(entries)),
            None => (Seq::empty(), Outcome::Failed(Fault::Archive)),
        },
        Format::JsonGz => document_decoding(contents),
        Format::JsonLinesGz => lines_decoding(split_lines(contents)),
    }
}

/// What the file `file` decodes to in the format `format`.
pub open spec fn file_decoding(format: Format, file: Seq<u8>) -> (Seq<Seq<char>>, Outcome) {
    match gunzip_of(file) {
        Some(contents) => contents_decoding(format, contents),
        None => (Seq::empty(), Outcome::Failed(Fault::Gzip)),
    }
}

/// Decodes the lines of `bytes` one by one onto the end of `records` and
/// stops at the first that is no JSON. Says whether every line was decoded.
pub fn decode_lines_into(bytes: &[u8], records: &mut Vec<Record>) -> (complete: bool)
    ensures
        texts(final(records)@) == texts(old(records)@) + parsed(split_lines(bytes@)),
        complete == (first_malformed(split_lines(bytes@)) == split_lines(bytes@).len()),
{
    let ghost before = records@;
    let ghost lines = split_lines(bytes@);
    let ghost mut done: Seq<Seq<u8>> = Seq::empty();
    let mut start: usize = 0;
    assert(bytes@.skip(0) =~= bytes@);
    while start < bytes.len()
        invariant
            start <= bytes@.len(),
            before == old(records)@,
            lines == split_lines(bytes@),
            lines == done + split_lines(bytes@.skip(start as int)),
            first_malformed(done) == done.len(),
            texts(records@) == texts(before) + parsed(done),
        decreases bytes@.len() - start,
    {
        let end = line_end(bytes, start);
        let line = slice_subrange(bytes, start, end);
        let next = if end < bytes.len() {
            end + 1
        } else {
            end
        };
        let ghost rest = bytes@.skip(start as int);
        let ghost left = split_lines(bytes@.skip(next as int));
        proof {
            lemma_line_length(rest);
            assert(line@ =~= rest.take(end - start));
            if end < bytes.len() {
                assert(rest.skip(end - start + 1) =~= bytes@.skip(next as int));
            }
            assert(split_lines(rest) == seq![line@] + left);
            lemma_decoding_goes_on(done, seq![line@]);
            lemma_decoding_goes_on(done, seq![line@] + left);
            lemma_decoding_goes_on(seq![line@], left);
            assert(done + seq![line@] =~= done.push(line@));
        }
        match Record::parse(line) {
            Some(record) => {
                proof {
                    assert(first_malformed(seq![line@].drop_first()) == 0);
                    assert(texts(before) + parsed(done.push(line@)) =~= (texts(before) + parsed(
                        done,
                    )).push(record@));
                    done = done.push(line@);
                }
                records.push(record);
                start = next;
            },
            None => return false,
        }
    }
    true
}

/// Decodes a buffer that holds one record per line.
pub fn decode_lines(bytes: &[u8]) -> (r: Decoded)
    ensures
        r@ == lines_decoding(split_lines(bytes@)),
{
    let mut records: Vec<Record> = Vec::new();
    let complete = decode_lines_into(bytes, &mut records);
    proof {
        lemma_first_malformed(split_lines(bytes@));
        assert(texts(Seq::<Record>::empty()) + parsed(split_lines(bytes@)) =~= parsed(
            split_lines(bytes@),
        ));
    }
    let outcome = if complete {
        Outcome::Complete
    } else {
        Outcome::Failed(Fault::Line(records.len()))
    };
    Decoded { records, outcome }
}

/// Decodes the entries of an archive: each entry whose path ends in `.jsonl`
/// line by line, in the order of the archive, the other entries not at all.
/// The first line that is no JSON ends the decoding of the whole archive.
pub fn decode_archive(entries: &Vec<ArchiveEntry>) -> (r: Decoded)
    ensures
        r@ == lines_decoding(archive_lines(entry_views(entries@))),
{
    let ghost all = entry_views(entries@);
    let mut records: Vec<Record> = Vec::new();
    let mut i: usize = 0;
    while i < entries.len()
        invariant
            i <= entries.len(),
            all == entry_views(entries@),
            texts(records@) == parsed(archive_lines(all.take(i as int))),
            first_malformed(archive_lines(all.take(i as int))) == archive_lines(
                all.take(i as int),
            ).len(),
        decreases entries.len() - i,
    {
        let ghost seen = archive_lines(all.take(i as int));
        let ghost here = if ends_with(entries@[i as int].name@, ".jsonl"@) {
            split_lines(entries@[i as int].data@)
        } else {
            Seq::<Seq<u8>>::empty()
        };
        proof {
            assert(all.take(i + 1).drop_last() =~= all.take(i as int));
            assert(all =~= all.take(i + 1) + all.skip(i + 1));
            lemma_archive_lines_concat(all.take(i + 1), all.skip(i + 1));
            lemma_decoding_goes_on(seen, here);
            lemma_decoding_goes_on(seen + here, archive_lines(all.skip(i + 1)));
            lemma_first_malformed(here);
            lemma_first_malformed(seen + here);
        }
        if has_suffix(entries[i].name.as_str(), ".jsonl") {
            let complete = decode_lines_into(entries[i].data.as_slice(), &mut records);
            if !complete {
                let line = records.len();
                proof {
                    lemma_first_malformed(archive_lines(all));
                    assert(texts(records@).len() == line);
                }
                return Decoded { records, outcome: Outcome::Failed(Fault::Line(line)) };
            }
        }
        i += 1;
    }
    assert(all.take(entries@.len() as int) =~= all);
    Decoded { records, outcome: Outcome::Complete }
}

/// Decodes a JSON document: its records are the elements of the array that
/// it holds under `items`. A document without such an array gives no record
/// and is no failure.
pub fn decode_document(document: &[u8]) -> (r: Decoded)
    ensures
        r@ == document_decoding(document@),
{
    match Record::parse(document) {
        Some(whole) => match whole.array_member("items") {
            Some(records) => Decoded { records, outcome: Outcome::Complete },
            None => Decoded { records: Vec::new(), outcome: Outcome::NoItems },
        },
        None => Decoded { records: Vec::new(), outcome: Outcome::Failed(Fault::Document) },
    }
}

/// Decodes the contents of a gzip stream in the given format.
pub fn decode_contents(format: Format, contents: &[u8]) -> (r: Decoded)
    ensures
        r@ == contents_decoding(format, contents@),
{
    match format {
        Format::TarGz => match untar(contents) {
            Some(entries) => decode_archive(&entries),
            None => Decoded { records: Vec::new(), outcome: Outcome::Failed(Fault::Archive) },
        },
        Format::JsonGz => decode_document(contents),
        Format::JsonLinesGz => decode_lines(contents),
    }
}

/// Decodes a snapshot file of the given format.
pub fn decode_file(format: Format, file: &[u8]) -> (r: Decoded)
    ensures
        r@ == file_decoding(format, file@),
{
    match gunzip(file) {
        Some(contents) => decode_contents(format, contents.as_slice()),
        None => Decoded { records: Vec::new(), outcome: Outcome::Failed(Fault::Gzip) },
    }
}

/// What the file called `name` decodes to: a name that ends in no known
/// suffix gives no record and is no failure.
pub open spec fn named_decoding(name: Seq<char>, file: Seq<u8>) -> (Seq<Seq<char>>, Outcome) {
    match format_of(name) {
        Some(format) => file_decoding(format, file),
        None => (Seq::empty(), Outcome::Complete),
    }
}

/// Decodes a file with the decoder that its name asks for. A file whose name
/// asks for none is passed over in silence.
pub fn decode_named(name: &str, file: &[u8]) -> (r: Decoded)
    ensures
        r@ == named_decoding(name@, file@),
{
    match detect_format(name) {
        Some(format) => decode_file(format, file),
        None => Decoded { records: Vec::new(), outcome: Outcome::Complete },
    }
}

impl Outcome {
    /// Whether no further file is to be read after a file that ended so.
    pub fn stops_ingestion(&self) -> (r: bool)
        ensures
            r == (*self is Failed),
    {
        match self {
            Outcome::Failed(_) => true,
            _ => false,
        }
    }

    /// Whether a run remarks on a file that ended so: on a document without
    /// items, and only where it was asked to tell of its progress.
    pub fn worth_a_remark(&self, verbose: bool) -> (r: bool)
        ensures
            r == (verbose && *self is NoItems),
    {
        match self {
            Outcome::NoItems => verbose,
            _ => false,
        }
    }
}

/// The number of records that may wait between the reader and the consumer.
pub const CHANNEL_CAPACITY: usize = 10;

/// A snapshot file as it was read: its name and its bytes.
#[derive(Debug)]
pub struct SnapshotFile {
    /// The path of the file.
    pub name: String,
    /// What the file holds.
    pub bytes: Vec<u8>,
}

/// The fault that ended an ingestion, with the place of the file among the
/// files given.
#[derive(Clone, Copy, Debug, PartialEq, Eq, Structural)]
pub struct Failure {
    /// The number of the file, counted from zero.
    pub file: usize,
    /// What was wrong with it.
    pub fault: Fault,
}

/// What a list of files was ingested to.
#[derive(Debug)]
pub struct Ingested {
    /// The records in the order in which they were decoded.
    pub records: Vec<Record>,
    /// The numbers of the files that had no array of items.
    pub without_items: Vec<usize>,
    /// The fault at which ingestion stopped, if it did not reach the end.
    pub failure: Option<Failure>,
}

impl View for Ingested {
    type V = (Seq<Seq<char>>, Seq<usize>, Option<Failure>);

    open spec fn view(&self) -> (Seq<Seq<char>>, Seq<usize>, Option<Failure>) {
        (texts(self.records@), self.without_items@, self.failure)
    }
}

/// What `file` decodes to.
pub open spec fn decoding_of(file: SnapshotFile) -> (Seq<Seq<char>>, Outcome) {
    named_decoding(file.name@, file.bytes@)
}

/// The number of files before the first whose decoding fails, which is the
/// number of files where none fails.
pub open spec fn failing_file(files: Seq<SnapshotFile>) -> int
    decreases files.len(),
{
    if files.len() == 0 || decoding_of(files[0]).1 is Failed {
        0
    } else {
        1 + failing_file(files.drop_first())
    }
}

/// The records of `files`, file after file.
pub open spec fn records_of(files: Seq<SnapshotFile>) -> Seq<Seq<char>>
    decreases files.len(),
{
    if files.len() == 0 {
        Seq::empty()
    } else {
        records_of(files.drop_last()) + decoding_of(files.last()).0
    }
}

/// The places among `files` of the files without an array of items.
pub open spec fn files_without_items(files: Seq<SnapshotFile>) -> Seq<usize>
    decreases files.len(),
{
    if files.len() == 0 {
        Seq::empty()
    } else {
        let before = files_without_items(files.drop_last());
        if decoding_of(files.last()).1 is NoItems {
            before.push((files.len() - 1) as usize)
        } else {
            before
        }
    }
}

/// What `files` are ingested to: the files are decoded one after the other,
/// up to and with the first whose decoding fails.
pub open spec fn ingestion(files: Seq<SnapshotFile>) -> (
    Seq<Seq<char>>,
    Seq<usize>,
    Option<Failure>,
) {
    let stop = failing_file(files);
    if stop < files.len() {
        let read = files.take(stop + 1);
        (
            records_of(read),
            files_without_items(read),
            Some(Failure { file: stop as usize, fault: decoding_of(files[stop]).1->Failed_0 }),
        )
    } else {
        (records_of(files), files_without_items(files), None)
    }
}

/// The first failing file fails, no file before it does, and it lies among
/// the files or at their end.
pub proof fn lemma_failing_file(files: Seq<SnapshotFile>)
    ensures
        0 <= failing_file(files) <= files.len(),
        failing_file(files) < files.len() ==> decoding_of(files[failing_file(files)]).1 is Failed,
        forall|i: int|
            0 <= i < failing_file(files) ==> !(decoding_of(#[trigger] files[i]).1 is Failed),
    decreases files.len(),
{
    if files.len() > 0 && !(decoding_of(files[0]).1 is Failed) {
        let rest = files.drop_first();
        lemma_failing_file(rest);
        assert forall|i: int| 0 <= i < failing_file(files) implies !(decoding_of(
            #[trigger] files[i],
        ).1 is Failed) by {
            if i > 0 {
                assert(rest[i - 1] == files[i]);
            }
        }
    }
}

/// Decodes the files in the order given and gathers their records. A file
/// whose decoding fails is the last one read: the records decoded before the
/// fault are kept, those of later files are never looked at.
pub fn ingest(files: &Vec<SnapshotFile>) -> (r: Ingested)
    ensures
        r@ == ingestion(files@),
{
    let mut records: Vec<Record> = Vec::new();
    let mut without_items: Vec<usize> = Vec::new();
    let mut i: usize = 0;
    assert(files@.skip(0) =~= files@);
    while i < files.len()
        invariant
            i <= files.len(),
            failing_file(files@) == i + failing_file(files@.skip(i as int)),
            texts(records@) == records_of(files@.take(i as int)),
            without_items@ == files_without_items(files@.take(i as int)),
        decreases files.len() - i,
    {
        proof {
            assert(files@.take(i + 1).drop_last() =~= files@.take(i as int));
            assert(files@.skip(i as int).drop_first() =~= files@.skip(i + 1));
        }
        let Decoded { records: mut found, outcome } = decode_named(
            files[i].name.as_str(),
            files[i].bytes.as_slice(),
        );
        records.append(&mut found);
        match outcome {
            Outcome::Failed(fault) => {
                return Ingested {
                    records,
                    without_items,
                    failure: Some(Failure { file: i, fault }),
                };
            },
            Outcome::NoItems => {
                without_items.push(i);
            },
            Outcome::Complete => {},
        }
        i += 1;
    }
    Ingested { records, without_items, failure: None }
}

} // verus!
