use pardalotus_snapshot_tool::codec::{gunzip, gzip, untar};
use pardalotus_snapshot_tool::format::Format;
use pardalotus_snapshot_tool::json::Record;
use pardalotus_snapshot_tool::lines::line_end;
use pardalotus_snapshot_tool::metadata::dois;
use pardalotus_snapshot_tool::read::{
    decode_archive, decode_contents, decode_document, decode_file, decode_lines, decode_lines_into,
    decode_named, ingest, Failure, Fault, Outcome, SnapshotFile, CHANNEL_CAPACITY,
};
use pardalotus_snapshot_tool::stats::Stats;
use std::io::Write;

fn gz(data: &[u8]) -> Vec<u8> {
    let mut encoder = flate2::write::GzEncoder::new(Vec::new(), flate2::Compression::fast());
    encoder.write_all(data).expect("writing to memory");
    encoder.finish().expect("finishing in memory")
}

fn tarball(entries: &[(&str, &[u8])]) -> Vec<u8> {
    let mut builder = tar::Builder::new(Vec::new());
    for (name, data) in entries {
        let mut header = tar::Header::new_gnu();
        header.set_size(u64::try_from(data.len()).expect("a small entry"));
        header.set_mode(0o644);
        header.set_cksum();
        builder.append_data(&mut header, name, *data).expect("appending in memory");
    }
    builder.into_inner().expect("finishing in memory")
}

fn texts(records: &[Record]) -> Vec<String> {
    records.iter().map(|record| record.to_json()).collect()
}

fn file(name: &str, bytes: Vec<u8>) -> SnapshotFile {
    SnapshotFile { name: String::from(name), bytes }
}

#[test]
fn line_ends_at_the_line_feed_or_at_the_end() {
    assert_eq!(line_end(b"ab\ncd", 0), 2);
    assert_eq!(line_end(b"ab\ncd", 2), 2);
    assert_eq!(line_end(b"ab\ncd", 3), 5);
    assert_eq!(line_end(b"ab\ncd", 5), 5);
    assert_eq!(line_end(b"", 0), 0);
}

#[test]
fn lines_decode_to_one_record_each() {
    let decoded = decode_lines(b"{\"DOI\":\"10.1/a\"}\n{\"doi\":\"10.2/b\"}\n");
    assert_eq!(decoded.outcome, Outcome::Complete);
    assert_eq!(texts(&decoded.records), vec!["{\"DOI\":\"10.1/a\"}", "{\"doi\":\"10.2/b\"}"]);
}

#[test]
fn last_line_needs_no_line_feed() {
    let decoded = decode_lines(b"1\n[2]\n{\"a\":3}");
    assert_eq!(decoded.outcome, Outcome::Complete);
    assert_eq!(texts(&decoded.records), vec!["1", "[2]", "{\"a\":3}"]);
}

#[test]
fn empty_buffer_holds_no_record() {
    let decoded = decode_lines(b"");
    assert_eq!(decoded.outcome, Outcome::Complete);
    assert!(decoded.records.is_empty());
}

#[test]
fn counter_reports_every_line() {
    let mut buffer: Vec<u8> = Vec::new();
    for n in 0..250 {
        buffer.extend_from_slice(format!("{{\"DOI\":\"10.5/{}\"}}\n", n).as_bytes());
    }
    let decoded = decode_lines(&buffer);
    assert_eq!(decoded.outcome, Outcome::Complete);
    assert_eq!(decoded.records.len(), 250);
    let mut stats = Stats::new();
    assert_eq!(stats.observe_all(&decoded.records), 250);
    assert_eq!(stats.count(), 250);
    assert_eq!(stats.report().count, 250);
}

#[test]
fn malformed_line_ends_the_decoding() {
    let decoded = decode_lines(b"{\"a\":1}\n{\"b\":2}\n{\"c\":\n{\"d\":4}\n");
    assert_eq!(decoded.outcome, Outcome::Failed(Fault::Line(2)));
    assert_eq!(texts(&decoded.records), vec!["{\"a\":1}", "{\"b\":2}"]);
}

#[test]
fn empty_line_is_malformed() {
    let decoded = decode_lines(b"{\"a\":1}\n\n{\"b\":2}\n");
    assert_eq!(decoded.outcome, Outcome::Failed(Fault::Line(1)));
    assert_eq!(texts(&decoded.records), vec!["{\"a\":1}"]);
    let decoded = decode_lines(b"\n");
    assert_eq!(decoded.outcome, Outcome::Failed(Fault::Line(0)));
    assert!(decoded.records.is_empty());
}

#[test]
fn lines_are_decoded_onto_the_records_before() {
    let mut records = vec![Record::parse(b"0").expect("a number is JSON")];
    assert!(decode_lines_into(b"1\n2\n", &mut records));
    assert_eq!(texts(&records), vec!["0", "1", "2"]);
    assert!(!decode_lines_into(b"3\nx\n4\n", &mut records));
    assert_eq!(texts(&records), vec!["0", "1", "2", "3"]);
}

#[test]
fn document_gives_its_items() {
    let decoded = decode_document(b"{\"items\":[{\"DOI\":\"10.1/a\"},{\"DOI\":\"10.1/b\"}],\"n\":2}");
    assert_eq!(decoded.outcome, Outcome::Complete);
    assert_eq!(texts(&decoded.records), vec!["{\"DOI\":\"10.1/a\"}", "{\"DOI\":\"10.1/b\"}"]);
    let decoded = decode_document(b"{\"items\":[]}");
    assert_eq!(decoded.outcome, Outcome::Complete);
    assert!(decoded.records.is_empty());
}

#[test]
fn document_without_items_gives_no_record() {
    for document in [
        &b"{\"records\":[1,2]}"[..],
        &b"{}"[..],
        &b"{\"items\":{\"a\":1}}"[..],
        &b"{\"items\":\"none\"}"[..],
        &b"[{\"DOI\":\"10.1/a\"}]"[..],
        &b"17"[..],
    ] {
        let decoded = decode_document(document);
        assert_eq!(decoded.outcome, Outcome::NoItems);
        assert!(decoded.records.is_empty());
        assert!(!decoded.outcome.stops_ingestion());
    }
}

#[test]
fn document_that_is_no_json_fails() {
    let decoded = decode_document(b"{\"items\":[");
    assert_eq!(decoded.outcome, Outcome::Failed(Fault::Document));
    assert!(decoded.records.is_empty());
    assert!(decoded.outcome.stops_ingestion());
}

#[test]
fn gzip_stream_reads_back() {
    let data = b"{\"DOI\":\"10.1/a\"}\n{\"DOI\":\"10.1/a\"}\n{\"DOI\":\"10.1/a\"}\n";
    let stream = gzip(data).expect("compressing in memory");
    assert_ne!(&stream[..], &data[..]);
    assert_eq!(&stream[..2], &[0x1f, 0x8b][..]);
    assert_eq!(gunzip(&stream), Some(data.to_vec()));
    assert_eq!(gunzip(&gzip(b"").expect("compressing in memory")), Some(Vec::new()));
}

#[test]
fn gunzip_reads_a_stream_of_another_level() {
    assert_eq!(gunzip(&gz(b"some bytes")), Some(b"some bytes".to_vec()));
}

#[test]
fn gunzip_refuses_what_is_no_stream() {
    assert_eq!(gunzip(b"{\"DOI\":\"10.1/a\"}\n"), None);
    assert_eq!(gunzip(b""), None);
    let mut cut = gz(b"some bytes that are cut short");
    cut.truncate(cut.len() - 9);
    assert_eq!(gunzip(&cut), None);
}

#[test]
fn untar_gives_the_entries_in_order() {
    let archive = tarball(&[("x.jsonl", b"1\n2\n"), ("dir/y.txt", b"text"), ("empty", b"")]);
    let entries = untar(&archive).expect("a tar archive");
    assert_eq!(entries.len(), 3);
    assert_eq!(entries[0].name, "x.jsonl");
    assert_eq!(entries[0].data, b"1\n2\n");
    assert_eq!(entries[1].name, "dir/y.txt");
    assert_eq!(entries[1].data, b"text");
    assert_eq!(entries[2].name, "empty");
    assert!(entries[2].data.is_empty());
}

#[test]
fn untar_refuses_what_is_no_archive() {
    let noise: Vec<u8> = (0..1024u32).map(|n| u8::try_from(n % 251).expect("below 251") + 1).collect();
    assert!(untar(&noise).is_none());
}

#[test]
fn archive_gives_the_records_of_its_jsonl_entries() {
    let archive = tarball(&[
        ("a/x.jsonl", b"{\"doi\":\"10.2/a\"}\n{\"doi\":\"10.2/b\"}\n"),
        ("a/y.txt", b"not read\n"),
        ("a/z.jsonl", b"{\"doi\":\"10.2/c\"}"),
        ("a/w.jsonl.gz", b"not read either\n"),
    ]);
    let decoded = decode_archive(&untar(&archive).expect("a tar archive"));
    assert_eq!(decoded.outcome, Outcome::Complete);
    assert_eq!(
        texts(&decoded.records),
        vec!["{\"doi\":\"10.2/a\"}", "{\"doi\":\"10.2/b\"}", "{\"doi\":\"10.2/c\"}"]
    );
}

#[test]
fn malformed_entry_ends_the_archive() {
    let archive = tarball(&[
        ("x.jsonl", b"1\n2\n"),
        ("y.jsonl", b"3\noops\n4\n"),
        ("z.jsonl", b"5\n"),
    ]);
    let decoded = decode_archive(&untar(&archive).expect("a tar archive"));
    assert_eq!(decoded.outcome, Outcome::Failed(Fault::Line(3)));
    assert_eq!(texts(&decoded.records), vec!["1", "2", "3"]);
}

#[test]
fn tgz_with_one_jsonl_entry_and_one_other() {
    let archive = tarball(&[
        ("x.jsonl", b"{\"doi\":\"10.2/a\"}\n{\"doi\":\"10.2/b\"}\n"),
        ("y.txt", b"{\"doi\":\"10.2/c\"}\n"),
    ]);
    let decoded = decode_named("snapshot.tgz", &gz(&archive));
    assert_eq!(decoded.outcome, Outcome::Complete);
    assert_eq!(decoded.records.len(), 2);
    assert_eq!(texts(&decoded.records), vec!["{\"doi\":\"10.2/a\"}", "{\"doi\":\"10.2/b\"}"]);
}

#[test]
fn jsonl_gz_with_two_dois() {
    let snapshot = gz(b"{\"DOI\":\"10.1/a\"}\n{\"doi\":\"10.2/b\"}\n");
    let ingested = ingest(&vec![file("in/one.jsonl.gz", snapshot)]);
    assert_eq!(ingested.failure, None);
    assert_eq!(dois(&ingested.records), vec![String::from("10.1/a"), String::from("10.2/b")]);
    let mut stats = Stats::new();
    assert_eq!(stats.observe_all(&ingested.records), 2);
    let report = stats.report();
    assert_eq!(report.count, 2);
    assert_eq!(report.total_doi_chars, 12);
    assert_eq!(report.mode_doi_chars, 6);
    assert_eq!(report.doi_chars_frequencies, vec![(6, 2)]);
}

#[test]
fn each_format_has_its_decoder() {
    let lines = b"{\"items\":[1,2,3]}\n";
    let decoded = decode_contents(Format::JsonLinesGz, lines);
    assert_eq!(texts(&decoded.records), vec!["{\"items\":[1,2,3]}"]);
    let decoded = decode_contents(Format::JsonGz, lines);
    assert_eq!(texts(&decoded.records), vec!["1", "2", "3"]);
    let decoded = decode_contents(Format::TarGz, &tarball(&[("x.jsonl", lines)]));
    assert_eq!(texts(&decoded.records), vec!["{\"items\":[1,2,3]}"]);
}

#[test]
fn each_fault_has_its_input() {
    assert_eq!(decode_file(Format::JsonLinesGz, b"plain").outcome, Outcome::Failed(Fault::Gzip));
    assert_eq!(decode_file(Format::JsonGz, b"plain").outcome, Outcome::Failed(Fault::Gzip));
    assert_eq!(decode_file(Format::TarGz, b"plain").outcome, Outcome::Failed(Fault::Gzip));
    let noise: Vec<u8> = (0..2048u32).map(|n| u8::try_from(n % 200).expect("below 200") + 7).collect();
    assert_eq!(decode_file(Format::TarGz, &gz(&noise)).outcome, Outcome::Failed(Fault::Archive));
    assert_eq!(decode_file(Format::JsonGz, &gz(b"{")).outcome, Outcome::Failed(Fault::Document));
    assert_eq!(
        decode_file(Format::JsonLinesGz, &gz(b"1\n{\n")).outcome,
        Outcome::Failed(Fault::Line(1))
    );
}

#[test]
fn file_of_no_known_name_is_passed_over() {
    let decoded = decode_named("notes.txt", b"whatever it holds");
    assert_eq!(decoded.outcome, Outcome::Complete);
    assert!(decoded.records.is_empty());
}

#[test]
fn files_are_ingested_in_order() {
    let files = vec![
        file("a.json.gz", gz(b"{\"items\":[{\"DOI\":\"10.1/a\"},{\"DOI\":\"10.1/b\"}]}")),
        file("b.json.gz", gz(b"{\"message\":\"no items here\"}")),
        file("c.txt", b"not a snapshot".to_vec()),
        file("d.tgz", gz(&tarball(&[("x.jsonl", b"{\"doi\":\"10.2/c\"}\n")]))),
        file("e.jsonl.gz", gz(b"{\"doi\":\"10.2/d\"}\n")),
    ];
    let ingested = ingest(&files);
    assert_eq!(ingested.failure, None);
    assert_eq!(ingested.without_items, vec![1]);
    assert_eq!(
        dois(&ingested.records),
        vec![
            String::from("10.1/a"),
            String::from("10.1/b"),
            String::from("10.2/c"),
            String::from("10.2/d"),
        ]
    );
}

#[test]
fn ingestion_stops_at_the_first_fault_and_keeps_what_it_has() {
    let files = vec![
        file("a.jsonl.gz", gz(b"1\n2\n")),
        file("b.jsonl.gz", gz(b"3\n4\nfive\n6\n")),
        file("c.jsonl.gz", gz(b"7\n")),
    ];
    let ingested = ingest(&files);
    assert_eq!(ingested.failure, Some(Failure { file: 1, fault: Fault::Line(2) }));
    assert_eq!(texts(&ingested.records), vec!["1", "2", "3", "4"]);
    assert!(ingested.without_items.is_empty());
}

#[test]
fn ingestion_of_no_file() {
    let ingested = ingest(&Vec::new());
    assert_eq!(ingested.failure, None);
    assert!(ingested.records.is_empty());
    assert!(ingested.without_items.is_empty());
}

#[test]
fn channel_holds_ten_records() {
    assert_eq!(CHANNEL_CAPACITY, 10);
}
