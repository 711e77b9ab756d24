use pardalotus_snapshot_tool::codec::gunzip;
use pardalotus_snapshot_tool::format::Format;
use pardalotus_snapshot_tool::json::Record;
use pardalotus_snapshot_tool::read::{decode_file, decode_named, Outcome};
use pardalotus_snapshot_tool::write::Writer;

fn json(text: &str) -> Record {
    Record::parse(text.as_bytes()).expect("the text is JSON")
}

#[test]
fn writer_writes_one_line_for_each_record() {
    let mut writer = Writer::new();
    assert_eq!(writer.count(), 0);
    assert!(writer.bytes().is_empty());
    writer.write(&json("{ \"DOI\": \"10.1/a\" }"));
    writer.write(&json("[1, 2,\n 3]"));
    assert_eq!(writer.count(), 2);
    assert_eq!(&writer.bytes()[..], &b"{\"DOI\":\"10.1/a\"}\n[1,2,3]\n"[..]);
}

#[test]
fn writer_keeps_a_line_feed_inside_a_string_escaped() {
    let mut writer = Writer::new();
    writer.write(&json("{\"title\":\"two\\nlines\"}"));
    assert_eq!(&writer.bytes()[..], &b"{\"title\":\"two\\nlines\"}\n"[..]);
}

#[test]
fn written_file_is_a_gzip_stream_of_the_lines() {
    let mut writer = Writer::new();
    writer.write(&json("{\"doi\":\"10.2/b\"}"));
    writer.write(&json("{\"doi\":\"10.2/c\"}"));
    let file = writer.finish().expect("compressing in memory");
    assert_eq!(gunzip(&file), Some(b"{\"doi\":\"10.2/b\"}\n{\"doi\":\"10.2/c\"}\n".to_vec()));
}

#[test]
fn written_file_of_no_record() {
    let file = Writer::new().finish().expect("compressing in memory");
    assert_eq!(gunzip(&file), Some(Vec::new()));
    let decoded = decode_file(Format::JsonLinesGz, &file);
    assert_eq!(decoded.outcome, Outcome::Complete);
    assert!(decoded.records.is_empty());
}

#[test]
fn written_records_read_back_the_same_in_the_same_order() {
    let texts = [
        "{\"DOI\":\"10.1/a\",\"title\":[\"A\",\"B\"],\"n\":{\"deep\":[1,2,{\"x\":null}]}}",
        "{\"doi\":\"10.2/\u{e9}\u{4e2d}\",\"score\":-12,\"ratio\":0.5,\"flag\":true}",
        "\"just a string with \\\"quotes\\\" and a \\n line feed\"",
        "[]",
        "{}",
        "18446744073709551615",
        "{\"DOI\":\"10.1/a\"}",
    ];
    let mut writer = Writer::new();
    for text in texts {
        writer.write(&json(text));
    }
    let file = writer.finish().expect("compressing in memory");
    let decoded = decode_named("out.jsonl.gz", &file);
    assert_eq!(decoded.outcome, Outcome::Complete);
    assert_eq!(decoded.records.len(), texts.len());
    for (record, text) in decoded.records.iter().zip(texts) {
        assert_eq!(record.to_json(), json(text).to_json());
    }
}

#[test]
fn number_of_many_digits_is_read_back_as_another() {
    let mut writer = Writer::new();
    writer.write(&json("1.0715660391465826e-75"));
    writer.write(&json("{\"DOI\":\"10.1/a\"}"));
    assert_eq!(&writer.bytes()[..], &b"1.0715660391465825e-75\n{\"DOI\":\"10.1/a\"}\n"[..]);
    let file = writer.finish().expect("compressing in memory");
    let decoded = decode_named("out.jsonl.gz", &file);
    assert_eq!(decoded.outcome, Outcome::Complete);
    assert_eq!(decoded.records.len(), 2);
    assert_eq!(decoded.records[0].to_json(), "1.0715660391465823e-75");
    assert_eq!(decoded.records[1].to_json(), "{\"DOI\":\"10.1/a\"}");
}

#[test]
fn line_is_written_with_a_line_feed_after_it() {
    let mut writer = Writer::new();
    writer.write_line("first");
    writer.write_line("");
    writer.write_line("caf\u{e9}");
    assert_eq!(writer.count(), 3);
    assert_eq!(&writer.bytes()[..], &b"first\n\ncaf\xc3\xa9\n"[..]);
}
