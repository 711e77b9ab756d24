use pardalotus_snapshot_tool::json::Record;
use pardalotus_snapshot_tool::metadata::{choose_doi, dois, get_doi_from_record};

fn record(text: &str) -> Record {
    Record::parse(text.as_bytes()).expect("the text is JSON")
}

#[test]
fn record_text_is_compact() {
    let parsed = record("{ \"DOI\" : \"10.1/a\" ,\n \"n\" : [ 1 , 2.5 , null , true ] }");
    assert_eq!(parsed.to_json(), "{\"DOI\":\"10.1/a\",\"n\":[1,2.5,null,true]}");
}

#[test]
fn record_text_has_no_line_feed() {
    let parsed = record("{\"title\":\"two\\nlines\"}");
    let text = parsed.to_json();
    assert_eq!(text, "{\"title\":\"two\\nlines\"}");
    assert!(!text.contains('\n'));
}

#[test]
fn malformed_text_is_no_record() {
    assert!(Record::parse(b"{\"DOI\":").is_none());
    assert!(Record::parse(b"").is_none());
    assert!(Record::parse(b"   ").is_none());
    assert!(Record::parse(b"{} {}").is_none());
}

#[test]
fn text_member_of_an_object() {
    let parsed = record("{\"a\":\"x\",\"b\":7,\"c\":{\"a\":\"inner\"}}");
    assert_eq!(parsed.text_member("a"), Some(String::from("x")));
    assert_eq!(parsed.text_member("b"), None);
    assert_eq!(parsed.text_member("c"), None);
    assert_eq!(parsed.text_member("d"), None);
}

#[test]
fn text_member_of_what_is_no_object() {
    assert_eq!(record("[\"a\"]").text_member("a"), None);
    assert_eq!(record("\"a\"").text_member("a"), None);
    assert_eq!(record("null").text_member("a"), None);
}

#[test]
fn array_member_gives_the_elements_in_order() {
    let parsed = record("{\"items\":[{\"DOI\":\"10.1/a\"},3,\"s\"],\"other\":1}");
    let items = parsed.array_member("items").expect("items is an array");
    assert_eq!(items.len(), 3);
    assert_eq!(items[0].to_json(), "{\"DOI\":\"10.1/a\"}");
    assert_eq!(items[1].to_json(), "3");
    assert_eq!(items[2].to_json(), "\"s\"");
    assert!(parsed.array_member("other").is_none());
    assert!(parsed.array_member("absent").is_none());
}

#[test]
fn doi_under_the_upper_case_key() {
    assert_eq!(get_doi_from_record(&record("{\"DOI\":\"10.1/a\"}")), Some(String::from("10.1/a")));
}

#[test]
fn doi_under_the_lower_case_key() {
    assert_eq!(get_doi_from_record(&record("{\"doi\":\"10.2/b\"}")), Some(String::from("10.2/b")));
}

#[test]
fn upper_case_key_is_looked_up_first() {
    let both = record("{\"doi\":\"10.2/b\",\"DOI\":\"10.1/a\"}");
    assert_eq!(get_doi_from_record(&both), Some(String::from("10.1/a")));
}

#[test]
fn doi_that_is_no_string_is_passed_over() {
    let mixed = record("{\"DOI\":17,\"doi\":\"10.2/b\"}");
    assert_eq!(get_doi_from_record(&mixed), Some(String::from("10.2/b")));
    assert_eq!(get_doi_from_record(&record("{\"DOI\":null}")), None);
}

#[test]
fn doi_lookup_never_fails() {
    assert_eq!(get_doi_from_record(&record("{}")), None);
    assert_eq!(get_doi_from_record(&record("{\"title\":\"t\"}")), None);
    assert_eq!(get_doi_from_record(&record("[1,2]")), None);
    assert_eq!(get_doi_from_record(&record("\"DOI\"")), None);
    assert_eq!(get_doi_from_record(&record("12")), None);
    assert_eq!(get_doi_from_record(&record("null")), None);
}

#[test]
fn dois_of_records_in_order() {
    let records = vec![
        record("{\"DOI\":\"10.1/a\"}"),
        record("{\"title\":\"none\"}"),
        record("{\"doi\":\"10.2/b\"}"),
    ];
    assert_eq!(dois(&records), vec![String::from("10.1/a"), String::from("10.2/b")]);
    assert_eq!(dois(&Vec::new()), Vec::<String>::new());
}

#[test]
fn record_reads_back() {
    let mixed = "{\"DOI\":\"10.1/a\",\"n\":[1,-2,0.5,1e300,null,true],\"s\":\"\\u00e9\\n\"}";
    assert!(record(mixed).reads_back());
    assert!(record("18446744073709551615").reads_back());
    assert!(record("\"\"").reads_back());
}

#[test]
fn number_of_many_digits_does_not_read_back() {
    let parsed = record("{\"ratio\":1.0715660391465826e-75}");
    assert_eq!(parsed.to_json(), "{\"ratio\":1.0715660391465825e-75}");
    assert!(!parsed.reads_back());
}

#[test]
fn first_candidate_is_chosen_where_it_is_there() {
    let upper = Some(String::from("10.1/a"));
    let lower = Some(String::from("10.2/b"));
    assert_eq!(choose_doi(upper.clone(), lower.clone()), upper);
    assert_eq!(choose_doi(upper.clone(), None), upper);
    assert_eq!(choose_doi(None, lower.clone()), lower);
    assert_eq!(choose_doi(None, None), None);
    assert_eq!(choose_doi(Some(String::new()), lower), Some(String::new()));
}
