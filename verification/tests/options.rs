use pardalotus_snapshot_tool::cli::{
    expect_input_files, plan_output, progress_due, tasks, FilePath, Options, Task, UsageError,
    PROGRESS_INTERVAL,
};
use pardalotus_snapshot_tool::format::{detect_format, Format};
use pardalotus_snapshot_tool::scan::{find_input_files, Visit};
use pardalotus_snapshot_tool::strings::has_suffix;

fn path(text: &str) -> FilePath {
    FilePath {
        text: String::from(text),
        components: text.split('/').filter(|part| !part.is_empty()).map(String::from).collect(),
    }
}

fn options(input: Option<&str>, output_file: Option<&str>) -> Options {
    Options {
        version: false,
        list_input_files: false,
        input: input.map(path),
        stats: false,
        verbose: false,
        output_file: output_file.map(path),
        print_dois: false,
    }
}

fn walk() -> Vec<Visit> {
    vec![
        Visit::Directory(String::from("in")),
        Visit::File(String::from("in/b.json.gz")),
        Visit::File(String::from("in/readme.txt")),
        Visit::Directory(String::from("in/sub")),
        Visit::File(String::from("in/sub/a.tgz")),
        Visit::Other(String::from("in/sub/pipe.jsonl.gz")),
        Visit::Directory(String::from("in/sub/dir.tgz")),
        Visit::File(String::from("in/sub/dir.tgz/c.jsonl.gz")),
        Visit::File(String::from("in/z.jsonl")),
    ]
}

#[test]
fn suffix_of_a_text() {
    assert!(has_suffix("a.tgz", ".tgz"));
    assert!(has_suffix(".tgz", ".tgz"));
    assert!(has_suffix("anything", ""));
    assert!(has_suffix("", ""));
    assert!(!has_suffix("tgz", ".tgz"));
    assert!(!has_suffix("a.tgz ", ".tgz"));
    assert!(!has_suffix("a.TGZ", ".tgz"));
    assert!(has_suffix("\u{e9}t\u{e9}.tgz", "\u{e9}.tgz"));
}

#[test]
fn format_goes_by_the_suffix() {
    assert_eq!(detect_format("snapshot.tgz"), Some(Format::TarGz));
    assert_eq!(detect_format("dir/0.json.gz"), Some(Format::JsonGz));
    assert_eq!(detect_format("dir/out.jsonl.gz"), Some(Format::JsonLinesGz));
    assert_eq!(detect_format(".tgz"), Some(Format::TarGz));
    assert_eq!(detect_format("a.json.gz.tgz"), Some(Format::TarGz));
    assert_eq!(detect_format("a.tgz.json.gz"), Some(Format::JsonGz));
    assert_eq!(detect_format("a.json.gz.jsonl.gz"), Some(Format::JsonLinesGz));
}

#[test]
fn other_names_have_no_format() {
    assert_eq!(detect_format("snapshot.tar.gz"), None);
    assert_eq!(detect_format("x.jsonl"), None);
    assert_eq!(detect_format("x.json"), None);
    assert_eq!(detect_format("x.gz"), None);
    assert_eq!(detect_format("json.gz"), None);
    assert_eq!(detect_format("x.tgz.bak"), None);
    assert_eq!(detect_format(""), None);
}

#[test]
fn scan_picks_the_snapshot_files_in_the_order_of_the_walk() {
    let files = find_input_files(&walk()).expect("every directory could be read");
    assert_eq!(files, vec!["in/b.json.gz", "in/sub/a.tgz", "in/sub/dir.tgz/c.jsonl.gz"]);
    assert_eq!(find_input_files(&Vec::new()).expect("nothing to read"), Vec::<String>::new());
}

#[test]
fn scan_fails_as_a_whole_on_an_unreadable_directory() {
    let mut listing = walk();
    listing.insert(4, Visit::Failed(String::from("in/sub: permission denied")));
    listing.push(Visit::Failed(String::from("a later failure")));
    let error = find_input_files(&listing).expect_err("a directory could not be read");
    assert_eq!(error.reason, "in/sub: permission denied");
}

#[test]
fn tasks_come_in_a_fixed_order() {
    let mut all = options(Some("in"), Some("out.jsonl.gz"));
    all.version = true;
    all.list_input_files = true;
    all.stats = true;
    all.print_dois = true;
    assert_eq!(
        tasks(&all),
        vec![Task::ShowVersion, Task::ListInputFiles, Task::Stats, Task::PrintDois, Task::WriteOutput]
    );
    assert_eq!(tasks(&options(None, None)), Vec::<Task>::new());
    let mut some = options(Some("in"), None);
    some.print_dois = true;
    some.version = true;
    some.verbose = true;
    assert_eq!(tasks(&some), vec![Task::ShowVersion, Task::PrintDois]);
    assert_eq!(tasks(&options(None, Some("out"))), vec![Task::WriteOutput]);
}

#[test]
fn input_files_are_expected_with_an_input_directory() {
    let (dir, files) = expect_input_files(&options(Some("in"), None), &walk()).expect("input given");
    assert_eq!(dir, "in");
    assert_eq!(files, vec!["in/b.json.gz", "in/sub/a.tgz", "in/sub/dir.tgz/c.jsonl.gz"]);
}

#[test]
fn input_files_without_an_input_directory() {
    let result = expect_input_files(&options(None, None), &walk());
    assert!(matches!(result, Err(UsageError::MissingInput)));
    let result = expect_input_files(&options(None, Some("out")), &Vec::new());
    assert!(matches!(result, Err(UsageError::MissingInput)));
}

#[test]
fn input_files_of_a_failed_scan() {
    let listing = vec![
        Visit::File(String::from("in/a.tgz")),
        Visit::Failed(String::from("in/sub: gone")),
    ];
    match expect_input_files(&options(Some("in"), None), &listing) {
        Err(UsageError::Scan(error)) => assert_eq!(error.reason, "in/sub: gone"),
        other => panic!("the scan failed, but the answer is {:?}", other),
    }
}

#[test]
fn path_lies_within_by_whole_components() {
    assert!(path("in/out.jsonl.gz").starts_with(&path("in")));
    assert!(path("in/sub/deep/out.jsonl.gz").starts_with(&path("in/sub")));
    assert!(path("in").starts_with(&path("in")));
    assert!(path("in").starts_with(&path("")));
    assert!(!path("input/out.jsonl.gz").starts_with(&path("in")));
    assert!(!path("out/in/x").starts_with(&path("in")));
    assert!(!path("in").starts_with(&path("in/sub")));
}

#[test]
fn output_file_in_the_input_directory_is_refused() {
    for output in ["in/out.jsonl.gz", "in/sub/out.jsonl.gz", "in"] {
        let asked = options(Some("in"), Some(output));
        let result = plan_output(&asked, &path(output), &walk());
        assert!(matches!(result, Err(UsageError::OutputInsideInput)));
    }
}

#[test]
fn output_file_outside_the_input_directory_is_planned() {
    for output in ["out.jsonl.gz", "input/out.jsonl.gz", "elsewhere/in/out.jsonl.gz"] {
        let asked = options(Some("in"), Some(output));
        let files = plan_output(&asked, &path(output), &walk()).expect("the output lies outside");
        assert_eq!(files, vec!["in/b.json.gz", "in/sub/a.tgz", "in/sub/dir.tgz/c.jsonl.gz"]);
    }
}

#[test]
fn output_is_not_planned_without_input_or_after_a_failed_scan() {
    let result = plan_output(&options(None, Some("out")), &path("out"), &walk());
    assert!(matches!(result, Err(UsageError::MissingInput)));
    let listing = vec![Visit::Failed(String::from("in: gone"))];
    let result = plan_output(&options(Some("in"), Some("in/out")), &path("in/out"), &listing);
    assert!(matches!(result, Err(UsageError::Scan(_))));
}

#[test]
fn progress_is_told_every_ten_thousand_records() {
    assert_eq!(PROGRESS_INTERVAL, 10000);
    assert!(progress_due(true, 10000));
    assert!(progress_due(true, 20000));
    assert!(!progress_due(true, 1));
    assert!(!progress_due(true, 9999));
    assert!(!progress_due(true, 10001));
    assert!(!progress_due(false, 10000));
    assert!(!progress_due(false, 3));
}
