use ripgrep_web::decode::{MemberHeader, ReadBytes};
use ripgrep_web::error::AppError;
use ripgrep_web::found::{ReportedLine, SearchMatch, SearchOutcome, Submatch};
use ripgrep_web::matcher::{build_matcher, Reported};
use ripgrep_web::query::{candidate_path, resolve_target};
use ripgrep_web::search::{LogSearch, Step, Visit, WalkEntry};
use ripgrep_web::time::parse_changed_within;
use std::io::{Cursor, Write};
use zip::write::SimpleFileOptions;

const HOUR: i128 = 3_600_000_000_000;

/// A file of a directory tree in memory.
struct Fixture {
    path: &'static str,
    modified: Option<i128>,
    bytes: Vec<u8>,
}

fn file(path: &'static str, bytes: &[u8]) -> Fixture {
    Fixture { path, modified: None, bytes: bytes.to_vec() }
}

fn app_log() -> Fixture {
    file(
        "/srv/logs/nested/app.log",
        b"INFO ready\nERROR failed request\nerror retry failed\n",
    )
}

/// Walks through the files and does what the search says. The client is `emit`; what it
/// refuses sets the flag.
fn drive<F>(search: &mut LogSearch, files: &[Fixture], mut emit: F) -> SearchOutcome
where
    F: FnMut(SearchMatch) -> bool,
{
    let mut flag = false;
    for one in files {
        let entry = WalkEntry::Entry {
            path: one.path.to_owned(),
            is_file: true,
            modified: one.modified,
        };
        match search.visit(flag, &entry) {
            Visit::Stop => break,
            Visit::Skip => continue,
            Visit::Search => {}
        }
        let read = ReadBytes { data: one.bytes.clone(), failure: None };
        if search.open(one.path.to_owned(), read).is_err() {
            continue;
        }
        loop {
            match search.advance(flag) {
                Step::Deliver(item) => {
                    let taken = emit(item);
                    search.answer(taken);
                    flag = flag || !taken;
                }
                Step::Continue | Step::Skipped(_) => {}
                Step::Finished | Step::Failed(_) => break,
            }
        }
    }
    search.outcome()
}

/// The results of a client that takes everything.
fn collect(search: &mut LogSearch, files: &[Fixture]) -> (Vec<SearchMatch>, SearchOutcome) {
    let mut found = Vec::new();
    let outcome = drive(search, files, |item| {
        found.push(item);
        true
    });
    (found, outcome)
}

fn searching(pattern: &str, regex: bool, case_sensitive: bool, limit: usize) -> LogSearch {
    let matcher = build_matcher(pattern, regex, case_sensitive).unwrap();
    LogSearch::new(matcher, limit, true, None)
}

fn zip_of(members: &[(&str, &[u8])]) -> Vec<u8> {
    let mut archive = zip::ZipWriter::new(Cursor::new(Vec::new()));
    for (name, contents) in members {
        if name.ends_with('/') {
            archive.add_directory(*name, SimpleFileOptions::default()).unwrap();
        } else {
            archive.start_file(*name, SimpleFileOptions::default()).unwrap();
            archive.write_all(contents).unwrap();
        }
    }
    archive.finish().unwrap().into_inner()
}

#[test]
fn literal_search_returns_ranges() {
    let matcher = build_matcher("failed", false, true).unwrap();
    let mut search = LogSearch::new(matcher, 20, false, None);
    let (found, outcome) = collect(&mut search, &[app_log()]);
    assert_eq!(found.len(), 2);
    assert_eq!(outcome.count, 2);
    assert_eq!(found[0].line_number, 2);
    assert_eq!(found[0].submatches, vec![Submatch { start: 6, end: 12 }]);
}

#[test]
fn regex_and_case_insensitive_search_work() {
    let matcher = build_matcher("error|ready", true, false).unwrap();
    let mut search = LogSearch::new(matcher, 20, false, None);
    let (_, outcome) = collect(&mut search, &[app_log()]);
    assert_eq!(outcome.count, 3);
}

#[test]
fn path_traversal_is_rejected() {
    let root = b"/srv/logs";
    assert_eq!(candidate_path(root, "../../etc"), b"/srv/logs/../../etc".to_vec());
    assert!(matches!(
        resolve_target(root, Some(b"/etc".to_vec())),
        Err(AppError::InvalidPath)
    ));
    assert!(matches!(resolve_target(root, None), Err(AppError::InvalidPath)));
}

#[test]
fn result_limit_is_global() {
    let matcher = build_matcher("failed", false, false).unwrap();
    let mut search = LogSearch::new(matcher, 1, false, None);
    let (found, outcome) = collect(&mut search, &[app_log()]);
    assert_eq!(found.len(), 1);
    assert_eq!(outcome.count, 1);
    assert!(outcome.truncated);
}

#[test]
fn receiver_cancellation_stops_search() {
    let matcher = build_matcher("failed", false, false).unwrap();
    let mut search = LogSearch::new(matcher, 20, false, None);
    let outcome = drive(&mut search, &[app_log()], |_| false);
    assert!(outcome.cancelled);
    assert_eq!(outcome.count, 0);
}

#[test]
fn searches_files_inside_zip_when_enabled() {
    let archived = zip_of(&[("logs/app.log", b"INFO archived\nERROR zip-search-marker\n")]);
    let files = [app_log(), file("/srv/logs/archived-logs.zip", &archived)];

    let matcher = build_matcher("zip-search-marker", false, true).unwrap();
    let mut search = LogSearch::new(matcher, 20, true, None);
    let (found, outcome) = collect(&mut search, &files);
    assert_eq!(outcome.count, 1);
    assert!(found[0].path.ends_with("archived-logs.zip!logs/app.log"));
    assert_eq!(found[0].line_number, 2);

    let matcher = build_matcher("zip-search-marker", false, true).unwrap();
    let mut search = LogSearch::new(matcher, 20, false, None);
    let disabled = drive(&mut search, &files, |_| true);
    assert_eq!(disabled.count, 0);
}

#[test]
fn searches_gzip_file_when_enabled() {
    let mut encoder = flate2::write::GzEncoder::new(Vec::new(), flate2::Compression::fast());
    encoder.write_all(b"INFO ready\nERROR gzip-marker\n").unwrap();
    let packed = encoder.finish().unwrap();

    let matcher = build_matcher("gzip-marker", false, true).unwrap();
    let mut search = LogSearch::new(matcher, 20, true, None);
    let files = [app_log(), file("/srv/logs/app.log.gz", &packed)];
    let (found, outcome) = collect(&mut search, &files);
    assert_eq!(outcome.count, 1);
    assert!(found[0].path.ends_with("app.log.gz"));
    assert_eq!(found[0].line_number, 2);
}

#[test]
fn changed_within_filters_old_files() {
    let now: i128 = 1_700_000_000_000_000_000;
    let files = [
        Fixture {
            path: "/srv/logs/old.log",
            modified: Some(now - 48 * HOUR),
            bytes: b"ERROR time-filter-marker\n".to_vec(),
        },
        Fixture {
            path: "/srv/logs/recent.log",
            modified: Some(now),
            bytes: b"ERROR time-filter-marker\n".to_vec(),
        },
    ];
    let matcher = build_matcher("time-filter-marker", false, true).unwrap();
    let mut search = LogSearch::new(matcher, 20, false, Some(now - HOUR));
    let (found, outcome) = collect(&mut search, &files);
    assert_eq!(outcome.count, 1);
    assert!(found[0].path.ends_with("recent.log"));
}

#[test]
fn changed_within_duration_parser_accepts_fd_style_values() {
    assert!(parse_changed_within("").unwrap().is_none());
    assert!(parse_changed_within("35min").unwrap().is_some());
    assert!(parse_changed_within("2weeks").unwrap().is_some());
    assert!(matches!(
        parse_changed_within("yesterday-ish"),
        Err(AppError::InvalidDuration(_))
    ));
}

#[test]
fn a_result_holds_path_number_line_and_ranges() {
    let mut search = searching("failed", false, true, 20);
    let (found, outcome) = collect(&mut search, &[app_log()]);
    assert_eq!(
        found,
        vec![
            SearchMatch {
                path: "/srv/logs/nested/app.log".to_owned(),
                line_number: 2,
                line: "ERROR failed request".to_owned(),
                submatches: vec![Submatch { start: 6, end: 12 }],
            },
            SearchMatch {
                path: "/srv/logs/nested/app.log".to_owned(),
                line_number: 3,
                line: "error retry failed".to_owned(),
                submatches: vec![Submatch { start: 12, end: 18 }],
            },
        ]
    );
    assert_eq!(outcome, SearchOutcome { count: 2, truncated: false, cancelled: false });
}

#[test]
fn ranges_count_bytes_and_all_places_of_a_line() {
    let mut search = searching("错误", false, true, 20);
    let (found, _) = collect(&mut search, &[file("/l", "日志 错误 和 错误\n".as_bytes())]);
    assert_eq!(found[0].line, "日志 错误 和 错误");
    assert_eq!(
        found[0].submatches,
        vec![Submatch { start: 7, end: 13 }, Submatch { start: 18, end: 24 }]
    );
}

#[test]
fn a_literal_pattern_is_no_expression() {
    let data = b"a.c\nabc\n";
    let (found, _) = collect(&mut searching("a.c", false, true, 20), &[file("/l", data)]);
    assert_eq!(found.len(), 1);
    assert_eq!(found[0].line, "a.c");
    let (found, _) = collect(&mut searching("a.c", true, true, 20), &[file("/l", data)]);
    assert_eq!(found.len(), 2);
}

#[test]
fn case_counts_only_on_request() {
    let data = b"Error\nERROR\nerror\n";
    let (found, _) = collect(&mut searching("error", false, true, 20), &[file("/l", data)]);
    assert_eq!(found.len(), 1);
    assert_eq!(found[0].line_number, 3);
    let (found, _) = collect(&mut searching("error", false, false, 20), &[file("/l", data)]);
    assert_eq!(found.len(), 3);
}

#[test]
fn a_pattern_that_is_no_expression_is_refused() {
    match build_matcher("(", true, true) {
        Err(AppError::InvalidRegex(words)) => assert!(words.contains("unclosed group")),
        _ => panic!("the pattern was accepted"),
    }
    assert!(build_matcher("(", false, true).is_ok());
}

#[test]
fn line_ends_are_cut_off() {
    let mut search = searching("x", false, true, 20);
    let (found, _) = collect(&mut search, &[file("/l", b"x one\r\nx two\r\r\n\nx three")]);
    assert_eq!(found[0].line, "x one");
    assert_eq!(found[1].line, "x two");
    assert_eq!(found[2].line, "x three");
    assert_eq!(found[2].line_number, 4);
}

#[test]
fn the_limit_holds_over_several_files() {
    let files = [
        file("/a.log", b"hit 1\nhit 2\n"),
        file("/b.log", b"miss\n"),
        file("/c.log", b"hit 3\nhit 4\nhit 5\n"),
        file("/d.log", b"hit 6\n"),
    ];
    let (found, outcome) = collect(&mut searching("hit", false, true, 3), &files);
    let lines: Vec<&str> = found.iter().map(|item| item.line.as_str()).collect();
    assert_eq!(lines, vec!["hit 1", "hit 2", "hit 3"]);
    assert_eq!(outcome, SearchOutcome { count: 3, truncated: true, cancelled: false });

    let (found, outcome) = collect(&mut searching("hit", false, true, 6), &files);
    assert_eq!(found.len(), 6);
    assert_eq!(outcome, SearchOutcome { count: 6, truncated: true, cancelled: false });

    let (found, outcome) = collect(&mut searching("hit", false, true, 7), &files);
    assert_eq!(found.len(), 6);
    assert_eq!(outcome, SearchOutcome { count: 6, truncated: false, cancelled: false });
}

#[test]
fn a_limit_of_zero_gives_nothing() {
    let (found, outcome) = collect(&mut searching("hit", false, true, 0), &[file("/a", b"hit\n")]);
    assert_eq!(found.len(), 0);
    assert_eq!(outcome, SearchOutcome { count: 0, truncated: true, cancelled: false });
}

#[test]
fn a_search_without_room_notes_that_there_would_be_more() {
    let read = |text: &[u8]| ReadBytes { data: text.to_vec(), failure: None };
    let mut search = searching("hit", false, true, 0);
    assert!(search.open("/a".to_owned(), read(b"miss\n")).is_ok());
    assert_eq!(search.advance(false), Step::Finished);
    assert_eq!(search.outcome(), SearchOutcome::default());
    assert!(search.open("/a".to_owned(), read(b"hit\n")).is_ok());
    assert_eq!(search.advance(false), Step::Continue);
    assert_eq!(
        search.outcome(),
        SearchOutcome { count: 0, truncated: true, cancelled: false }
    );
    assert_eq!(search.advance(false), Step::Finished);

    let mut search = searching("hit", false, true, 1);
    assert!(search.open("/a".to_owned(), read(b"hit\n")).is_ok());
    assert!(matches!(search.advance(false), Step::Deliver(_)));
    search.answer(true);
    assert_eq!(search.advance(false), Step::Finished);
    assert!(search.open("/b".to_owned(), read(b"hit\n")).is_ok());
    assert_eq!(search.advance(true), Step::Continue);
    assert_eq!(
        search.outcome(),
        SearchOutcome { count: 1, truncated: true, cancelled: true }
    );
}

#[test]
fn ranges_of_a_literal_pattern_spell_it() {
    let mut search = searching("a+日", false, true, 20);
    let (found, _) = collect(&mut search, &[file("/l", "xa+日y a+日日\n".as_bytes())]);
    assert_eq!(found[0].submatches.len(), 2);
    for range in &found[0].submatches {
        assert_eq!(&found[0].line.as_bytes()[range.start..range.end], "a+日".as_bytes());
    }
}

#[test]
fn a_client_that_leaves_keeps_what_it_took() {
    let files = [file("/a.log", b"hit 1\nhit 2\nhit 3\n"), file("/b.log", b"hit 4\n")];
    let mut search = searching("hit", false, true, 20);
    let mut offered = 0;
    let outcome = drive(&mut search, &files, |_| {
        offered += 1;
        offered < 3
    });
    assert_eq!(offered, 3);
    assert_eq!(outcome, SearchOutcome { count: 2, truncated: false, cancelled: true });
}

#[test]
fn the_flag_ends_the_search_between_two_lines() {
    let mut search = searching("hit", false, true, 20);
    let entry = WalkEntry::Entry { path: "/a".to_owned(), is_file: true, modified: None };
    assert_eq!(search.visit(false, &entry), Visit::Search);
    let read = ReadBytes { data: b"hit 1\nhit 2\n".to_vec(), failure: None };
    assert!(search.open("/a".to_owned(), read).is_ok());
    assert!(matches!(search.advance(false), Step::Deliver(_)));
    search.answer(true);
    assert_eq!(search.advance(true), Step::Continue);
    assert_eq!(search.advance(true), Step::Finished);
    assert_eq!(search.visit(false, &entry), Visit::Stop);
    assert_eq!(
        search.outcome(),
        SearchOutcome { count: 1, truncated: false, cancelled: true }
    );
}

#[test]
fn a_line_that_was_not_answered_is_offered_again() {
    let mut search = searching("hit", false, true, 20);
    let read = ReadBytes { data: b"hit 1\nhit 2\n".to_vec(), failure: None };
    assert!(search.open("/a".to_owned(), read).is_ok());
    let first = search.advance(false);
    assert_eq!(search.advance(false), first);
    search.answer(true);
    assert_ne!(search.advance(false), first);
}

#[test]
fn a_binary_file_is_passed_over() {
    let data = b"hit 1\nhit\x00 2\nhit 3\n";
    let (found, outcome) = collect(&mut searching("hit", false, true, 20), &[file("/a", data)]);
    assert_eq!(found.len(), 0);
    assert_eq!(outcome, SearchOutcome { count: 0, truncated: false, cancelled: false });
}

#[test]
fn a_file_with_a_mark_of_binary_data_far_behind_is_passed_over() {
    let mut data = b"hit\n".repeat(50_000);
    data.push(0);
    let files = [file("/a", &data), file("/b", b"hit\n")];
    let (found, outcome) = collect(&mut searching("hit", false, true, 20), &files);
    assert_eq!(found.len(), 1);
    assert_eq!(found[0].path, "/b");
    assert_eq!(outcome, SearchOutcome { count: 1, truncated: false, cancelled: false });
}

#[test]
fn a_pattern_that_ends_with_the_line_has_its_range() {
    let mut search = searching("failed$", true, true, 20);
    let (found, outcome) = collect(&mut search, &[file("p", b"ERROR failed\n")]);
    assert_eq!(
        found,
        vec![SearchMatch {
            path: "p".to_owned(),
            line_number: 1,
            line: "ERROR failed".to_owned(),
            submatches: vec![Submatch { start: 6, end: 12 }],
        }]
    );
    assert_eq!(outcome.count, 1);
}

#[test]
fn ranges_do_not_pass_the_end_of_the_line() {
    let mut search = searching("x\\s*", true, true, 20);
    let (found, _) = collect(&mut search, &[file("p", b"ax \r\n")]);
    assert_eq!(found[0].line, "ax ");
    assert_eq!(found[0].submatches, vec![Submatch { start: 1, end: 3 }]);
}

#[test]
fn a_line_that_is_no_text_fails_the_file_and_not_the_search() {
    let files = [file("/a.log", b"hit 1\nhit \xff\nhit 3\n"), file("/b.log", b"hit 4\n")];
    let (found, outcome) = collect(&mut searching("hit", false, true, 20), &files);
    let lines: Vec<&str> = found.iter().map(|item| item.line.as_str()).collect();
    assert_eq!(lines, vec!["hit 1", "hit 4"]);
    assert_eq!(outcome, SearchOutcome { count: 2, truncated: false, cancelled: false });
}

#[test]
fn of_a_file_that_cannot_be_read_to_its_end_complete_lines_are_searched() {
    let mut search = searching("hit", false, true, 20);
    let read = ReadBytes {
        data: b"hit 1\nhit 2\nhit".to_vec(),
        failure: Some("device gone".to_owned()),
    };
    assert!(search.open("/a".to_owned(), read).is_ok());
    for _ in 0..2 {
        assert!(matches!(search.advance(false), Step::Deliver(_)));
        search.answer(true);
    }
    assert_eq!(search.advance(false), Step::Failed("device gone".to_owned()));
    assert_eq!(search.advance(false), Step::Finished);
}

#[test]
fn a_failure_behind_binary_data_is_not_met() {
    let mut search = searching("hit", false, true, 20);
    let read = ReadBytes {
        data: b"hit 1\nhit 2\x00".to_vec(),
        failure: Some("device gone".to_owned()),
    };
    assert!(search.open("/a".to_owned(), read).is_ok());
    assert_eq!(search.advance(false), Step::Finished);
}

/// Text as UTF-16 with its byte order mark.
fn utf_16(text: &str, big_endian: bool) -> Vec<u8> {
    let mut data = Vec::new();
    for unit in ("\u{feff}".to_owned() + text).encode_utf16() {
        if big_endian {
            data.extend_from_slice(&unit.to_be_bytes());
        } else {
            data.extend_from_slice(&unit.to_le_bytes());
        }
    }
    data
}

#[test]
fn utf_16_is_searched_as_text() {
    for big_endian in [false, true] {
        let data = utf_16("hit 1\nhit \u{4e01}\n", big_endian);
        let (found, _) = collect(&mut searching("hit", false, true, 20), &[file("/a", &data)]);
        assert_eq!(found.len(), 2);
        assert_eq!(found[1].line, "hit \u{4e01}");
        let data = utf_16("hit 1\n\u{0}\n", big_endian);
        let (found, _) = collect(&mut searching("hit", false, true, 20), &[file("/a", &data)]);
        assert_eq!(found.len(), 0);
    }
}

#[test]
fn of_utf_16_that_cannot_be_read_to_its_end_complete_lines_are_searched() {
    for big_endian in [false, true] {
        let mut data = utf_16("hit 1\nhit \u{a0a}\nhit\u{a00}", big_endian);
        data.pop();
        let mut search = searching("hit", false, true, 20);
        let read = ReadBytes { data, failure: Some("device gone".to_owned()) };
        assert!(search.open("/a".to_owned(), read).is_ok());
        for line in ["hit 1", "hit \u{a0a}"] {
            match search.advance(false) {
                Step::Deliver(item) => assert_eq!(item.line, line),
                other => panic!("no line but {:?}", other),
            }
            search.answer(true);
        }
        assert_eq!(search.advance(false), Step::Failed("device gone".to_owned()));
    }
}

#[test]
fn the_walk_passes_over_what_is_not_wanted() {
    let matcher = build_matcher("hit", false, true).unwrap();
    let mut search = LogSearch::new(matcher, 20, false, Some(1_000));
    let entry = |path: &str, is_file: bool, modified: Option<i128>| WalkEntry::Entry {
        path: path.to_owned(),
        is_file,
        modified,
    };
    assert_eq!(search.visit(false, &WalkEntry::Unreadable), Visit::Skip);
    assert_eq!(search.visit(false, &entry("/d", false, Some(2_000))), Visit::Skip);
    assert_eq!(search.visit(false, &entry("/a.log", true, None)), Visit::Skip);
    assert_eq!(search.visit(false, &entry("/a.log", true, Some(1_000))), Visit::Skip);
    assert_eq!(search.visit(false, &entry("/a.log", true, Some(1_001))), Visit::Search);
    assert_eq!(search.visit(false, &entry("/a.log.GZ", true, Some(1_001))), Visit::Skip);
    assert_eq!(search.visit(true, &WalkEntry::Unreadable), Visit::Stop);
}

#[test]
fn the_members_of_an_archive_come_one_after_the_other() {
    let archived = zip_of(&[
        ("logs/", b""),
        ("logs/a.log", b"hit 1\nmiss\nhit 2\n"),
        ("logs/empty.log", b""),
        ("logs/b.log", b"hit 3\n"),
    ]);
    let files = [file("/x.ZIP", &archived), file("/z.log", b"hit 4\n")];
    let (found, outcome) = collect(&mut searching("hit", false, true, 20), &files);
    let places: Vec<(String, u64)> =
        found.iter().map(|item| (item.path.clone(), item.line_number)).collect();
    assert_eq!(
        places,
        vec![
            ("/x.ZIP!logs/a.log".to_owned(), 1),
            ("/x.ZIP!logs/a.log".to_owned(), 3),
            ("/x.ZIP!logs/b.log".to_owned(), 1),
            ("/z.log".to_owned(), 1),
        ]
    );
    assert_eq!(outcome, SearchOutcome { count: 4, truncated: false, cancelled: false });

    let (found, outcome) = collect(&mut searching("hit", false, true, 2), &files);
    assert_eq!(found.len(), 2);
    assert_eq!(outcome, SearchOutcome { count: 2, truncated: true, cancelled: false });
}

#[test]
fn what_is_no_archive_is_refused_and_the_search_goes_on() {
    let mut search = searching("hit", false, true, 20);
    let read = ReadBytes { data: b"hit\n".to_vec(), failure: None };
    assert!(matches!(search.open("/a.zip".to_owned(), read), Err(AppError::Search(_))));
    assert_eq!(search.advance(false), Step::Finished);
    let read = ReadBytes { data: Vec::new(), failure: Some("device gone".to_owned()) };
    assert_eq!(
        search.open("/a.zip".to_owned(), read),
        Err(AppError::Search("device gone".to_owned()))
    );
    let files = [file("/a.zip", b"hit\n"), file("/b.log", b"hit\n")];
    let (found, _) = collect(&mut search, &files);
    assert_eq!(found.len(), 1);
    assert_eq!(found[0].path, "/b.log");
}

#[test]
fn a_broken_archive_member_ends_its_archive_only() {
    let mut archived = zip_of(&[("a.log", b"hit 1\n"), ("b.log", b"hit 2\n")]);
    let at = archived.windows(5).position(|part| part == b"a.log").unwrap() + 5;
    archived[at] = archived[at] ^ 0xff;
    let files = [file("/x.zip", &archived), file("/z.log", b"hit 3\n")];
    let (found, outcome) = collect(&mut searching("hit", false, true, 20), &files);
    assert_eq!(found.last().unwrap().path, "/z.log");
    assert!(found.iter().all(|item| item.path != "/x.zip!b.log"));
    assert!(!outcome.cancelled);
}

/// What a searcher could report of three lines.
fn three_hits(failure: Option<String>) -> Reported {
    let line = |number: u64| ReportedLine { number, text: format!("hit {}\n", number) };
    Reported { lines: vec![line(1), line(4), line(9)], failure }
}

/// The numbers of the lines that are offered to a client that takes everything, and the
/// last step.
fn offered(search: &mut LogSearch) -> (Vec<(String, u64)>, Step) {
    let mut places = Vec::new();
    loop {
        match search.advance(false) {
            Step::Deliver(item) => {
                places.push((item.path, item.line_number));
                search.answer(true);
            }
            Step::Continue | Step::Skipped(_) => {}
            last => return (places, last),
        }
    }
}

#[test]
fn reported_lines_are_taken_up_as_far_as_there_is_room() {
    let mut search = searching("hit", false, true, 20);
    search.open_reported("/a".to_owned(), three_hits(None));
    let (places, last) = offered(&mut search);
    assert_eq!(
        places,
        vec![("/a".to_owned(), 1), ("/a".to_owned(), 4), ("/a".to_owned(), 9)]
    );
    assert_eq!(last, Step::Finished);

    let mut search = searching("hit", false, true, 20);
    search.open_reported("/a".to_owned(), three_hits(Some("cause".to_owned())));
    let (places, last) = offered(&mut search);
    assert_eq!(places.len(), 3);
    assert_eq!(last, Step::Failed("cause".to_owned()));

    let mut search = searching("hit", false, true, 2);
    search.open_reported("/a".to_owned(), three_hits(Some("cause".to_owned())));
    let (places, last) = offered(&mut search);
    assert_eq!(places.len(), 2);
    assert_eq!(last, Step::Finished);
    assert!(search.outcome().truncated);
}

#[test]
fn archive_members_are_taken_up_one_by_one() {
    let archived = zip_of(&[("a", b""), ("b", b""), ("c", b"hit\n")]);
    let mut search = searching("hit", false, true, 20);
    let read = ReadBytes { data: archived, failure: None };
    assert!(search.open("/x.zip".to_owned(), read).is_ok());
    let none = || Reported { lines: Vec::new(), failure: None };

    let refused = search.take_member(Err("locked".to_owned()), none());
    assert_eq!(refused, Step::Skipped("locked".to_owned()));
    let header = MemberHeader { is_dir: false, name: "deep/b.log".to_owned() };
    assert_eq!(search.take_member(Ok(header), three_hits(None)), Step::Continue);
    let (places, last) = offered(&mut search);
    assert_eq!(
        places,
        vec![
            ("/x.zip!deep/b.log".to_owned(), 1),
            ("/x.zip!deep/b.log".to_owned(), 4),
            ("/x.zip!deep/b.log".to_owned(), 9),
            ("/x.zip!c".to_owned(), 1),
        ]
    );
    assert_eq!(last, Step::Finished);
}

#[test]
fn a_directory_in_an_archive_has_no_lines() {
    let archived = zip_of(&[("a", b"hit\n"), ("b", b"hit\n")]);
    let mut search = searching("hit", false, true, 20);
    let read = ReadBytes { data: archived, failure: None };
    assert!(search.open("/x.zip".to_owned(), read).is_ok());
    let header = MemberHeader { is_dir: true, name: "a/".to_owned() };
    assert_eq!(search.take_member(Ok(header), three_hits(None)), Step::Continue);
    let (places, _) = offered(&mut search);
    assert_eq!(places, vec![("/x.zip!b".to_owned(), 1)]);
}
