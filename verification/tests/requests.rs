use ripgrep_web::error::AppError;
use ripgrep_web::found::SearchOutcome;
use ripgrep_web::path::{join, names_of, path_is_within};
use ripgrep_web::query::{
    accept_request, accept_request_at, candidate_path, effective_limit, resolve_target,
    validate_keyword, SearchQuery, DEFAULT_LIMIT, HARD_LIMIT, MAX_PATTERN_BYTES,
};
use ripgrep_web::search::{Visit, WalkEntry};
use ripgrep_web::time::{
    changed_after, cutoff, parse_changed_within, total_nanos, UnixTime, EARLIEST,
};

const SECOND: i128 = 1_000_000_000;

fn query(keyword: &str) -> SearchQuery {
    SearchQuery {
        keyword: keyword.to_owned(),
        path: String::new(),
        regex: false,
        case_sensitive: false,
        search_zip: false,
        changed_within: String::new(),
        limit: None,
    }
}

fn noon() -> UnixTime {
    UnixTime { before: false, seconds: 1_700_000_000, nanos: 5 }
}

#[test]
fn keywords_have_a_size_limit() {
    assert_eq!(validate_keyword(""), Err(AppError::EmptyKeyword));
    assert_eq!(validate_keyword("x"), Ok(()));
    assert_eq!(validate_keyword(" "), Ok(()));
    assert_eq!(MAX_PATTERN_BYTES, 4096);
    assert_eq!(validate_keyword(&"x".repeat(4096)), Ok(()));
    assert_eq!(validate_keyword(&"x".repeat(4097)), Err(AppError::PatternTooLong));
    assert_eq!(validate_keyword(&"日".repeat(1365)), Ok(()));
    assert_eq!(validate_keyword(&"日".repeat(1366)), Err(AppError::PatternTooLong));
}

#[test]
fn limits_are_brought_into_range() {
    assert_eq!((DEFAULT_LIMIT, HARD_LIMIT), (1000, 2000));
    assert_eq!(effective_limit(None), 1000);
    assert_eq!(effective_limit(Some(0)), 1);
    assert_eq!(effective_limit(Some(1)), 1);
    assert_eq!(effective_limit(Some(77)), 77);
    assert_eq!(effective_limit(Some(2000)), 2000);
    assert_eq!(effective_limit(Some(2001)), 2000);
    assert_eq!(effective_limit(Some(usize::MAX)), 2000);
}

#[test]
fn a_request_names_a_path_below_the_base() {
    let base = b"/var/log";
    assert_eq!(candidate_path(base, ""), b"/var/log".to_vec());
    assert_eq!(candidate_path(base, " \t\u{3000}"), b"/var/log".to_vec());
    assert_eq!(candidate_path(base, "///"), b"/var/log".to_vec());
    assert_eq!(candidate_path(base, "nginx"), b"/var/log/nginx".to_vec());
    assert_eq!(candidate_path(base, " //nginx/a b.log "), b"/var/log/nginx/a b.log".to_vec());
    assert_eq!(candidate_path(base, "/etc/passwd"), b"/var/log/etc/passwd".to_vec());
    assert_eq!(candidate_path(b"/", "nginx"), b"/nginx".to_vec());
    assert_eq!(candidate_path(base, "日志"), "/var/log/日志".as_bytes().to_vec());
}

#[test]
fn only_what_lies_within_the_base_is_searched() {
    let base = b"/var/log";
    assert_eq!(resolve_target(base, Some(b"/var/log".to_vec())), Ok(b"/var/log".to_vec()));
    assert_eq!(
        resolve_target(base, Some(b"/var/log/nginx".to_vec())),
        Ok(b"/var/log/nginx".to_vec())
    );
    assert_eq!(resolve_target(base, Some(b"/var/log2".to_vec())), Err(AppError::InvalidPath));
    assert_eq!(resolve_target(base, Some(b"/var".to_vec())), Err(AppError::InvalidPath));
    assert_eq!(resolve_target(base, None), Err(AppError::InvalidPath));
    assert_eq!(resolve_target(b"/", Some(b"/etc".to_vec())), Ok(b"/etc".to_vec()));
}

#[test]
fn within_is_that_of_std() {
    let paths = [
        "", "/", ".", "..", "a", "./a", "a/.", "a/./b", "a//b", "/a", "/a/", "/a/b", "/ab", "//a",
        "/a/../a", "a/..", "/a/.", "/.", "./.", "../a", "a/b/c", "/a/b/c",
    ];
    for path in paths {
        for base in paths {
            assert_eq!(
                path_is_within(path.as_bytes(), base.as_bytes()),
                std::path::Path::new(path).starts_with(std::path::Path::new(base)),
                "{:?} in {:?}",
                path,
                base
            );
        }
    }
}

#[test]
fn joining_is_that_of_std() {
    for base in ["", "/", "a", "a/", "/var/log", "/var/log/"] {
        for relative in ["b", "b/c", "../x", "./x"] {
            let expected = std::path::Path::new(base).join(relative);
            assert_eq!(
                String::from_utf8(join(base.as_bytes(), relative.as_bytes())).unwrap(),
                expected.to_str().unwrap()
            );
        }
    }
}

#[test]
fn the_names_of_a_joined_path_are_those_of_both() {
    let all = names_of(&join(b"/var//log/.", b"./nginx/../a.log"));
    let mut both = names_of(b"/var//log/.");
    both.extend(names_of(b"./nginx/../a.log"));
    assert_eq!(all, both);
    assert_eq!(
        all,
        vec![
            b"var".to_vec(),
            b"log".to_vec(),
            b"nginx".to_vec(),
            b"..".to_vec(),
            b"a.log".to_vec()
        ]
    );
}

#[test]
fn spans_of_time_add_up() {
    assert_eq!(total_nanos("10min"), Some(600 * 1_000_000_000));
    assert_eq!(total_nanos("2h"), Some(7_200 * 1_000_000_000));
    assert_eq!(total_nanos("1d"), Some(86_400 * 1_000_000_000));
    assert_eq!(total_nanos("2weeks"), Some(1_209_600 * 1_000_000_000));
    assert_eq!(total_nanos("1h 30m"), Some(5_400 * 1_000_000_000));
    assert_eq!(total_nanos("1h30m15s"), Some(5_415 * 1_000_000_000));
    assert_eq!(total_nanos("15ms 3us 2ns"), Some(15_003_002));
    assert_eq!(total_nanos("yesterday"), None);
    assert_eq!(total_nanos("10"), None);
    assert_eq!(total_nanos("min"), None);
    assert_eq!(total_nanos("10 parsecs"), None);
    assert_eq!(total_nanos("1h 30"), None);
    assert_eq!(total_nanos(""), None);
    assert_eq!(total_nanos("-1h"), None);
}

#[test]
fn spans_of_time_are_those_of_humantime() {
    let texts = [
        "0", "0s", "1 s", "1s 1s", "1y 2months 3days", "1M", "2 hours 5 minutes", "1_000s", "1.5h",
        "1e3s", "12us", "12\u{b5}s", "7 days7 days", "  1s", "1s  ", "1s,2s", "9999999999999999s",
        "1h 0", "1h0", "2d0", "1ns 18446744073709551615ns",
        "1h 2", "1h2", "h1", "1 1s", "1nanos", "3sec4msec",
    ];
    for text in texts {
        assert_eq!(
            total_nanos(text),
            humantime::parse_duration(text).ok().map(|span| span.as_nanos()),
            "{:?}",
            text
        );
    }
}

#[test]
fn spans_that_cannot_be_counted_are_refused() {
    assert_eq!(
        total_nanos("18446744073709551615s 999ms"),
        Some(18_446_744_073_709_551_615_999_000_000)
    );
    assert_eq!(total_nanos("18446744073709551615s 1000ms"), None);
    assert_eq!(total_nanos("18446744073709551615s 1000ms 1d"), None);
    assert_eq!(total_nanos("18446744073709551616s"), None);
    assert!(matches!(
        parse_changed_within("18446744073709551615s 1000ms"),
        Err(AppError::InvalidDuration(_))
    ));
}

#[test]
fn spans_that_cannot_be_counted_are_refused_before_what_is_not_understood() {
    for text in [
        "18446744073709551615s 1000000000.5ns",
        "18446744073709551615s 1000.0000001ms",
        "18446744073709551615s 1000000000ns x",
        "18446744073709551615s 1000000000ns 5",
    ] {
        assert_eq!(total_nanos(text), None);
        assert_eq!(
            parse_changed_within(text),
            Err(AppError::InvalidDuration(text.to_owned()))
        );
        let mut asked = query("x");
        asked.changed_within = text.to_owned();
        assert!(accept_request(b"/var/log", &asked, Some(b"/var/log".to_vec())).is_err());
    }
}

#[test]
fn the_cutoff_lies_the_range_before_now() {
    let now = noon();
    assert_eq!(changed_after("", &now), Ok(None));
    assert_eq!(changed_after(" \n", &now), Ok(None));
    assert_eq!(changed_after("2h", &now), Ok(Some((1_700_000_000 - 7_200) * SECOND + 5)));
    assert_eq!(changed_after("  1d ", &now), Ok(Some((1_700_000_000 - 86_400) * SECOND + 5)));
    assert_eq!(
        changed_after(" tomorrow ", &now),
        Err(AppError::InvalidDuration("tomorrow".to_owned()))
    );
}

#[test]
fn a_range_can_reach_too_far_back() {
    let start = UnixTime { before: false, seconds: 0, nanos: 0 };
    let furthest: u128 = 9_223_372_036_854_775_808_000_000_000;
    assert_eq!(cutoff("r", Some(furthest), &start), Ok(EARLIEST));
    assert_eq!(
        cutoff("r", Some(furthest + 1), &start),
        Err(AppError::InvalidDuration("r".to_owned()))
    );
    assert_eq!(
        cutoff("r", Some(u128::MAX), &start),
        Err(AppError::InvalidDuration("r".to_owned()))
    );
    assert_eq!(cutoff("r", None, &start), Err(AppError::InvalidDuration("r".to_owned())));
    assert_eq!(
        changed_after("18446744073709551615s", &start),
        Err(AppError::InvalidDuration("18446744073709551615s".to_owned()))
    );
}

#[test]
fn times_before_1970_are_negative() {
    let early = UnixTime { before: true, seconds: 2, nanos: 7 };
    assert_eq!(early.nanos_since_epoch(), -2_000_000_007);
    assert_eq!(noon().nanos_since_epoch(), 1_700_000_000_000_000_005);
    assert_eq!(cutoff("r", Some(3), &early), Ok(-2_000_000_010));
}

#[test]
fn the_present_time_is_the_clocks() {
    let before = std::time::SystemTime::now()
        .duration_since(std::time::UNIX_EPOCH)
        .unwrap()
        .as_nanos() as i128;
    let found = parse_changed_within("1h").unwrap().unwrap() + 3_600 * SECOND;
    assert!(found >= before);
    assert!(found - before < 60 * SECOND);
}

#[test]
fn a_request_that_is_in_order_is_served() {
    let mut asked = query("error");
    asked.limit = Some(5_000);
    asked.changed_within = "1h".to_owned();
    let accepted =
        accept_request_at(b"/var/log", &asked, Some(b"/var/log/nginx".to_vec()), &noon());
    match accepted {
        Ok(mut accepted) => {
            assert_eq!(accepted.target, b"/var/log/nginx".to_vec());
            assert_eq!(
                accepted.search.outcome(),
                SearchOutcome { count: 0, truncated: false, cancelled: false }
            );
            let edge = (1_700_000_000 - 3_600) * SECOND + 5;
            let old = WalkEntry::Entry {
                path: "/var/log/a".to_owned(),
                is_file: true,
                modified: Some(edge),
            };
            let new = WalkEntry::Entry {
                path: "/var/log/a".to_owned(),
                is_file: true,
                modified: Some(edge + 1),
            };
            assert_eq!(accepted.search.visit(false, &old), Visit::Skip);
            assert_eq!(accepted.search.visit(false, &new), Visit::Search);
        }
        Err(error) => panic!("refused: {:?}", error),
    }
    assert!(accept_request(b"/var/log", &asked, Some(b"/var/log".to_vec())).is_ok());
}

#[test]
fn what_is_wrong_with_a_request_is_looked_for_in_order() {
    fn refusal(asked: &SearchQuery, resolved: Option<Vec<u8>>) -> AppError {
        match accept_request_at(b"/var/log", asked, resolved, &noon()) {
            Ok(_) => panic!("the request was accepted"),
            Err(error) => error,
        }
    }
    let inside = Some(b"/var/log".to_vec());
    let mut asked = query("");
    asked.regex = true;
    asked.changed_within = "soon".to_owned();
    assert_eq!(refusal(&asked, None), AppError::EmptyKeyword);
    asked.keyword = "(".repeat(5_000);
    assert_eq!(refusal(&asked, None), AppError::PatternTooLong);
    asked.keyword = "(".to_owned();
    assert_eq!(refusal(&asked, None), AppError::InvalidPath);
    assert_eq!(refusal(&asked, Some(b"/etc".to_vec())), AppError::InvalidPath);
    assert!(matches!(refusal(&asked, inside.clone()), AppError::InvalidRegex(_)));
    asked.keyword = "x".to_owned();
    assert_eq!(
        refusal(&asked, inside.clone()),
        AppError::InvalidDuration("soon".to_owned())
    );
    assert_eq!(refusal(&asked, inside).status(), 400);
}
