use ripgrep_web::error::AppError;
use ripgrep_web::found::{SearchDone, SearchOutcome};
use ripgrep_web::query::SEARCH_TIMEOUT_SECONDS;
use ripgrep_web::reply::{
    conclude, done_event, error_event, match_event, Conclusion, LastEvent, SearchEnd,
};
use ripgrep_web::settings::{
    config_argument, parse_count, resolve_settings, ConfigArgument, ConfigFile, Environment,
};

#[test]
fn errors_have_a_message_and_a_status() {
    let errors = [
        (AppError::EmptyKeyword, 400, "检索关键词不能为空"),
        (AppError::PatternTooLong, 400, "检索关键词过长（最大 4096 字节）"),
        (AppError::InvalidPath, 400, "路径不存在、不可访问或超出日志根目录"),
        (AppError::InvalidRegex("words".to_owned()), 400, "正则表达式无效: words"),
        (
            AppError::InvalidDuration("soon".to_owned()),
            400,
            "修改时间范围无效: soon（示例：10min、2h、1d、2weeks）",
        ),
        (AppError::Search("cause".to_owned()), 500, "检索执行失败: cause"),
        (AppError::Timeout, 408, "检索超时（最长 30 秒）"),
        (AppError::Unavailable, 503, "服务正在关闭"),
    ];
    for (error, status, message) in errors {
        assert_eq!(error.message(), message);
        assert_eq!(error.status(), status);
    }
    assert_eq!(SEARCH_TIMEOUT_SECONDS, 30);
}

#[test]
fn the_last_event_says_how_the_search_ended() {
    let outcome = SearchOutcome { count: 3, truncated: true, cancelled: false };
    assert_eq!(
        conclude(SearchEnd::Ended(outcome), 12),
        Conclusion {
            event: LastEvent::Done(SearchDone { count: 3, truncated: true, elapsed_ms: 12 }),
            cancel: false,
        }
    );
    let outcome = SearchOutcome { count: 3, truncated: false, cancelled: true };
    assert_eq!(
        conclude(SearchEnd::Ended(outcome), 12),
        Conclusion { event: LastEvent::Nothing, cancel: false }
    );
    assert_eq!(
        conclude(SearchEnd::Failed(AppError::InvalidPath), 12),
        Conclusion {
            event: LastEvent::Error(AppError::InvalidPath.message()),
            cancel: false,
        }
    );
    assert_eq!(
        conclude(SearchEnd::Broken("task panicked".to_owned()), 12),
        Conclusion {
            event: LastEvent::Error("检索执行失败: task panicked".to_owned()),
            cancel: false,
        }
    );
    assert_eq!(
        conclude(SearchEnd::TimedOut, 30_000),
        Conclusion {
            event: LastEvent::Error("检索超时（最长 30 秒）".to_owned()),
            cancel: true,
        }
    );
    assert_eq!(
        conclude(SearchEnd::Closed, 0),
        Conclusion { event: LastEvent::Error("服务正在关闭".to_owned()), cancel: false }
    );
    assert_eq!((match_event(), done_event(), error_event()), ("match", "done", "error"));
}

fn arguments(list: &[&str]) -> Vec<String> {
    list.iter().map(|text| (*text).to_owned()).collect()
}

#[test]
fn the_command_line_can_name_a_configuration_file() {
    assert_eq!(config_argument(&arguments(&[])), ConfigArgument::Absent);
    assert_eq!(config_argument(&arguments(&["--verbose", "x"])), ConfigArgument::Absent);
    assert_eq!(
        config_argument(&arguments(&["--config", "/etc/ripgrep-web/config.json"])),
        ConfigArgument::File("/etc/ripgrep-web/config.json".to_owned())
    );
    assert_eq!(
        config_argument(&arguments(&["--config=/etc/ripgrep-web/config.json"])),
        ConfigArgument::File("/etc/ripgrep-web/config.json".to_owned())
    );
    assert_eq!(
        config_argument(&arguments(&["-v", "--config=a", "--config=b"])),
        ConfigArgument::File("a".to_owned())
    );
    assert_eq!(config_argument(&arguments(&["--config"])), ConfigArgument::MissingPath);
    assert_eq!(config_argument(&arguments(&["--config="])), ConfigArgument::File(String::new()));
    assert_eq!(config_argument(&arguments(&["--configs", "a"])), ConfigArgument::Absent);
}

#[test]
fn counts_are_read_as_std_reads_them() {
    for text in [
        "", "+", "-", "0", "1", "4", "+7", "007", "-3", " 3", "3 ", "1_000", "0x10", "٣", "++1",
        "18446744073709551615", "18446744073709551616", "99999999999999999999999999", "1a",
    ] {
        assert_eq!(
            parse_count(text),
            text.parse::<usize>().ok().filter(|value| *value > 0),
            "{:?}",
            text
        );
    }
}

fn no_environment() -> Environment {
    Environment {
        base_dir: None,
        listen_addr: None,
        max_concurrent_searches: None,
        rust_log: None,
    }
}

fn full_environment() -> Environment {
    Environment {
        base_dir: Some("/srv/env".to_owned()),
        listen_addr: Some("127.0.0.1:1".to_owned()),
        max_concurrent_searches: Some("9".to_owned()),
        rust_log: Some("debug".to_owned()),
    }
}

#[test]
fn settings_have_defaults() {
    let settings = resolve_settings(ConfigFile::default(), no_environment());
    assert_eq!(settings.base_dir, "/var/log");
    assert_eq!(settings.listen_addr, "0.0.0.0:5000");
    assert_eq!(settings.max_concurrent_searches, 4);
    assert_eq!(settings.rust_log, "ripgrep_web=info,tower_http=info");
}

#[test]
fn the_environment_overrides_the_defaults() {
    let settings = resolve_settings(ConfigFile::default(), full_environment());
    assert_eq!(settings.base_dir, "/srv/env");
    assert_eq!(settings.listen_addr, "127.0.0.1:1");
    assert_eq!(settings.max_concurrent_searches, 9);
    assert_eq!(settings.rust_log, "debug");
}

#[test]
fn the_configuration_file_overrides_the_environment() {
    let config = ConfigFile {
        base_dir: Some("/srv/file".to_owned()),
        listen_addr: Some("127.0.0.1:2".to_owned()),
        max_concurrent_searches: Some(2),
        rust_log: Some("trace".to_owned()),
    };
    let settings = resolve_settings(config, full_environment());
    assert_eq!(settings.base_dir, "/srv/file");
    assert_eq!(settings.listen_addr, "127.0.0.1:2");
    assert_eq!(settings.max_concurrent_searches, 2);
    assert_eq!(settings.rust_log, "debug");
}

#[test]
fn a_number_of_searches_that_is_none_is_passed_over() {
    let mut environment = no_environment();
    environment.max_concurrent_searches = Some("0".to_owned());
    let mut config = ConfigFile::default();
    config.max_concurrent_searches = Some(0);
    config.rust_log = Some("trace".to_owned());
    let settings = resolve_settings(config, environment);
    assert_eq!(settings.max_concurrent_searches, 4);
    assert_eq!(settings.rust_log, "trace");

    let mut environment = no_environment();
    environment.max_concurrent_searches = Some("many".to_owned());
    let settings = resolve_settings(ConfigFile::default(), environment);
    assert_eq!(settings.max_concurrent_searches, 4);
}
