//! What the calls of the library return and change, said of their arguments and results.

use crate::decode::{compressed_bytes, read_compressed, MemberHeader, ReadBytes};
use crate::error::AppError;
use crate::found::{ReportedLine, SearchMatch, SearchOutcome, Submatch};
use crate::matcher::{
    build_matcher, match_ranges, matcher_rule, pattern_error, refused_pattern, reported_lines,
    Reported,
};
use crate::model::{advanced, answered, opened, visited};
use crate::path::{
    compression, compression_of, is_compressed_path, is_within, join, names, names_of,
    path_is_within, Compression,
};
use crate::query::{
    accept_request, accept_request_at, candidate, candidate_path, effective_limit, is_answer,
    resolve_target, validate_keyword, Accepted, SearchQuery,
};
use crate::reply::{
    conclude, done_event, error_event, is_conclusion, match_event, Conclusion, SearchEnd,
};
use crate::search::{
    binary, describe_line, is_binary, member_path, LogSearch, Step, Visit, WalkEntry,
};
use crate::settings::{
    are_settings, config_argument, count_of, is_config_argument, parse_count, resolve_settings,
    ConfigArgument, ConfigFile, Environment, Settings,
};
use crate::text::{
    is_white_space, strip_leading_slashes, strip_line_end, trim, trimmed, white_space,
    without_leading_slashes, without_line_end,
};
use crate::time::{
    changed_after, cutoff, duration_of, is_changed_after, is_present, nanos_of,
    parse_changed_within, total_nanos, UnixTime,
};
use grep_regex::RegexMatcher;
use vstd::prelude::*;
use vstd::utf8::encode_utf8;

verus! {

/// A keyword passes exactly if it has at least one byte and at most 4096; an empty one and one
/// that is too long are told apart.
pub proof fn a_keyword_is_validated_by_its_size(keyword: &str, r: Result<(), AppError>)
    requires
        call_ensures(validate_keyword, (keyword,), r),
    ensures
        keyword@.len() == 0 ==> r == Err::<(), AppError>(AppError::EmptyKeyword),
        keyword@.len() > 0 && encode_utf8(keyword@).len() > 4_096 ==> r == Err::<(), AppError>(
            AppError::PatternTooLong,
        ),
        keyword@.len() > 0 && encode_utf8(keyword@).len() <= 4_096 ==> r is Ok,
{
}

/// A limit that is asked for is brought into the range from 1 to 2000, and is 1000 where none
/// is.
pub proof fn a_limit_is_brought_into_range(asked: Option<usize>, limit: usize)
    requires
        call_ensures(effective_limit, (asked,), limit),
    ensures
        1 <= limit <= 2_000,
        asked is None ==> limit == 1_000,
        asked matches Some(n) ==> limit == n || (n < 1 && limit == 1) || (n > 2_000 && limit
            == 2_000),
{
}

/// The path that a request names is computed as `candidate` has it.
pub proof fn the_named_path_is_computed(base: &[u8], requested: &str, r: Vec<u8>)
    requires
        call_ensures(candidate_path, (base, requested), r),
    ensures
        r@ == candidate(base@, requested@),
{
}

/// What a path resolves to is accepted as it is, exactly if it is there and lies within the
/// base directory.
pub proof fn a_target_is_accepted_within_the_base(
    base: &[u8],
    resolved: Option<Vec<u8>>,
    r: Result<Vec<u8>, AppError>,
)
    requires
        call_ensures(resolve_target, (base, resolved), r),
    ensures
        r is Ok <==> resolved is Some && is_within(resolved->0@, base@),
        r matches Ok(target) ==> resolved == Some(target),
        r matches Err(error) ==> error is InvalidPath,
{
}

/// A keyword is compiled as it is, taken literally unless `regex` is set and without regard to
/// case unless `case_sensitive` is. One that does not compile is refused with the words that
/// say why.
pub proof fn a_matcher_is_built_as_asked(
    pattern: &str,
    regex: bool,
    case_sensitive: bool,
    r: Result<RegexMatcher, AppError>,
)
    requires
        call_ensures(build_matcher, (pattern, regex, case_sensitive), r),
    ensures
        r is Ok <==> pattern_error(pattern@, !case_sensitive, !regex) is None,
        r matches Ok(matcher) ==> matcher_rule(matcher).0 == pattern@ && matcher_rule(matcher).1
            == !case_sensitive && matcher_rule(matcher).2 == !regex,
        r matches Err(error) ==> error is InvalidRegex && pattern_error(
            pattern@,
            !case_sensitive,
            !regex,
        ) == Some(error->InvalidRegex_0@),
{
}

/// A pattern that was compiled is passed on, and the words of a refusal are kept.
pub proof fn a_compiled_pattern_is_passed_on(
    compiled: Result<RegexMatcher, String>,
    r: Result<RegexMatcher, AppError>,
)
    requires
        call_ensures(refused_pattern, (compiled,), r),
    ensures
        compiled matches Ok(matcher) ==> r == Ok::<RegexMatcher, AppError>(matcher),
        compiled matches Err(words) ==> r == Err::<RegexMatcher, AppError>(
            AppError::InvalidRegex(words),
        ),
{
}

/// A request is answered as `is_answer` has it: one that is served is searched for with its
/// keyword and its options as they are.
pub proof fn a_request_is_answered(
    base: &[u8],
    query: SearchQuery,
    resolved: Option<Vec<u8>>,
    now: UnixTime,
    r: Result<Accepted, AppError>,
)
    requires
        call_ensures(accept_request_at, (base, &query, resolved, &now), r),
    ensures
        is_answer(r, base@, query, resolved, now.since_epoch()),
        r matches Ok(accepted) ==> {
            &&& resolved == Some(accepted.target)
            &&& accepted.search@.rule == (query.keyword@, !query.case_sensitive, !query.regex)
            &&& accepted.search@.search_zip == query.search_zip
            &&& query.limit is None ==> accepted.search@.limit == 1_000
            &&& query.limit matches Some(n) ==> 1 <= n <= 2_000 ==> accepted.search@.limit == n
        },
{
}

/// The time of a request is counted in nanoseconds from the start of 1970.
pub proof fn a_time_is_counted_in_nanoseconds(time: UnixTime, n: i128)
    requires
        call_ensures(UnixTime::nanos_since_epoch, (&time,), n),
    ensures
        n == if time.before {
            -(time.seconds * 1_000_000_000 + time.nanos)
        } else {
            time.seconds * 1_000_000_000 + time.nanos
        },
{
}

/// What a text says is told exactly if it can be counted.
pub proof fn a_duration_is_told_in_nanoseconds(text: &str, r: Option<u128>)
    requires
        call_ensures(total_nanos, (text,), r),
    ensures
        r is Some <==> nanos_of(text@) is Some,
        r matches Some(n) ==> nanos_of(text@) == Some(n as int),
{
}

/// A range of so many nanoseconds reaches that far back from the time of the request, and is
/// refused, with its text, if it was not understood or there is no such time.
pub proof fn a_range_reaches_back_from_now(
    range: &str,
    nanos: Option<u128>,
    now: UnixTime,
    r: Result<i128, AppError>,
)
    requires
        call_ensures(cutoff, (range, nanos, &now), r),
    ensures
        r is Ok <==> nanos is Some && now.since_epoch() - nanos->0
            >= -9_223_372_036_854_775_808_000_000_000,
        r matches Ok(time) ==> time == now.since_epoch() - nanos->0,
        r matches Err(error) ==> error is InvalidDuration && error->InvalidDuration_0@ == range@,
{
}

/// A field for a time range is read as `is_changed_after` has it: the limit that comes of it
/// lies as far back as the field's text says.
pub proof fn a_field_is_read(value: &str, now: UnixTime, r: Result<Option<i128>, AppError>)
    requires
        call_ensures(changed_after, (value, &now), r),
    ensures
        is_changed_after(r, value@, now.since_epoch()),
        trimmed(value@).len() == 0 <==> r is Ok && r->Ok_0 is None,
        r is Ok && r->Ok_0 is Some ==> {
            &&& duration_of(trimmed(value@)) matches Some(span)
            &&& now.since_epoch() - r->Ok_0->0 == span.0 * 1_000_000_000 + span.1
        },
{
}

/// A field that is read, and a request that is answered, without a time is so at a time that
/// the clock gave.
pub proof fn the_clock_tells_the_time_of_a_request(
    value: &str,
    r: Result<Option<i128>, AppError>,
    base: &[u8],
    query: SearchQuery,
    resolved: Option<Vec<u8>>,
    answer: Result<Accepted, AppError>,
)
    ensures
        call_ensures(parse_changed_within, (value,), r) ==> exists|now: UnixTime|
            is_present(now) && is_changed_after(r, value@, #[trigger] now.since_epoch()),
        call_ensures(accept_request, (base, &query, resolved), answer) ==> exists|now: UnixTime|
            is_present(now) && is_answer(
                answer,
                base@,
                query,
                resolved,
                #[trigger] now.since_epoch(),
            ),
{
}

/// White space, slashes and line ends are taken off as the models have it.
pub proof fn texts_are_stripped(text: &str, r: &str, c: char, blank: bool)
    ensures
        call_ensures(white_space, (c,), blank) ==> (blank <==> is_white_space(c)),
        call_ensures(trim, (text,), r) ==> r@ == trimmed(text@),
        call_ensures(strip_leading_slashes, (text,), r) ==> r@ == without_leading_slashes(text@),
        call_ensures(strip_line_end, (text,), r) ==> r@ == without_line_end(text@),
{
}

/// The names of a path are listed from the first to the last, each as it is.
pub proof fn names_are_listed(path: &[u8], list: Vec<Vec<u8>>)
    requires
        call_ensures(names_of, (path,), list),
    ensures
        list@.len() == names(path@).len(),
        forall|i: int| 0 <= i < list@.len() ==> (#[trigger] list@[i])@ == names(path@)[i],
{
    assert forall|i: int| 0 <= i < list@.len() implies (#[trigger] list@[i])@ == names(
        path@,
    )[i] by {
        assert(list@.map_values(|name: Vec<u8>| name@)[i] == list@[i]@);
    }
}

/// One path is said to lie within another exactly if it does.
pub proof fn a_path_is_said_to_be_within(path: &[u8], base: &[u8], r: bool)
    requires
        call_ensures(path_is_within, (path, base), r),
    ensures
        r <==> is_within(path@, base@),
{
}

/// A path is appended to a directory behind one slash.
pub proof fn a_path_is_appended(base: &[u8], relative: &[u8], r: Vec<u8>)
    requires
        call_ensures(join, (base, relative), r),
    ensures
        r@ == if base@.len() == 0 || base@.last() == 47 {
            base@ + relative@
        } else {
            base@ + seq![47u8] + relative@
        },
{
}

/// How a file is compressed is told by its path, and a path is said to be compressed exactly
/// if it tells a format.
pub proof fn a_compressed_path_is_told(path: &str, format: Option<Compression>, r: bool)
    ensures
        call_ensures(compression, (path,), format) ==> format == compression_of(
            encode_utf8(path@),
        ),
        call_ensures(is_compressed_path, (path,), r) ==> (r <==> compression_of(
            encode_utf8(path@),
        ) is Some),
{
}

/// A compressed file is decoded by the decoder of its format.
pub proof fn a_compressed_file_is_decoded(format: Compression, data: &[u8], r: ReadBytes)
    requires
        call_ensures(read_compressed, (format, data), r),
    ensures
        r.data@ == compressed_bytes(format, data@).0,
        r.failure is None <==> compressed_bytes(format, data@).1 is None,
        r.failure matches Some(cause) ==> compressed_bytes(format, data@).1 == Some(cause@),
        r.data@.len() <= 268_435_456,
{
}

/// Data is said to be binary exactly if it is.
pub proof fn data_is_said_to_be_binary(data: Vec<u8>, r: bool)
    requires
        call_ensures(binary, (&data,), r),
    ensures
        r <==> is_binary(data@),
{
}

/// A reported line is described under the given path, with its number, without its line end
/// and with the given ranges.
pub proof fn a_line_is_described(
    path: &str,
    line: ReportedLine,
    ranges: Vec<Submatch>,
    r: SearchMatch,
)
    requires
        call_ensures(describe_line, (path, &line, ranges), r),
    ensures
        r.path@ == path@,
        r.line_number == line.number,
        r.line@ == without_line_end(line.text@),
        r.submatches@ == ranges@,
{
    assert(r@.path == r.path@ && r@.line == r.line@ && r@.submatches == r.submatches@);
}

/// An archive member is shown as `archive!member`.
pub proof fn a_member_is_shown_behind_its_archive(archive: &str, member: &str, r: String)
    requires
        call_ensures(member_path, (archive, member), r),
    ensures
        r@ == archive@ + "!"@ + member@,
{
}

/// A new search has what it was made with, no results and no file.
pub proof fn a_new_search_has_what_it_was_made_with(
    matcher: RegexMatcher,
    limit: usize,
    search_zip: bool,
    changed_after: Option<i128>,
    search: LogSearch,
)
    requires
        call_ensures(LogSearch::new, (matcher, limit, search_zip, changed_after), search),
    ensures
        search@.rule == matcher_rule(matcher),
        search@.limit == limit,
        search@.search_zip == search_zip,
        changed_after is None <==> search@.changed_after is None,
        changed_after matches Some(time) ==> search@.changed_after == Some(time as int),
        search@.outcome.count == 0,
        !search@.outcome.truncated,
        !search@.outcome.cancelled,
        search@.file is None,
{
}

/// The outcome that is handed out is that of the search.
pub proof fn the_outcome_is_handed_out(search: LogSearch, outcome: SearchOutcome)
    requires
        call_ensures(LogSearch::outcome, (&search,), outcome),
    ensures
        outcome == search@.outcome,
{
}

/// A search meets an entry of the walk as the model has it: while it is not cancelled and has
/// room, it looks into each ordinary file that is recent enough, be it compressed or not, and
/// leaves compressed ones out only where they were not asked for.
pub proof fn an_entry_is_met(search: &mut LogSearch, flag: bool, entry: WalkEntry, visit: Visit)
    requires
        call_ensures(LogSearch::visit, (search, flag, &entry), visit),
    ensures
        (final(search)@, visit) == visited(old(search)@, flag, entry),
        entry matches WalkEntry::Entry { path, is_file, modified } ==> {
            let before = old(search)@;
            !flag && !before.outcome.cancelled && before.outcome.count < before.limit ==> {
                visit == Visit::Search <==> {
                    &&& is_file
                    &&& before.search_zip || compression_of(encode_utf8(path@)) is None
                    &&& before.changed_after is None || (modified is Some && modified->0
                        > before.changed_after->0)
                }
            }
        },
{
}

/// A search takes up a file that was read as the model has it, and refuses one with the words
/// that say why. Of a plain file that is no binary one all lines that the searcher reports are
/// taken up, as far as there is room.
pub proof fn a_file_is_opened(
    search: &mut LogSearch,
    path: String,
    read: ReadBytes,
    r: Result<(), AppError>,
)
    requires
        call_ensures(LogSearch::open, (search, path, read), r),
    ensures
        r is Ok ==> opened(old(search)@, path@, read@, final(search)@, None),
        r matches Err(error) ==> error is Search && opened(
            old(search)@,
            path@,
            read@,
            final(search)@,
            Some(error->Search_0@),
        ),
        ({
            let before = old(search)@;
            let lines = reported_lines(before.rule, 0, read.data@).0;
            compression_of(encode_utf8(path@)) is None && read.failure is None && !is_binary(
                read.data@,
            ) && before.outcome.count < before.limit ==> {
                &&& r is Ok
                &&& final(search)@.file is Some
                &&& final(search)@.file->0.pending == if lines.len() < before.limit
                    - before.outcome.count {
                    lines
                } else {
                    lines.take(before.limit - before.outcome.count)
                }
            }
        }),
{
    let lines = reported_lines(old(search)@.rule, 0, read.data@).0;
    assert(lines.take(lines.len() as int) =~= lines);
}

/// A compressed file is taken up as any file is; one whose path tells no format is passed
/// over, and nothing but the file at hand changes.
pub proof fn a_compressed_file_is_opened(
    search: &mut LogSearch,
    path: String,
    read: ReadBytes,
    r: Result<(), AppError>,
)
    requires
        call_ensures(LogSearch::search_compressed_file, (search, path, read), r),
    ensures
        compression_of(encode_utf8(path@)) is None ==> {
            &&& r is Ok
            &&& final(search)@.file is None
            &&& final(search)@.outcome == old(search)@.outcome
            &&& final(search)@.rule == old(search)@.rule
            &&& final(search)@.limit == old(search)@.limit
            &&& final(search)@.search_zip == old(search)@.search_zip
            &&& final(search)@.changed_after == old(search)@.changed_after
        },
        compression_of(encode_utf8(path@)) is Some && r is Ok ==> opened(
            old(search)@,
            path@,
            read@,
            final(search)@,
            None,
        ),
        compression_of(encode_utf8(path@)) is Some && r is Err ==> r->Err_0 is Search && opened(
            old(search)@,
            path@,
            read@,
            final(search)@,
            Some(r->Err_0->Search_0@),
        ),
{
}

/// Reported lines are taken up from the first on, as many as the client can still get, or one
/// where it can get none, with the failure behind them.
pub proof fn reported_lines_are_taken_up(
    search: &mut LogSearch,
    path: String,
    reported: Reported,
)
    requires
        call_ensures(LogSearch::open_reported, (search, path, reported), ()),
    ensures
        ({
            let before = old(search)@;
            let after = final(search)@;
            let wanted = if before.outcome.count < before.limit {
                before.limit - before.outcome.count
            } else {
                1
            };
            let lines = reported.lines@;
            &&& after.outcome == before.outcome
            &&& after.rule == before.rule
            &&& after.limit == before.limit
            &&& after.search_zip == before.search_zip
            &&& after.changed_after == before.changed_after
            &&& after.file is Some
            &&& after.file->0.path == path@
            &&& after.file->0.shown == path@
            &&& after.file->0.archive is None
            &&& reported.failure is None <==> after.file->0.failure is None
            &&& reported.failure matches Some(cause) ==> after.file->0.failure == Some(cause@)
            &&& after.file->0.pending.len() == if lines.len() < wanted {
                lines.len() as int
            } else {
                wanted
            }
            &&& forall|i: int|
                0 <= i < after.file->0.pending.len() ==> (#[trigger] after.file->0.pending[i]).0
                    == lines[i].number && after.file->0.pending[i].1 == lines[i].text@
        }),
{
}

/// A search passes an archive member as it was opened: the lines of a file are taken up from
/// the first on, as many as the client can still get, or one where it can get none, with the
/// failure behind them; a directory and a member that cannot be opened have none.
pub proof fn a_member_is_taken(
    search: &mut LogSearch,
    member: Result<MemberHeader, String>,
    reported: Reported,
    step: Step,
)
    requires
        call_ensures(LogSearch::take_member, (search, member, reported), step),
        old(search)@.file is Some,
        old(search)@.file->0.archive is Some,
    ensures
        ({
            let before = old(search)@;
            let after = final(search)@;
            let wanted = if before.outcome.count < before.limit {
                before.limit - before.outcome.count
            } else {
                1
            };
            let lines = reported.lines@;
            let is_searched = member is Ok && !member->Ok_0.is_dir;
            &&& member is Ok <==> step is Continue
            &&& member matches Err(cause) ==> step == Step::Skipped(cause)
            &&& after.outcome == before.outcome
            &&& after.rule == before.rule
            &&& after.limit == before.limit
            &&& after.file is Some
            &&& after.file->0.path == before.file->0.path
            &&& after.file->0.archive is Some
            &&& after.file->0.archive->0.bytes == before.file->0.archive->0.bytes
            &&& after.file->0.archive->0.next == before.file->0.archive->0.next + 1
            &&& !is_searched ==> {
                &&& after.file->0.shown == before.file->0.shown
                &&& after.file->0.pending == before.file->0.pending
                &&& after.file->0.failure == before.file->0.failure
            }
            &&& is_searched ==> {
                &&& after.file->0.shown == before.file->0.path + "!"@ + member->Ok_0.name@
                &&& reported.failure is None <==> after.file->0.failure is None
                &&& reported.failure is Some ==> after.file->0.failure == Some(
                    reported.failure->0@,
                )
                &&& after.file->0.pending.len() == if lines.len() < wanted {
                    lines.len() as int
                } else {
                    wanted
                }
                &&& forall|i: int|
                    0 <= i < after.file->0.pending.len() ==> (
                    #[trigger] after.file->0.pending[i]).0 == lines[i].number
                        && after.file->0.pending[i].1 == lines[i].text@
            }
        }),
{
    assert(final(search)@.closed().outcome == old(search)@.closed().outcome);
}

/// A search notes the answer of the client as the model has it.
pub proof fn an_answer_is_noted(search: &mut LogSearch, taken: bool)
    requires
        call_ensures(LogSearch::answer, (search, taken), ()),
    ensures
        final(search)@ == answered(old(search)@, taken),
{
}

/// A search does its next piece of work as the model has it. A line is offered with the number
/// under which it was reported. The places that are told of it are those where the pattern
/// matches. They lie in its bytes, one behind the other; where the keyword is taken literally
/// and case counts, each holds the keyword.
pub proof fn a_search_gets_on(search: &mut LogSearch, flag: bool, step: Step)
    requires
        call_ensures(LogSearch::advance, (search, flag), step),
    ensures
        advanced(old(search)@, flag, final(search)@, step),
        step matches Step::Deliver(found) ==> {
            let bytes = encode_utf8(found.line@);
            let rule = old(search)@.rule;
            let file = old(search)@.file->0;
            &&& file.pending.len() > 0
            &&& found.path@ == file.shown
            &&& found.line_number == file.pending[0].0
            &&& found.line@ == without_line_end(file.pending[0].1)
            &&& found.submatches@ == match_ranges(rule, found.line@)
            &&& forall|i: int|
                0 <= i < found.submatches@.len() ==> (#[trigger] found.submatches@[i]).start
                    <= found.submatches@[i].end <= bytes.len()
            &&& forall|i: int, j: int|
                0 <= i < j < found.submatches@.len() ==> (#[trigger] found.submatches@[i]).end
                    <= (#[trigger] found.submatches@[j]).start
            &&& !rule.1 && rule.2 ==> forall|i: int|
                0 <= i < found.submatches@.len() ==> bytes.subrange(
                    (#[trigger] found.submatches@[i]).start as int,
                    found.submatches@[i].end as int,
                ) == encode_utf8(rule.0)
        },
{
    if let Step::Deliver(found) = step {
        assert(found@.line_number == found.line_number && found@.path == found.path@);
    }
}

/// The end of a search is concluded as `is_conclusion` has it.
pub proof fn an_end_is_concluded(end: SearchEnd, elapsed_ms: u128, r: Conclusion)
    requires
        call_ensures(conclude, (end, elapsed_ms), r),
    ensures
        is_conclusion(r, end, elapsed_ms),
{
}

/// The events of an answer are called `match`, `done` and `error`.
pub proof fn events_have_names(name: &'static str)
    ensures
        call_ensures(match_event, (), name) ==> name@ == "match"@,
        call_ensures(done_event, (), name) ==> name@ == "done"@,
        call_ensures(error_event, (), name) ==> name@ == "error"@,
{
}

/// An error is told with its text, and answered with its status.
pub proof fn an_error_is_told(error: AppError, message: String, code: u16)
    ensures
        call_ensures(AppError::message, (&error,), message) ==> message@ == error.text(),
        call_ensures(AppError::status, (&error,), code) ==> code == error.status_code(),
{
}

/// The command line is read as `is_config_argument` has it.
pub proof fn the_command_line_is_read(args: &[String], r: ConfigArgument)
    requires
        call_ensures(config_argument, (args,), r),
    ensures
        is_config_argument(r, args@),
{
}

/// A number of searches is read exactly if the text is one.
pub proof fn a_number_of_searches_is_read(text: &str, r: Option<usize>)
    requires
        call_ensures(parse_count, (text,), r),
    ensures
        r is Some <==> count_of(text@) is Some,
        r matches Some(n) ==> count_of(text@) == Some(n as int) && n > 0,
{
}

/// A configuration that says nothing leaves every field out.
pub proof fn an_empty_configuration_says_nothing(config: ConfigFile)
    requires
        call_ensures(ConfigFile::default, (), config),
    ensures
        config.base_dir is None,
        config.listen_addr is None,
        config.max_concurrent_searches is None,
        config.rust_log is None,
{
}

/// What the service runs with is put together as `are_settings` has it.
pub proof fn settings_are_put_together(
    config: ConfigFile,
    environment: Environment,
    settings: Settings,
)
    requires
        call_ensures(resolve_settings, (config, environment), settings),
    ensures
        are_settings(settings, config, environment),
        settings.max_concurrent_searches > 0,
{
}

} // verus!
