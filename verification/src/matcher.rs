use crate::error::AppError;
use crate::found::{line_views, ReportedLine, Submatch};
use grep_matcher::Matcher;
use grep_regex::{RegexMatcher, RegexMatcherBuilder};
use grep_searcher::sinks::UTF8;
use grep_searcher::{BinaryDetection, SearcherBuilder};
use vstd::prelude::*;
use vstd::utf8::encode_utf8;

verus! {

/// A compiled pattern of the `grep_regex` crate.
#[verifier::external_type_specification]
#[verifier::external_body]
pub struct ExRegexMatcher(RegexMatcher);

/// What a compiled pattern was made from: the pattern's text, whether upper and lower
/// case count as the same, and whether the text is taken literally.
pub uninterp spec fn matcher_rule(matcher: RegexMatcher) -> (Seq<char>, bool, bool);

/// Why `RegexMatcherBuilder::build` refuses a pattern, in the words of its error;
/// `None` if it compiles.
pub uninterp spec fn pattern_error(
    pattern: Seq<char>,
    case_insensitive: bool,
    literal: bool,
) -> Option<Seq<char>>;

/// Calls `RegexMatcherBuilder::build` with the two flags set. It claims that a
/// pattern compiles or is refused, with the same words, by its text and the flags
/// alone, and that the compiled pattern keeps what it was made from.
#[verifier::external_body]
pub(crate) fn compile(pattern: &str, case_insensitive: bool, literal: bool) -> (r: Result<
    RegexMatcher,
    String,
>)
    ensures
        match r {
            Ok(matcher) => pattern_error(pattern@, case_insensitive, literal) is None
                && matcher_rule(matcher) == (pattern@, case_insensitive, literal),
            Err(words) => pattern_error(pattern@, case_insensitive, literal) == Some(words@),
        },
{
    RegexMatcherBuilder::new()
        .case_insensitive(case_insensitive)
        .fixed_strings(literal)
        .build(pattern)
        .map_err(|error| error.to_string())
}

/// Compiles a keyword: as a regular expression or, where `regex` is not set, as the
/// literal text.
pub fn build_matcher(pattern: &str, regex: bool, case_sensitive: bool) -> (r: Result<
    RegexMatcher,
    AppError,
>)
    ensures
        match r {
            Ok(matcher) => pattern_error(pattern@, !case_sensitive, !regex) is None
                && matcher_rule(matcher) == (pattern@, !case_sensitive, !regex),
            Err(error) => error matches AppError::InvalidRegex(words) && pattern_error(
                pattern@,
                !case_sensitive,
                !regex,
            ) == Some(words@),
        },
{
    refused_pattern(compile(pattern, !case_sensitive, !regex))
}

/// Passes a compiled pattern on, and a refusal as the client's error.
pub fn refused_pattern(compiled: Result<RegexMatcher, String>) -> (r: Result<
    RegexMatcher,
    AppError,
>)
    ensures
        r == (match compiled {
            Ok(matcher) => Ok::<RegexMatcher, AppError>(matcher),
            Err(words) => Err(AppError::InvalidRegex(words)),
        }),
{
    match compiled {
        Ok(matcher) => Ok(matcher),
        Err(words) => Err(AppError::InvalidRegex(words)),
    }
}

/// Appends a line to those that a search has reported and says whether the search
/// goes on: it does while there is room for another.
fn keep_line(
    lines: &mut Vec<ReportedLine>,
    room: usize,
    number: u64,
    text: &str,
) -> (more: bool)
    ensures
        line_views(final(lines)@) == line_views(old(lines)@).push((number, text@)),
        more == (final(lines)@.len() < room),
{
    lines.push(ReportedLine { number, text: text.to_owned() });
    lines.len() < room
}

/// The first `n` items of a list, or all of them where there are fewer.
pub open spec fn first<T>(items: Seq<T>, n: int) -> Seq<T> {
    if items.len() > n {
        items.take(n)
    } else {
        items
    }
}

/// What holds of every list of reported lines: the numbers start at 1 or later and
/// grow, and no line holds the byte that marks binary data.
pub open spec fn well_reported(lines: Seq<(u64, Seq<char>)>, binary_byte: u8) -> bool {
    &&& forall|i: int|
        0 <= i < lines.len() ==> (#[trigger] lines[i]).0 >= 1 && !encode_utf8(
            lines[i].1,
        ).contains(binary_byte)
    &&& forall|i: int, j: int|
        0 <= i < j < lines.len() ==> (#[trigger] lines[i]).0 < (#[trigger] lines[j]).0
}

/// The lines that a `Searcher` reports when a pattern is searched for in `data` and
/// its sink never ends the search, and the words of the error if the search ends in one.
pub uninterp spec fn reported_lines(
    rule: (Seq<char>, bool, bool),
    binary_byte: u8,
    data: Seq<u8>,
) -> (Seq<(u64, Seq<char>)>, Option<Seq<char>>);

/// Why a search that stops after `room` lines fails: it does if it gets to its end and
/// fails there.
pub open spec fn failure_within(
    reported: (Seq<(u64, Seq<char>)>, Option<Seq<char>>),
    room: int,
) -> Option<Seq<char>> {
    if reported.0.len() < room {
        reported.1
    } else {
        None
    }
}

/// The words of a failure.
pub open spec fn words(failure: Option<String>) -> Option<Seq<char>> {
    match failure {
        Some(text) => Some(text@),
        None => None,
    }
}

/// What a search of some data has reported.
pub struct Reported {
    pub lines: Vec<ReportedLine>,
    pub failure: Option<String>,
}

/// Calls `Searcher::search_reader` on bytes in memory, with line numbers and with
/// `binary_byte` as the byte that marks binary data, and ends the search when `room`
/// lines were reported. It claims that the lines are the first `room` of those that
/// the pattern and the data determine; that the search fails, with words that they
/// determine too, if it comes to its end and fails there; that the numbers start at 1
/// or later and grow; and that no line holds the byte that marks binary data.
#[verifier::external_body]
pub(crate) fn run_searcher(
    matcher: &RegexMatcher,
    binary_byte: u8,
    data: &[u8],
    room: usize,
) -> (r: Reported)
    requires
        room > 0,
    ensures
        line_views(r.lines@) == first(
            reported_lines(matcher_rule(*matcher), binary_byte, data@).0,
            room as int,
        ),
        words(r.failure) == failure_within(
            reported_lines(matcher_rule(*matcher), binary_byte, data@),
            room as int,
        ),
        well_reported(line_views(r.lines@), binary_byte),
{
    let mut lines: Vec<ReportedLine> = Vec::new();
    let ended = SearcherBuilder::new()
        .line_number(true)
        .binary_detection(BinaryDetection::quit(binary_byte))
        .build()
        .search_reader(
            matcher,
            data,
            UTF8(|number, text| Ok(keep_line(&mut lines, room, number, text))),
        );
    Reported { lines, failure: ended.err().map(|error| error.to_string()) }
}

/// Appends a range to those found so far; there is always room for another.
fn keep_range(ranges: &mut Vec<Submatch>, start: usize, end: usize) -> (more: bool)
    ensures
        final(ranges)@ == old(ranges)@.push(Submatch { start, end }),
        more,
{
    ranges.push(Submatch { start, end });
    true
}

/// The places where a pattern matches in a text, as `Matcher::find_iter` finds them.
pub uninterp spec fn match_ranges(rule: (Seq<char>, bool, bool), text: Seq<char>) -> Seq<Submatch>;

/// Whether the ranges lie one after the other, without overlap, in the first `length`
/// bytes.
pub open spec fn ranges_in_order(ranges: Seq<Submatch>, length: nat) -> bool {
    &&& forall|i: int|
        0 <= i < ranges.len() ==> (#[trigger] ranges[i]).start <= ranges[i].end <= length
    &&& forall|i: int, j: int|
        0 <= i < j < ranges.len() ==> (#[trigger] ranges[i]).end <= (#[trigger] ranges[j]).start
}

/// Whether each range of a text spells the pattern, where that is taken literally and upper
/// and lower case differ.
pub open spec fn ranges_spell(
    rule: (Seq<char>, bool, bool),
    text: Seq<char>,
    ranges: Seq<Submatch>,
) -> bool {
    !rule.1 && rule.2 ==> forall|i: int|
        0 <= i < ranges.len() ==> encode_utf8(text).subrange(
            (#[trigger] ranges[i]).start as int,
            ranges[i].end as int,
        ) == encode_utf8(rule.0)
}

/// Calls `Matcher::find_iter` on the bytes of a text. It claims that the ranges
/// depend on the pattern and the text alone, that they are ranges of the text's bytes, in
/// order and without overlap, and that each spells the pattern, where that is taken
/// literally and upper and lower case differ.
#[verifier::external_body]
pub(crate) fn find_ranges(matcher: &RegexMatcher, text: &str) -> (ranges: Vec<Submatch>)
    ensures
        ranges@ == match_ranges(matcher_rule(*matcher), text@),
        ranges_in_order(ranges@, encode_utf8(text@).len()),
        ranges_spell(matcher_rule(*matcher), text@, ranges@),
{
    let mut ranges: Vec<Submatch> = Vec::new();
    let _ = matcher.find_iter(
        text.as_bytes(),
        |found| keep_range(&mut ranges, found.start(), found.end()),
    );
    ranges
}

/// A failure is told in its words, and where there is none, none is told.
pub proof fn a_failure_has_its_words(text: String)
    ensures
        words(None) is None,
        words(Some(text)) == Some(text@),
{
}

/// A search that stops when enough lines were found tells of no failure behind them; one that
/// came to its end tells of its own.
pub proof fn a_search_that_stops_early_does_not_fail(
    reported: (Seq<(u64, Seq<char>)>, Option<Seq<char>>),
    room: int,
)
    ensures
        reported.0.len() >= room ==> failure_within(reported, room) is None,
        reported.0.len() < room ==> failure_within(reported, room) == reported.1,
{
}

/// A line that the searcher reports is kept behind the others, with its number and text as
/// they are, and the search goes on exactly while there is room.
proof fn a_reported_line_is_kept(
    lines: &mut Vec<ReportedLine>,
    room: usize,
    number: u64,
    text: &str,
    more: bool,
)
    requires
        call_ensures(keep_line, (lines, room, number, text), more),
    ensures
        final(lines)@.len() == old(lines)@.len() + 1,
        final(lines)@.last().number == number,
        final(lines)@.last().text@ == text@,
        forall|i: int|
            0 <= i < old(lines)@.len() ==> (#[trigger] final(lines)@[i])@ == old(lines)@[i]@,
        more <==> old(lines)@.len() + 1 < room,
{
    let before = line_views(old(lines)@);
    let after = line_views(final(lines)@);
    assert(after == before.push((number, text@)));
    assert(after.len() == final(lines)@.len() && before.len() == old(lines)@.len());
    assert(after.last() == final(lines)@.last()@);
    assert forall|i: int| 0 <= i < old(lines)@.len() implies (#[trigger] final(lines)@[i])@
        == old(lines)@[i]@ by {
        assert(after[i] == before[i]);
    }
}

/// A place where the pattern matches is kept behind the others as it is, and none is the last
/// that is looked for.
proof fn a_range_is_kept(ranges: &mut Vec<Submatch>, start: usize, end: usize, more: bool)
    requires
        call_ensures(keep_range, (ranges, start, end), more),
    ensures
        final(ranges)@.len() == old(ranges)@.len() + 1,
        final(ranges)@.last().start == start,
        final(ranges)@.last().end == end,
        final(ranges)@.drop_last() == old(ranges)@,
        more,
{
}

} // verus!
