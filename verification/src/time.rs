use crate::error::AppError;
use crate::model::recent_enough;
use crate::text::{is_white_space, trim, trimmed, white_space};
use std::time::{SystemTime, UNIX_EPOCH};
use vstd::prelude::*;
use vstd::string::*;

verus! {

/// The number of nanoseconds in a second.
pub const NANOS: u64 = 1_000_000_000;

/// The earliest time that a cutoff can be, in nanoseconds since 1970: seconds are
/// counted in 64 bits.
pub const EARLIEST: i128 = -9_223_372_036_854_775_808_000_000_000;

/// A time as the clock gives it: how long before or after the start of 1970.
#[derive(Debug, PartialEq, Eq, Structural, Clone, Copy)]
pub struct UnixTime {
    pub before: bool,
    pub seconds: u64,
    pub nanos: u32,
}

impl UnixTime {
    /// The nanoseconds since the start of 1970.
    pub open spec fn since_epoch(self) -> int {
        let distance = self.seconds * NANOS + self.nanos;
        if self.before {
            -distance
        } else {
            distance
        }
    }

    /// Computes `since_epoch`.
    pub fn nanos_since_epoch(&self) -> (n: i128)
        ensures
            n == self.since_epoch(),
    {
        let distance: i128 = self.seconds as i128 * 1_000_000_000 + self.nanos as i128;
        if self.before {
            -distance
        } else {
            distance
        }
    }
}

/// Reads the clock with `SystemTime::now` and says how far that is from the start of
/// 1970, as `SystemTime::duration_since` has it. It claims no more of the time than that
/// the nanoseconds make up less than a second.
#[verifier::external_body]
fn clock() -> (now: UnixTime)
    ensures
        now.nanos < NANOS,
{
    match SystemTime::now().duration_since(UNIX_EPOCH) {
        Ok(span) => {
            UnixTime { before: false, seconds: span.as_secs(), nanos: span.subsec_nanos() }
        },
        Err(early) => {
            let span = early.duration();
            UnixTime { before: true, seconds: span.as_secs(), nanos: span.subsec_nanos() }
        },
    }
}

/// Whether this is a time that the clock can give.
pub closed spec fn is_present(now: UnixTime) -> bool {
    call_ensures(clock, (), now)
}

/// The present time.
pub(crate) fn present() -> (now: UnixTime)
    ensures
        is_present(now),
        now.nanos < NANOS,
{
    asked(clock)
}

/// What a function without arguments returns.
fn asked<T, F: Fn() -> T>(function: F) -> (r: T)
    requires
        call_requires(function, ()),
    ensures
        call_ensures(function, (), r),
{
    function()
}

/// Whether a character is one of those that time units are written with.
pub open spec fn is_unit_letter(c: char) -> bool {
    'a' <= c <= 'z' || 'A' <= c <= 'Z' || c == '\u{b5}'
}

/// Whether the last character before the index `i` that is no white space is a letter
/// of a unit.
pub open spec fn follows_unit(text: Seq<char>, i: int) -> bool
    decreases i,
{
    if i <= 0 {
        false
    } else if is_white_space(text[i - 1]) {
        follows_unit(text, i - 1)
    } else {
        is_unit_letter(text[i - 1])
    }
}

/// Whether a further span of time begins at the index `i`: with a digit that follows a
/// unit.
pub open spec fn begins_span(text: Seq<char>, i: int) -> bool {
    0 < i < text.len() && '0' <= text[i] <= '9' && follows_unit(text, i)
}

/// The index from `from` on where the next span begins, or the length of the text.
pub open spec fn next_span(text: Seq<char>, from: int) -> int
    decreases text.len() - from,
{
    if from >= text.len() {
        text.len() as int
    } else if begins_span(text, from) {
        from
    } else {
        next_span(text, from + 1)
    }
}

/// Whether a text holds no more than one span of time.
pub open spec fn is_one_span(text: Seq<char>) -> bool {
    forall|i: int| 0 <= i < text.len() ==> !#[trigger] begins_span(text, i)
}

/// The seconds and nanoseconds that a text says, as `humantime::parse_duration` reads
/// it; `None` if it is refused.
pub uninterp spec fn duration_of(text: Seq<char>) -> Option<(u64, u32)>;

/// The first sum, in nanoseconds, that `humantime::parse_duration` cannot count: its seconds
/// have 64 bits.
pub const UNCOUNTABLE: u128 = 18_446_744_073_709_551_616_000_000_000;

/// Calls `humantime::parse_duration`. It claims that the duration depends on the text alone.
/// That function panics where it has counted the largest number of seconds and adds a whole
/// second in a smaller unit, be the text behind that understood or not. One span alone never
/// gets there, nor do several that are each understood and add up to less than
/// `UNCOUNTABLE`.
#[verifier::external_body]
fn parse_text(text: &str) -> (r: Option<(u64, u32)>)
    requires
        is_one_span(text@) || reach(text@) < UNCOUNTABLE,
    ensures
        r == duration_of(text@),
{
    humantime::parse_duration(text).ok().map(|span| (span.as_secs(), span.subsec_nanos()))
}

/// The nanoseconds that the spans of a text from the index `from` on add up to, each taken by
/// itself. One that is refused counts as what cannot be counted.
pub open spec fn reach_from(text: Seq<char>, from: int) -> int
    decreases text.len() - from,
    when 0 <= from <= text.len()
    via reach_from_ends
{
    let end = next_span(text, from + 1);
    match duration_of(text.subrange(from, end)) {
        None => UNCOUNTABLE as int,
        Some((seconds, nanos)) => {
            let span = seconds * NANOS + nanos;
            if end >= text.len() {
                span
            } else {
                span + reach_from(text, end)
            }
        },
    }
}

#[via_fn]
proof fn reach_from_ends(text: Seq<char>, from: int) {
    lemma_next_span(text, from + 1);
}

/// What the spans of a text add up to, each taken by itself.
pub open spec fn reach(text: Seq<char>) -> int {
    reach_from(text, 0)
}

/// Spans never add up to less than nothing.
proof fn lemma_reach(text: Seq<char>, from: int)
    requires
        0 <= from <= text.len(),
    ensures
        reach_from(text, from) >= 0,
    decreases text.len() - from,
{
    lemma_next_span(text, from + 1);
    if next_span(text, from + 1) < text.len() {
        lemma_reach(text, next_span(text, from + 1));
    }
}

/// The next span begins where a span begins, and none begins before.
proof fn lemma_next_span(text: Seq<char>, from: int)
    requires
        0 <= from,
    ensures
        from <= text.len() ==> from <= next_span(text, from) <= text.len(),
        from > text.len() ==> next_span(text, from) == text.len(),
        forall|i: int| from <= i < next_span(text, from) ==> !#[trigger] begins_span(text, i),
        next_span(text, from) < text.len() ==> begins_span(text, next_span(text, from)),
    decreases text.len() - from,
{
    if from < text.len() && !begins_span(text, from) {
        lemma_next_span(text, from + 1);
    }
}

/// The nanoseconds that a text says; `None` if it is refused as a whole, if one of its spans
/// is, or if they add up to more than can be counted.
pub open spec fn nanos_of(text: Seq<char>) -> Option<int> {
    if reach(text) < UNCOUNTABLE {
        match duration_of(text) {
            Some((seconds, nanos)) => Some(seconds * NANOS + nanos),
            None => None,
        }
    } else {
        None
    }
}

/// A letter before an index of a part is one before that index of the whole text.
proof fn lemma_follows_unit(text: Seq<char>, from: int, end: int, i: int)
    requires
        0 <= from <= end <= text.len(),
        0 <= i <= end - from,
        follows_unit(text.subrange(from, end), i),
    ensures
        follows_unit(text, from + i),
    decreases i,
{
    let part = text.subrange(from, end);
    if i > 0 {
        if is_white_space(part[i - 1]) {
            lemma_follows_unit(text, from, end, i - 1);
        }
    }
}

/// The text between two beginnings of spans holds one span.
proof fn lemma_one_span(text: Seq<char>, from: int)
    requires
        0 <= from <= text.len(),
    ensures
        ({
            let end = next_span(text, from + 1);
            from <= end <= text.len() && is_one_span(text.subrange(from, end))
        }),
{
    lemma_next_span(text, from + 1);
    let end = next_span(text, from + 1);
    let part = text.subrange(from, end);
    assert forall|i: int| 0 <= i < part.len() implies !#[trigger] begins_span(part, i) by {
        if begins_span(part, i) {
            lemma_follows_unit(text, from, end, i);
            assert(begins_span(text, from + i));
        }
    }
}

/// Whether a further span of time begins at the index.
fn span_begins(text: &Vec<char>, at: usize) -> (r: bool)
    requires
        at < text@.len(),
    ensures
        r == begins_span(text@, at as int),
{
    if at == 0 || !('0' <= text[at] && text[at] <= '9') {
        return false;
    }
    let mut before: usize = at;
    while before > 0 && white_space(text[before - 1])
        invariant
            before <= at < text@.len(),
            follows_unit(text@, at as int) == follows_unit(text@, before as int),
        decreases before,
    {
        before = before - 1;
    }
    if before == 0 {
        return false;
    }
    let c: char = text[before - 1];
    ('a' <= c && c <= 'z') || ('A' <= c && c <= 'Z') || c == '\u{b5}'
}

/// Whether the spans of a text are all understood and add up to what can be counted.
fn is_countable(text: &str) -> (r: bool)
    ensures
        r == (reach(text@) < UNCOUNTABLE),
{
    let chars = chars_of(text);
    let length: usize = chars.len();
    let mut total: u128 = 0;
    let mut from: usize = 0;
    loop
        invariant
            chars@ == text@,
            length == text@.len(),
            from <= length,
            total < UNCOUNTABLE,
            reach(text@) == total + reach_from(text@, from as int),
        decreases length + 1 - from,
    {
        let mut end: usize = from;
        if end < length {
            end = end + 1;
        }
        proof {
            lemma_next_span(text@, from + 1);
            lemma_one_span(text@, from as int);
        }
        while end < length && !span_begins(&chars, end)
            invariant
                chars@ == text@,
                length == text@.len(),
                from <= end <= length,
                next_span(text@, from + 1) == next_span(text@, end as int),
            decreases length - end,
        {
            end = end + 1;
        }
        match parse_text(text.substring_char(from, end)) {
            None => {
                return false;
            },
            Some((seconds, nanos)) => {
                total = total + (seconds as u128 * 1_000_000_000 + nanos as u128);
            },
        }
        if end == length {
            return total < UNCOUNTABLE;
        }
        if total >= UNCOUNTABLE {
            proof {
                lemma_reach(text@, end as int);
            }
            return false;
        }
        from = end;
    }
}

/// The nanoseconds that a text says; `None` if it is refused.
pub fn total_nanos(text: &str) -> (r: Option<u128>)
    ensures
        match r {
            Some(n) => nanos_of(text@) == Some(n as int),
            None => nanos_of(text@) is None,
        },
{
    if !is_countable(text) {
        return None;
    }
    match parse_text(text) {
        Some((seconds, nanos)) => Some(seconds as u128 * 1_000_000_000 + nanos as u128),
        None => None,
    }
}

/// The characters of a text.
fn chars_of(text: &str) -> (chars: Vec<char>)
    ensures
        chars@ == text@,
{
    let mut chars: Vec<char> = Vec::new();
    for c in it: text.chars()
        invariant
            it.seq() == text@,
            chars@ == text@.take(it.index() as int),
    {
        chars.push(c);
    }
    chars
}

/// What a time range that adds up to `nanos` comes to at the time `now`, both in
/// nanoseconds: the time from which on files are searched. The range is refused if it
/// was not understood or reaches back before `EARLIEST`.
pub open spec fn is_cutoff(
    r: Result<i128, AppError>,
    range: Seq<char>,
    nanos: Option<int>,
    now: int,
) -> bool {
    if nanos is Some && now - nanos->0 >= EARLIEST {
        r matches Ok(cutoff) && cutoff == now - nanos->0
    } else {
        r matches Err(AppError::InvalidDuration(text)) && text@ == range
    }
}

/// The time from which on files are searched, by what the range adds up to.
pub fn cutoff(range: &str, nanos: Option<u128>, now: &UnixTime) -> (r: Result<i128, AppError>)
    ensures
        is_cutoff(
            r,
            range@,
            match nanos {
                Some(n) => Some(n as int),
                None => None,
            },
            now.since_epoch(),
        ),
{
    if let Some(n) = nanos {
        if n <= i128::MAX as u128 {
            if let Some(time) = now.nanos_since_epoch().checked_sub(n as i128) {
                if time >= EARLIEST {
                    return Ok(time);
                }
            }
        }
    }
    Err(AppError::InvalidDuration(range.to_owned()))
}

/// What the field `changed_within` of a request comes to at the time `now`: no limit
/// where it is blank, else what its text, without the white space at its ends, says.
pub open spec fn is_changed_after(
    r: Result<Option<i128>, AppError>,
    value: Seq<char>,
    now: int,
) -> bool {
    let range = trimmed(value);
    if range.len() == 0 {
        r == Ok::<Option<i128>, AppError>(None)
    } else {
        match r {
            Ok(Some(time)) => is_cutoff(Ok(time), range, nanos_of(range), now),
            Ok(None) => false,
            Err(error) => is_cutoff(Err(error), range, nanos_of(range), now),
        }
    }
}

/// Reads the field `changed_within` of a request at the time `now`.
pub fn changed_after(value: &str, now: &UnixTime) -> (r: Result<Option<i128>, AppError>)
    ensures
        is_changed_after(r, value@, now.since_epoch()),
{
    let range = trim(value);
    if range.is_empty() {
        return Ok(None);
    }
    match cutoff(range, total_nanos(range), now) {
        Ok(time) => Ok(Some(time)),
        Err(error) => Err(error),
    }
}

/// Reads the field `changed_within` of a request at the present time.
pub fn parse_changed_within(value: &str) -> (r: Result<Option<i128>, AppError>)
    ensures
        exists|now: UnixTime|
            is_present(now) && now.nanos < NANOS && is_changed_after(
                r,
                value@,
                #[trigger] now.since_epoch(),
            ),
{
    let now = present();
    changed_after(value, &now)
}

/// A file is searched if it was changed within the time range: if its age at the time of
/// the request is less than what the range says.
pub proof fn recent_means_within_the_range(
    cutoff: i128,
    range: Seq<char>,
    nanos: int,
    now: int,
    modified: i128,
)
    requires
        is_cutoff(Ok(cutoff), range, Some(nanos), now),
    ensures
        recent_enough(Some(cutoff as int), Some(modified)) == (now - modified < nanos),
{
}

/// A longer time range leaves out no file that a shorter one lets in, and no range leaves
/// out none.
pub proof fn a_longer_range_lets_more_files_in(
    shorter: (i128, Seq<char>, int),
    longer: (i128, Seq<char>, int),
    now: int,
    modified: Option<i128>,
)
    requires
        is_cutoff(Ok(shorter.0), shorter.1, Some(shorter.2), now),
        is_cutoff(Ok(longer.0), longer.1, Some(longer.2), now),
        shorter.2 <= longer.2,
        recent_enough(Some(shorter.0 as int), modified),
    ensures
        recent_enough(Some(longer.0 as int), modified),
        recent_enough(None, modified),
{
}

/// A blank field sets no time limit, and no other field does without one.
pub proof fn a_blank_field_sets_no_limit(value: Seq<char>, now: int)
    ensures
        is_changed_after(Ok(None), value, now) <==> trimmed(value).len() == 0,
        trimmed(value).len() == 0 ==> forall|r: Result<Option<i128>, AppError>|
            is_changed_after(r, value, now) ==> r == Ok::<Option<i128>, AppError>(None),
{
}

/// The time limit of a field that is accepted lies exactly the duration that its text says
/// before the time of the request, and is no earlier than can be told.
pub proof fn the_limit_lies_the_duration_before_now(time: i128, value: Seq<char>, now: int)
    requires
        is_changed_after(Ok(Some(time)), value, now),
    ensures
        trimmed(value).len() > 0,
        duration_of(trimmed(value)) matches Some(span) && time == now - (span.0 * 1_000_000_000
            + span.1),
        time >= -9_223_372_036_854_775_808_000_000_000,
{
}

/// A file is searched under an accepted field exactly if its age at the time of the request
/// is less than the duration that the field's text says.
pub proof fn a_field_lets_in_what_is_younger(
    time: i128,
    value: Seq<char>,
    now: int,
    modified: i128,
)
    requires
        is_changed_after(Ok(Some(time)), value, now),
    ensures
        duration_of(trimmed(value)) matches Some(span) && (recent_enough(
            Some(time as int),
            Some(modified),
        ) <==> now - modified < span.0 * 1_000_000_000 + span.1),
{
}

/// A field is refused with its own text, and only if that is not understood, as a whole or in
/// one of its spans, or adds up to what cannot be counted, or reaches too far back.
pub proof fn a_field_is_refused_for_a_reason(error: AppError, value: Seq<char>, now: int)
    requires
        is_changed_after(Err(error), value, now),
    ensures
        error is InvalidDuration,
        error->InvalidDuration_0@ == trimmed(value),
        trimmed(value).len() > 0,
        duration_of(trimmed(value)) matches Some(span) ==> reach(trimmed(value))
            >= 18_446_744_073_709_551_616_000_000_000 || now - (span.0 * 1_000_000_000 + span.1)
            < -9_223_372_036_854_775_808_000_000_000,
{
}

/// A time is counted from the start of 1970, forwards or backwards.
pub proof fn a_time_is_counted_from_1970(time: UnixTime)
    ensures
        !time.before ==> time.since_epoch() == time.seconds * 1_000_000_000 + time.nanos,
        time.before ==> time.since_epoch() == -(time.seconds * 1_000_000_000 + time.nanos),
{
}

/// A further span begins at a digit with a letter of a unit before it, be there white space
/// between them or not.
pub proof fn a_span_begins_behind_a_unit(text: Seq<char>, letter: int, digit: int)
    requires
        0 <= letter < digit < text.len(),
        '0' <= text[digit] <= '9',
        forall|i: int| letter < i < digit ==> is_white_space(#[trigger] text[i]),
        !is_white_space(text[letter]),
    ensures
        begins_span(text, digit) <==> 'a' <= text[letter] <= 'z' || 'A' <= text[letter] <= 'Z'
            || text[letter] == '\u{b5}',
{
    lemma_follows_letter(text, letter, digit);
}

/// A further span begins at a digit alone, and never without a letter of a unit somewhere
/// before it that only white space parts from it. The result says where the letter stands.
pub proof fn a_span_begins_with_a_digit(text: Seq<char>, i: int) -> (letter: int)
    requires
        begins_span(text, i),
    ensures
        0 <= letter < i < text.len(),
        '0' <= text[i] <= '9',
        'a' <= text[letter] <= 'z' || 'A' <= text[letter] <= 'Z' || text[letter] == '\u{b5}',
        forall|k: int| letter < k < i ==> is_white_space(#[trigger] text[k]),
{
    lemma_letter_before(text, i)
}

/// Where the letter stands that an index follows.
proof fn lemma_letter_before(text: Seq<char>, i: int) -> (letter: int)
    requires
        i <= text.len(),
        follows_unit(text, i),
    ensures
        0 <= letter < i,
        is_unit_letter(text[letter]),
        forall|k: int| letter < k < i ==> is_white_space(#[trigger] text[k]),
    decreases i,
{
    if is_white_space(text[i - 1]) {
        lemma_letter_before(text, i - 1)
    } else {
        i - 1
    }
}

/// The character before white space decides what that follows.
proof fn lemma_follows_letter(text: Seq<char>, letter: int, i: int)
    requires
        0 <= letter < i <= text.len(),
        forall|j: int| letter < j < i ==> is_white_space(#[trigger] text[j]),
        !is_white_space(text[letter]),
    ensures
        follows_unit(text, i) == is_unit_letter(text[letter]),
    decreases i,
{
    if i > letter + 1 {
        assert(is_white_space(text[i - 1]));
        lemma_follows_letter(text, letter, i - 1);
    }
}

/// The text between a cut and the next.
pub open spec fn span_at(text: Seq<char>, cuts: Seq<int>, i: int) -> Seq<char> {
    text.subrange(cuts[i], cuts[i + 1])
}

/// What the spans of a text from the cut `i` on say, each by itself, added up.
pub open spec fn sum_of_spans(text: Seq<char>, cuts: Seq<int>, i: int) -> int
    decreases cuts.len() - i,
{
    if i + 1 >= cuts.len() {
        0
    } else {
        let span = duration_of(span_at(text, cuts, i))->0;
        span.0 * 1_000_000_000 + span.1 + sum_of_spans(text, cuts, i + 1)
    }
}

/// Whether the spans of a text from the cut `i` on are all understood, each by itself.
pub open spec fn are_understood(text: Seq<char>, cuts: Seq<int>, i: int) -> bool {
    forall|k: int|
        i <= k < cuts.len() - 1 ==> duration_of(#[trigger] span_at(text, cuts, k)) is Some
}

/// Whether a text is cut into its spans at these places: from its start to its end, at each
/// place where a further span begins and at no other.
pub open spec fn are_cuts(text: Seq<char>, cuts: Seq<int>) -> bool {
    &&& cuts.len() >= 2
    &&& cuts[0] == 0
    &&& cuts.last() == text.len()
    &&& forall|i: int, j: int| 0 <= i < j < cuts.len() ==> cuts[i] < cuts[j]
    &&& forall|i: int| 0 < i < cuts.len() - 1 ==> begins_span(text, #[trigger] cuts[i])
    &&& forall|p: int| #[trigger] begins_span(text, p) ==> cuts.contains(p)
}

/// A text says what humantime reads in it as a whole, however many spans it has, if each of
/// them is understood and they add up to what can be counted; else it is refused.
pub proof fn spans_that_can_be_counted_are_understood(text: Seq<char>, cuts: Seq<int>)
    requires
        are_cuts(text, cuts),
    ensures
        nanos_of(text) == if are_understood(text, cuts, 0) && sum_of_spans(text, cuts, 0)
            < 18_446_744_073_709_551_616_000_000_000 {
            match duration_of(text) {
                Some(span) => Some(span.0 * 1_000_000_000 + span.1),
                None => None,
            }
        } else {
            None
        },
{
    lemma_reach_of_cuts(text, cuts, 0);
}

/// A text that is not refused says what humantime reads in it.
pub proof fn a_duration_is_what_humantime_reads(text: Seq<char>)
    requires
        nanos_of(text) is Some,
    ensures
        duration_of(text) matches Some(span) && nanos_of(text) == Some(
            span.0 * 1_000_000_000 + span.1,
        ),
{
}

/// Spans reach as far as they add up to, and too far where one is not understood.
proof fn lemma_reach_of_cuts(text: Seq<char>, cuts: Seq<int>, i: int)
    requires
        are_cuts(text, cuts),
        0 <= i < cuts.len() - 1,
    ensures
        are_understood(text, cuts, i) ==> reach_from(text, cuts[i]) == sum_of_spans(text, cuts, i),
        !are_understood(text, cuts, i) ==> reach_from(text, cuts[i]) >= UNCOUNTABLE,
    decreases cuts.len() - i,
{
    let last = cuts.len() - 1;
    let end = cuts[i + 1];
    assert(0 <= cuts[i] < end <= text.len()) by {
        assert(cuts[last] == text.len());
    }
    lemma_next_cut(text, cuts, i);
    let here = duration_of(span_at(text, cuts, i));
    if i + 1 < last {
        assert(end < cuts[last]);
        lemma_reach_of_cuts(text, cuts, i + 1);
        assert(are_understood(text, cuts, i) == (here is Some && are_understood(
            text,
            cuts,
            i + 1,
        )));
    } else {
        assert(sum_of_spans(text, cuts, i + 1) == 0);
        assert(are_understood(text, cuts, i) == here is Some);
    }
}

/// The span that begins at a cut ends at the next.
proof fn lemma_next_cut(text: Seq<char>, cuts: Seq<int>, i: int)
    requires
        are_cuts(text, cuts),
        0 <= i < cuts.len() - 1,
        0 <= cuts[i] < cuts[i + 1] <= text.len(),
    ensures
        next_span(text, cuts[i] + 1) == cuts[i + 1],
{
    let end = cuts[i + 1];
    assert forall|p: int| cuts[i] + 1 <= p < end implies !#[trigger] begins_span(text, p) by {
        if begins_span(text, p) {
            let k = cuts.index_of(p);
            assert(cuts[k] == p);
            assert(i < k);
            assert(k < i + 1);
        }
    }
    lemma_next_span_is(text, cuts[i] + 1, end);
}

/// The next span begins at the first place where one does.
proof fn lemma_next_span_is(text: Seq<char>, from: int, end: int)
    requires
        0 <= from <= end <= text.len(),
        end < text.len() ==> begins_span(text, end),
        forall|p: int| from <= p < end ==> !#[trigger] begins_span(text, p),
    ensures
        next_span(text, from) == end,
    decreases end - from,
{
    if from < end {
        assert(!begins_span(text, from));
        lemma_next_span_is(text, from + 1, end);
    }
}

/// A present time is one that the clock gave.
proof fn the_clock_gives_the_present(now: UnixTime)
    requires
        is_present(now),
    ensures
        call_ensures(clock, (), now),
        now.nanos < 1_000_000_000,
{
}

} // verus!
