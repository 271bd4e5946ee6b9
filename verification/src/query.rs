use crate::error::AppError;
use crate::matcher::{build_matcher, pattern_error};
use crate::model::fresh;
use crate::path::{
    a_joined_path_is_within, is_within, join, joined, path_is_within, within_is_an_order,
};
use crate::search::LogSearch;
use crate::text::{
    blank_text_trims_to_nothing, is_white_space, leading_slashes_go, strip_leading_slashes, trim,
    trimmed, trimming_takes_white_space_only, without_leading_slashes,
};
use crate::time::{
    changed_after, duration_of, is_changed_after, is_present, present, UnixTime, NANOS,
};
use vstd::prelude::*;
use vstd::slice::slice_to_vec;
use vstd::string::*;
use vstd::utf8::{encode_utf8, encode_utf8_first_scalar};

verus! {

/// The number of results when a request names none.
pub const DEFAULT_LIMIT: usize = 1_000;

/// The most results that one request can ask for.
pub const HARD_LIMIT: usize = 2_000;

/// The most bytes that a keyword can have.
pub const MAX_PATTERN_BYTES: usize = 4_096;

/// The most seconds that a search can take.
pub const SEARCH_TIMEOUT_SECONDS: u64 = 30;

/// A request for a search.
#[derive(Debug)]
pub struct SearchQuery {
    pub keyword: String,
    pub path: String,
    pub regex: bool,
    pub case_sensitive: bool,
    pub search_zip: bool,
    pub changed_within: String,
    pub limit: Option<usize>,
}

/// The number of results that a request gets: what it asks for, or
/// `DEFAULT_LIMIT`, brought into the range from 1 to `HARD_LIMIT`.
pub open spec fn limit_of(asked: Option<usize>) -> int {
    let wanted = match asked {
        Some(n) => n as int,
        None => DEFAULT_LIMIT as int,
    };
    if wanted < 1 {
        1
    } else if wanted > HARD_LIMIT {
        HARD_LIMIT as int
    } else {
        wanted
    }
}

/// Computes `limit_of`.
pub fn effective_limit(asked: Option<usize>) -> (limit: usize)
    ensures
        limit == limit_of(asked),
{
    let wanted: usize = match asked {
        Some(n) => n,
        None => DEFAULT_LIMIT,
    };
    if wanted < 1 {
        1
    } else if wanted > HARD_LIMIT {
        HARD_LIMIT
    } else {
        wanted
    }
}

/// What is wrong with a keyword: it must have at least one byte and at most
/// `MAX_PATTERN_BYTES`.
pub open spec fn keyword_error(keyword: Seq<char>) -> Option<AppError> {
    if keyword.len() == 0 {
        Some(AppError::EmptyKeyword)
    } else if encode_utf8(keyword).len() > MAX_PATTERN_BYTES {
        Some(AppError::PatternTooLong)
    } else {
        None
    }
}

/// Refuses a keyword that is empty or too long.
pub fn validate_keyword(keyword: &str) -> (r: Result<(), AppError>)
    ensures
        match r {
            Ok(_) => keyword_error(keyword@) is None,
            Err(error) => keyword_error(keyword@) == Some(error),
        },
{
    if keyword.is_empty() {
        return Err(AppError::EmptyKeyword);
    }
    if keyword.as_bytes().len() > MAX_PATTERN_BYTES {
        return Err(AppError::PatternTooLong);
    }
    Ok(())
}

/// The path that a request names: the base directory where the field is blank, else
/// the field, without white space at its ends and slashes at its start, below it.
pub open spec fn candidate(base: Seq<u8>, requested: Seq<char>) -> Seq<u8> {
    let relative = without_leading_slashes(trimmed(requested));
    if relative.len() == 0 {
        base
    } else {
        joined(base, encode_utf8(relative))
    }
}

/// Computes `candidate`.
pub fn candidate_path(base_dir: &[u8], requested: &str) -> (r: Vec<u8>)
    ensures
        r@ == candidate(base_dir@, requested@),
{
    let relative = strip_leading_slashes(trim(requested));
    if relative.is_empty() {
        slice_to_vec(base_dir)
    } else {
        join(base_dir, relative.as_bytes())
    }
}

/// Accepts what the path of a request resolves to, with links followed, if it exists
/// and is the base directory or lies below it.
pub fn resolve_target(base_dir: &[u8], resolved: Option<Vec<u8>>) -> (r: Result<
    Vec<u8>,
    AppError,
>)
    ensures
        match r {
            Ok(target) => resolved == Some(target) && is_within(target@, base_dir@),
            Err(error) => error is InvalidPath && (resolved is Some ==> !is_within(
                resolved->0@,
                base_dir@,
            )),
        },
{
    match resolved {
        None => Err(AppError::InvalidPath),
        Some(target) => if path_is_within(target.as_slice(), base_dir) {
            Ok(target)
        } else {
            Err(AppError::InvalidPath)
        },
    }
}

/// A request that is served: where the search begins, and the search.
pub struct Accepted {
    pub target: Vec<u8>,
    pub search: LogSearch,
}

/// How a request is answered whose path resolves to `resolved`, at the time `now`. What
/// is wrong with it is looked for in this order: the keyword, the path, the pattern,
/// the time range.
pub open spec fn is_answer(
    r: Result<Accepted, AppError>,
    base: Seq<u8>,
    query: SearchQuery,
    resolved: Option<Vec<u8>>,
    now: int,
) -> bool {
    let rule = (query.keyword@, !query.case_sensitive, !query.regex);
    if keyword_error(query.keyword@) is Some {
        r matches Err(error) && keyword_error(query.keyword@) == Some(error)
    } else if resolved is None || !is_within(resolved->0@, base) {
        r matches Err(error) && error is InvalidPath
    } else if pattern_error(rule.0, rule.1, rule.2) is Some {
        r matches Err(AppError::InvalidRegex(words)) && pattern_error(rule.0, rule.1, rule.2)
            == Some(words@)
    } else {
        match r {
            Ok(accepted) => {
                &&& resolved == Some(accepted.target)
                &&& accepted.search.well_formed()
                &&& exists|cutoff: Option<i128>|
                    {
                        &&& #[trigger] is_changed_after(Ok(cutoff), query.changed_within@, now)
                        &&& accepted.search@ == fresh(
                            rule,
                            limit_of(query.limit) as nat,
                            query.search_zip,
                            match cutoff {
                                Some(time) => Some(time as int),
                                None => None,
                            },
                        )
                    }
            },
            Err(error) => is_changed_after(Err(error), query.changed_within@, now),
        }
    }
}

/// Decides on a request at the time `now`.
pub fn accept_request_at(
    base_dir: &[u8],
    query: &SearchQuery,
    resolved: Option<Vec<u8>>,
    now: &UnixTime,
) -> (r: Result<Accepted, AppError>)
    ensures
        is_answer(r, base_dir@, *query, resolved, now.since_epoch()),
{
    if let Err(error) = validate_keyword(query.keyword.as_str()) {
        return Err(error);
    }
    let target = match resolve_target(base_dir, resolved) {
        Ok(target) => target,
        Err(error) => {
            return Err(error);
        },
    };
    let limit: usize = effective_limit(query.limit);
    let matcher = match build_matcher(query.keyword.as_str(), query.regex, query.case_sensitive) {
        Ok(matcher) => matcher,
        Err(error) => {
            return Err(error);
        },
    };
    let cutoff = match changed_after(query.changed_within.as_str(), now) {
        Ok(cutoff) => cutoff,
        Err(error) => {
            return Err(error);
        },
    };
    let search = LogSearch::new(matcher, limit, query.search_zip, cutoff);
    Ok(Accepted { target, search })
}

/// Decides on a request at the present time.
pub fn accept_request(
    base_dir: &[u8],
    query: &SearchQuery,
    resolved: Option<Vec<u8>>,
) -> (r: Result<Accepted, AppError>)
    ensures
        exists|now: UnixTime|
            is_present(now) && now.nanos < NANOS && is_answer(
                r,
                base_dir@,
                *query,
                resolved,
                #[trigger] now.since_epoch(),
            ),
{
    let now = present();
    accept_request_at(base_dir, query, resolved, &now)
}

/// A keyword is accepted exactly if it has at least one byte and at most
/// `MAX_PATTERN_BYTES`.
pub proof fn a_keyword_is_accepted_by_its_size(keyword: Seq<char>)
    ensures
        keyword_error(keyword) is None <==> 1 <= encode_utf8(keyword).len() <= MAX_PATTERN_BYTES,
{
    if keyword.len() > 0 {
        encode_utf8_first_scalar(keyword);
    }
}

/// A request gets the number of results that it asks for where that is in the range from 1
/// to `HARD_LIMIT`, and in any case a number in that range.
pub proof fn a_limit_is_in_range(asked: Option<usize>)
    ensures
        1 <= limit_of(asked) <= HARD_LIMIT,
        asked matches Some(n) ==> 1 <= n <= HARD_LIMIT ==> limit_of(asked) == n,
{
}

/// A request with a blank path names the base directory.
pub proof fn a_blank_path_names_the_base(base: Seq<u8>, requested: Seq<char>)
    requires
        forall|i: int| 0 <= i < requested.len() ==> is_white_space(#[trigger] requested[i]),
    ensures
        candidate(base, requested) == base,
{
    blank_text_trims_to_nothing(requested);
}

/// What a request names lies within the base directory, before links and `..` are
/// followed, though its path begins with a slash.
pub proof fn a_request_names_a_path_below_the_base(base: Seq<u8>, requested: Seq<char>)
    ensures
        is_within(candidate(base, requested), base),
{
    within_is_an_order(base, base, base);
    a_joined_path_is_within(base, encode_utf8(without_leading_slashes(trimmed(requested))));
}

/// No request is served that leads out of the base directory, with links and `..`
/// followed: the search begins at what the path resolves to, and that lies within it. A
/// search that is served has a limit in range, no result yet, and no file at hand.
pub proof fn a_search_stays_below_the_base(
    accepted: Accepted,
    base: Seq<u8>,
    query: SearchQuery,
    resolved: Option<Vec<u8>>,
    now: int,
)
    requires
        is_answer(Ok(accepted), base, query, resolved, now),
    ensures
        resolved == Some(accepted.target),
        is_within(accepted.target@, base),
        1 <= accepted.search@.limit <= HARD_LIMIT,
        accepted.search@.outcome.count == 0,
        !accepted.search@.outcome.cancelled,
        accepted.search@.file is None,
{
}

/// A request whose path does not resolve, or leads out of the base directory, is refused
/// for that, unless it is refused for its keyword.
pub proof fn a_path_that_leads_out_is_refused(
    r: Result<Accepted, AppError>,
    base: Seq<u8>,
    query: SearchQuery,
    resolved: Option<Vec<u8>>,
    now: int,
)
    requires
        is_answer(r, base, query, resolved, now),
        resolved is None || !is_within(resolved->0@, base),
    ensures
        r matches Err(error) && (error is InvalidPath || keyword_error(query.keyword@) == Some(
            error,
        )),
{
}

/// A request that is not served is answered as one that is itself at fault.
pub proof fn a_refused_request_is_at_fault(
    error: AppError,
    base: Seq<u8>,
    query: SearchQuery,
    resolved: Option<Vec<u8>>,
    now: int,
)
    requires
        is_answer(Err(error), base, query, resolved, now),
    ensures
        error.is_bad_request(),
{
}

/// What is wrong with a keyword that is not accepted: it is empty, or has more than 4096
/// bytes.
pub proof fn a_keyword_is_refused_by_its_size(keyword: Seq<char>)
    ensures
        keyword_error(keyword) == if keyword.len() == 0 {
            Some(AppError::EmptyKeyword)
        } else if encode_utf8(keyword).len() > 4_096 {
            Some(AppError::PatternTooLong)
        } else {
            None
        },
{
}

/// A request gets as many results as it asks for, but at least one and at most 2000, and
/// 1000 where it does not ask.
pub proof fn a_limit_is_what_was_asked(asked: Option<usize>)
    ensures
        asked is None ==> limit_of(asked) == 1_000,
        asked matches Some(n) ==> n == 0 ==> limit_of(asked) == 1,
        asked matches Some(n) ==> 1 <= n <= 2_000 ==> limit_of(asked) == n,
        asked matches Some(n) ==> n > 2_000 ==> limit_of(asked) == 2_000,
{
}

/// What a request names: its path without white space at the ends and then without slashes
/// at the start, behind the base directory and one slash. The result says where in the field
/// the slashes begin, and where what is left of it begins and ends.
pub proof fn what_a_request_names(base: Seq<u8>, requested: Seq<char>) -> (part: (int, int, int))
    ensures
        0 <= part.0 <= part.1 <= part.2 <= requested.len(),
        forall|i: int| 0 <= i < part.0 ==> is_white_space(#[trigger] requested[i]),
        part.0 < part.2 ==> !is_white_space(requested[part.0]),
        forall|i: int| part.0 <= i < part.1 ==> #[trigger] requested[i] == '/',
        part.1 < part.2 ==> requested[part.1] != '/' && !is_white_space(requested[part.2 - 1]),
        forall|i: int| part.2 <= i < requested.len() ==> is_white_space(#[trigger] requested[i]),
        part.1 == part.2 ==> candidate(base, requested) == base,
        part.1 < part.2 ==> candidate(base, requested) == if base.len() == 0 || base.last()
            == 47 {
            base + encode_utf8(requested.subrange(part.1, part.2))
        } else {
            base + seq![47u8] + encode_utf8(requested.subrange(part.1, part.2))
        },
{
    let (from, to) = trimming_takes_white_space_only(requested);
    let kept = trimmed(requested);
    let n = leading_slashes_go(kept);
    assert forall|i: int| from <= i < from + n implies #[trigger] requested[i] == '/' by {
        assert(kept[i - from] == requested[i]);
    }
    assert(kept.skip(n) =~= requested.subrange(from + n, to));
    (from, from + n, to)
}

/// How a request is refused: for the first of these that holds, its keyword is empty, it has
/// more than 4096 bytes, its path does not resolve or leads out of the base directory, its
/// pattern is none, its time range is refused. A request for which none holds is served.
pub proof fn a_request_is_refused_for_the_first_reason(
    r: Result<Accepted, AppError>,
    base: Seq<u8>,
    query: SearchQuery,
    resolved: Option<Vec<u8>>,
    now: int,
)
    requires
        is_answer(r, base, query, resolved, now),
    ensures
        if query.keyword@.len() == 0 {
            r == Err::<Accepted, AppError>(AppError::EmptyKeyword)
        } else if encode_utf8(query.keyword@).len() > 4_096 {
            r == Err::<Accepted, AppError>(AppError::PatternTooLong)
        } else if resolved is None || !is_within(resolved->0@, base) {
            r == Err::<Accepted, AppError>(AppError::InvalidPath)
        } else if pattern_error(query.keyword@, !query.case_sensitive, !query.regex) is Some {
            r matches Err(AppError::InvalidRegex(words)) && Some(words@) == pattern_error(
                query.keyword@,
                !query.case_sensitive,
                !query.regex,
            )
        } else {
            r matches Err(error) ==> error is InvalidDuration && is_changed_after(
                Err(error),
                query.changed_within@,
                now,
            )
        },
        r is Err && r->Err_0 is InvalidDuration ==> trimmed(query.changed_within@).len() > 0,
{
}

/// A request that is served is searched for as it says: from what its path resolves to, with
/// its keyword, taken literally unless `regex` is set and without regard to case unless
/// `case_sensitive` is, in compressed files if `search_zip` is set, up to its limit, and among
/// the files that are younger than its time range, or all where that is blank.
pub proof fn a_request_is_searched_as_it_says(
    accepted: Accepted,
    base: Seq<u8>,
    query: SearchQuery,
    resolved: Option<Vec<u8>>,
    now: int,
)
    requires
        is_answer(Ok(accepted), base, query, resolved, now),
    ensures
        resolved == Some(accepted.target),
        accepted.search@.rule.0 == query.keyword@,
        accepted.search@.rule.1 == !query.case_sensitive,
        accepted.search@.rule.2 == !query.regex,
        accepted.search@.search_zip == query.search_zip,
        accepted.search@.limit == match query.limit {
            None => 1_000int,
            Some(n) => if n == 0 {
                1
            } else if n > 2_000 {
                2_000
            } else {
                n as int
            },
        },
        trimmed(query.changed_within@).len() == 0 ==> accepted.search@.changed_after is None,
        trimmed(query.changed_within@).len() > 0 ==> {
            &&& duration_of(trimmed(query.changed_within@)) matches Some(span)
            &&& accepted.search@.changed_after == Some(
                now - (span.0 * 1_000_000_000 + span.1),
            )
        },
        accepted.search@.outcome.count == 0,
        !accepted.search@.outcome.truncated,
        !accepted.search@.outcome.cancelled,
        accepted.search@.file is None,
{
}

/// A search may take half a minute.
pub proof fn a_search_may_take_half_a_minute()
    ensures
        2 * SEARCH_TIMEOUT_SECONDS == 60,
{
}

} // verus!
