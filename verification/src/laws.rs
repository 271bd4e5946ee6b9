//! What the library is for, said of its inputs and results: laws on single operations, next
//! to those on whole searches in `course`.

use crate::course::{file_lines, lines_found, members_lines};
use crate::decode::{
    bzip2_stream, compressed_bytes, gzip_stream, lzma_bytes, streams_from, xz_bytes, zip_bytes,
    zip_members, zstd_bytes,
};
use crate::found::{FoundLine, SearchOutcome};
use crate::matcher::{first, match_ranges, reported_lines};
use crate::model::{
    advanced, answered, data_reported, file_bytes, fresh, member_reported, opened, recent_enough,
    visited, ArchiveState, SearchState,
};
use crate::path::{compression_of, Compression};
use crate::search::{
    complete_lines, ends_line, has_binary_unit, is_binary, is_binary_unit, last_line_end, Step,
    Visit, WalkEntry,
};
use crate::text::{a_line_loses_its_end_only, without_line_end};
use vstd::prelude::*;
use vstd::utf8::encode_utf8;

verus! {

/// Data is binary exactly if it holds a character of the value 0: a byte of that value or,
/// behind the byte order mark of UTF-16, two of them that make up a unit.
pub proof fn binary_means_a_zero_character(data: Seq<u8>)
    ensures
        is_binary(data) <==> if data.len() >= 2 && ((data[0] == 0xff && data[1] == 0xfe) || (
        data[0] == 0xfe && data[1] == 0xff)) {
            exists|i: int|
                0 <= i < data.len() - 1 && i % 2 == 0 && #[trigger] data[i] == 0 && data[i + 1]
                    == 0
        } else {
            exists|i: int| 0 <= i < data.len() && #[trigger] data[i] == 0
        },
{
    if exists|i: int|
        0 <= i < data.len() - 1 && i % 2 == 0 && #[trigger] data[i] == 0 && data[i + 1] == 0 {
        let i = choose|i: int|
            0 <= i < data.len() - 1 && i % 2 == 0 && #[trigger] data[i] == 0 && data[i + 1] == 0;
        assert(is_binary_unit(data, i / 2));
    }
    if has_binary_unit(data) {
        let i = choose|i: int|
            0 <= i < data.len() / 2 && is_binary_unit(data, i);
        assert(data[2 * i] == 0 && data[2 * i + 1] == 0);
    }
}

/// The complete lines of data are its start, and end in its last line feed.
pub proof fn complete_lines_end_at_the_last_line_feed(data: Seq<u8>)
    requires
        data.len() >= 2 ==> !(data[0] == 0xff && data[1] == 0xfe) && !(data[0] == 0xfe && data[1]
            == 0xff),
    ensures
        complete_lines(data).is_prefix_of(data),
        complete_lines(data).len() > 0 ==> complete_lines(data).last() == 10,
        forall|i: int|
            complete_lines(data).len() <= i < data.len() ==> #[trigger] data[i] != 10,
{
    lemma_last_line_end(data, data.len() as int);
    let n = last_line_end(data, data.len() as int);
    assert forall|i: int| n <= i < data.len() implies #[trigger] data[i] != 10 by {
        assert(!ends_line(data, i + 1));
    }
}

/// The same for UTF-16, where a line feed has two bytes.
pub proof fn complete_lines_of_utf16_end_at_the_last_line_feed(data: Seq<u8>)
    requires
        data.len() >= 2,
        (data[0] == 0xff && data[1] == 0xfe) || (data[0] == 0xfe && data[1] == 0xff),
    ensures
        complete_lines(data).is_prefix_of(data),
        complete_lines(data).len() % 2 == 0,
        complete_lines(data).len() > 0 ==> {
            let n = complete_lines(data).len() as int;
            n >= 2 && is_wide_line_feed(data, n - 2)
        },
        forall|i: int|
            complete_lines(data).len() <= i < data.len() - 1 && i % 2 == 0
                ==> !#[trigger] is_wide_line_feed(data, i),
{
    lemma_last_line_end(data, data.len() as int);
    let n = last_line_end(data, data.len() as int);
    assert forall|i: int|
        n <= i < data.len() - 1 && i % 2 == 0 implies !#[trigger] is_wide_line_feed(data, i) by {
        assert(!ends_line(data, i + 2));
    }
}

/// Whether the two bytes at the index are a line feed, in the order that the byte order mark
/// tells.
pub open spec fn is_wide_line_feed(data: Seq<u8>, i: int) -> bool {
    if data[0] == 0xff {
        data[i] == 10 && data[i + 1] == 0
    } else {
        data[i] == 0 && data[i + 1] == 10
    }
}

/// The last line end is the end of a line, and none comes behind it.
proof fn lemma_last_line_end(data: Seq<u8>, n: int)
    requires
        0 <= n <= data.len(),
    ensures
        0 <= last_line_end(data, n) <= n,
        last_line_end(data, n) > 0 ==> ends_line(
            data,
            last_line_end(data, n),
        ),
        forall|i: int|
            last_line_end(data, n) < i <= n ==> !#[trigger]
                ends_line(data, i),
    decreases n,
{
    if n > 0 && !ends_line(data, n) {
        lemma_last_line_end(data, n - 1);
    }
}

/// Nothing that the searcher reports of data is lost: of data that was read without a failure
/// all its lines are found, and of data whose reading failed all lines of the complete part.
/// Binary data has none.
pub proof fn every_reported_line_is_found(
    rule: (Seq<char>, bool, bool),
    data: Seq<u8>,
    cause: Option<Seq<char>>,
)
    ensures
        is_binary(data) ==> data_reported(rule, data, cause).0.len() == 0 && data_reported(
            rule,
            data,
            cause,
        ).1 is None,
        !is_binary(data) && cause is None ==> data_reported(rule, data, cause) == reported_lines(
            rule,
            0,
            data,
        ),
        !is_binary(data) && cause is Some ==> data_reported(rule, data, cause).0
            == reported_lines(rule, 0, complete_lines(data)).0,
        !is_binary(data) && cause is Some ==> data_reported(rule, data, cause).1 == (
        if reported_lines(rule, 0, complete_lines(data)).1 is Some {
            reported_lines(rule, 0, complete_lines(data)).1
        } else {
            cause
        }),
{
}

/// The first lines of a list are how it begins: as many as are asked for, or all.
pub proof fn first_is_how_a_list_begins<T>(items: Seq<T>, n: int)
    requires
        0 <= n,
    ensures
        first(items, n).is_prefix_of(items),
        first(items, n).len() == if items.len() < n {
            items.len() as int
        } else {
            n
        },
{
}

/// A file that is no archive is taken up with the lines found in it, from the first on and
/// as many as the client can still get, and with the failure behind them where there are
/// fewer. Nothing else changes. A search without room looks for one line.
pub proof fn a_file_is_taken_up_with_its_lines(
    before: SearchState,
    path: Seq<char>,
    read: (Seq<u8>, Option<Seq<char>>),
    after: SearchState,
    refusal: Option<Seq<char>>,
)
    requires
        opened(before, path, read, after, refusal),
        compression_of(encode_utf8(path)) != Some(Compression::Zip),
    ensures
        refusal is None,
        after.rule == before.rule,
        after.limit == before.limit,
        after.search_zip == before.search_zip,
        after.changed_after == before.changed_after,
        after.outcome == before.outcome,
        after.file is Some,
        after.file->0.path == path,
        after.file->0.shown == path,
        after.file->0.archive is None,
        ({
            let bytes = file_bytes(path, read);
            let reported = data_reported(before.rule, bytes.0, bytes.1);
            let wanted = if before.outcome.count < before.limit {
                before.limit - before.outcome.count
            } else {
                1
            };
            if reported.0.len() < wanted {
                &&& after.file->0.pending == reported.0
                &&& after.file->0.failure == reported.1
            } else {
                &&& after.file->0.pending == reported.0.take(wanted)
                &&& after.file->0.failure is None
            }
        }),
{
    assert(after.closed().outcome == before.closed().outcome);
    let bytes = file_bytes(path, read);
    let reported = data_reported(before.rule, bytes.0, bytes.1).0;
    assert(reported.take(reported.len() as int) =~= reported);
}

/// Of a plain file that is no binary one and was read to its end, the lines that are taken
/// up are the first of those that the searcher reports of its bytes.
pub proof fn a_plain_file_is_searched_as_it_is(
    before: SearchState,
    path: Seq<char>,
    data: Seq<u8>,
    after: SearchState,
)
    requires
        before.well_formed(),
        before.outcome.count < before.limit,
        opened(before, path, (data, None), after, None),
        compression_of(encode_utf8(path)) is None,
        !is_binary(data),
    ensures
        after.file is Some,
        after.file->0.pending.is_prefix_of(reported_lines(before.rule, 0, data).0),
        after.file->0.pending.len() == reported_lines(before.rule, 0, data).0.len()
            || after.file->0.pending.len() == before.limit - before.outcome.count,
{
}

/// The bytes of a file: what was read of a plain one, and what the decoder of its format
/// gives of a compressed one, up to 256 MiB. A failure in the reading comes first.
pub proof fn the_bytes_of_a_file(path: Seq<char>, read: (Seq<u8>, Option<Seq<char>>))
    ensures
        compression_of(encode_utf8(path)) is None ==> file_bytes(path, read) == read,
        compression_of(encode_utf8(path)) == Some(Compression::Xz) ==> file_bytes(path, read).0
            == xz_bytes(read.0, 268_435_456).0,
        compression_of(encode_utf8(path)) == Some(Compression::Lzma) ==> file_bytes(path, read).0
            == lzma_bytes(read.0, 268_435_456).0,
        compression_of(encode_utf8(path)) == Some(Compression::Zstd) ==> file_bytes(path, read).0
            == zstd_bytes(read.0, 268_435_456).0,
        compression_of(encode_utf8(path)) == Some(Compression::Gzip) ==> file_bytes(path, read).0
            == streams_from(Compression::Gzip, read.0, 0, 268_435_456).0,
        compression_of(encode_utf8(path)) == Some(Compression::Bzip2) ==> file_bytes(path, read).0
            == streams_from(Compression::Bzip2, read.0, 0, 268_435_456).0,
        read.1 is Some ==> file_bytes(path, read).1 == read.1,
        compression_of(encode_utf8(path)) matches Some(format) && read.1 is None ==> file_bytes(
            path,
            read,
        ).1 == compressed_bytes(compression_of(encode_utf8(path))->0, read.0).1,
{
}

/// Why the decoding of a compressed file fails is what its decoder says.
pub proof fn the_failure_of_a_decoder_is_kept(data: Seq<u8>)
    ensures
        compressed_bytes(Compression::Xz, data).1 == xz_bytes(data, 268_435_456).1,
        compressed_bytes(Compression::Lzma, data).1 == lzma_bytes(data, 268_435_456).1,
        compressed_bytes(Compression::Zstd, data).1 == zstd_bytes(data, 268_435_456).1,
        compressed_bytes(Compression::Gzip, data).1 == streams_from(
            Compression::Gzip,
            data,
            0,
            268_435_456,
        ).1,
        compressed_bytes(Compression::Bzip2, data).1 == streams_from(
            Compression::Bzip2,
            data,
            0,
            268_435_456,
        ).1,
{
}

/// A gzip or bzip2 file is decoded stream by stream: behind a stream that was read to its end
/// the next one follows, if one begins there and the limit is not reached. A failure in a
/// stream ends the file.
pub proof fn streams_follow_one_another(format: Compression, data: Seq<u8>, from: int, most: u64)
    requires
        format == Compression::Gzip || format == Compression::Bzip2,
    ensures
        ({
            let rest = data.skip(from);
            let one = if format == Compression::Gzip {
                gzip_stream(rest, most)
            } else {
                bzip2_stream(rest, most)
            };
            let next = data.len() - one.2;
            let behind = data.skip(next);
            let another = if format == Compression::Gzip {
                behind.len() >= 2 && behind[0] == 0x1f && behind[1] == 0x8b
            } else {
                behind.len() >= 3 && behind[0] == 0x42 && behind[1] == 0x5a && behind[2] == 0x68
            };
            if one.1 is None && one.0.len() < most && from < next < data.len() && another {
                let later = streams_from(format, data, next, (most - one.0.len()) as u64);
                streams_from(format, data, from, most) == (one.0 + later.0, later.1)
            } else {
                streams_from(format, data, from, most) == (one.0, one.1)
            }
        }),
{
}

/// An archive is taken up with all its members ahead where its bytes were read to their end
/// and are those of an archive; else it is refused, with the words that say why.
pub proof fn an_archive_is_taken_up_with_its_members(
    before: SearchState,
    path: Seq<char>,
    read: (Seq<u8>, Option<Seq<char>>),
    after: SearchState,
    refusal: Option<Seq<char>>,
)
    requires
        opened(before, path, read, after, refusal),
        compression_of(encode_utf8(path)) == Some(Compression::Zip),
    ensures
        read.1 is Some ==> refusal == read.1,
        read.1 is None && zip_members(read.0) is Err ==> refusal == Some(
            zip_members(read.0)->Err_0,
        ),
        read.1 is None && zip_members(read.0) is Ok ==> refusal is None,
        refusal is Some ==> after.file is None,
        refusal is None ==> {
            &&& after.file is Some
            &&& after.file->0.path == path
            &&& after.file->0.shown == path
            &&& after.file->0.pending.len() == 0
            &&& after.file->0.failure is None
            &&& after.file->0.archive is Some
            &&& after.file->0.archive->0.bytes == read.0
            &&& after.file->0.archive->0.next == 0
        },
        after.rule == before.rule,
        after.limit == before.limit,
        after.search_zip == before.search_zip,
        after.changed_after == before.changed_after,
        after.outcome == before.outcome,
{
    assert(after.closed().outcome == before.closed().outcome);
}

/// An archive member is searched as what is read of it, up to 256 MiB.
pub proof fn a_member_is_searched_as_what_is_read(
    rule: (Seq<char>, bool, bool),
    archive: ArchiveState,
)
    ensures
        member_reported(rule, archive) == data_reported(
            rule,
            zip_bytes(archive.bytes, archive.next, 268_435_456).0,
            zip_bytes(archive.bytes, archive.next, 268_435_456).1,
        ),
{
}

/// The members of an archive come one after the other, to the last: while one is left, the
/// search goes on with it, and it is done with the archive only when none is left, or it has
/// no room or is cancelled.
pub proof fn no_member_is_left_out(
    before: SearchState,
    flag: bool,
    after: SearchState,
    step: Step,
)
    requires
        advanced(before, flag, after, step),
        before.file is Some,
        before.file->0.pending.len() == 0,
        before.file->0.failure is None,
        before.file->0.archive is Some,
        zip_members(before.file->0.archive->0.bytes) is Ok,
        0 <= before.file->0.archive->0.next,
    ensures
        ({
            let archive = before.file->0.archive->0;
            let members = zip_members(archive.bytes)->Ok_0;
            if archive.next < members.len() && !flag && !before.outcome.cancelled
                && before.outcome.count < before.limit {
                &&& after.file is Some
                &&& after.file->0.path == before.file->0.path
                &&& after.file->0.archive is Some
                &&& after.file->0.archive->0.bytes == archive.bytes
                &&& after.file->0.archive->0.next == archive.next + 1
                &&& after.outcome == before.outcome
                &&& match members[archive.next] {
                    Err(cause) => {
                        &&& step matches Step::Skipped(text) && text@ == cause
                        &&& after.file->0.pending.len() == 0
                        &&& after.file->0.failure is None
                    },
                    Ok(member) => {
                        &&& step is Continue
                        &&& member.is_dir ==> after.file->0.pending.len() == 0
                            && after.file->0.failure is None
                        &&& !member.is_dir ==> {
                            let reported = member_reported(before.rule, archive);
                            let wanted = before.limit - before.outcome.count;
                            &&& after.file->0.shown == before.file->0.path + "!"@ + member.name
                            &&& after.file->0.pending == if reported.0.len() < wanted {
                                reported.0
                            } else {
                                reported.0.take(wanted)
                            }
                            &&& after.file->0.failure == if reported.0.len() < wanted {
                                reported.1
                            } else {
                                None
                            }
                        }
                    },
                }
            } else if archive.next <= members.len() {
                step is Finished && after.file is None && after.outcome == before.outcome
            } else {
                true
            }
        }),
{
    let archive = before.file->0.archive->0;
    assert(after.closed().outcome == before.closed().outcome || step is Deliver);
    let reported = member_reported(before.rule, archive);
    assert(reported.0.take(reported.0.len() as int) =~= reported.0);
}

/// While a search is not cancelled and has room, the pending line that comes first is
/// offered, as it was reported: under the path that is shown, with its number, without its
/// line end, and with all places where the pattern matches in what is left.
pub proof fn a_pending_line_is_offered_as_reported(
    before: SearchState,
    flag: bool,
    after: SearchState,
    step: Step,
)
    requires
        advanced(before, flag, after, step),
        before.file is Some,
        before.file->0.pending.len() > 0,
        !flag,
        !before.outcome.cancelled,
        before.outcome.count < before.limit,
    ensures
        step is Deliver,
        after == before,
        ({
            let line = before.file->0.pending[0];
            let found = step->Deliver_0;
            &&& found.path@ == before.file->0.shown
            &&& found.line_number == line.0
            &&& found.line@.is_prefix_of(line.1)
            &&& forall|i: int|
                found.line@.len() <= i < line.1.len() ==> #[trigger] line.1[i] == '\r' || line.1[i]
                    == '\n'
            &&& found.line@.len() > 0 ==> found.line@.last() != '\r' && found.line@.last() != '\n'
            &&& found.submatches@ == match_ranges(before.rule, found.line@)
        }),
{
    let found = step->Deliver_0;
    assert(found@.line_number == found.line_number);
    a_line_loses_its_end_only(before.file->0.pending[0].1);
}

/// The lines offered of one file or archive member have growing numbers: what is pending
/// behind a line that was taken has larger ones.
pub proof fn line_numbers_grow(before: SearchState, after: SearchState, i: int)
    requires
        before.well_formed(),
        before.file is Some,
        before.file->0.pending.len() > 0,
        before.outcome.count < before.limit,
        after == answered(before, true),
        after.file is Some,
        0 <= i < after.file->0.pending.len(),
    ensures
        after.file->0.pending[i].0 > before.file->0.pending[0].0,
{
}

/// A line that was taken counts once and is not offered again; the others stay pending in
/// their order. The one that reaches the limit ends the search of the file.
pub proof fn a_taken_line_counts_once(before: SearchState)
    requires
        before.well_formed(),
        before.file is Some,
        before.file->0.pending.len() > 0,
        before.outcome.count < before.limit,
    ensures
        ({
            let after = answered(before, true);
            &&& after.outcome.count == before.outcome.count + 1
            &&& after.outcome.cancelled == before.outcome.cancelled
            &&& after.rule == before.rule
            &&& after.limit == before.limit
            &&& after.search_zip == before.search_zip
            &&& after.changed_after == before.changed_after
            &&& after.file is Some
            &&& after.file->0.path == before.file->0.path
            &&& after.file->0.shown == before.file->0.shown
            &&& after.file->0.archive == before.file->0.archive
            &&& if before.outcome.count + 1 < before.limit {
                &&& after.outcome.truncated == before.outcome.truncated
                &&& after.file->0.pending == before.file->0.pending.skip(1)
                &&& after.file->0.failure == before.file->0.failure
            } else {
                &&& after.outcome.truncated
                &&& after.file->0.pending.len() == 0
                &&& after.file->0.failure is None
            }
        }),
{
}

/// A line that was not taken cancels the search and counts nothing; no line is pending any
/// more.
pub proof fn a_line_not_taken_cancels(before: SearchState)
    requires
        before.file is Some,
        before.file->0.pending.len() > 0,
        before.outcome.count < before.limit,
    ensures
        ({
            let after = answered(before, false);
            &&& after.outcome == (SearchOutcome { cancelled: true, ..before.outcome })
            &&& after.file is Some
            &&& after.file->0.pending.len() == 0
            &&& after.file->0.failure is None
        }),
{
}

/// A failure is told in its own words once the lines before it were offered, and the file is
/// put away with the outcome as it was.
pub proof fn a_failure_is_told(before: SearchState, flag: bool, after: SearchState, step: Step)
    requires
        advanced(before, flag, after, step),
        before.file is Some,
        before.file->0.pending.len() == 0,
        before.file->0.failure is Some,
    ensures
        step matches Step::Failed(cause) && cause@ == before.file->0.failure->0,
        after.file is None,
        after.outcome == before.outcome,
{
}

/// What the walk does at an entry: it stops where the search is cancelled, or has no room,
/// and notes which; else it looks into the entry exactly if that is an ordinary file, no
/// compressed one unless that was asked for, of whichever format, and was changed later than
/// the time limit where there is one.
pub proof fn what_the_walk_does(before: SearchState, flag: bool, entry: WalkEntry)
    ensures
        ({
            let (after, visit) = visited(before, flag, entry);
            let searched = match entry {
                WalkEntry::Unreadable => false,
                WalkEntry::Entry { path, is_file, modified } => is_file && (
                compression_of(encode_utf8(path@)) is None || before.search_zip) && (
                before.changed_after is None || (modified is Some && modified->0
                    > before.changed_after->0)),
            };
            if flag || before.outcome.cancelled {
                &&& visit == Visit::Stop
                &&& after == (SearchState {
                    outcome: SearchOutcome { cancelled: true, ..before.outcome },
                    ..before
                })
            } else if before.outcome.count >= before.limit {
                &&& visit == Visit::Stop
                &&& after == (SearchState {
                    outcome: SearchOutcome { truncated: true, ..before.outcome },
                    ..before
                })
            } else {
                &&& visit == if searched {
                    Visit::Search
                } else {
                    Visit::Skip
                }
                &&& after == before
            }
        }),
{
}

/// A file is recent enough exactly if there is no time limit, or it is known to have changed
/// later.
pub proof fn recent_means_later(changed_after: Option<int>, modified: Option<i128>)
    ensures
        recent_enough(changed_after, modified) <==> changed_after is None || (modified is Some
            && modified->0 > changed_after->0),
{
}

/// A search begins with what it was asked for, without results and without a file.
pub proof fn a_search_begins_with_what_was_asked(
    rule: (Seq<char>, bool, bool),
    limit: nat,
    search_zip: bool,
    changed_after: Option<int>,
)
    ensures
        ({
            let state = fresh(rule, limit, search_zip, changed_after);
            &&& state.rule == rule
            &&& state.limit == limit
            &&& state.search_zip == search_zip
            &&& state.changed_after == changed_after
            &&& state.outcome.count == 0
            &&& !state.outcome.truncated
            &&& !state.outcome.cancelled
            &&& state.file is None
        }),
{
}

/// Reported lines reach the client one for one.
pub proof fn each_line_is_found_as_reported(
    rule: (Seq<char>, bool, bool),
    shown: Seq<char>,
    lines: Seq<(u64, Seq<char>)>,
    i: int,
)
    requires
        0 <= i < lines.len(),
    ensures
        lines_found(rule, shown, lines).len() == lines.len(),
        lines_found(rule, shown, lines)[i] == (FoundLine {
            path: shown,
            line_number: lines[i].0,
            line: without_line_end(lines[i].1),
            submatches: match_ranges(rule, without_line_end(lines[i].1)),
        }),
{
}

/// The lines of an archive are those of its members, in their order and to the last, up to
/// the first that fails.
pub proof fn the_lines_of_an_archive(
    rule: (Seq<char>, bool, bool),
    path: Seq<char>,
    bytes: Seq<u8>,
    next: int,
)
    requires
        zip_members(bytes) is Ok,
    ensures
        ({
            let here = ArchiveState { bytes, next };
            let later = members_lines(rule, path, ArchiveState { bytes, next: next + 1 });
            let members = zip_members(bytes)->Ok_0;
            if next >= members.len() {
                members_lines(rule, path, here).len() == 0
            } else if members[next] is Err || members[next]->Ok_0.is_dir {
                members_lines(rule, path, here) == later
            } else {
                let reported = member_reported(rule, here);
                let found = lines_found(
                    rule,
                    path + "!"@ + members[next]->Ok_0.name,
                    reported.0,
                );
                members_lines(rule, path, here) == if reported.1 is Some {
                    found
                } else {
                    found + later
                }
            }
        }),
{
}

/// The matching lines of a file are those of its bytes or, where it is an archive, of its
/// members.
pub proof fn the_lines_of_a_file(
    rule: (Seq<char>, bool, bool),
    path: Seq<char>,
    read: (Seq<u8>, Option<Seq<char>>),
)
    ensures
        compression_of(encode_utf8(path)) != Some(Compression::Zip) ==> file_lines(
            rule,
            path,
            read,
        ) == lines_found(
            rule,
            path,
            data_reported(rule, file_bytes(path, read).0, file_bytes(path, read).1).0,
        ),
        compression_of(encode_utf8(path)) == Some(Compression::Zip) && read.1 is None
            && zip_members(read.0) is Ok ==> file_lines(rule, path, read) == members_lines(
            rule,
            path,
            ArchiveState { bytes: read.0, next: 0 },
        ),
{
}

/// A search without a file at hand has nothing to do, and one whose file is no archive and has
/// neither lines nor a failure left puts it away.
pub proof fn a_file_without_lines_is_put_away(
    before: SearchState,
    flag: bool,
    after: SearchState,
    step: Step,
)
    requires
        advanced(before, flag, after, step),
        before.file is Some ==> before.file->0.pending.len() == 0 && before.file->0.failure is None
            && before.file->0.archive is None,
    ensures
        step is Finished,
        after == (SearchState { file: None, ..before }),
{
}

/// Where a line is pending and the search is cancelled, or has no room, that is noted, a
/// cancellation before the lack of room, and the pending lines are dropped, with the failure
/// behind them. The file and its archive stay at hand.
pub proof fn pending_lines_are_dropped_where_a_search_stops(
    before: SearchState,
    flag: bool,
    after: SearchState,
    step: Step,
)
    requires
        advanced(before, flag, after, step),
        before.file is Some,
        before.file->0.pending.len() > 0,
        flag || before.outcome.cancelled || before.outcome.count >= before.limit,
    ensures
        step is Continue,
        after.outcome == if flag || before.outcome.cancelled {
            SearchOutcome { cancelled: true, ..before.outcome }
        } else {
            SearchOutcome { truncated: true, ..before.outcome }
        },
        after.file is Some,
        after.file->0.pending.len() == 0,
        after.file->0.failure is None,
        after.file->0.path == before.file->0.path,
        after.file->0.shown == before.file->0.shown,
        after.file->0.archive == before.file->0.archive,
        after.rule == before.rule,
        after.limit == before.limit,
        after.search_zip == before.search_zip,
        after.changed_after == before.changed_after,
{
}

/// An answer changes nothing where no line was offered: without a file, without a pending line
/// or without room.
pub proof fn an_answer_to_nothing_changes_nothing(before: SearchState, taken: bool)
    requires
        before.file is None || before.file->0.pending.len() == 0 || before.outcome.count
            >= before.limit,
    ensures
        answered(before, taken) == before,
{
}

} // verus!
