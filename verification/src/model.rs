use crate::decode::{
    compressed_bytes, zip_bytes, zip_members, Member, MAX_DECOMPRESSED_BYTES,
};
use crate::found::{FoundLine, SearchOutcome};
use crate::matcher::{failure_within, first, reported_lines, well_reported};
use crate::path::{compression_of, Compression};
use crate::search::{
    complete_lines, found_line, is_binary, shown_member, Step, Visit, WalkEntry, BINARY_BYTE,
};
use vstd::prelude::*;
use vstd::utf8::encode_utf8;

verus! {

/// An archive that is being searched.
#[verifier::ext_equal]
pub struct ArchiveState {
    /// The bytes of the archive.
    pub bytes: Seq<u8>,
    /// The index of the next member to be searched.
    pub next: int,
}

impl ArchiveState {
    /// The members of the archive.
    pub open spec fn members(self) -> Seq<Result<Member, Seq<char>>> {
        zip_members(self.bytes)->Ok_0
    }

    /// The number of members that are still to be searched.
    pub open spec fn left(self) -> int {
        self.members().len() - self.next
    }

    /// The bytes are an archive, and the next member is one of its members or stands
    /// behind them.
    pub open spec fn well_formed(self) -> bool {
        zip_members(self.bytes) is Ok && 0 <= self.next <= self.members().len()
    }

    /// The archive with the next member passed.
    pub open spec fn passed(self) -> ArchiveState {
        ArchiveState { next: self.next + 1, ..self }
    }
}

/// A file that is being searched.
#[verifier::ext_equal]
pub struct FileState {
    /// The path of the file.
    pub path: Seq<char>,
    /// The path under which the pending lines are shown.
    pub shown: Seq<char>,
    /// The reported lines that the client has not been asked to take yet.
    pub pending: Seq<(u64, Seq<char>)>,
    /// Why the search of what the pending lines are from failed behind them.
    pub failure: Option<Seq<char>>,
    /// The archive whose members are still to be searched, where the file is one.
    pub archive: Option<ArchiveState>,
}

impl FileState {
    /// The number of archive members that are still to be searched.
    pub open spec fn members_left(self) -> int {
        match self.archive {
            Some(archive) => archive.left(),
            None => 0,
        }
    }
}

/// A search: what it was asked for, what came of it so far, and the file at hand.
#[verifier::ext_equal]
pub struct SearchState {
    /// What the compiled pattern was made from.
    pub rule: (Seq<char>, bool, bool),
    /// The most results that the client gets.
    pub limit: nat,
    /// Whether compressed files are searched.
    pub search_zip: bool,
    /// The time, in nanoseconds since 1970, before which files are left out.
    pub changed_after: Option<int>,
    pub outcome: SearchOutcome,
    pub file: Option<FileState>,
}

impl SearchState {
    /// The number of results that the client can still get.
    pub open spec fn room(self) -> int {
        self.limit - self.outcome.count
    }

    /// The number of lines that are looked for: as many as the client can still get, and
    /// one where there is no room, to know whether there would be more.
    pub open spec fn wanted(self) -> int {
        if self.room() > 0 {
            self.room()
        } else {
            1
        }
    }

    /// Whether the search is cancelled, by the flag or by an earlier turn.
    pub open spec fn is_cancelled(self, flag: bool) -> bool {
        flag || self.outcome.cancelled
    }

    /// Never more results than the limit, a search that says that it ended at the limit
    /// exactly where it did, no more pending lines than are looked for, and lines as a
    /// searcher reports them.
    pub open spec fn well_formed(self) -> bool {
        &&& self.outcome.count <= self.limit <= usize::MAX
        &&& 0 < self.limit ==> self.outcome.truncated == (self.outcome.count == self.limit)
        &&& self.file matches Some(file) ==> {
            &&& file.pending.len() <= self.wanted()
            &&& well_reported(file.pending, BINARY_BYTE)
            &&& file.archive matches Some(archive) ==> archive.well_formed()
        }
    }

    /// The search with the cancellation noted.
    pub open spec fn cancelled(self) -> SearchState {
        SearchState { outcome: SearchOutcome { cancelled: true, ..self.outcome }, ..self }
    }

    /// The search with it noted that there is no room for a line.
    pub open spec fn full(self) -> SearchState {
        SearchState { outcome: SearchOutcome { truncated: true, ..self.outcome }, ..self }
    }

    /// The search with the file at hand put away.
    pub open spec fn closed(self) -> SearchState {
        SearchState { file: None, ..self }
    }

    /// The search with no more lines pending of what is being searched.
    pub open spec fn reader_stopped(self) -> SearchState {
        match self.file {
            Some(file) => SearchState {
                file: Some(FileState { pending: Seq::empty(), failure: None, ..file }),
                ..self
            },
            None => self,
        }
    }
}

/// What a search with this rule begins with.
pub open spec fn fresh(
    rule: (Seq<char>, bool, bool),
    limit: nat,
    search_zip: bool,
    changed_after: Option<int>,
) -> SearchState {
    SearchState {
        rule,
        limit,
        search_zip,
        changed_after,
        outcome: SearchOutcome { count: 0, truncated: false, cancelled: false },
        file: None,
    }
}

/// Whether a file was changed late enough to be searched: where there is a time limit,
/// its time of change is known and later.
pub open spec fn recent_enough(changed_after: Option<int>, modified: Option<i128>) -> bool {
    match changed_after {
        Some(cutoff) => modified is Some && modified->0 > cutoff,
        None => true,
    }
}

/// Whether a walk entry is a file that this search is to look into.
pub open spec fn is_wanted(state: SearchState, entry: WalkEntry) -> bool {
    match entry {
        WalkEntry::Unreadable => false,
        WalkEntry::Entry { path, is_file, modified } => {
            &&& is_file
            &&& recent_enough(state.changed_after, modified)
            &&& compression_of(encode_utf8(path@)) is Some ==> state.search_zip
        },
    }
}

/// What becomes of a search at the next entry of the walk, and what is to be done with
/// the entry.
pub open spec fn visited(state: SearchState, flag: bool, entry: WalkEntry) -> (SearchState, Visit) {
    if state.is_cancelled(flag) {
        (state.cancelled(), Visit::Stop)
    } else if state.outcome.count >= state.limit {
        (state.full(), Visit::Stop)
    } else if is_wanted(state, entry) {
        (state, Visit::Search)
    } else {
        (state, Visit::Skip)
    }
}

/// The lines that are found in data of which the reading failed with `cause`, if it did,
/// and why the search ends in a failure behind them, if it does. Binary data is passed
/// over. Where the reading failed, the complete lines are searched, and the failure is that
/// of the search or else that of the reading.
pub open spec fn data_reported(
    rule: (Seq<char>, bool, bool),
    data: Seq<u8>,
    cause: Option<Seq<char>>,
) -> (Seq<(u64, Seq<char>)>, Option<Seq<char>>) {
    if is_binary(data) {
        (Seq::empty(), None)
    } else {
        let part = if cause is Some {
            complete_lines(data)
        } else {
            data
        };
        let reported = reported_lines(rule, BINARY_BYTE, part);
        (reported.0, either(reported.1, cause))
    }
}

/// The first of two failures that is there.
pub open spec fn either(one: Option<Seq<char>>, other: Option<Seq<char>>) -> Option<Seq<char>> {
    if one is Some {
        one
    } else {
        other
    }
}

/// The bytes that are searched of a file that is no archive, and why they are not all of
/// it, if they are not: what was read of a plain file; what is decoded of a compressed one.
/// A failure in the reading comes before one of the decoder, which then ran out of data.
pub open spec fn file_bytes(path: Seq<char>, read: (Seq<u8>, Option<Seq<char>>)) -> (
    Seq<u8>,
    Option<Seq<char>>,
) {
    match compression_of(encode_utf8(path)) {
        None => read,
        Some(format) => {
            let decoded = compressed_bytes(format, read.0);
            (decoded.0, either(read.1, decoded.1))
        },
    }
}

/// What is pending of something in which `reported` is found, when `wanted` lines are looked
/// for: these lines, and the failure if all were found before.
pub open spec fn is_pending(
    reported: (Seq<(u64, Seq<char>)>, Option<Seq<char>>),
    wanted: int,
    file: FileState,
) -> bool {
    &&& file.pending == first(reported.0, wanted)
    &&& file.failure == failure_within(reported, wanted)
}

/// What becomes of a search when a file with this path is opened and `read` was read of
/// it. An archive is opened from all its bytes: one that was not read to its end, or cannot
/// be opened, is refused, with the words `refusal`.
pub open spec fn opened(
    state: SearchState,
    path: Seq<char>,
    read: (Seq<u8>, Option<Seq<char>>),
    after: SearchState,
    refusal: Option<Seq<char>>,
) -> bool {
    &&& after.closed() == state.closed()
    &&& if compression_of(encode_utf8(path)) == Some(Compression::Zip) {
        &&& refusal == either(
            read.1,
            match zip_members(read.0) {
                Ok(_) => None,
                Err(cause) => Some(cause),
            },
        )
        &&& after.file == (if refusal is None {
            Some(
                FileState {
                    path,
                    shown: path,
                    pending: Seq::empty(),
                    failure: None,
                    archive: Some(ArchiveState { bytes: read.0, next: 0 }),
                },
            )
        } else {
            None
        })
    } else {
        let bytes = file_bytes(path, read);
        &&& refusal is None
        &&& after.file matches Some(file)
        &&& file.path == path
        &&& file.shown == path
        &&& file.archive is None
        &&& is_pending(data_reported(state.rule, bytes.0, bytes.1), state.wanted(), file)
        &&& compression_of(encode_utf8(path)) is Some ==> bytes.0.len() <= MAX_DECOMPRESSED_BYTES
    }
}

/// The pending line that comes first, as the client gets it.
pub open spec fn next_found(state: SearchState) -> FoundLine {
    let file = state.file->0;
    found_line(state.rule, file.shown, file.pending[0])
}

/// The lines that are found in the next member of an archive, and why the search ends in a
/// failure behind them, if it does.
pub open spec fn member_reported(rule: (Seq<char>, bool, bool), archive: ArchiveState) -> (
    Seq<(u64, Seq<char>)>,
    Option<Seq<char>>,
) {
    let bytes = zip_bytes(archive.bytes, archive.next, MAX_DECOMPRESSED_BYTES);
    data_reported(rule, bytes.0, bytes.1)
}

/// What becomes of a search when the next member of the archive at hand is opened.
pub open spec fn member_opened(state: SearchState, after: SearchState, step: Step) -> bool {
    let file = state.file->0;
    let archive = file.archive->0;
    let rest = FileState { archive: Some(archive.passed()), ..file };
    match archive.members()[archive.next] {
        Err(cause) => {
            &&& step matches Step::Skipped(text)
            &&& text@ == cause
            &&& after == (SearchState { file: Some(rest), ..state })
        },
        Ok(member) => {
            &&& step is Continue
            &&& if member.is_dir {
                after == (SearchState { file: Some(rest), ..state })
            } else {
                &&& after.closed() == state.closed()
                &&& after.file matches Some(now)
                &&& now.path == file.path
                &&& now.shown == shown_member(file.path, member.name)
                &&& now.archive == rest.archive
                &&& is_pending(member_reported(state.rule, archive), state.wanted(), now)
                &&& zip_bytes(archive.bytes, archive.next, MAX_DECOMPRESSED_BYTES).0.len()
                    <= MAX_DECOMPRESSED_BYTES
            }
        },
    }
}

/// What becomes of a search at its next turn with the file at hand, and what is to be
/// done.
pub open spec fn advanced(
    state: SearchState,
    flag: bool,
    after: SearchState,
    step: Step,
) -> bool {
    match state.file {
        None => step is Finished && after == state,
        Some(file) => if file.pending.len() > 0 {
            if state.is_cancelled(flag) {
                step is Continue && after == state.cancelled().reader_stopped()
            } else if state.room() <= 0 {
                step is Continue && after == state.full().reader_stopped()
            } else {
                &&& step matches Step::Deliver(found)
                &&& found@ == next_found(state)
                &&& after == state
            }
        } else if file.failure is Some {
            &&& step matches Step::Failed(cause)
            &&& cause@ == file.failure->0
            &&& after == state.closed()
        } else if file.members_left() == 0 || state.is_cancelled(flag) || state.outcome.count
            >= state.limit {
            step is Finished && after == state.closed()
        } else {
            member_opened(state, after, step)
        },
    }
}

/// What becomes of a search when the client has taken the first pending line, or has
/// not. Where no line was offered there is nothing to answer.
pub open spec fn answered(state: SearchState, taken: bool) -> SearchState {
    match state.file {
        Some(file) if file.pending.len() > 0 && state.room() > 0 => if !taken {
            state.cancelled().reader_stopped()
        } else {
            let counted = SearchState {
                outcome: SearchOutcome {
                    count: (state.outcome.count + 1) as usize,
                    ..state.outcome
                },
                ..state
            };
            if state.outcome.count + 1 >= state.limit {
                counted.full().reader_stopped()
            } else {
                SearchState {
                    file: Some(FileState { pending: file.pending.drop_first(), ..file }),
                    ..counted
                }
            }
        },
        _ => state,
    }
}

} // verus!
