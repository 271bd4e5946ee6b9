use crate::decode::{
    archive_bytes, archive_len, open_archive, open_member, read_compressed, read_member,
    MemberHeader, ReadBytes, MAX_DECOMPRESSED_BYTES,
};
use crate::error::AppError;
use crate::found::{
    line_views, FoundLine, ReportedLine, SearchMatch, SearchOutcome, Submatch,
};
use crate::matcher::{
    failure_within, find_ranges, first, match_ranges, matcher_rule, ranges_in_order, ranges_spell,
    run_searcher, well_reported, words, Reported,
};
use crate::model::{
    advanced, answered, data_reported, fresh, opened, visited, ArchiveState, FileState,
    SearchState,
};
use crate::path::{compression, compression_of, Compression};
use crate::text::{strip_line_end, without_line_end};
use grep_regex::RegexMatcher;
use std::io::Cursor;
use vstd::prelude::*;
use vstd::slice::slice_subrange;
use vstd::string::*;
use vstd::utf8::encode_utf8;
use zip::ZipArchive;

verus! {

/// The byte that marks binary data: data behind it is not searched.
pub const BINARY_BYTE: u8 = 0;

/// The byte that ends a line.
pub const LINE_FEED: u8 = 10;

/// Whether data begins with the byte order mark of UTF-16, and so is turned into UTF-8
/// before it is searched.
pub open spec fn is_utf16(data: Seq<u8>) -> bool {
    data.len() >= 2 && ((data[0] == 0xff && data[1] == 0xfe) || (data[0] == 0xfe && data[1]
        == 0xff))
}

/// Whether UTF-16 data holds the unit that marks binary data: both its bytes are 0.
pub open spec fn has_binary_unit(data: Seq<u8>) -> bool {
    exists|i: int| 0 <= i < data.len() / 2 && is_binary_unit(data, i)
}

/// Whether both bytes of the unit with this index are 0.
pub open spec fn is_binary_unit(data: Seq<u8>, i: int) -> bool {
    data[2 * i] == BINARY_BYTE && data[2 * i + 1] == BINARY_BYTE
}

/// Whether data is binary: it holds a character of the value 0.
pub open spec fn is_binary(data: Seq<u8>) -> bool {
    if is_utf16(data) {
        has_binary_unit(data)
    } else {
        data.contains(BINARY_BYTE)
    }
}

/// Whether the first `n` bytes of data end in a line feed. In UTF-16 it has two bytes, the
/// order of which the byte order mark tells.
pub open spec fn ends_line(data: Seq<u8>, n: int) -> bool {
    if is_utf16(data) {
        &&& n >= 2 && n % 2 == 0
        &&& if data[0] == 0xff {
            data[n - 2] == LINE_FEED && data[n - 1] == 0
        } else {
            data[n - 2] == 0 && data[n - 1] == LINE_FEED
        }
    } else {
        n >= 1 && data[n - 1] == LINE_FEED
    }
}

/// The end of the last complete line in the first `n` bytes of data.
pub open spec fn last_line_end(data: Seq<u8>, n: int) -> int
    decreases n,
{
    if n <= 0 {
        0
    } else if ends_line(data, n) {
        n
    } else {
        last_line_end(data, n - 1)
    }
}

/// The lines of data that are complete: what stands behind the last line feed is left out.
pub open spec fn complete_lines(data: Seq<u8>) -> Seq<u8> {
    data.take(last_line_end(data, data.len() as int))
}

/// Computes `is_utf16`.
fn utf16(data: &Vec<u8>) -> (r: bool)
    ensures
        r == is_utf16(data@),
{
    data.len() >= 2 && ((data[0] == 0xff && data[1] == 0xfe) || (data[0] == 0xfe && data[1]
        == 0xff))
}

/// Computes `is_binary`.
pub fn binary(data: &Vec<u8>) -> (r: bool)
    ensures
        r == is_binary(data@),
{
    let wide = utf16(data);
    let mut at: usize = 0;
    while at < data.len()
        invariant
            at <= data@.len(),
            wide == is_utf16(data@),
            wide ==> forall|i: int| 0 <= i < at / 2 ==> !#[trigger] is_binary_unit(data@, i),
            !wide ==> forall|i: int| 0 <= i < at ==> data@[i] != BINARY_BYTE,
        decreases data@.len() - at,
    {
        if !wide && data[at] == BINARY_BYTE {
            return true;
        }
        if wide && at % 2 == 1 && data[at] == BINARY_BYTE && data[at - 1] == BINARY_BYTE {
            assert(is_binary_unit(data@, at as int / 2));
            return true;
        }
        at = at + 1;
    }
    false
}

/// The length of the complete lines at the start of data.
fn complete_length(data: &Vec<u8>) -> (n: usize)
    ensures
        n <= data@.len(),
        data@.take(n as int) == complete_lines(data@),
{
    let wide = utf16(data);
    let mut n: usize = data.len();
    while n > 0
        invariant
            n <= data@.len(),
            wide == is_utf16(data@),
            last_line_end(data@, data@.len() as int) == last_line_end(data@, n as int),
        decreases n,
    {
        let ended = if wide {
            n >= 2 && n % 2 == 0 && if data[0] == 0xff {
                data[n - 2] == LINE_FEED && data[n - 1] == 0
            } else {
                data[n - 2] == 0 && data[n - 1] == LINE_FEED
            }
        } else {
            data[n - 1] == LINE_FEED
        };
        if ended {
            return n;
        }
        n = n - 1;
    }
    0
}

/// One reported line as the client gets it: without its line end, and with the places
/// where the pattern matches in what is left.
pub open spec fn found_line(
    rule: (Seq<char>, bool, bool),
    path: Seq<char>,
    line: (u64, Seq<char>),
) -> FoundLine {
    FoundLine {
        path,
        line_number: line.0,
        line: without_line_end(line.1),
        submatches: match_ranges(rule, without_line_end(line.1)),
    }
}

/// Puts together what the client gets of one reported line, by the places where the pattern
/// matches in the line without its line end.
pub fn describe_line(path: &str, line: &ReportedLine, ranges: Vec<Submatch>) -> (r: SearchMatch)
    ensures
        r@ == (FoundLine {
            path: path@,
            line_number: line.number,
            line: without_line_end(line.text@),
            submatches: ranges@,
        }),
{
    SearchMatch {
        path: path.to_owned(),
        line_number: line.number,
        line: strip_line_end(line.text.as_str()).to_owned(),
        submatches: ranges,
    }
}

/// The path under which the lines of an archive member are shown.
pub open spec fn shown_member(archive: Seq<char>, member: Seq<char>) -> Seq<char> {
    archive + "!"@ + member
}

/// Computes `shown_member`.
pub fn member_path(archive: &str, member: &str) -> (r: String)
    ensures
        r@ == shown_member(archive@, member@),
{
    archive.to_owned().concat("!").concat(member)
}

/// An entry of the walk through the directory tree.
pub enum WalkEntry {
    /// The walk could not read it.
    Unreadable,
    /// The path, whether it is an ordinary file, and when it was changed, in nanoseconds
    /// since 1970, if that is known.
    Entry { path: String, is_file: bool, modified: Option<i128> },
}

/// What is to be done with a walk entry.
#[derive(Debug, PartialEq, Eq, Structural, Clone, Copy)]
pub enum Visit {
    /// The walk ends.
    Stop,
    /// The entry is passed over.
    Skip,
    /// The file is to be read and opened.
    Search,
}

/// What is to be done next with the file at hand.
#[derive(Debug, PartialEq, Eq)]
pub enum Step {
    /// The client is to be asked to take this line.
    Deliver(SearchMatch),
    /// There is more to do.
    Continue,
    /// An archive member was passed over because it could not be opened; with the cause.
    Skipped(String),
    /// The file is done.
    Finished,
    /// The file is done because the search failed; with the cause.
    Failed(String),
}

/// An archive whose members are being searched.
struct OpenArchive {
    zip: ZipArchive<Cursor<Vec<u8>>>,
    index: usize,
}

impl OpenArchive {
    /// The archive as the model has it.
    spec fn state(self) -> ArchiveState {
        ArchiveState { bytes: archive_bytes(self.zip), next: self.index as int }
    }
}

/// A file that is being searched.
struct OpenFile {
    path: String,
    shown: String,
    lines: Vec<ReportedLine>,
    next: usize,
    failure: Option<String>,
    archive: Option<OpenArchive>,
}

impl OpenFile {
    /// The next line is one of the lines or stands behind them.
    spec fn well_formed(self) -> bool {
        &&& self.next <= self.lines@.len()
        &&& self.archive matches Some(archive) ==> archive.state().well_formed()
    }

    /// The lines from the next one on.
    spec fn pending(self) -> Seq<(u64, Seq<char>)> {
        line_views(self.lines@).skip(self.next as int)
    }

    /// The file as the model has it.
    spec fn state(self) -> FileState {
        FileState {
            path: self.path@,
            shown: self.shown@,
            pending: self.pending(),
            failure: words(self.failure),
            archive: match self.archive {
                Some(archive) => Some(archive.state()),
                None => None,
            },
        }
    }
}

/// A search for one pattern through many files. The caller walks the directory tree,
/// asks `visit` what to do with each entry, reads the files that are wanted and hands
/// them to `open`, and then does what `advance` says until the file is done.
pub struct LogSearch {
    matcher: RegexMatcher,
    limit: usize,
    search_zip: bool,
    changed_after: Option<i128>,
    outcome: SearchOutcome,
    file: Option<OpenFile>,
}

impl View for LogSearch {
    type V = SearchState;

    closed spec fn view(&self) -> SearchState {
        SearchState {
            rule: matcher_rule(self.matcher),
            limit: self.limit as nat,
            search_zip: self.search_zip,
            changed_after: match self.changed_after {
                Some(cutoff) => Some(cutoff as int),
                None => None,
            },
            outcome: self.outcome,
            file: match self.file {
                Some(file) => Some(file.state()),
                None => None,
            },
        }
    }
}

impl LogSearch {
    /// What holds of every search that came from `new` and its methods.
    pub closed spec fn well_formed(self) -> bool {
        &&& self@.well_formed()
        &&& self.file matches Some(file) ==> file.well_formed()
    }

    /// A search that has not begun.
    pub fn new(
        matcher: RegexMatcher,
        limit: usize,
        search_zip: bool,
        changed_after: Option<i128>,
    ) -> (search: LogSearch)
        ensures
            search.well_formed(),
            search@ == fresh(
                matcher_rule(matcher),
                limit as nat,
                search_zip,
                match changed_after {
                    Some(cutoff) => Some(cutoff as int),
                    None => None,
                },
            ),
    {
        LogSearch {
            matcher,
            limit,
            search_zip,
            changed_after,
            outcome: SearchOutcome::default(),
            file: None,
        }
    }

    /// What came of the search so far.
    pub fn outcome(&self) -> (outcome: SearchOutcome)
        ensures
            outcome == self@.outcome,
    {
        self.outcome
    }

    /// Decides what is to be done with the next entry of the walk. `cancelled` is the
    /// flag by which others cancel the search.
    pub fn visit(&mut self, cancelled: bool, entry: &WalkEntry) -> (visit: Visit)
        requires
            old(self).well_formed(),
        ensures
            final(self).well_formed(),
            (final(self)@, visit) == visited(old(self)@, cancelled, *entry),
    {
        if cancelled || self.outcome.cancelled {
            self.outcome.cancelled = true;
            return Visit::Stop;
        }
        if self.outcome.count >= self.limit {
            self.outcome.truncated = true;
            return Visit::Stop;
        }
        match entry {
            WalkEntry::Unreadable => Visit::Skip,
            WalkEntry::Entry { path, is_file, modified } => {
                if !*is_file {
                    return Visit::Skip;
                }
                if let Some(cutoff) = self.changed_after {
                    match modified {
                        Some(time) => {
                            if *time <= cutoff {
                                return Visit::Skip;
                            }
                        },
                        None => {
                            return Visit::Skip;
                        },
                    }
                }
                if compression(path.as_str()).is_some() && !self.search_zip {
                    return Visit::Skip;
                }
                Visit::Search
            },
        }
    }

    /// The number of lines that are looked for.
    fn lines_wanted(&self) -> (n: usize)
        requires
            self.well_formed(),
        ensures
            n == self@.wanted(),
    {
        let room: usize = self.limit - self.outcome.count;
        if room > 0 {
            room
        } else {
            1
        }
    }

    /// Searches bytes that were read, for as many lines as are wanted. `cause` says why the
    /// reading failed, if it did.
    fn search_reader(&self, data: &Vec<u8>, cause: Option<String>) -> (reported: Reported)
        requires
            self.well_formed(),
        ensures
            line_views(reported.lines@) == first(
                data_reported(self@.rule, data@, words(cause)).0,
                self@.wanted(),
            ),
            words(reported.failure) == failure_within(
                data_reported(self@.rule, data@, words(cause)),
                self@.wanted(),
            ),
            well_reported(line_views(reported.lines@), BINARY_BYTE),
            reported.lines@.len() <= self@.wanted(),
    {
        if binary(data) {
            return Reported { lines: Vec::new(), failure: None };
        }
        let wanted: usize = self.lines_wanted();
        let length: usize = if cause.is_some() {
            complete_length(data)
        } else {
            data.len()
        };
        let part = slice_subrange(data.as_slice(), 0, length);
        assert(data@.take(data@.len() as int) =~= data@);
        let mut reported = run_searcher(&self.matcher, BINARY_BYTE, part, wanted);
        assert(line_views(reported.lines@).len() == reported.lines@.len());
        if reported.failure.is_none() && reported.lines.len() < wanted {
            reported.failure = cause;
        }
        reported
    }

    /// Takes up the lines that a search of a file has reported: as many as are wanted.
    pub fn open_reported(&mut self, path: String, reported: Reported)
        requires
            old(self).well_formed(),
            well_reported(line_views(reported.lines@), BINARY_BYTE),
        ensures
            final(self).well_formed(),
            final(self)@ == (SearchState {
                file: Some(
                    FileState {
                        path: path@,
                        shown: path@,
                        pending: first(line_views(reported.lines@), old(self)@.wanted()),
                        failure: words(reported.failure),
                        archive: None,
                    },
                ),
                ..old(self)@
            }),
    {
        let wanted: usize = self.lines_wanted();
        let mut lines = reported.lines;
        let ghost all = line_views(lines@);
        if lines.len() > wanted {
            lines.truncate(wanted);
        }
        let shown = path.clone();
        self.file = Some(
            OpenFile { path, shown, lines, next: 0, failure: reported.failure, archive: None },
        );
        assert(self@.file->0 =~= (FileState {
            path: path@,
            shown: path@,
            pending: first(all, wanted as int),
            failure: words(reported.failure),
            archive: None,
        }));
    }

    /// Takes up a file that was read: searches a plain file, decodes and searches a
    /// compressed one, opens an archive. An archive that was not read to its end or
    /// cannot be opened is refused.
    pub fn open(&mut self, path: String, read: ReadBytes) -> (r: Result<(), AppError>)
        requires
            old(self).well_formed(),
        ensures
            final(self).well_formed(),
            match r {
                Ok(_) => opened(old(self)@, path@, read@, final(self)@, None),
                Err(error) => error matches AppError::Search(cause) && opened(
                    old(self)@,
                    path@,
                    read@,
                    final(self)@,
                    Some(cause@),
                ),
            },
    {
        match compression(path.as_str()) {
            None => {
                let reported = self.search_reader(&read.data, read.failure);
                self.open_reported(path, reported);
                Ok(())
            },
            Some(_) => self.search_compressed_file(path, read),
        }
    }

    /// Takes up a compressed file that was read. A file whose extension names no format is
    /// passed over.
    pub fn search_compressed_file(&mut self, path: String, read: ReadBytes) -> (r: Result<
        (),
        AppError,
    >)
        requires
            old(self).well_formed(),
        ensures
            final(self).well_formed(),
            compression_of(encode_utf8(path@)) is None ==> r is Ok && final(self)@ == old(
                self,
            )@.closed(),
            compression_of(encode_utf8(path@)) is Some ==> match r {
                Ok(_) => opened(old(self)@, path@, read@, final(self)@, None),
                Err(error) => error matches AppError::Search(cause) && opened(
                    old(self)@,
                    path@,
                    read@,
                    final(self)@,
                    Some(cause@),
                ),
            },
    {
        let format = match compression(path.as_str()) {
            None => {
                self.file = None;
                return Ok(());
            },
            Some(format) => format,
        };
        if format == Compression::Zip {
            return self.open_zip(path, read);
        }
        let decoded = read_compressed(format, read.data.as_slice());
        let cause = if read.failure.is_some() {
            read.failure
        } else {
            decoded.failure
        };
        let reported = self.search_reader(&decoded.data, cause);
        self.open_reported(path, reported);
        Ok(())
    }

    /// Opens an archive that was read.
    fn open_zip(&mut self, path: String, read: ReadBytes) -> (r: Result<(), AppError>)
        requires
            old(self).well_formed(),
            compression_of(encode_utf8(path@)) == Some(Compression::Zip),
        ensures
            final(self).well_formed(),
            match r {
                Ok(_) => opened(old(self)@, path@, read@, final(self)@, None),
                Err(error) => error matches AppError::Search(cause) && opened(
                    old(self)@,
                    path@,
                    read@,
                    final(self)@,
                    Some(cause@),
                ),
            },
    {
        self.file = None;
        if let Some(cause) = read.failure {
            return Err(AppError::Search(cause));
        }
        match open_archive(read.data) {
            Err(cause) => Err(AppError::Search(cause)),
            Ok(zip) => {
                let shown = path.clone();
                let lines: Vec<ReportedLine> = Vec::new();
                self.file = Some(
                    OpenFile {
                        path,
                        shown,
                        lines,
                        next: 0,
                        failure: None,
                        archive: Some(OpenArchive { zip, index: 0 }),
                    },
                );
                assert(self.file->0.pending() =~= Seq::empty());
                Ok(())
            },
        }
    }

    /// Notes whether the client has taken the line that `advance` said to deliver. One
    /// that has not cancels the search; the last for which there is room ends it.
    pub fn answer(&mut self, taken: bool)
        requires
            old(self).well_formed(),
        ensures
            final(self).well_formed(),
            final(self)@ == answered(old(self)@, taken),
    {
        match self.file.take() {
            None => {},
            Some(mut file) => {
                let ghost before = file;
                if file.next < file.lines.len() && self.outcome.count < self.limit {
                    if !taken {
                        self.outcome.cancelled = true;
                        file.stop();
                    } else {
                        self.outcome.count = self.outcome.count + 1;
                        if self.outcome.count >= self.limit {
                            self.outcome.truncated = true;
                            file.stop();
                        } else {
                            file.next = file.next + 1;
                            assert(file.pending() =~= before.pending().drop_first());
                        }
                    }
                }
                self.file = Some(file);
            },
        }
    }

    /// Does the next piece of work with the file at hand: offers the first pending line,
    /// opens the next archive member, or puts the file away. `cancelled` is the flag by
    /// which others cancel the search.
    pub fn advance(&mut self, cancelled: bool) -> (step: Step)
        requires
            old(self).well_formed(),
        ensures
            final(self).well_formed(),
            advanced(old(self)@, cancelled, final(self)@, step),
            step matches Step::Deliver(found) ==> ranges_in_order(
                found.submatches@,
                encode_utf8(found.line@).len(),
            ) && ranges_spell(old(self)@.rule, found.line@, found.submatches@),
    {
        let stopping = cancelled || self.outcome.cancelled;
        match self.file.take() {
            None => Step::Finished,
            Some(mut file) => {
                if file.next < file.lines.len() {
                    if stopping {
                        self.outcome.cancelled = true;
                        file.stop();
                        self.file = Some(file);
                        return Step::Continue;
                    }
                    if self.outcome.count >= self.limit {
                        self.outcome.truncated = true;
                        file.stop();
                        self.file = Some(file);
                        return Step::Continue;
                    }
                    let line = &file.lines[file.next];
                    let ranges = find_ranges(&self.matcher, strip_line_end(line.text.as_str()));
                    let found = describe_line(file.shown.as_str(), line, ranges);
                    self.file = Some(file);
                    return Step::Deliver(found);
                }
                if let Some(cause) = file.failure {
                    return Step::Failed(cause);
                }
                self.search_zip_archive(stopping, file)
            },
        }
    }

    /// Goes on with the archive at hand: opens and searches its next member, unless
    /// there is none left or the search is over.
    fn search_zip_archive(&mut self, stopping: bool, file: OpenFile) -> (step: Step)
        requires
            old(self).well_formed(),
            old(self)@.file is None,
            file.well_formed(),
            file.state().pending.len() == 0,
            file.state().failure is None,
            stopping == (stopping || old(self)@.outcome.cancelled),
        ensures
            final(self).well_formed(),
            step !is Deliver,
            advanced(
                SearchState { file: Some(file.state()), ..old(self)@ },
                stopping,
                final(self)@,
                step,
            ),
    {
        let mut file = file;
        match file.archive.take() {
            None => Step::Finished,
            Some(mut archive) => {
                if archive.index >= archive_len(&archive.zip) || stopping || self.outcome.count
                    >= self.limit {
                    return Step::Finished;
                }
                let member = open_member(&mut archive.zip, archive.index);
                let reported = match &member {
                    Ok(header) if !header.is_dir => {
                        let read = read_member(
                            &mut archive.zip,
                            archive.index,
                            MAX_DECOMPRESSED_BYTES,
                        );
                        self.search_reader(&read.data, read.failure)
                    },
                    _ => Reported { lines: Vec::new(), failure: None },
                };
                file.archive = Some(archive);
                self.file = Some(file);
                self.take_member(member, reported)
            },
        }
    }

    /// Passes the next member of the archive at hand, by what came of opening it: takes up
    /// the lines that the search of it has reported, as many as are wanted. A directory has
    /// none.
    pub fn take_member(
        &mut self,
        member: Result<MemberHeader, String>,
        reported: Reported,
    ) -> (step: Step)
        requires
            old(self).well_formed(),
            old(self)@.file is Some,
            old(self)@.file->0.members_left() > 0,
            well_reported(line_views(reported.lines@), BINARY_BYTE),
        ensures
            final(self).well_formed(),
            final(self)@.closed() == old(self)@.closed(),
            final(self)@.file is Some,
            final(self)@.file->0 == (FileState {
                archive: Some(old(self)@.file->0.archive->0.passed()),
                ..match member {
                    Ok(header) if !header.is_dir => FileState {
                        shown: shown_member(old(self)@.file->0.path, header.name@),
                        pending: first(line_views(reported.lines@), old(self)@.wanted()),
                        failure: words(reported.failure),
                        ..old(self)@.file->0
                    },
                    _ => old(self)@.file->0,
                }
            }),
            match member {
                Ok(_) => step is Continue,
                Err(cause) => step == Step::Skipped(cause),
            },
    {
        let wanted: usize = self.lines_wanted();
        match self.file.take() {
            None => Step::Finished,
            Some(mut file) => {
                if let Some(mut archive) = file.archive.take() {
                    if archive.index < archive_len(&archive.zip) {
                        archive.index = archive.index + 1;
                    }
                    file.archive = Some(archive);
                }
                let step = match member {
                    Err(cause) => Step::Skipped(cause),
                    Ok(header) => {
                        if !header.is_dir {
                            let mut lines = reported.lines;
                            let ghost all = line_views(lines@);
                            if lines.len() > wanted {
                                lines.truncate(wanted);
                            }
                            file.shown = member_path(file.path.as_str(), header.name.as_str());
                            file.lines = lines;
                            file.next = 0;
                            file.failure = reported.failure;
                            assert(file.pending() =~= first(all, wanted as int));
                        }
                        Step::Continue
                    },
                };
                self.file = Some(file);
                step
            },
        }
    }
}

/// A search that came from `new` and its methods is well-formed as the model has it, so that
/// what holds of every course of the model holds of it.
pub proof fn a_search_is_well_formed(search: LogSearch)
    requires
        search.well_formed(),
    ensures
        search@.well_formed(),
{
}

impl OpenFile {
    /// Drops the lines that are pending, and the failure behind them.
    fn stop(&mut self)
        requires
            old(self).well_formed(),
        ensures
            final(self).well_formed(),
            final(self).state() == (FileState {
                pending: Seq::empty(),
                failure: None,
                ..old(self).state()
            }),
    {
        self.next = self.lines.len();
        self.failure = None;
    }
}

} // verus!
