use crate::decode::{
    compressed_bytes, zip_bytes, zip_members, Member, MAX_DECOMPRESSED_BYTES,
};
use crate::found::{FoundLine, SearchMatch, SearchOutcome};
use crate::matcher::{first, match_ranges};
use crate::model::{
    advanced, answered, data_reported, either, file_bytes, is_wanted, member_opened,
    member_reported, opened, visited, ArchiveState, SearchState,
};
use crate::path::{compression_of, Compression};
use crate::search::{
    found_line, is_binary, shown_member, Step, Visit, WalkEntry, BINARY_BYTE,
};
use crate::text::a_line_loses_its_end_only;
use vstd::prelude::*;
use vstd::utf8::encode_utf8;

verus! {

/// One turn of a search.
pub enum Turn {
    /// The walk came to an entry.
    Visit { flag: bool, entry: WalkEntry, visit: Visit },
    /// A file that was read was taken up, or refused.
    Open {
        path: Seq<char>,
        read: (Seq<u8>, Option<Seq<char>>),
        refusal: Option<Seq<char>>,
    },
    /// A line was offered to the client, who has taken it or has not.
    Deliver { flag: bool, found: SearchMatch, taken: bool },
    /// Some other work was done with the file at hand.
    Advance { flag: bool, step: Step },
}

/// Whether a turn leads from one state of a search to another.
pub open spec fn turned(before: SearchState, turn: Turn, after: SearchState) -> bool {
    match turn {
        Turn::Visit { flag, entry, visit } => (after, visit) == visited(before, flag, entry),
        Turn::Open { path, read, refusal } => opened(before, path, read, after, refusal),
        Turn::Deliver { flag, found, taken } => {
            &&& advanced(before, flag, before, Step::Deliver(found))
            &&& after == answered(before, taken)
        },
        Turn::Advance { flag, step } => step !is Deliver && advanced(before, flag, after, step),
    }
}

/// Whether the turns lead through the states, one by one.
pub open spec fn is_course(states: Seq<SearchState>, turns: Seq<Turn>) -> bool {
    &&& states.len() == turns.len() + 1
    &&& forall|i: int| 0 <= i < states.len() ==> (#[trigger] states[i]).well_formed()
    &&& forall|i: int|
        0 <= i < turns.len() ==> turned(states[i], #[trigger] turns[i], states[i + 1])
}

/// The lines that the client has taken, in the order of the turns.
pub open spec fn taken_lines(turns: Seq<Turn>) -> Seq<FoundLine>
    decreases turns.len(),
{
    if turns.len() == 0 {
        Seq::empty()
    } else {
        taken_in(turns[0]) + taken_lines(turns.drop_first())
    }
}

/// The line that the client has taken in a turn, if any.
pub open spec fn taken_in(turn: Turn) -> Seq<FoundLine> {
    match turn {
        Turn::Deliver { found, taken: true, .. } => seq![found@],
        _ => Seq::empty(),
    }
}

/// What is left of a course without its first turn is a course.
proof fn lemma_rest(states: Seq<SearchState>, turns: Seq<Turn>)
    requires
        is_course(states, turns),
        turns.len() > 0,
    ensures
        is_course(states.drop_first(), turns.drop_first()),
        turned(states[0], turns[0], states[1]),
        states.drop_first()[0] == states[1],
        states.drop_first().last() == states.last(),
{
}

/// The limit holds for a search as a whole, over all its files: the client never takes
/// more lines than the limit, the count that the search ends with is the number of lines
/// that it took, and the search says that it ended at the limit exactly if as many lines
/// were taken.
pub proof fn the_limit_is_global(states: Seq<SearchState>, turns: Seq<Turn>)
    requires
        is_course(states, turns),
        states[0].outcome.count == 0,
    ensures
        states.last().limit == states[0].limit,
        states.last().outcome.count == taken_lines(turns).len(),
        taken_lines(turns).len() <= states[0].limit,
        0 < states[0].limit ==> states.last().outcome.truncated == (taken_lines(turns).len()
            == states[0].limit),
{
    lemma_count(states, turns);
}

/// What a search was asked for never changes, and the count grows by the lines taken.
proof fn lemma_count(states: Seq<SearchState>, turns: Seq<Turn>)
    requires
        is_course(states, turns),
    ensures
        states.last().rule == states[0].rule,
        states.last().limit == states[0].limit,
        states.last().search_zip == states[0].search_zip,
        states.last().changed_after == states[0].changed_after,
        states.last().outcome.count == states[0].outcome.count + taken_lines(turns).len(),
    decreases turns.len(),
{
    if turns.len() > 0 {
        lemma_rest(states, turns);
        lemma_count(states.drop_first(), turns.drop_first());
        lemma_turn(states[0], turns[0], states[1]);
    }
}

/// The same for one turn.
proof fn lemma_turn(before: SearchState, turn: Turn, after: SearchState)
    requires
        before.well_formed(),
        turned(before, turn, after),
    ensures
        after.rule == before.rule,
        after.limit == before.limit,
        after.search_zip == before.search_zip,
        after.changed_after == before.changed_after,
        after.outcome.count == before.outcome.count + taken_in(turn).len(),
{
}

/// A search without room offers no line that it comes upon, but notes why it stops: that it
/// is cancelled or else that there would be more. Where it comes upon none, nothing changes.
pub proof fn a_full_search_notes_a_further_line(
    before: SearchState,
    flag: bool,
    after: SearchState,
    step: Step,
)
    requires
        before.room() <= 0,
        before.file is Some,
        advanced(before, flag, after, step),
    ensures
        step !is Deliver,
        before.file->0.pending.len() > 0 ==> after.outcome == (if before.is_cancelled(flag) {
            SearchOutcome { cancelled: true, ..before.outcome }
        } else {
            SearchOutcome { truncated: true, ..before.outcome }
        }),
        before.file->0.pending.len() == 0 ==> after.outcome == before.outcome,
{
}

/// A client that does not take a line cancels the search.
pub proof fn a_refusal_cancels(before: SearchState, turn: Turn, after: SearchState)
    requires
        turned(before, turn, after),
        turn matches Turn::Deliver { taken, .. } && !taken,
    ensures
        after.outcome.cancelled,
        after.outcome.count == before.outcome.count,
{
}

/// Where the flag by which others cancel the search is set, no line is offered to the
/// client, and the walk ends with the search cancelled.
pub proof fn the_flag_stops_the_search(before: SearchState, turn: Turn, after: SearchState)
    requires
        turned(before, turn, after),
        match turn {
            Turn::Visit { flag, .. } => flag,
            Turn::Deliver { flag, .. } => flag,
            Turn::Advance { flag, .. } => flag,
            Turn::Open { .. } => false,
        },
    ensures
        turn !is Deliver,
        turn matches Turn::Visit { visit, .. } ==> visit == Visit::Stop && after.outcome.cancelled,
{
}

/// A search that is cancelled stays so: from then on no line is offered to the client,
/// the count stays as it is, and the walk ends at the next entry.
pub proof fn a_cancelled_search_stays_cancelled(
    states: Seq<SearchState>,
    turns: Seq<Turn>,
    i: int,
    j: int,
)
    requires
        is_course(states, turns),
        0 <= i <= j < states.len(),
        states[i].outcome.cancelled,
    ensures
        states[j].outcome.cancelled,
        states[j].outcome.count == states[i].outcome.count,
        j < turns.len() ==> turns[j] !is Deliver,
        j < turns.len() ==> (turns[j] matches Turn::Visit { visit, .. } ==> visit == Visit::Stop),
    decreases j - i,
{
    if i < j {
        a_cancelled_search_stays_cancelled(states, turns, i, j - 1);
        lemma_turn(states[j - 1], turns[j - 1], states[j]);
    }
}

/// Reported lines as the client gets them.
pub open spec fn lines_found(
    rule: (Seq<char>, bool, bool),
    shown: Seq<char>,
    lines: Seq<(u64, Seq<char>)>,
) -> Seq<FoundLine> {
    lines.map_values(|line: (u64, Seq<char>)| found_line(rule, shown, line))
}

/// The matching lines of the members of an archive from the index `next` on, member by
/// member, up to the first whose reading or search fails. A directory and a member that
/// cannot be opened have none.
pub open spec fn members_lines(
    rule: (Seq<char>, bool, bool),
    path: Seq<char>,
    archive: ArchiveState,
) -> Seq<FoundLine>
    decreases archive.left(),
{
    if archive.left() <= 0 {
        Seq::empty()
    } else {
        let later = members_lines(rule, path, archive.passed());
        match archive.members()[archive.next] {
            Ok(Member { is_dir: false, name }) => {
                let reported = member_reported(rule, archive);
                let here = lines_found(rule, shown_member(path, name), reported.0);
                if reported.1 is Some {
                    here
                } else {
                    here + later
                }
            },
            _ => later,
        }
    }
}

/// The lines that a search has still to offer of the file at hand, if there is room: the
/// pending ones and, unless a failure follows them, those of the members of the archive.
pub open spec fn lines_ahead(state: SearchState) -> Seq<FoundLine> {
    match state.file {
        Some(file) => lines_found(state.rule, file.shown, file.pending) + if file.failure is None
            && file.archive is Some {
            members_lines(state.rule, file.path, file.archive->0)
        } else {
            Seq::empty()
        },
        None => Seq::empty(),
    }
}

/// Whether nobody cancels the search in this turn with the file at hand: the flag is not
/// set and the client takes what it is offered.
pub open spec fn is_undisturbed(turn: Turn) -> bool {
    match turn {
        Turn::Deliver { flag, taken, .. } => !flag && taken,
        Turn::Advance { flag, .. } => !flag,
        _ => false,
    }
}

/// One undisturbed turn: what was ahead is what the client took and what is ahead now.
proof fn lemma_undisturbed_turn(before: SearchState, turn: Turn, after: SearchState)
    requires
        before.well_formed(),
        after.well_formed(),
        turned(before, turn, after),
        is_undisturbed(turn),
        !before.outcome.cancelled,
    ensures
        !after.outcome.cancelled,
        after.rule == before.rule,
        after.room() == before.room() - taken_in(turn).len(),
        first(lines_ahead(before), before.room()) == taken_in(turn) + first(
            lines_ahead(after),
            after.room(),
        ),
{
    lemma_turn(before, turn, after);
    if let Some(file) = before.file {
        if file.pending.len() > 0 {
            lemma_delivered(before, turn, after);
        } else if file.failure is None && file.members_left() > 0 && before.room() > 0 {
            lemma_member(before, turn, after);
        }
    }
}

/// A turn that offers a line.
proof fn lemma_delivered(before: SearchState, turn: Turn, after: SearchState)
    requires
        before.well_formed(),
        after.well_formed(),
        turned(before, turn, after),
        is_undisturbed(turn),
        !before.outcome.cancelled,
        before.file matches Some(file) && file.pending.len() > 0,
    ensures
        !after.outcome.cancelled,
        first(lines_ahead(before), before.room()) == taken_in(turn) + first(
            lines_ahead(after),
            after.room(),
        ),
{
}

/// A turn that takes up an archive member.
proof fn lemma_member(before: SearchState, turn: Turn, after: SearchState)
    requires
        before.well_formed(),
        after.well_formed(),
        turned(before, turn, after),
        is_undisturbed(turn),
        !before.outcome.cancelled,
        before.room() > 0,
        before.file matches Some(file) && file.pending.len() == 0 && file.failure is None
            && file.members_left() > 0,
    ensures
        !after.outcome.cancelled,
        first(lines_ahead(before), before.room()) == taken_in(turn) + first(
            lines_ahead(after),
            after.room(),
        ),
{
}

/// A client that takes what it is offered, while nobody cancels the search, gets the lines
/// that are ahead in the file at hand, in their order and as far as there is room: the
/// pending ones and then, member by member, those of the archive, up to a failure.
pub proof fn a_file_is_offered_whole(states: Seq<SearchState>, turns: Seq<Turn>)
    requires
        is_course(states, turns),
        forall|i: int| 0 <= i < turns.len() ==> is_undisturbed(#[trigger] turns[i]),
        !states[0].outcome.cancelled,
        states.last().file is None,
    ensures
        taken_lines(turns) == first(lines_ahead(states[0]), states[0].room()),
        !states.last().outcome.cancelled,
    decreases turns.len(),
{
    if turns.len() > 0 {
        lemma_rest(states, turns);
        lemma_undisturbed_turn(states[0], turns[0], states[1]);
        a_file_is_offered_whole(states.drop_first(), turns.drop_first());
    }
}

/// What happened at one entry of the walk: what was read of the file, if it was to be
/// searched, and the turns with the file.
pub struct Stopover {
    pub entry: WalkEntry,
    pub read: (Seq<u8>, Option<Seq<char>>),
    pub states: Seq<SearchState>,
    pub turns: Seq<Turn>,
}

/// Whether a search gets from one state to another at this entry of the walk, with nobody
/// cancelling it: an entry that is wanted is read, taken up and worked on until it is
/// done.
pub open spec fn is_stopover(before: SearchState, stop: Stopover, after: SearchState) -> bool {
    let (met, visit) = visited(before, false, stop.entry);
    if visit == Visit::Search {
        &&& is_course(stop.states, stop.turns)
        &&& forall|i: int| 0 <= i < stop.turns.len() ==> is_undisturbed(#[trigger] stop.turns[i])
        &&& exists|refusal: Option<Seq<char>>|
            #[trigger] opened(met, stop.entry->path@, stop.read, stop.states[0], refusal)
        &&& stop.states.last().file is None
        &&& after == stop.states.last()
    } else {
        stop.turns.len() == 0 && after == met
    }
}

/// Whether a search gets through the states, one by one, at these entries of the walk.
pub open spec fn is_tour(states: Seq<SearchState>, stops: Seq<Stopover>) -> bool {
    &&& states.len() == stops.len() + 1
    &&& forall|i: int| 0 <= i < states.len() ==> (#[trigger] states[i]).well_formed()
    &&& forall|i: int|
        0 <= i < stops.len() ==> is_stopover(states[i], #[trigger] stops[i], states[i + 1])
}

/// The lines that the client has taken, entry by entry.
pub open spec fn tour_lines(stops: Seq<Stopover>) -> Seq<FoundLine>
    decreases stops.len(),
{
    if stops.len() == 0 {
        Seq::empty()
    } else {
        taken_lines(stops[0].turns) + tour_lines(stops.drop_first())
    }
}

/// The matching lines of a file, by its path and what was read of it. A compressed file is
/// decoded, up to the limit; of an archive they are those of its members. They end where the
/// reading, the decoding or the search fails.
pub open spec fn file_lines(
    rule: (Seq<char>, bool, bool),
    path: Seq<char>,
    read: (Seq<u8>, Option<Seq<char>>),
) -> Seq<FoundLine> {
    if compression_of(encode_utf8(path)) == Some(Compression::Zip) {
        if read.1 is None && zip_members(read.0) is Ok {
            members_lines(rule, path, ArchiveState { bytes: read.0, next: 0 })
        } else {
            Seq::empty()
        }
    } else {
        let bytes = file_bytes(path, read);
        lines_found(rule, path, data_reported(rule, bytes.0, bytes.1).0)
    }
}

/// The matching lines of an entry of the walk; none unless it is a file that the search
/// is to look into.
pub open spec fn entry_lines(state: SearchState, stop: Stopover) -> Seq<FoundLine> {
    if is_wanted(state, stop.entry) {
        file_lines(state.rule, stop.entry->path@, stop.read)
    } else {
        Seq::empty()
    }
}

/// The matching lines of the entries of a walk, entry by entry.
pub open spec fn walk_lines(state: SearchState, stops: Seq<Stopover>) -> Seq<FoundLine>
    decreases stops.len(),
{
    if stops.len() == 0 {
        Seq::empty()
    } else {
        entry_lines(state, stops[0]) + walk_lines(state, stops.drop_first())
    }
}

/// A file that was taken up has its matching lines ahead.
proof fn lemma_opened(
    before: SearchState,
    path: Seq<char>,
    read: (Seq<u8>, Option<Seq<char>>),
    after: SearchState,
    refusal: Option<Seq<char>>,
)
    requires
        before.well_formed(),
        opened(before, path, read, after, refusal),
    ensures
        after.rule == before.rule,
        after.room() == before.room(),
        after.outcome == before.outcome,
        first(lines_ahead(after), after.room()) == first(
            file_lines(before.rule, path, read),
            before.room(),
        ),
{
}

/// What a search says: a client that takes what it is offered, while nobody cancels the
/// search, gets the matching lines of the files that the search is to look into, in the
/// order of the walk and of the lines in each file, as far as the limit goes, and nothing
/// else. A file that fails keeps none of the others back, and none of its own lines before
/// the failure.
pub proof fn a_search_offers_all_lines(states: Seq<SearchState>, stops: Seq<Stopover>)
    requires
        is_tour(states, stops),
        !states[0].outcome.cancelled,
    ensures
        tour_lines(stops) == first(walk_lines(states[0], stops), states[0].room()),
        states.last().outcome.count == states[0].outcome.count + tour_lines(stops).len(),
        !states.last().outcome.cancelled,
    decreases stops.len(),
{
    if stops.len() > 0 {
        let later = stops.drop_first();
        lemma_stopover(states[0], stops[0], states[1]);
        a_search_offers_all_lines(states.drop_first(), later);
        lemma_same_walk(states[0], states[1], later);
    }
}

/// Binary data is passed over: of a file or a compressed file whose bytes hold a character
/// of the value 0 no line is offered, and nothing fails.
pub proof fn a_binary_file_is_passed_over(
    before: SearchState,
    path: Seq<char>,
    read: (Seq<u8>, Option<Seq<char>>),
    after: SearchState,
)
    requires
        opened(before, path, read, after, None),
        compression_of(encode_utf8(path)) != Some(Compression::Zip),
        is_binary(file_bytes(path, read).0),
    ensures
        lines_ahead(after).len() == 0,
        after.outcome == before.outcome,
        after.file matches Some(file) && file.failure is None,
{
}

/// Data without the byte order mark of UTF-16 is binary if it holds a byte of the value 0.
pub proof fn a_zero_byte_marks_binary_data(data: Seq<u8>)
    requires
        data.contains(0u8),
        data.len() >= 2 ==> !(data[0] == 0xff && data[1] == 0xfe) && !(data[0] == 0xfe && data[1]
            == 0xff),
    ensures
        is_binary(data),
{
}

/// A compressed file is searched as what is decoded of it, and that is no more than
/// `MAX_DECOMPRESSED_BYTES`.
pub proof fn compressed_files_are_searched_as_their_contents(
    before: SearchState,
    path: Seq<char>,
    read: (Seq<u8>, Option<Seq<char>>),
    after: SearchState,
    format: Compression,
)
    requires
        opened(before, path, read, after, None),
        compression_of(encode_utf8(path)) == Some(format),
        format != Compression::Zip,
    ensures
        lines_ahead(after) == first(
            lines_found(
                before.rule,
                path,
                data_reported(
                    before.rule,
                    compressed_bytes(format, read.0).0,
                    either(read.1, compressed_bytes(format, read.0).1),
                ).0,
            ),
            before.wanted(),
        ),
        compressed_bytes(format, read.0).0.len() <= MAX_DECOMPRESSED_BYTES,
{
}

/// The lines of an archive member are shown as `archive!member`, and are those of what is
/// read of it, which is no more than `MAX_DECOMPRESSED_BYTES`.
pub proof fn members_are_shown_with_their_archive(
    before: SearchState,
    after: SearchState,
    step: Step,
    member: Member,
)
    requires
        before.well_formed(),
        member_opened(before, after, step),
        before.file matches Some(file) && file.archive matches Some(archive) && archive.left() > 0
            && archive.members()[archive.next] == Ok::<Member, Seq<char>>(member),
        !member.is_dir,
    ensures
        after.file matches Some(file) && lines_found(after.rule, file.shown, file.pending)
            == first(
            lines_found(
                before.rule,
                before.file->0.path + "!"@ + member.name,
                member_reported(before.rule, before.file->0.archive->0).0,
            ),
            before.wanted(),
        ),
        zip_bytes(
            before.file->0.archive->0.bytes,
            before.file->0.archive->0.next,
            MAX_DECOMPRESSED_BYTES,
        ).0.len() <= MAX_DECOMPRESSED_BYTES,
{
}

/// At an entry of the walk the client gets its matching lines, as far as there is room.
proof fn lemma_stopover(before: SearchState, stop: Stopover, after: SearchState)
    requires
        before.well_formed(),
        !before.outcome.cancelled,
        is_stopover(before, stop, after),
    ensures
        taken_lines(stop.turns) == first(entry_lines(before, stop), before.room()),
        after.rule == before.rule,
        after.limit == before.limit,
        after.search_zip == before.search_zip,
        after.changed_after == before.changed_after,
        after.outcome.count == before.outcome.count + taken_lines(stop.turns).len(),
        !after.outcome.cancelled,
{
    let (met, visit) = visited(before, false, stop.entry);
    if visit == Visit::Search {
        let refusal = choose|refusal: Option<Seq<char>>|
            #[trigger] opened(met, stop.entry->path@, stop.read, stop.states[0], refusal);
        lemma_opened(met, stop.entry->path@, stop.read, stop.states[0], refusal);
        a_file_is_offered_whole(stop.states, stop.turns);
        lemma_count(stop.states, stop.turns);
    }
}

/// Which lines a walk holds depends on what the search was asked for alone.
proof fn lemma_same_walk(one: SearchState, other: SearchState, stops: Seq<Stopover>)
    requires
        one.rule == other.rule,
        one.search_zip == other.search_zip,
        one.changed_after == other.changed_after,
    ensures
        walk_lines(one, stops) == walk_lines(other, stops),
    decreases stops.len(),
{
    if stops.len() > 0 {
        lemma_same_walk(one, other, stops.drop_first());
    }
}

/// A file or an archive member that fails ends no more than the file at hand: the search
/// keeps what it was asked for and what came of it so far.
pub proof fn a_failure_ends_only_its_file(
    before: SearchState,
    flag: bool,
    after: SearchState,
    step: Step,
)
    requires
        advanced(before, flag, after, step),
        step is Failed || step is Skipped,
    ensures
        after.closed() == before.closed(),
        step is Failed ==> after.file is None,
{
}

/// The work with a file comes to an end: each turn puts the file away, or leaves fewer
/// archive members to open, or as many and fewer lines to offer.
pub proof fn each_turn_gets_on(before: SearchState, turn: Turn, after: SearchState)
    requires
        before.well_formed(),
        turned(before, turn, after),
        turn is Deliver || turn is Advance,
        before.file is Some,
    ensures
        after.file is None || {
            let earlier = before.file->0;
            let now = after.file->0;
            0 <= now.members_left() < earlier.members_left() || (now.members_left()
                == earlier.members_left() && now.pending.len() < earlier.pending.len())
        },
{
}

/// What the client gets of a line: the path under which the file or archive member is
/// shown, the line's number, counted from 1, its text without carriage returns and line
/// feeds at the end, and the places where the pattern matches in this text. The text comes
/// from a line without a byte that marks binary data.
pub proof fn an_offered_line_is_clean(
    before: SearchState,
    flag: bool,
    after: SearchState,
    found: SearchMatch,
)
    requires
        before.well_formed(),
        advanced(before, flag, after, Step::Deliver(found)),
    ensures
        found.path@ == before.file->0.shown,
        found.line_number >= 1,
        found.line_number == before.file->0.pending[0].0,
        found.line@.is_prefix_of(before.file->0.pending[0].1),
        found.submatches@ == match_ranges(before.rule, found.line@),
        !encode_utf8(before.file->0.pending[0].1).contains(BINARY_BYTE),
        found.line@.len() > 0 ==> found.line@.last() != '\r' && found.line@.last() != '\n',
{
    assert(found@.line_number == found.line_number);
    a_line_loses_its_end_only(before.file->0.pending[0].1);
}

/// The walk looks into ordinary files alone, into compressed ones only where the request
/// asks for it, and where it sets a time limit only into files that are known to have
/// changed later.
pub proof fn only_wanted_files_are_searched(before: SearchState, flag: bool, entry: WalkEntry)
    requires
        visited(before, flag, entry).1 == Visit::Search,
    ensures
        entry matches WalkEntry::Entry { path, is_file, modified } && is_file && (
        compression_of(encode_utf8(path@)) is Some ==> before.search_zip) && (
        before.changed_after matches Some(cutoff) ==> modified is Some && modified->0 > cutoff),
{
}

} // verus!
