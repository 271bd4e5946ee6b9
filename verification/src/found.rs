use vstd::prelude::*;

verus! {

/// One place where the pattern matches: the bytes of the line from `start` up to,
/// and without, `end`.
#[derive(Debug, Clone, Copy, PartialEq, Eq, Structural)]
pub struct Submatch {
    pub start: usize,
    pub end: usize,
}

/// One line that matches, as the client gets it.
#[derive(Debug, Clone, PartialEq, Eq)]
pub struct SearchMatch {
    pub path: String,
    pub line_number: u64,
    pub line: String,
    pub submatches: Vec<Submatch>,
}

/// The mathematical value of a `SearchMatch`.
#[verifier::ext_equal]
pub struct FoundLine {
    pub path: Seq<char>,
    pub line_number: u64,
    pub line: Seq<char>,
    pub submatches: Seq<Submatch>,
}

impl View for SearchMatch {
    type V = FoundLine;

    open spec fn view(&self) -> FoundLine {
        FoundLine {
            path: self.path@,
            line_number: self.line_number,
            line: self.line@,
            submatches: self.submatches@,
        }
    }
}

/// A line as the searcher reports it: its number, counted from 1, and its text with
/// the line terminator.
#[derive(Debug, PartialEq, Eq)]
pub struct ReportedLine {
    pub number: u64,
    pub text: String,
}

impl View for ReportedLine {
    type V = (u64, Seq<char>);

    open spec fn view(&self) -> (u64, Seq<char>) {
        (self.number, self.text@)
    }
}

/// The values of a list of reported lines.
pub open spec fn line_views(lines: Seq<ReportedLine>) -> Seq<(u64, Seq<char>)> {
    lines.map_values(|line: ReportedLine| line@)
}

/// Where a search stands: the results that the client took, whether it ended at the
/// limit, and whether it was cancelled.
#[derive(Debug, Clone, Copy, PartialEq, Eq, Structural)]
pub struct SearchOutcome {
    pub count: usize,
    pub truncated: bool,
    pub cancelled: bool,
}

impl Default for SearchOutcome {
    fn default() -> (outcome: SearchOutcome)
        ensures
            outcome == (SearchOutcome { count: 0, truncated: false, cancelled: false }),
    {
        SearchOutcome { count: 0, truncated: false, cancelled: false }
    }
}

/// What the client is told when its search has ended.
#[derive(Debug, Clone, Copy, PartialEq, Eq, Structural)]
pub struct SearchDone {
    pub count: usize,
    pub truncated: bool,
    pub elapsed_ms: u128,
}

/// The values of a list of reported lines are those of its entries, one for one: number and
/// text.
pub proof fn each_line_has_its_value(lines: Seq<ReportedLine>, i: int)
    requires
        0 <= i < lines.len(),
    ensures
        line_views(lines).len() == lines.len(),
        line_views(lines)[i].0 == lines[i].number,
        line_views(lines)[i].1 == lines[i].text@,
{
}

} // verus!
