use vstd::prelude::*;
use vstd::string::*;

verus! {

/// Whether a character has the Unicode property White_Space.
pub open spec fn is_white_space(c: char) -> bool {
    ||| '\u{9}' <= c <= '\u{d}'
    ||| c == ' '
    ||| c == '\u{85}'
    ||| c == '\u{a0}'
    ||| c == '\u{1680}'
    ||| '\u{2000}' <= c <= '\u{200a}'
    ||| c == '\u{2028}'
    ||| c == '\u{2029}'
    ||| c == '\u{202f}'
    ||| c == '\u{205f}'
    ||| c == '\u{3000}'
}

/// Computes `is_white_space`.
pub fn white_space(c: char) -> (r: bool)
    ensures
        r == is_white_space(c),
{
    ('\u{9}' <= c && c <= '\u{d}') || c == ' ' || c == '\u{85}' || c == '\u{a0}' || c
        == '\u{1680}' || ('\u{2000}' <= c && c <= '\u{200a}') || c == '\u{2028}' || c
        == '\u{2029}' || c == '\u{202f}' || c == '\u{205f}' || c == '\u{3000}'
}

/// `s` without the white space at its start.
pub open spec fn trim_start(s: Seq<char>) -> Seq<char>
    decreases s.len(),
{
    if s.len() > 0 && is_white_space(s[0]) {
        trim_start(s.drop_first())
    } else {
        s
    }
}

/// `s` without the white space at its end.
pub open spec fn trim_end(s: Seq<char>) -> Seq<char>
    decreases s.len(),
{
    if s.len() > 0 && is_white_space(s.last()) {
        trim_end(s.drop_last())
    } else {
        s
    }
}

/// `s` without the white space at its ends.
pub open spec fn trimmed(s: Seq<char>) -> Seq<char> {
    trim_end(trim_start(s))
}

/// `s` without the slashes at its start.
pub open spec fn without_leading_slashes(s: Seq<char>) -> Seq<char>
    decreases s.len(),
{
    if s.len() > 0 && s[0] == '/' {
        without_leading_slashes(s.drop_first())
    } else {
        s
    }
}

/// `s` without the carriage returns and line feeds at its end.
pub open spec fn without_line_end(s: Seq<char>) -> Seq<char>
    decreases s.len(),
{
    if s.len() > 0 && (s.last() == '\r' || s.last() == '\n') {
        without_line_end(s.drop_last())
    } else {
        s
    }
}

/// Characters that are all white space leave nothing behind, and where the first that
/// is not stands at `k`, the text from there on is left.
proof fn lemma_trim_start(s: Seq<char>, k: int)
    requires
        0 <= k <= s.len(),
        forall|i: int| 0 <= i < k ==> is_white_space(#[trigger] s[i]),
        k < s.len() ==> !is_white_space(s[k]),
    ensures
        trim_start(s) == s.skip(k),
    decreases s.len(),
{
    if k > 0 {
        lemma_trim_start(s.drop_first(), k - 1);
    }
}

/// The same for the end: what is left stops behind the last character that is no white
/// space.
proof fn lemma_trim_end(s: Seq<char>, k: int)
    requires
        0 <= k <= s.len(),
        forall|i: int| k <= i < s.len() ==> is_white_space(#[trigger] s[i]),
        k > 0 ==> !is_white_space(s[k - 1]),
    ensures
        trim_end(s) == s.take(k),
    decreases s.len(),
{
    if k < s.len() {
        lemma_trim_end(s.drop_last(), k);
    }
}

/// The text without the white space at its ends.
pub fn trim(s: &str) -> (r: &str)
    ensures
        r@ == trimmed(s@),
{
    let length: usize = s.unicode_len();
    let mut start: usize = 0;
    let mut end: usize = 0;
    let mut at: usize = 0;
    for c in it: s.chars()
        invariant
            length == s@.len(),
            it.seq() == s@,
            at == it.index(),
            start <= end <= at,
            start == end ==> start == 0 && forall|i: int|
                0 <= i < at ==> is_white_space(#[trigger] s@[i]),
            start < end ==> {
                &&& forall|i: int| 0 <= i < start ==> is_white_space(#[trigger] s@[i])
                &&& !is_white_space(s@[start as int])
                &&& !is_white_space(s@[end - 1])
                &&& forall|i: int| end <= i < at ==> is_white_space(#[trigger] s@[i])
            },
    {
        if !white_space(c) {
            if start == end {
                start = at;
            }
            end = at + 1;
        }
        at = at + 1;
    }
    proof {
        if start == end {
            lemma_trim_start(s@, s@.len() as int);
        } else {
            lemma_trim_start(s@, start as int);
            lemma_trim_end(s@.skip(start as int), end - start);
        }
    }
    s.substring_char(start, end)
}

/// The text without the slashes at its start.
pub fn strip_leading_slashes(s: &str) -> (r: &str)
    ensures
        r@ == without_leading_slashes(s@),
{
    let length: usize = s.unicode_len();
    let mut start: usize = 0;
    let mut at: usize = 0;
    for c in it: s.chars()
        invariant
            length == s@.len(),
            it.seq() == s@,
            at == it.index(),
            start <= at,
            forall|i: int| 0 <= i < start ==> #[trigger] s@[i] == '/',
            start < at ==> s@[start as int] != '/',
    {
        if start == at && c == '/' {
            start = at + 1;
        }
        at = at + 1;
    }
    proof {
        lemma_leading_slashes(s@, start as int);
    }
    s.substring_char(start, length)
}

/// Where the first character that is no slash stands at `k`, the text from there on is
/// left.
proof fn lemma_leading_slashes(s: Seq<char>, k: int)
    requires
        0 <= k <= s.len(),
        forall|i: int| 0 <= i < k ==> #[trigger] s[i] == '/',
        k < s.len() ==> s[k] != '/',
    ensures
        without_leading_slashes(s) == s.skip(k),
    decreases s.len(),
{
    if k > 0 {
        lemma_leading_slashes(s.drop_first(), k - 1);
    }
}

/// The text without the carriage returns and line feeds at its end.
pub fn strip_line_end(s: &str) -> (r: &str)
    ensures
        r@ == without_line_end(s@),
{
    let length: usize = s.unicode_len();
    let mut end: usize = 0;
    let mut at: usize = 0;
    for c in it: s.chars()
        invariant
            length == s@.len(),
            it.seq() == s@,
            at == it.index(),
            end <= at,
            end > 0 ==> s@[end - 1] != '\r' && s@[end - 1] != '\n',
            forall|i: int|
                end <= i < at ==> #[trigger] s@[i] == '\r' || s@[i] == '\n',
    {
        at = at + 1;
        if c != '\r' && c != '\n' {
            end = at;
        }
    }
    proof {
        lemma_line_end(s@, end as int);
    }
    s.substring_char(0, end)
}

/// What is left of a line stops behind the last character that is neither a carriage
/// return nor a line feed.
proof fn lemma_line_end(s: Seq<char>, k: int)
    requires
        0 <= k <= s.len(),
        k > 0 ==> s[k - 1] != '\r' && s[k - 1] != '\n',
        forall|i: int| k <= i < s.len() ==> #[trigger] s[i] == '\r' || s[i] == '\n',
    ensures
        without_line_end(s) == s.take(k),
    decreases s.len(),
{
    if k < s.len() {
        lemma_line_end(s.drop_last(), k);
    }
}

/// A text of white space alone leaves nothing behind.
pub proof fn blank_text_trims_to_nothing(s: Seq<char>)
    requires
        forall|i: int| 0 <= i < s.len() ==> is_white_space(#[trigger] s[i]),
    ensures
        trimmed(s).len() == 0,
{
    lemma_trim_start(s, s.len() as int);
}

/// What is left of a line is how it begins and does not end in a carriage return or a
/// line feed.
pub proof fn a_line_loses_its_end_only(s: Seq<char>)
    ensures
        without_line_end(s).is_prefix_of(s),
        without_line_end(s).len() > 0 ==> without_line_end(s).last() != '\r' && without_line_end(
            s,
        ).last() != '\n',
        forall|i: int|
            without_line_end(s).len() <= i < s.len() ==> #[trigger] s[i] == '\r' || s[i] == '\n',
    decreases s.len(),
{
    if s.len() > 0 && (s.last() == '\r' || s.last() == '\n') {
        a_line_loses_its_end_only(s.drop_last());
        let left = without_line_end(s);
        assert forall|i: int| left.len() <= i < s.len() implies #[trigger] s[i] == '\r' || s[i]
            == '\n' by {
            if i < s.len() - 1 {
                assert(s.drop_last()[i] == s[i]);
            }
        }
    }
}

/// What is left of a text without the white space at its ends is the text between two
/// places: all before and behind is white space, and what stands at the edges is not.
pub proof fn trimming_takes_white_space_only(s: Seq<char>) -> (ends: (int, int))
    ensures
        0 <= ends.0 <= ends.1 <= s.len(),
        trimmed(s) == s.subrange(ends.0, ends.1),
        forall|i: int| 0 <= i < ends.0 ==> is_white_space(#[trigger] s[i]),
        forall|i: int| ends.1 <= i < s.len() ==> is_white_space(#[trigger] s[i]),
        ends.0 < ends.1 ==> !is_white_space(s[ends.0]) && !is_white_space(s[ends.1 - 1]),
{
    let from = lemma_trim_start_at(s);
    let rest = s.skip(from);
    let to = lemma_trim_end_at(rest);
    assert forall|i: int| from + to <= i < s.len() implies is_white_space(#[trigger] s[i]) by {
        assert(rest[i - from] == s[i]);
    }
    assert(rest.take(to) =~= s.subrange(from, from + to));
    (from, from + to)
}

/// Where the text begins once the white space at its start is gone.
proof fn lemma_trim_start_at(s: Seq<char>) -> (n: int)
    ensures
        0 <= n <= s.len(),
        trim_start(s) == s.skip(n),
        forall|i: int| 0 <= i < n ==> is_white_space(#[trigger] s[i]),
        n < s.len() ==> !is_white_space(s[n]),
    decreases s.len(),
{
    if s.len() > 0 && is_white_space(s[0]) {
        let n = lemma_trim_start_at(s.drop_first());
        assert forall|i: int| 0 <= i < n + 1 implies is_white_space(#[trigger] s[i]) by {
            if i > 0 {
                assert(s.drop_first()[i - 1] == s[i]);
            }
        }
        n + 1
    } else {
        0
    }
}

/// Where the text ends once the white space at its end is gone.
proof fn lemma_trim_end_at(s: Seq<char>) -> (n: int)
    ensures
        0 <= n <= s.len(),
        trim_end(s) == s.take(n),
        forall|i: int| n <= i < s.len() ==> is_white_space(#[trigger] s[i]),
        n > 0 ==> !is_white_space(s[n - 1]),
    decreases s.len(),
{
    if s.len() > 0 && is_white_space(s.last()) {
        let n = lemma_trim_end_at(s.drop_last());
        assert forall|i: int| n <= i < s.len() implies is_white_space(#[trigger] s[i]) by {
            if i < s.len() - 1 {
                assert(s.drop_last()[i] == s[i]);
            }
        }
        n
    } else {
        s.len() as int
    }
}

/// What is left of a text without the slashes at its start is all behind them.
pub proof fn leading_slashes_go(s: Seq<char>) -> (n: int)
    ensures
        0 <= n <= s.len(),
        without_leading_slashes(s) == s.skip(n),
        forall|i: int| 0 <= i < n ==> #[trigger] s[i] == '/',
        n < s.len() ==> s[n] != '/',
    decreases s.len(),
{
    if s.len() > 0 && s[0] == '/' {
        let n = leading_slashes_go(s.drop_first());
        assert forall|i: int| 0 <= i < n + 1 implies #[trigger] s[i] == '/' by {
            if i > 0 {
                assert(s.drop_first()[i - 1] == s[i]);
            }
        }
        n + 1
    } else {
        0
    }
}

/// White space is what Unicode calls so: the characters with these numbers.
pub proof fn these_characters_are_white_space(c: char)
    ensures
        is_white_space(c) <==> {
            let n = c as u32;
            9 <= n <= 13 || n == 32 || n == 133 || n == 160 || n == 5_760 || 8_192 <= n <= 8_202
                || n == 8_232 || n == 8_233 || n == 8_239 || n == 8_287 || n == 12_288
        },
{
}

} // verus!
