use vstd::prelude::*;
use vstd::string::*;
use vstd::utf8::encode_utf8;

verus! {

/// The byte between the parts of a path.
pub const SLASH: u8 = 47;

/// The byte that begins an extension.
pub const DOT: u8 = 46;

/// A part of a path.
pub enum Component {
    /// The root directory, at the start of an absolute path.
    Root,
    /// A `.` at the start of a relative path.
    Here,
    /// A name; `..` is one too.
    Name(Seq<u8>),
}

/// The index of the first slash at or behind `from`, or the length of the path.
pub open spec fn next_slash(path: Seq<u8>, from: int) -> int
    decreases path.len() - from,
{
    if from >= path.len() {
        path.len() as int
    } else if path[from] == SLASH {
        from
    } else {
        next_slash(path, from + 1)
    }
}

/// Whether what stands between two slashes is a name: empty parts and `.` are not.
pub open spec fn is_name(part: Seq<u8>) -> bool {
    part.len() > 0 && part != seq![DOT]
}

/// The names that the path holds from the byte `from` on.
pub open spec fn names_from(path: Seq<u8>, from: int) -> Seq<Seq<u8>>
    decreases path.len() + 1 - from,
    when 0 <= from
    via names_from_ends
{
    if from >= path.len() {
        Seq::empty()
    } else {
        let end = next_slash(path, from);
        let part = path.subrange(from, end);
        if is_name(part) {
            seq![part] + names_from(path, end + 1)
        } else {
            names_from(path, end + 1)
        }
    }
}

#[via_fn]
proof fn names_from_ends(path: Seq<u8>, from: int) {
    if from < path.len() {
        lemma_next_slash(path, from);
    }
}

/// A part ends at the first slash behind its start.
proof fn lemma_next_slash(path: Seq<u8>, from: int)
    requires
        0 <= from <= path.len(),
    ensures
        from <= next_slash(path, from) <= path.len(),
        forall|i: int| from <= i < next_slash(path, from) ==> #[trigger] path[i] != SLASH,
        next_slash(path, from) < path.len() ==> path[next_slash(path, from)] == SLASH,
    decreases path.len() - from,
{
    if from < path.len() && path[from] != SLASH {
        lemma_next_slash(path, from + 1);
    }
}

/// The names in a path, from the first to the last.
pub open spec fn names(path: Seq<u8>) -> Seq<Seq<u8>> {
    names_from(path, 0)
}

/// Whether the path begins at the root directory.
pub open spec fn is_absolute(path: Seq<u8>) -> bool {
    path.len() > 0 && path[0] == SLASH
}

/// Whether the path begins with the part `.`.
pub open spec fn begins_here(path: Seq<u8>) -> bool {
    path.len() > 0 && path.subrange(0, next_slash(path, 0)) == seq![DOT]
}

/// The part in front of the names, if there is one.
pub open spec fn lead(path: Seq<u8>) -> Seq<Component> {
    if is_absolute(path) {
        seq![Component::Root]
    } else if begins_here(path) {
        seq![Component::Here]
    } else {
        Seq::empty()
    }
}

/// The parts of a path.
pub open spec fn components(path: Seq<u8>) -> Seq<Component> {
    lead(path) + names(path).map_values(|name: Seq<u8>| Component::Name(name))
}

/// Whether `path` is `base` or lies below it: the parts of `base` are the first parts
/// of `path`.
pub open spec fn is_within(path: Seq<u8>, base: Seq<u8>) -> bool {
    components(base).is_prefix_of(components(path))
}

/// The end of the part that begins at `from`.
fn part_end(path: &[u8], from: usize) -> (end: usize)
    requires
        from <= path@.len(),
    ensures
        end == next_slash(path@, from as int),
        from <= end <= path@.len(),
{
    let mut end: usize = from;
    while end < path.len() && path[end] != SLASH
        invariant
            from <= end <= path@.len(),
            next_slash(path@, from as int) == next_slash(path@, end as int),
        decreases path@.len() - end,
    {
        end = end + 1;
    }
    end
}

/// A copy of the bytes from `from` up to, and without, `to`.
fn copy_range(bytes: &[u8], from: usize, to: usize) -> (r: Vec<u8>)
    requires
        from <= to <= bytes@.len(),
    ensures
        r@ == bytes@.subrange(from as int, to as int),
{
    let mut r: Vec<u8> = Vec::new();
    let mut at: usize = from;
    while at < to
        invariant
            from <= at <= to <= bytes@.len(),
            r@ == bytes@.subrange(from as int, at as int),
        decreases to - at,
    {
        r.push(bytes[at]);
        at = at + 1;
    }
    r
}

/// The values of a list of names.
pub open spec fn name_views(list: Seq<Vec<u8>>) -> Seq<Seq<u8>> {
    list.map_values(|name: Vec<u8>| name@)
}

/// Computes `names`.
pub fn names_of(path: &[u8]) -> (list: Vec<Vec<u8>>)
    ensures
        name_views(list@) == names(path@),
{
    let mut list: Vec<Vec<u8>> = Vec::new();
    let mut from: usize = 0;
    while from < path.len()
        invariant
            names(path@) == name_views(list@) + names_from(path@, from as int),
        decreases path@.len() + 1 - from,
    {
        let end: usize = part_end(path, from);
        let ghost part = path@.subrange(from as int, end as int);
        if end > from && !(end - from == 1 && path[from] == DOT) {
            assert(is_name(part)) by {
                let dot = seq![DOT];
                assert(dot.len() == 1 && dot[0] == DOT);
                assert(part.len() == end - from && part[0] == path@[from as int]);
            }
            list.push(copy_range(path, from, end));
        } else {
            assert(!is_name(part)) by {
                if end > from {
                    assert(part =~= seq![DOT]);
                }
            }
        }
        if end == path.len() {
            assert(names_from(path@, end + 1) =~= Seq::<Seq<u8>>::empty());
            return list;
        }
        from = end + 1;
    }
    list
}

/// Whether two names are the same.
fn same_bytes(a: &[u8], b: &[u8]) -> (same: bool)
    ensures
        same == (a@ == b@),
{
    if a.len() != b.len() {
        return false;
    }
    let mut at: usize = 0;
    while at < a.len()
        invariant
            at <= a@.len() == b@.len(),
            forall|i: int| 0 <= i < at ==> a@[i] == b@[i],
        decreases a@.len() - at,
    {
        if a[at] != b[at] {
            return false;
        }
        at = at + 1;
    }
    assert(a@ =~= b@);
    true
}

/// How a path begins.
#[derive(PartialEq, Eq, Structural, Clone, Copy)]
enum Beginning {
    AtRoot,
    AtDot,
    AtName,
}

/// What stands in front of the names of a path.
fn beginning(path: &[u8]) -> (r: Beginning)
    ensures
        lead(path@) == (match r {
            Beginning::AtRoot => seq![Component::Root],
            Beginning::AtDot => seq![Component::Here],
            Beginning::AtName => Seq::<Component>::empty(),
        }),
{
    if path.len() == 0 {
        return Beginning::AtName;
    }
    if path[0] == SLASH {
        return Beginning::AtRoot;
    }
    let end: usize = part_end(path, 0);
    let ghost part = path@.subrange(0, end as int);
    if end == 1 && path[0] == DOT {
        assert(part =~= seq![DOT]);
        Beginning::AtDot
    } else {
        assert(part != seq![DOT]) by {
            if part == seq![DOT] {
                assert(part.len() == 1 && part[0] == path@[0]);
            }
        }
        Beginning::AtName
    }
}

/// Whether the list `shorter` is how the list `longer` begins.
fn names_begin(longer: &Vec<Vec<u8>>, shorter: &Vec<Vec<u8>>) -> (r: bool)
    ensures
        r == name_views(shorter@).is_prefix_of(name_views(longer@)),
{
    if shorter.len() > longer.len() {
        return false;
    }
    let mut at: usize = 0;
    while at < shorter.len()
        invariant
            at <= shorter@.len() <= longer@.len(),
            forall|i: int| 0 <= i < at ==> #[trigger] shorter@[i]@ == longer@[i]@,
        decreases shorter@.len() - at,
    {
        if !same_bytes(shorter[at].as_slice(), longer[at].as_slice()) {
            proof {
                let whole = name_views(longer@).subrange(0, shorter@.len() as int);
                assert(name_views(shorter@)[at as int] != whole[at as int]);
            }
            return false;
        }
        at = at + 1;
    }
    true
}

/// Two lists of names, the second how the first begins, stay so behind equal leads,
/// and only then.
proof fn lemma_is_within(path: Seq<u8>, base: Seq<u8>)
    ensures
        lead(base).len() == 0 && names(base).len() == 0 ==> is_within(path, base),
        !(lead(base).len() == 0 && names(base).len() == 0) && lead(base) != lead(path)
            ==> !is_within(path, base),
        lead(base) == lead(path) ==> is_within(path, base) == names(base).is_prefix_of(
            names(path),
        ),
{
    let whole = components(path);
    let start = components(base);
    if lead(base) != lead(path) {
        if names(base).len() > 0 && lead(base).len() == 0 {
            assert(start[0] is Name);
        }
    } else {
        let k = lead(base).len() as int;
        let n = names(base).len() as int;
        if names(base).is_prefix_of(names(path)) {
            assert forall|i: int| 0 <= i < start.len() implies start[i] == whole.subrange(
                0,
                start.len() as int,
            )[i] by {
                if i >= k {
                    assert(names(base)[i - k] == names(path)[i - k]);
                }
            }
        }
        if start.is_prefix_of(whole) {
            assert forall|i: int| 0 <= i < n implies names(base)[i] == names(path).subrange(
                0,
                n,
            )[i] by {
                assert(start[i + k] == Component::Name(names(base)[i]));
            }
        }
    }
}

/// Computes `is_within`.
pub fn path_is_within(path: &[u8], base: &[u8]) -> (r: bool)
    ensures
        r == is_within(path@, base@),
{
    let base_begins = beginning(base);
    let path_begins = beginning(path);
    let base_names = names_of(base);
    let path_names = names_of(path);
    proof {
        lemma_is_within(path@, base@);
        assert(seq![Component::Root][0] != seq![Component::Here][0]);
    }
    if base_begins == Beginning::AtName && base_names.len() == 0 {
        true
    } else if base_begins != path_begins {
        false
    } else {
        names_begin(&path_names, &base_names)
    }
}

/// A path that is not absolute, appended to a directory.
pub open spec fn joined(base: Seq<u8>, relative: Seq<u8>) -> Seq<u8> {
    if base.len() > 0 && base.last() != SLASH {
        base.push(SLASH) + relative
    } else {
        base + relative
    }
}

/// Computes `joined`.
pub fn join(base: &[u8], relative: &[u8]) -> (r: Vec<u8>)
    ensures
        r@ == joined(base@, relative@),
{
    let mut r: Vec<u8> = copy_range(base, 0, base.len());
    if base.len() > 0 && base[base.len() - 1] != SLASH {
        r.push(SLASH);
    }
    let ghost front = r@;
    let mut at: usize = 0;
    while at < relative.len()
        invariant
            at <= relative@.len(),
            r@ == front + relative@.take(at as int),
        decreases relative@.len() - at,
    {
        r.push(relative[at]);
        at = at + 1;
    }
    r
}

/// The last name in the path, unless the path ends in `..` or holds no name.
pub open spec fn file_name(path: Seq<u8>) -> Option<Seq<u8>> {
    if names(path).len() > 0 && names(path).last() != seq![DOT, DOT] {
        Some(names(path).last())
    } else {
        None
    }
}

/// The index of the last dot in a name, or -1.
pub open spec fn last_dot(name: Seq<u8>) -> int
    decreases name.len(),
{
    if name.len() == 0 {
        -1
    } else if name.last() == DOT {
        name.len() - 1
    } else {
        last_dot(name.drop_last())
    }
}

/// What follows the last dot of the file name, unless that dot begins the name.
pub open spec fn extension(path: Seq<u8>) -> Option<Seq<u8>> {
    match file_name(path) {
        Some(name) => if last_dot(name) > 0 {
            Some(name.skip(last_dot(name) + 1))
        } else {
            None
        },
        None => None,
    }
}

/// The lower case of an ASCII letter; any other byte as it is.
pub open spec fn lower(b: u8) -> u8 {
    if 65 <= b <= 90 {
        (b + 32) as u8
    } else {
        b
    }
}

/// Bytes with the ASCII letters in lower case.
pub open spec fn lowered(bytes: Seq<u8>) -> Seq<u8> {
    bytes.map_values(|b: u8| lower(b))
}

/// The bytes of a text of ASCII characters.
pub open spec fn ascii(text: Seq<char>) -> Seq<u8> {
    text.map_values(|c: char| c as u8)
}

/// The index of the last dot in a name, plus one; 0 if there is none.
fn behind_last_dot(name: &Vec<u8>) -> (r: usize)
    ensures
        r == last_dot(name@) + 1,
        r <= name@.len(),
{
    let mut end: usize = name.len();
    assert(name@.take(end as int) =~= name@);
    while end > 0 && name[end - 1] != DOT
        invariant
            end <= name@.len(),
            last_dot(name@) == last_dot(name@.take(end as int)),
        decreases end,
    {
        assert(name@.take(end as int).drop_last() =~= name@.take(end - 1));
        end = end - 1;
    }
    end
}

/// The extension of a path in lower case.
fn lower_extension(path: &[u8]) -> (r: Option<Vec<u8>>)
    ensures
        match r {
            Some(found) => extension(path@) is Some && found@ == lowered(extension(path@)->0),
            None => extension(path@) is None,
        },
{
    let list = names_of(path);
    if list.len() == 0 {
        return None;
    }
    let name = &list[list.len() - 1];
    if name.len() == 2 && name[0] == DOT && name[1] == DOT {
        assert(name@ =~= seq![DOT, DOT]);
        return None;
    }
    assert(name@ != seq![DOT, DOT]);
    let from: usize = behind_last_dot(name);
    if from <= 1 {
        return None;
    }
    let mut found: Vec<u8> = Vec::new();
    let mut at: usize = from;
    while at < name.len()
        invariant
            from <= at <= name@.len(),
            found@ == lowered(name@.subrange(from as int, at as int)),
        decreases name@.len() - at,
    {
        let b: u8 = name[at];
        found.push(
            if 65 <= b && b <= 90 {
                b + 32
            } else {
                b
            },
        );
        at = at + 1;
    }
    Some(found)
}

/// How a file is compressed.
#[derive(Debug, PartialEq, Eq, Structural, Clone, Copy)]
pub enum Compression {
    Zip,
    Gzip,
    Bzip2,
    Xz,
    Lzma,
    Zstd,
}

/// What an extension in lower case says of how a file is compressed.
pub open spec fn compression_named(name: Seq<u8>) -> Option<Compression> {
    if name == ascii("zip"@) {
        Some(Compression::Zip)
    } else if name == ascii("gz"@) {
        Some(Compression::Gzip)
    } else if name == ascii("bz2"@) {
        Some(Compression::Bzip2)
    } else if name == ascii("xz"@) {
        Some(Compression::Xz)
    } else if name == ascii("lzma"@) {
        Some(Compression::Lzma)
    } else if name == ascii("zst"@) || name == ascii("zstd"@) {
        Some(Compression::Zstd)
    } else {
        None
    }
}

/// How the file with this path is compressed, by its extension; `None` for a plain
/// file.
pub open spec fn compression_of(path: Seq<u8>) -> Option<Compression> {
    match extension(path) {
        Some(found) => compression_named(lowered(found)),
        None => None,
    }
}

/// Whether the bytes are those of a text of ASCII characters.
fn is_text(bytes: &Vec<u8>, text: &str) -> (r: bool)
    requires
        text.is_ascii(),
    ensures
        r == (bytes@ == ascii(text@)),
{
    assert(text.spec_bytes() =~= ascii(text@));
    same_bytes(bytes.as_slice(), text.as_bytes())
}

/// Computes `compression_of` for the bytes of a path.
pub fn compression(path: &str) -> (r: Option<Compression>)
    ensures
        r == compression_of(encode_utf8(path@)),
{
    proof {
        reveal_strlit("zip");
        reveal_strlit("gz");
        reveal_strlit("bz2");
        reveal_strlit("xz");
        reveal_strlit("lzma");
        reveal_strlit("zst");
        reveal_strlit("zstd");
    }
    match lower_extension(path.as_bytes()) {
        None => None,
        Some(found) => {
            if is_text(&found, "zip") {
                Some(Compression::Zip)
            } else if is_text(&found, "gz") {
                Some(Compression::Gzip)
            } else if is_text(&found, "bz2") {
                Some(Compression::Bzip2)
            } else if is_text(&found, "xz") {
                Some(Compression::Xz)
            } else if is_text(&found, "lzma") {
                Some(Compression::Lzma)
            } else if is_text(&found, "zst") || is_text(&found, "zstd") {
                Some(Compression::Zstd)
            } else {
                None
            }
        },
    }
}

/// Whether the file with this path is compressed, by its extension.
pub fn is_compressed_path(path: &str) -> (r: bool)
    ensures
        r == (compression_of(encode_utf8(path@)) is Some),
{
    compression(path).is_some()
}

/// Parts in front of a text move the next slash.
proof fn lemma_next_slash_behind(front: Seq<u8>, rest: Seq<u8>, from: int)
    requires
        0 <= from,
    ensures
        next_slash(front + rest, front.len() + from) == front.len() + next_slash(rest, from),
    decreases rest.len() - from,
{
    if from < rest.len() {
        if rest[from] != SLASH {
            lemma_next_slash_behind(front, rest, from + 1);
        }
    }
}

/// Two paths that agree up to the first slash, or to the end of the shorter one where the
/// longer one has a slash, have that slash at the same place.
proof fn lemma_next_slash_of_front(front: Seq<u8>, rest: Seq<u8>, from: int)
    requires
        0 <= from <= front.len(),
        from == front.len() ==> rest.len() > 0,
        rest.len() > 0 && rest[0] == SLASH || front.len() > 0 && front.last() == SLASH && from
            < front.len(),
    ensures
        next_slash(front + rest, from) == next_slash(front, from),
    decreases front.len() - from,
{
    if from < front.len() {
        if front[from] != SLASH {
            lemma_next_slash_of_front(front, rest, from + 1);
        }
    }
}

/// The names in the rear part of a path do not depend on what stands in front.
proof fn lemma_names_behind(front: Seq<u8>, rest: Seq<u8>, from: int)
    requires
        0 <= from,
    ensures
        names_from(front + rest, front.len() + from) == names_from(rest, from),
    decreases rest.len() + 1 - from,
{
    let path = front + rest;
    if from < rest.len() {
        let end = next_slash(rest, from);
        lemma_next_slash(rest, from);
        lemma_next_slash_behind(front, rest, from);
        assert(path.subrange(front.len() + from, front.len() + end) =~= rest.subrange(from, end));
        lemma_names_behind(front, rest, end + 1);
    }
}

/// The names of a path whose front ends in a slash are those of the front and then those
/// of the rest.
proof fn lemma_names_of_sum(front: Seq<u8>, rest: Seq<u8>, from: int)
    requires
        0 <= from <= front.len(),
        front.len() > 0 ==> front.last() == SLASH,
    ensures
        names_from(front + rest, from) == names_from(front, from) + names(rest),
    decreases front.len() + 1 - from,
{
    let path = front + rest;
    if from == front.len() {
        lemma_names_behind(front, rest, 0);
    } else {
        let end = next_slash(front, from);
        lemma_next_slash(front, from);
        lemma_next_slash_of_front(front, rest, from);
        assert(path.subrange(from, end) =~= front.subrange(from, end));
        lemma_names_of_sum(front, rest, end + 1);
    }
}

/// A slash at its end gives a path no further names.
proof fn lemma_names_with_slash(path: Seq<u8>, from: int)
    requires
        0 <= from,
    ensures
        names_from(path.push(SLASH), from) == names_from(path, from),
    decreases path.len() + 1 - from,
{
    let longer = path.push(SLASH);
    assert(longer =~= path + seq![SLASH]);
    if from <= path.len() {
        lemma_next_slash_of_front(path, seq![SLASH], from);
        let end = next_slash(path, from);
        lemma_next_slash(path, from);
        assert(longer.subrange(from, end) =~= path.subrange(from, end));
        lemma_names_with_slash(path, end + 1);
    }
}

/// The names of a path below a directory are those of the directory and then those of
/// the path.
pub proof fn names_of_a_joined_path(base: Seq<u8>, relative: Seq<u8>)
    ensures
        names(joined(base, relative)) == names(base) + names(relative),
{
    if base.len() > 0 && base.last() != SLASH {
        lemma_names_of_sum(base.push(SLASH), relative, 0);
        lemma_names_with_slash(base, 0);
    } else {
        lemma_names_of_sum(base, relative, 0);
    }
}

/// A path that is appended to a directory lies within it, before links and `..` are
/// followed.
pub proof fn a_joined_path_is_within(base: Seq<u8>, relative: Seq<u8>)
    ensures
        is_within(joined(base, relative), base),
{
    let path = joined(base, relative);
    names_of_a_joined_path(base, relative);
    lemma_is_within(path, base);
    if base.len() > 0 {
        let rest = if base.last() != SLASH {
            seq![SLASH] + relative
        } else {
            relative
        };
        assert(path =~= base + rest);
        lemma_next_slash_of_front(base, rest, 0);
        lemma_next_slash(base, 0);
        assert(path.subrange(0, next_slash(path, 0)) =~= base.subrange(0, next_slash(base, 0)));
    }
}

/// A directory lies within itself, and what lies within something that lies within it
/// lies within it too.
pub proof fn within_is_an_order(path: Seq<u8>, middle: Seq<u8>, base: Seq<u8>)
    ensures
        is_within(base, base),
        is_within(path, middle) && is_within(middle, base) ==> is_within(path, base),
{
    if is_within(path, middle) && is_within(middle, base) {
        let n = components(base).len() as int;
        assert(components(path).subrange(0, n) =~= components(middle).subrange(0, n));
    }
}

/// Upper and lower case leave the next slash where it is.
proof fn lemma_lowered_slash(path: Seq<u8>, from: int)
    requires
        0 <= from,
    ensures
        next_slash(lowered(path), from) == next_slash(path, from),
    decreases path.len() - from,
{
    if from < path.len() {
        if path[from] != SLASH {
            lemma_lowered_slash(path, from + 1);
        }
    }
}

/// The names of a path in lower case are the names in lower case.
proof fn lemma_lowered_names(path: Seq<u8>, from: int)
    requires
        0 <= from,
    ensures
        names_from(lowered(path), from) == names_from(path, from).map_values(
            |name: Seq<u8>| lowered(name),
        ),
    decreases path.len() + 1 - from,
{
    if from < path.len() {
        let end = next_slash(path, from);
        let part = path.subrange(from, end);
        lemma_next_slash(path, from);
        lemma_lowered_slash(path, from);
        assert(lowered(path).subrange(from, end) =~= lowered(part));
        lemma_lowered_dots(part);
        lemma_lowered_names(path, end + 1);
    }
}

/// Upper and lower case leave dots where they are.
proof fn lemma_lowered_dots(name: Seq<u8>)
    ensures
        is_name(lowered(name)) == is_name(name),
        (lowered(name) == seq![DOT, DOT]) == (name == seq![DOT, DOT]),
        last_dot(lowered(name)) == last_dot(name),
    decreases name.len(),
{
    assert forall|i: int| 0 <= i < name.len() implies (lowered(name)[i] == DOT) == (name[i]
        == DOT) by {}
    let one = seq![DOT];
    let two = seq![DOT, DOT];
    assert(lowered(name).len() == name.len() && one.len() == 1 && two.len() == 2);
    if name.len() == 1 && name[0] == DOT {
        assert(name =~= one && lowered(name) =~= one);
    }
    if name.len() == 2 && name[0] == DOT && name[1] == DOT {
        assert(name =~= two && lowered(name) =~= two);
    }
    if name.len() > 0 {
        assert(lowered(name).drop_last() =~= lowered(name.drop_last()));
        lemma_lowered_dots(name.drop_last());
    }
}

/// How a file is compressed does not depend on upper and lower case in its path.
pub proof fn compression_ignores_case(path: Seq<u8>)
    ensures
        compression_of(lowered(path)) == compression_of(path),
{
    lemma_lowered_names(path, 0);
    if names(path).len() > 0 {
        let name = names(path).last();
        lemma_lowered_dots(name);
        let found = name.skip(last_dot(name) + 1);
        assert(last_dot(name) < name.len()) by {
            lemma_last_dot(name);
        }
        if last_dot(name) > 0 {
            assert(lowered(name).skip(last_dot(name) + 1) =~= lowered(found));
            assert(lowered(lowered(found)) =~= lowered(found));
        }
    }
}

/// The last dot is one of the bytes.
proof fn lemma_last_dot(name: Seq<u8>)
    ensures
        -1 <= last_dot(name) < name.len(),
    decreases name.len(),
{
    if name.len() > 0 && name.last() != DOT {
        lemma_last_dot(name.drop_last());
    }
}

/// A path without a slash is one name, unless it is empty or `.`.
pub proof fn a_path_without_a_slash_is_one_name(part: Seq<u8>)
    requires
        forall|i: int| 0 <= i < part.len() ==> #[trigger] part[i] != 47,
    ensures
        names(part) == if part.len() == 0 || part == seq![46u8] {
            Seq::empty()
        } else {
            seq![part]
        },
{
    lemma_next_slash(part, 0);
    assert(next_slash(part, 0) == part.len());
    assert(part.subrange(0, part.len() as int) =~= part);
    assert(names_from(part, part.len() as int + 1) =~= Seq::empty());
    if is_name(part) {
        assert(seq![part] + names_from(part, part.len() as int + 1) =~= seq![part]);
    }
}

/// A slash parts the names in front of it from those behind it.
pub proof fn a_slash_parts_names(front: Seq<u8>, rest: Seq<u8>)
    ensures
        names(front + seq![47u8] + rest) == names(front) + names(rest),
{
    assert(front + seq![47u8] + rest =~= front.push(SLASH) + rest);
    lemma_names_of_sum(front.push(SLASH), rest, 0);
    lemma_names_with_slash(front, 0);
}

/// A path is appended to a directory behind one slash.
pub proof fn joining_puts_a_slash_between(base: Seq<u8>, relative: Seq<u8>)
    ensures
        joined(base, relative) == if base.len() == 0 || base.last() == 47 {
            base + relative
        } else {
            base + seq![47u8] + relative
        },
{
}

/// An absolute path lies within an absolute directory exactly if the directory's names are
/// the first names of the path; no relative path lies within one.
pub proof fn within_goes_by_whole_names(path: Seq<u8>, base: Seq<u8>)
    requires
        base.len() > 0,
        base[0] == 47,
    ensures
        is_within(path, base) <==> path.len() > 0 && path[0] == 47 && names(base).len()
            <= names(path).len() && names(path).take(names(base).len() as int) == names(base),
{
    lemma_is_within(path, base);
    assert(seq![Component::Root].len() == 1 && seq![Component::Here].len() == 1);
    assert(seq![Component::Root][0] != seq![Component::Here][0]);
    assert(lead(base) == seq![Component::Root]);
    assert((lead(path) == lead(base)) == (path.len() > 0 && path[0] == 47)) by {
        if lead(path) == lead(base) {
            assert(lead(path)[0] == Component::Root);
        }
    }
    if names(base).is_prefix_of(names(path)) {
        assert(names(path).take(names(base).len() as int) =~= names(base));
    }
    if names(base).len() <= names(path).len() && names(path).take(names(base).len() as int)
        == names(base) {
        assert(names(path).subrange(0, names(base).len() as int) =~= names(base));
    }
}

/// Only the names of a path tell how the file is compressed.
pub proof fn compression_goes_by_names(one: Seq<u8>, other: Seq<u8>)
    requires
        names(one) == names(other),
    ensures
        compression_of(one) == compression_of(other),
{
}

/// What follows the last dot of a file's name, in any case, tells how it is compressed: `zip`,
/// `gz`, `bz2`, `xz`, `lzma`, `zst` and `zstd` each stand for a format, and nothing else does.
pub proof fn the_extension_tells_the_format(dir: Seq<u8>, stem: Seq<u8>, ending: Seq<u8>)
    requires
        stem.len() > 0,
        forall|i: int| 0 <= i < stem.len() ==> #[trigger] stem[i] != 47,
        forall|i: int| 0 <= i < ending.len() ==> #[trigger] ending[i] != 47 && ending[i] != 46,
    ensures
        ({
            let small = Seq::new(
                ending.len(),
                |i: int|
                    if 65 <= ending[i] <= 90 {
                        (ending[i] + 32) as u8
                    } else {
                        ending[i]
                    },
            );
            compression_of(dir + seq![47u8] + (stem + seq![46u8] + ending)) == if small == seq![
                122u8,
                105u8,
                112u8,
            ] {
                Some(Compression::Zip)
            } else if small == seq![103u8, 122u8] {
                Some(Compression::Gzip)
            } else if small == seq![98u8, 122u8, 50u8] {
                Some(Compression::Bzip2)
            } else if small == seq![120u8, 122u8] {
                Some(Compression::Xz)
            } else if small == seq![108u8, 122u8, 109u8, 97u8] {
                Some(Compression::Lzma)
            } else if small == seq![122u8, 115u8, 116u8] || small == seq![
                122u8,
                115u8,
                116u8,
                100u8,
            ] {
                Some(Compression::Zstd)
            } else {
                None
            }
        }),
{
    let name = stem + seq![46u8] + ending;
    let path = dir + seq![47u8] + name;
    let small = Seq::new(
        ending.len(),
        |i: int|
            if 65 <= ending[i] <= 90 {
                (ending[i] + 32) as u8
            } else {
                ending[i]
            },
    );
    lemma_ending_bytes();
    assert(small =~= lowered(ending));
    lemma_name_of_path(dir, name);
    assert(name.len() >= 2);
    lemma_last_dot_at(name, stem.len() as int);
    assert(name.skip(stem.len() as int + 1) =~= ending);
    if name == seq![DOT, DOT] {
        assert(ending.len() == 0);
        assert(small.len() == 0);
    }
}

/// A file's name without a dot behind its first byte tells of no compression.
pub proof fn a_name_without_extension_is_plain(dir: Seq<u8>, name: Seq<u8>)
    requires
        name.len() > 0,
        name != seq![46u8],
        forall|i: int| 0 <= i < name.len() ==> #[trigger] name[i] != 47,
        forall|i: int| 0 < i < name.len() ==> #[trigger] name[i] != 46,
    ensures
        compression_of(dir + seq![47u8] + name) is None,
{
    lemma_name_of_path(dir, name);
    if name[0] == DOT {
        lemma_last_dot_at(name, 0);
    } else {
        lemma_no_dot(name);
    }
}

/// The name behind the last slash is the last name.
proof fn lemma_name_of_path(dir: Seq<u8>, name: Seq<u8>)
    requires
        name.len() > 0,
        name != seq![46u8],
        forall|i: int| 0 <= i < name.len() ==> #[trigger] name[i] != 47,
    ensures
        names(dir + seq![47u8] + name).len() > 0,
        names(dir + seq![47u8] + name).last() == name,
{
    a_slash_parts_names(dir, name);
    a_path_without_a_slash_is_one_name(name);
}

/// A dot behind which there is none is the last.
proof fn lemma_last_dot_at(name: Seq<u8>, k: int)
    requires
        0 <= k < name.len(),
        name[k] == DOT,
        forall|i: int| k < i < name.len() ==> #[trigger] name[i] != DOT,
    ensures
        last_dot(name) == k,
    decreases name.len(),
{
    if k < name.len() - 1 {
        lemma_last_dot_at(name.drop_last(), k);
    }
}

/// A name without a dot has no last one.
proof fn lemma_no_dot(name: Seq<u8>)
    requires
        forall|i: int| 0 <= i < name.len() ==> #[trigger] name[i] != DOT,
    ensures
        last_dot(name) == -1,
    decreases name.len(),
{
    if name.len() > 0 {
        lemma_no_dot(name.drop_last());
    }
}

/// The bytes of the extensions.
proof fn lemma_ending_bytes()
    ensures
        ascii("zip"@) == seq![122u8, 105u8, 112u8],
        ascii("gz"@) == seq![103u8, 122u8],
        ascii("bz2"@) == seq![98u8, 122u8, 50u8],
        ascii("xz"@) == seq![120u8, 122u8],
        ascii("lzma"@) == seq![108u8, 122u8, 109u8, 97u8],
        ascii("zst"@) == seq![122u8, 115u8, 116u8],
        ascii("zstd"@) == seq![122u8, 115u8, 116u8, 100u8],
{
    reveal_strlit("zip");
    reveal_strlit("gz");
    reveal_strlit("bz2");
    reveal_strlit("xz");
    reveal_strlit("lzma");
    reveal_strlit("zst");
    reveal_strlit("zstd");
}

/// A path lies within a relative directory exactly if both begin in the same way, with the
/// part `.` or with a name, and the directory's names are the first names of the path. Every
/// path lies within the empty one.
pub proof fn within_a_relative_directory(path: Seq<u8>, base: Seq<u8>)
    requires
        base.len() > 0 ==> base[0] != 47,
    ensures
        is_within(path, base) <==> base.len() == 0 || {
            &&& path.len() > 0 ==> path[0] != 47
            &&& begins_with_dot(path) == begins_with_dot(base)
            &&& names(base).len() <= names(path).len()
            &&& names(path).take(names(base).len() as int) == names(base)
        },
{
    lemma_is_within(path, base);
    lemma_begins_here(path);
    lemma_begins_here(base);
    let root = seq![Component::Root];
    let here = seq![Component::Here];
    assert(root.len() == 1 && here.len() == 1 && root[0] != here[0]);
    if base.len() > 0 && !begins_with_dot(base) {
        lemma_next_slash(base, 0);
        let part = base.subrange(0, next_slash(base, 0));
        assert(part.len() > 0);
        assert(names(base).len() > 0);
    }
    if names(base).is_prefix_of(names(path)) {
        assert(names(path).take(names(base).len() as int) =~= names(base));
    }
    if names(base).len() <= names(path).len() && names(path).take(names(base).len() as int)
        == names(base) {
        assert(names(path).subrange(0, names(base).len() as int) =~= names(base));
    }
}

/// Whether a path is a dot, or begins with one and a slash behind it.
pub open spec fn begins_with_dot(path: Seq<u8>) -> bool {
    path.len() > 0 && path[0] == 46 && (path.len() > 1 ==> path[1] == 47)
}

/// The first part is `.` where a dot stands alone in front of the first slash.
proof fn lemma_begins_here(path: Seq<u8>)
    ensures
        begins_here(path) == begins_with_dot(path),
{
    if path.len() > 0 {
        lemma_next_slash(path, 0);
        let end = next_slash(path, 0);
        let part = path.subrange(0, end);
        let dot = seq![DOT];
        assert(dot.len() == 1 && dot[0] == DOT);
        assert(part.len() == end);
        if end == 1 {
            assert(part[0] == path[0]);
            if path[0] == DOT {
                assert(part =~= dot);
            }
        }
        if begins_with_dot(path) {
            assert(path[0] != SLASH);
            assert(end >= 1);
            assert(end == 1);
        }
    }
}

/// A path without a name tells of no compression.
pub proof fn a_path_without_names_is_plain(path: Seq<u8>)
    requires
        names(path).len() == 0,
    ensures
        compression_of(path) is None,
{
}

/// The values of a list of names are those of its entries, one for one.
pub proof fn each_name_has_its_value(list: Seq<Vec<u8>>, i: int)
    requires
        0 <= i < list.len(),
    ensures
        name_views(list).len() == list.len(),
        name_views(list)[i] == list[i]@,
{
}

} // verus!
