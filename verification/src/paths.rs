//! File paths as text.
//!
//! A path is a sequence of characters in which `/` separates the
//! components. An empty component, as between two separators or behind a
//! last one, counts for nothing, and neither does a component `.` that is
//! not the first. The functions here take a path apart and put one
//! together; they never touch the file system.

use crate::text::{chars_of, push_range, string_of};
use vstd::prelude::*;

verus! {

/// The character that separates the components of a path.
pub const SEPARATOR: char = '/';

/// The position of the last separator in `path`, or -1 if it holds none.
pub open spec fn last_separator(path: Seq<char>) -> int
    decreases path.len(),
{
    if path.len() == 0 {
        -1
    } else if path.last() == SEPARATOR {
        path.len() - 1
    } else {
        last_separator(path.drop_last())
    }
}

/// Where the part of `path` begins that is never trimmed away: behind a
/// root at its start, or behind a first component `.`.
pub open spec fn floor_of(path: Seq<char>) -> int {
    if path.len() > 0 && (path[0] == SEPARATOR || (path[0] == '.' && (path.len() == 1 || path[1]
        == SEPARATOR))) {
        1
    } else {
        0
    }
}

/// `path` without what counts for nothing at its end: separators, and
/// components `.` that follow a separator. Nothing before `floor` is
/// taken away.
pub open spec fn trimmed(path: Seq<char>, floor: int) -> Seq<char>
    decreases path.len(),
{
    if path.len() == 0 || path.len() <= floor {
        path
    } else if path.last() == SEPARATOR {
        trimmed(path.drop_last(), floor)
    } else if path.last() == '.' && path.len() >= 2 && path[path.len() - 2] == SEPARATOR {
        trimmed(path.drop_last(), floor)
    } else {
        path
    }
}

/// The last component of a path: what follows the last separator of the
/// trimmed path, or the whole trimmed path if it holds none.
pub open spec fn file_name_of(path: Seq<char>) -> Seq<char> {
    trimmed(path, 0).skip(last_separator(trimmed(path, 0)) + 1)
}

/// The directory that holds the last component of a path: what stands
/// before that component, trimmed, but for a root or a first component
/// `.`. The directory of a single component is the empty path; the empty
/// path and the root have none.
pub open spec fn parent_of(path: Seq<char>) -> Option<Seq<char>> {
    let whole = trimmed(path, 0);
    if whole.len() == 0 {
        None
    } else {
        Some(trimmed(whole.take(last_separator(whole) + 1), floor_of(path)))
    }
}

/// Whether `name` can name a directory: it is not empty and is neither `.`
/// nor `..`.
pub open spec fn is_proper_name(name: Seq<char>) -> bool {
    name.len() > 0 && name != seq!['.'] && name != seq!['.', '.']
}

/// The name of the directory at `path`: its last component, if that is a
/// proper name.
pub open spec fn dir_name_of(path: Seq<char>) -> Option<Seq<char>> {
    if is_proper_name(file_name_of(path)) {
        Some(file_name_of(path))
    } else {
        None
    }
}

/// The position of the last `.` in `name`, or -1 if it holds none.
pub open spec fn last_dot(name: Seq<char>) -> int
    decreases name.len(),
{
    if name.len() == 0 {
        -1
    } else if name.last() == '.' {
        name.len() - 1
    } else {
        last_dot(name.drop_last())
    }
}

/// A file name without its extension: what stands before the last `.`,
/// unless the name holds none or only begins with one.
pub open spec fn stem_of(name: Seq<char>) -> Seq<char> {
    if last_dot(name) <= 0 {
        name
    } else {
        name.take(last_dot(name))
    }
}

/// The path of `name` inside the directory `base`.
pub open spec fn joined(base: Seq<char>, name: Seq<char>) -> Seq<char> {
    if base.len() == 0 {
        name
    } else if base.last() == SEPARATOR {
        base + name
    } else {
        base + seq![SEPARATOR] + name
    }
}

/// The path written in one way: its components, without those that count
/// for nothing, with one separator between them.
pub open spec fn normal_form(path: Seq<char>) -> Seq<char>
    decreases path.len(),
    via decreases_in_normal_form
{
    let whole = trimmed(path, 0);
    if whole.len() == 0 {
        if path.len() > 0 {
            seq![SEPARATOR]
        } else {
            Seq::empty()
        }
    } else {
        joined(
            normal_form(whole.take(last_separator(whole) + 1)),
            whole.skip(last_separator(whole) + 1),
        )
    }
}

#[via_fn]
proof fn decreases_in_normal_form(path: Seq<char>) {
    let whole = trimmed(path, 0);
    lemma_trimmed(path, 0);
    lemma_last_separator(whole);
}

/// Whether two paths have the same components, and so name the same file
/// however they are written.
#[verifier::opaque]
pub open spec fn is_same_path(a: Seq<char>, b: Seq<char>) -> bool {
    normal_form(a) == normal_form(b)
}

/// Having the same components is an equivalence: a path is the same as
/// itself, and paths that are the same as a third are the same.
pub proof fn lemma_same_path(a: Seq<char>, b: Seq<char>, c: Seq<char>)
    ensures
        is_same_path(a, a),
        is_same_path(a, b) == is_same_path(b, a),
        is_same_path(a, b) && is_same_path(b, c) ==> is_same_path(a, c),
{
    reveal(is_same_path);
}

proof fn lemma_trimmed(path: Seq<char>, floor: int)
    requires
        floor >= 0,
    ensures
        trimmed(path, floor).len() <= path.len(),
        trimmed(path, floor) == path.take(trimmed(path, floor).len() as int),
        trimmed(path, floor).len() > floor ==> trimmed(path, floor).last() != SEPARATOR,
    decreases path.len(),
{
    if path.len() == 0 || path.len() <= floor {
        assert(path.take(path.len() as int) =~= path);
    } else if path.last() == SEPARATOR || (path.last() == '.' && path.len() >= 2 && path[path.len()
        - 2] == SEPARATOR) {
        lemma_trimmed(path.drop_last(), floor);
        let inner = trimmed(path.drop_last(), floor);
        assert(path.drop_last().take(inner.len() as int) =~= path.take(inner.len() as int));
    } else {
        assert(path.take(path.len() as int) =~= path);
    }
}

proof fn lemma_last_separator(s: Seq<char>)
    ensures
        -1 <= last_separator(s) < s.len(),
        s.len() > 0 && s.last() != SEPARATOR ==> last_separator(s) < s.len() - 1,
    decreases s.len(),
{
    if s.len() > 0 {
        lemma_last_separator(s.drop_last());
    }
}

/// The position of the last occurrence of `c` in `s[..len]`, or -1.
spec fn last_index_of(s: Seq<char>, c: char) -> int
    decreases s.len(),
{
    if s.len() == 0 {
        -1
    } else if s.last() == c {
        s.len() - 1
    } else {
        last_index_of(s.drop_last(), c)
    }
}

proof fn lemma_last_index_of(s: Seq<char>, c: char, at: int)
    requires
        -1 <= at < s.len(),
        at >= 0 ==> s[at] == c,
        forall|j: int| at < j < s.len() ==> s[j] != c,
    ensures
        last_index_of(s, c) == at,
    decreases s.len(),
{
    if s.len() > 0 && s.last() != c {
        lemma_last_index_of(s.drop_last(), c, at);
    }
}

proof fn lemma_last_index_names(s: Seq<char>)
    ensures
        last_separator(s) == last_index_of(s, SEPARATOR),
        last_dot(s) == last_index_of(s, '.'),
    decreases s.len(),
{
    if s.len() > 0 {
        lemma_last_index_names(s.drop_last());
    }
}

/// Finds the last occurrence of `c` in `s[from..to]`; the result is `from`
/// if there is none, and the position after the occurrence otherwise.
fn after_last(s: &Vec<char>, from: usize, to: usize, c: char) -> (r: usize)
    requires
        from <= to <= s.len(),
    ensures
        r == from + last_index_of(s@.subrange(from as int, to as int), c) + 1,
        from <= r <= to,
        r > from ==> s@[r - 1] == c,
{
    let ghost part = s@.subrange(from as int, to as int);
    let mut at: usize = to;
    while at > from && s[at - 1] != c
        invariant
            from <= at <= to <= s.len(),
            forall|j: int| at <= j < to ==> s@[j] != c,
        decreases at,
    {
        at -= 1;
    }
    proof {
        lemma_last_index_of(part, c, at - from - 1);
    }
    at
}

/// The length of the path `chars[..len]` once it is trimmed down to
/// `floor`.
fn trimmed_len(chars: &Vec<char>, len: usize, floor: usize) -> (r: usize)
    requires
        len <= chars.len(),
    ensures
        r <= len,
        chars@.take(r as int) == trimmed(chars@.take(len as int), floor as int),
        r > 0 && r > floor ==> chars@[r - 1] != SEPARATOR,
{
    let mut at: usize = len;
    while at > 0 && at > floor && (chars[at - 1] == SEPARATOR || (chars[at - 1] == '.' && at >= 2
        && chars[at - 2] == SEPARATOR))
        invariant
            at <= len <= chars.len(),
            trimmed(chars@.take(len as int), floor as int) == trimmed(
                chars@.take(at as int),
                floor as int,
            ),
        decreases at,
    {
        assert(chars@.take(at as int).drop_last() =~= chars@.take(at - 1));
        at -= 1;
    }
    at
}

/// Where the part of the path `chars[..len]` begins that is never trimmed
/// away.
fn floor_at(chars: &Vec<char>, len: usize) -> (r: usize)
    requires
        len <= chars.len(),
    ensures
        r == floor_of(chars@.take(len as int)),
{
    if len > 0 && (chars[0] == SEPARATOR || (chars[0] == '.' && (len == 1 || chars[1]
        == SEPARATOR))) {
        1
    } else {
        0
    }
}

/// Where the last component of the path `chars[..len]` begins and ends.
pub(crate) fn file_name_bounds(chars: &Vec<char>, len: usize) -> (r: (usize, usize))
    requires
        len <= chars.len(),
    ensures
        r.0 <= r.1 <= len,
        chars@.subrange(r.0 as int, r.1 as int) == file_name_of(chars@.take(len as int)),
{
    let end = trimmed_len(chars, len, 0);
    proof {
        lemma_last_index_names(chars@.take(end as int));
        assert(chars@.subrange(0, end as int) =~= chars@.take(end as int));
    }
    let start = after_last(chars, 0, end, SEPARATOR);
    assert(chars@.subrange(start as int, end as int) =~= chars@.take(end as int).skip(
        start as int,
    ));
    (start, end)
}

/// Where the stem of the file name `chars[from..to]` ends.
pub(crate) fn stem_end(chars: &Vec<char>, from: usize, to: usize) -> (r: usize)
    requires
        from <= to <= chars.len(),
    ensures
        from <= r <= to,
        chars@.subrange(from as int, r as int) == stem_of(chars@.subrange(from as int, to as int)),
{
    let ghost name = chars@.subrange(from as int, to as int);
    proof {
        lemma_last_index_names(name);
    }
    let after = after_last(chars, from, to, '.');
    if after - from <= 1 {
        to
    } else {
        assert(chars@.subrange(from as int, after - 1) =~= name.take(last_dot(name)));
        after - 1
    }
}

/// The length of the directory of the path `chars[..len]`: the directory
/// is `chars[..r]`.
pub(crate) fn parent_len(chars: &Vec<char>, len: usize) -> (r: Option<usize>)
    requires
        len <= chars.len(),
    ensures
        match r {
            Some(n) => n <= len && parent_of(chars@.take(len as int)) == Some(
                chars@.take(n as int),
            ),
            None => parent_of(chars@.take(len as int)) is None,
        },
{
    let end = trimmed_len(chars, len, 0);
    if end == 0 {
        return None;
    }
    proof {
        lemma_last_index_names(chars@.take(end as int));
        assert(chars@.subrange(0, end as int) =~= chars@.take(end as int));
    }
    let start = after_last(chars, 0, end, SEPARATOR);
    let floor = floor_at(chars, len);
    assert(chars@.take(end as int).take(start as int) =~= chars@.take(start as int));
    Some(trimmed_len(chars, start, floor))
}

/// Whether `chars[from..to]` is a proper directory name.
pub(crate) fn is_proper_name_at(chars: &Vec<char>, from: usize, to: usize) -> (r: bool)
    requires
        from <= to <= chars.len(),
    ensures
        r == is_proper_name(chars@.subrange(from as int, to as int)),
{
    let ghost name = chars@.subrange(from as int, to as int);
    if to == from {
        false
    } else if to - from == 1 {
        assert(name =~= seq![name[0]]);
        assert(seq!['.'][0] == '.');
        chars[from] != '.'
    } else if to - from == 2 {
        assert(name =~= seq![name[0], name[1]]);
        assert(seq!['.', '.'][0] == '.' && seq!['.', '.'][1] == '.');
        !(chars[from] == '.' && chars[from + 1] == '.')
    } else {
        assert(seq!['.'].len() == 1 && seq!['.', '.'].len() == 2);
        true
    }
}

/// Appends the path of `name` inside the directory that `out` holds.
pub(crate) fn push_joined(out: &mut Vec<char>, name: &Vec<char>)
    ensures
        final(out)@ == joined(old(out)@, name@),
{
    let len = out.len();
    if len > 0 && out[len - 1] != SEPARATOR {
        out.push(SEPARATOR);
    }
    push_range(out, name, 0, name.len());
    assert(name@.subrange(0, name@.len() as int) =~= name@);
}

/// The normal form of the path `chars[..len]`.
fn normal_form_of(chars: &Vec<char>, len: usize) -> (r: Vec<char>)
    requires
        len <= chars.len(),
    ensures
        r@ == normal_form(chars@.take(len as int)),
    decreases len,
{
    let end = trimmed_len(chars, len, 0);
    if end == 0 {
        let mut out: Vec<char> = Vec::new();
        if len > 0 {
            out.push(SEPARATOR);
        }
        assert(out@ =~= normal_form(chars@.take(len as int)));
        return out;
    }
    proof {
        lemma_last_index_names(chars@.take(end as int));
        assert(chars@.subrange(0, end as int) =~= chars@.take(end as int));
    }
    let start = after_last(chars, 0, end, SEPARATOR);
    assert(chars@.take(end as int).take(start as int) =~= chars@.take(start as int));
    assert(chars@.take(end as int).skip(start as int) =~= chars@.subrange(
        start as int,
        end as int,
    ));
    let mut out = normal_form_of(chars, start);
    let mut name: Vec<char> = Vec::new();
    push_range(&mut name, chars, start, end);
    push_joined(&mut out, &name);
    out
}

/// Whether `a` and `b` have the same components.
pub fn same_path(a: &str, b: &str) -> (r: bool)
    ensures
        r == is_same_path(a@, b@),
{
    let first = chars_of(a);
    let second = chars_of(b);
    assert(first@.take(first@.len() as int) =~= first@);
    assert(second@.take(second@.len() as int) =~= second@);
    let left = string_of(&normal_form_of(&first, first.len()));
    let right = string_of(&normal_form_of(&second, second.len()));
    proof {
        reveal(is_same_path);
    }
    left == right
}

/// The path of `name` inside the directory `base`.
pub fn join_path(base: &str, name: &str) -> (r: String)
    ensures
        r@ == joined(base@, name@),
{
    let mut out = chars_of(base);
    let name_chars = chars_of(name);
    push_joined(&mut out, &name_chars);
    string_of(&out)
}

/// The directory that holds the last component of `path`.
pub fn parent_path(path: &str) -> (r: Option<String>)
    ensures
        r is Some <==> parent_of(path@) is Some,
        r matches Some(p) ==> parent_of(path@) == Some(p@),
{
    let chars = chars_of(path);
    assert(chars@.take(chars@.len() as int) =~= chars@);
    match parent_len(&chars, chars.len()) {
        Some(n) => {
            let mut out: Vec<char> = Vec::new();
            push_range(&mut out, &chars, 0, n);
            assert(chars@.subrange(0, n as int) =~= chars@.take(n as int));
            Some(string_of(&out))
        },
        None => None,
    }
}

/// The last component of `path` without its extension.
pub fn file_stem(path: &str) -> (r: String)
    ensures
        r@ == stem_of(file_name_of(path@)),
{
    let chars = chars_of(path);
    assert(chars@.take(chars@.len() as int) =~= chars@);
    let name = file_name_bounds(&chars, chars.len());
    let end = stem_end(&chars, name.0, name.1);
    let mut out: Vec<char> = Vec::new();
    push_range(&mut out, &chars, name.0, end);
    string_of(&out)
}

} // verus!
