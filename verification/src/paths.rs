//! Paths as plain text.
//!
//! A path is a text whose components are separated by `/`. The file name is
//! what follows the last separator; its extension is what follows the last
//! `.` of the file name, unless that `.` is the file name's first character.

use crate::text::{chars_of, string_of};
use vstd::prelude::*;
use vstd::string::*;

verus! {

/// The index of the last `c` in `s`, or -1 where `s` holds none.
pub open spec fn last_index_of(s: Seq<char>, c: char) -> int
    decreases s.len(),
{
    if s.len() == 0 {
        -1
    } else if s.last() == c {
        s.len() - 1
    } else {
        last_index_of(s.drop_last(), c)
    }
}

/// `last_index_of` names an index that holds `c`, and no later index does.
pub proof fn lemma_last_index_of(s: Seq<char>, c: char)
    ensures
        -1 <= last_index_of(s, c) < s.len(),
        last_index_of(s, c) >= 0 ==> s[last_index_of(s, c)] == c,
        forall|k: int| last_index_of(s, c) < k < s.len() ==> s[k] != c,
    decreases s.len(),
{
    if s.len() > 0 && s.last() != c {
        lemma_last_index_of(s.drop_last(), c);
        assert forall|k: int| last_index_of(s, c) < k < s.len() implies s[k] != c by {
            if k < s.len() - 1 {
                assert(s[k] == s.drop_last()[k]);
            }
        }
    }
}

/// Where the file name of `path` begins.
pub open spec fn name_start(path: Seq<char>) -> int {
    last_index_of(path, '/') + 1
}

/// The file name of `path`: what follows its last separator.
pub open spec fn file_name(path: Seq<char>) -> Seq<char> {
    path.subrange(name_start(path), path.len() as int)
}

/// Where the stem of the file name ends: at the `.` that begins the
/// extension, or at the end of the path where there is no extension.
pub open spec fn stem_end(path: Seq<char>) -> int {
    let dot = last_index_of(file_name(path), '.');
    if dot <= 0 {
        path.len() as int
    } else {
        name_start(path) + dot
    }
}

/// The file name without its extension.
pub open spec fn file_stem(path: Seq<char>) -> Seq<char> {
    path.subrange(name_start(path), stem_end(path))
}

/// The extension of the file name, without the `.`.
pub open spec fn extension(path: Seq<char>) -> Option<Seq<char>> {
    if stem_end(path) == path.len() {
        None
    } else {
        Some(path.subrange(stem_end(path) + 1, path.len() as int))
    }
}

/// The directory that holds `path`: the text before the last separator, `/`
/// where that separator is the path's first character, and the empty text
/// where the path has no separator.
pub open spec fn parent(path: Seq<char>) -> Seq<char> {
    if name_start(path) == 0 {
        Seq::empty()
    } else if name_start(path) == 1 {
        seq!['/']
    } else {
        path.subrange(0, name_start(path) - 1)
    }
}

/// `path` with its extension replaced by `ext`, in the same directory and
/// with the same stem.
pub open spec fn with_extension(path: Seq<char>, ext: Seq<char>) -> Seq<char> {
    path.subrange(0, stem_end(path)) + seq!['.'] + ext
}

/// `rel` seen from the directory `base`. A `rel` that begins with a separator
/// stands for itself, and so does any `rel` seen from the empty `base`.
pub open spec fn join(base: Seq<char>, rel: Seq<char>) -> Seq<char> {
    if rel.len() > 0 && rel[0] == '/' {
        rel
    } else if base.len() == 0 {
        rel
    } else if base.last() == '/' {
        base + rel
    } else {
        base + seq!['/'] + rel
    }
}

/// The stem lies inside the file name.
pub proof fn lemma_path_parts(path: Seq<char>)
    ensures
        0 <= name_start(path) <= stem_end(path) <= path.len(),
        stem_end(path) < path.len() ==> path[stem_end(path)] == '.',
        stem_end(path) < path.len() ==> name_start(path) < stem_end(path),
{
    lemma_last_index_of(path, '/');
    lemma_last_index_of(file_name(path), '.');
}

/// The index of the last `c` in `chars[from..]`, counted from `from`.
fn find_last(chars: &Vec<char>, from: usize, c: char) -> (found: Option<usize>)
    requires
        from <= chars@.len(),
    ensures
        found is None <==> last_index_of(chars@.subrange(from as int, chars@.len() as int), c) == -1,
        found matches Some(i) ==> i == last_index_of(chars@.subrange(from as int, chars@.len() as int), c),
        found matches Some(i) ==> from + i < chars@.len(),
{
    let ghost tail = chars@.subrange(from as int, chars@.len() as int);
    let mut i: usize = chars.len();
    assert(tail.subrange(0, tail.len() as int) == tail);
    while i > from
        invariant
            from <= i <= chars@.len(),
            tail == chars@.subrange(from as int, chars@.len() as int),
            last_index_of(tail, c) == last_index_of(tail.subrange(0, i - from), c),
        decreases i,
    {
        if chars[i - 1] == c {
            return Some(i - 1 - from);
        }
        assert(tail.subrange(0, i - from).drop_last() == tail.subrange(0, i - from - 1));
        i = i - 1;
    }
    assert(tail.subrange(0, tail.len() as int) == tail);
    None
}

/// Where the file name begins and where its stem ends.
fn split_points(chars: &Vec<char>) -> (points: (usize, usize))
    ensures
        points.0 == name_start(chars@),
        points.1 == stem_end(chars@),
        points.0 <= points.1 <= chars@.len(),
{
    proof {
        lemma_path_parts(chars@);
        assert(chars@.subrange(0, chars@.len() as int) == chars@);
    }
    let len: usize = chars.len();
    let start: usize = match find_last(chars, 0, '/') {
        Some(i) => i + 1,
        None => 0,
    };
    let end: usize = match find_last(chars, start, '.') {
        Some(dot) => if dot == 0 {
            len
        } else {
            start + dot
        },
        None => len,
    };
    (start, end)
}

/// The file name of `path` without its extension.
pub fn stem_of(path: &str) -> (stem: String)
    ensures
        stem@ == file_stem(path@),
{
    let chars = chars_of(path);
    let (start, end) = split_points(&chars);
    string_of(&chars, start, end)
}

/// The extension of `path`, where its file name has one.
pub fn extension_of(path: &str) -> (ext: Option<String>)
    ensures
        ext is Some <==> extension(path@) is Some,
        ext matches Some(e) ==> e@ == extension(path@)->0,
{
    let chars = chars_of(path);
    let (_, end) = split_points(&chars);
    if end == chars.len() {
        None
    } else {
        Some(string_of(&chars, end + 1, chars.len()))
    }
}

/// The directory that holds `path`.
pub fn parent_of(path: &str) -> (dir: String)
    ensures
        dir@ == parent(path@),
{
    let chars = chars_of(path);
    let (start, _) = split_points(&chars);
    if start == 0 {
        String::new()
    } else if start == 1 {
        proof {
            lemma_last_index_of(chars@, '/');
            assert(chars@.subrange(0, 1) == seq!['/']);
        }
        string_of(&chars, 0, 1)
    } else {
        string_of(&chars, 0, start - 1)
    }
}

/// `path` with its extension replaced by `ext`.
pub fn replace_extension(path: &str, ext: &str) -> (replaced: String)
    ensures
        replaced@ == with_extension(path@, ext@),
{
    let chars = chars_of(path);
    let (_, end) = split_points(&chars);
    let mut replaced = string_of(&chars, 0, end);
    replaced.push('.');
    replaced.append(ext);
    assert(replaced@ == with_extension(path@, ext@));
    replaced
}

/// `rel` seen from the directory `base`.
pub fn join_paths(base: &str, rel: &str) -> (joined: String)
    ensures
        joined@ == join(base@, rel@),
{
    let b = chars_of(base);
    let r = chars_of(rel);
    if (r.len() > 0 && r[0] == '/') || b.len() == 0 {
        assert(r@.subrange(0, r@.len() as int) == r@);
        return string_of(&r, 0, r.len());
    }
    let mut joined = string_of(&b, 0, b.len());
    assert(b@.subrange(0, b@.len() as int) == b@);
    if b[b.len() - 1] != '/' {
        joined.push('/');
    }
    joined.append(rel);
    assert(joined@ == join(base@, rel@));
    joined
}

} // verus!
