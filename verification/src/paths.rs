//! Paths as strings: where the result of a command goes, and what the
//! working directory of an opened pack is called.

use crate::text::{from_chars, to_chars};
use vstd::prelude::*;
use vstd::slice::*;
use vstd::string::*;

verus! {

/// Index of the last `c` in `s`, or -1 where it has none.
pub open spec fn spec_last_index_of(s: Seq<char>, c: char) -> int
    decreases s.len(),
{
    if s.len() == 0 {
        -1
    } else if s.last() == c {
        s.len() - 1
    } else {
        spec_last_index_of(s.drop_last(), c)
    }
}

/// A path without the separators at its end; a path of separators alone
/// keeps its first.
pub open spec fn spec_trim_separators(path: Seq<char>) -> Seq<char>
    decreases path.len(),
{
    if path.len() > 1 && path.last() == '/' {
        spec_trim_separators(path.drop_last())
    } else {
        path
    }
}

/// The path beside `path` whose name has `suffix` added.
pub open spec fn spec_with_suffix(path: Seq<char>, suffix: Seq<char>) -> Seq<char> {
    spec_trim_separators(path) + suffix
}

/// `path` ends with `suffix`, and its name holds more than the suffix.
pub open spec fn spec_has_suffix(path: Seq<char>, suffix: Seq<char>) -> bool {
    &&& path.len() > suffix.len()
    &&& path.skip(path.len() - suffix.len()) == suffix
    &&& path[path.len() - suffix.len() - 1] != '/'
}

/// `path` without `suffix` at the end of its name, where it has it.
pub open spec fn spec_without_suffix(path: Seq<char>, suffix: Seq<char>) -> Option<Seq<char>> {
    if spec_has_suffix(path, suffix) {
        Some(path.take(path.len() - suffix.len()))
    } else {
        None
    }
}

/// The name of the file or directory that a path leads to: what follows
/// the last separator, trailing separators aside.
pub open spec fn spec_file_name(path: Seq<char>) -> Seq<char> {
    let trimmed = spec_trim_separators(path);
    trimmed.skip(spec_last_index_of(trimmed, '/') + 1)
}

/// A file name without its extension. A name with no dot, or with its only
/// dot in front, has no extension; the names `""`, `"."` and `".."` have no
/// stem.
pub open spec fn spec_stem_of_name(name: Seq<char>) -> Option<Seq<char>> {
    if name.len() == 0 || name == seq!['.'] || name == seq!['.', '.'] {
        None
    } else {
        let dot = spec_last_index_of(name, '.');
        if dot <= 0 {
            Some(name)
        } else {
            Some(name.take(dot))
        }
    }
}

/// The stem of the name that a path leads to.
pub open spec fn spec_file_stem(path: Seq<char>) -> Option<Seq<char>> {
    spec_stem_of_name(spec_file_name(path))
}

/// Index of the last `c` among `chars`.
pub fn last_index_of(chars: &[char], c: char) -> (at: Option<usize>)
    ensures
        match at {
            Some(i) => spec_last_index_of(chars@, c) == i && i < chars@.len(),
            None => spec_last_index_of(chars@, c) == -1,
        },
{
    let mut i = chars.len();
    assert(chars@.take(i as int) =~= chars@);
    while i > 0
        invariant
            i <= chars@.len(),
            spec_last_index_of(chars@, c) == spec_last_index_of(chars@.take(i as int), c),
        decreases i,
    {
        if chars[i - 1] == c {
            return Some(i - 1);
        }
        assert(chars@.take(i as int).drop_last() =~= chars@.take(i - 1));
        i -= 1;
    }
    None
}

/// Length of `chars` without the separators at its end.
pub fn trimmed_len(chars: &[char]) -> (len: usize)
    ensures
        len <= chars@.len(),
        chars@.take(len as int) == spec_trim_separators(chars@),
{
    let mut len = chars.len();
    assert(chars@.take(len as int) =~= chars@);
    while len > 1 && chars[len - 1] == '/'
        invariant
            len <= chars@.len(),
            spec_trim_separators(chars@) == spec_trim_separators(chars@.take(len as int)),
        decreases len,
    {
        assert(chars@.take(len as int).drop_last() =~= chars@.take(len - 1));
        len -= 1;
    }
    len
}

/// The path beside `path` whose name has `suffix` added.
pub fn with_suffix(path: &str, suffix: &str) -> (out: String)
    ensures
        out@ == spec_with_suffix(path@, suffix@),
{
    let chars = to_chars(path);
    let len = trimmed_len(chars.as_slice());
    let mut out = from_chars(slice_subrange(chars.as_slice(), 0, len));
    out.append(suffix);
    out
}

/// `path` without `suffix` at the end of its name, where it has it.
pub fn without_suffix(path: &str, suffix: &str) -> (out: Option<String>)
    ensures
        match out {
            Some(rest) => spec_without_suffix(path@, suffix@) == Some(rest@),
            None => spec_without_suffix(path@, suffix@) is None,
        },
{
    let chars = to_chars(path);
    let tail = to_chars(suffix);
    if chars.len() <= tail.len() {
        return None;
    }
    let cut = chars.len() - tail.len();
    if chars[cut - 1] == '/' {
        return None;
    }
    let mut i: usize = 0;
    while i < tail.len()
        invariant
            i <= tail@.len(),
            chars@ == path@,
            tail@ == suffix@,
            chars@.len() <= usize::MAX,
            cut + tail@.len() == chars@.len(),
            forall|k: int| 0 <= k < i ==> chars@[cut + k] == tail@[k],
        decreases tail@.len() - i,
    {
        if chars[cut + i] != tail[i] {
            assert(chars@.skip(cut as int)[i as int] != tail@[i as int]);
            return None;
        }
        i += 1;
    }
    assert(chars@.skip(cut as int) =~= tail@);
    Some(from_chars(slice_subrange(chars.as_slice(), 0, cut)))
}

/// The stem of the name that a path leads to.
pub fn file_stem(path: &str) -> (out: Option<String>)
    ensures
        match out {
            Some(stem) => spec_file_stem(path@) == Some(stem@),
            None => spec_file_stem(path@) is None,
        },
{
    let chars = to_chars(path);
    let len = trimmed_len(chars.as_slice());
    let trimmed = slice_subrange(chars.as_slice(), 0, len);
    let start = match last_index_of(trimmed, '/') {
        Some(at) => at + 1,
        None => 0,
    };
    let name = slice_subrange(trimmed, start, len);
    assert(name@ =~= spec_file_name(path@));
    let n = name.len();
    if n == 0 || (n == 1 && name[0] == '.') || (n == 2 && name[0] == '.' && name[1] == '.') {
        assert(n == 1 ==> name@ =~= seq!['.']);
        assert(n == 2 ==> name@ =~= seq!['.', '.']);
        return None;
    }
    assert(name@ != seq!['.'] && name@ != seq!['.', '.']) by {
        if n == 1 {
            assert(seq!['.'][0] == '.');
        }
        if n == 2 {
            assert(seq!['.', '.'][0] == '.' && seq!['.', '.'][1] == '.');
        }
    }
    match last_index_of(name, '.') {
        Some(dot) => {
            if dot == 0 {
                Some(from_chars(name))
            } else {
                Some(from_chars(slice_subrange(name, 0, dot)))
            }
        },
        None => Some(from_chars(name)),
    }
}

} // verus!
