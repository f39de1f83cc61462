//! File names: which files of a directory are content, and under which name
//! each is catalogued.
//!
//! A file name's extension is what follows its last `.`; a name without a
//! `.`, and a name whose only `.` is its first character, has none. The stem
//! is what stands before the extension's `.`, and the whole name where there
//! is no extension.

use crate::text::{characters, head_to, same_text, tail_from};
use vstd::prelude::*;

verus! {

/// The index of the last `c` in `s`, or `-1` where it holds none.
pub open spec fn last_index(s: Seq<char>, c: char) -> int
    decreases s.len(),
{
    if s.len() == 0 {
        -1
    } else if s.last() == c {
        s.len() - 1
    } else {
        last_index(s.drop_last(), c)
    }
}

/// The extension of a file name, where it has one.
pub open spec fn extension_of(name: Seq<char>) -> Option<Seq<char>> {
    let dot = last_index(name, '.');
    if dot <= 0 {
        None
    } else {
        Some(name.skip(dot + 1))
    }
}

/// The stem of a file name.
pub open spec fn stem_of(name: Seq<char>) -> Seq<char> {
    let dot = last_index(name, '.');
    if dot <= 0 {
        name
    } else {
        name.take(dot)
    }
}

/// An index that holds `c`, or is `-1`, and that no `c` follows, is the last
/// index of `c`.
proof fn lemma_last_index_is(s: Seq<char>, c: char, i: int)
    requires
        -1 <= i < s.len(),
        i >= 0 ==> s[i] == c,
        forall|j: int| i < j < s.len() ==> s[j] != c,
    ensures
        last_index(s, c) == i,
    decreases s.len(),
{
    if s.len() != 0 && i != s.len() - 1 {
        let rest = s.drop_last();
        assert(s.last() != c);
        assert forall|j: int| i < j < rest.len() implies rest[j] != c by {
            assert(rest[j] == s[j]);
        }
        if i >= 0 {
            assert(rest[i] == s[i]);
        }
        lemma_last_index_is(rest, c, i);
    }
}

/// The index of the last `c` among some characters, if there is one.
fn find_last(list: &Vec<char>, c: char) -> (found: Option<usize>)
    ensures
        match found {
            Some(index) => last_index(list@, c) == index && index < list@.len(),
            None => last_index(list@, c) == -1,
        },
{
    let mut i: usize = list.len();
    while i > 0
        invariant
            i <= list@.len(),
            forall|j: int| i <= j < list@.len() ==> list@[j] != c,
        decreases i,
    {
        i = i - 1;
        if list[i] == c {
            proof {
                lemma_last_index_is(list@, c, i as int);
            }
            return Some(i);
        }
    }
    proof {
        lemma_last_index_is(list@, c, -1);
    }
    None
}

/// Whether a file name has the given extension.
pub fn has_extension(file_name: &str, extension: &str) -> (has: bool)
    ensures
        has == (extension_of(file_name@) == Some(extension@)),
{
    let list = characters(file_name);
    let length = list.len();
    match find_last(&list, '.') {
        Some(dot) => {
            assert(dot < length);
            dot > 0 && same_text(tail_from(file_name, dot + 1), extension)
        },
        None => false,
    }
}

/// The stem of a file name that has the given extension, and nothing for any
/// other file name.
pub fn stem_with_extension(file_name: &str, extension: &str) -> (stem: Option<String>)
    ensures
        match stem {
            Some(stem) => extension_of(file_name@) == Some(extension@) && stem@ == stem_of(
                file_name@,
            ),
            None => extension_of(file_name@) != Some(extension@),
        },
{
    let list = characters(file_name);
    let length = list.len();
    match find_last(&list, '.') {
        Some(dot) => {
            assert(dot < length);
            if dot > 0 && same_text(tail_from(file_name, dot + 1), extension) {
                Some(head_to(file_name, dot).to_owned())
            } else {
                None
            }
        },
        None => None,
    }
}

} // verus!
