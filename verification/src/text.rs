//! Operations on text, stated over sequences of characters.
//!
//! Rust strings are UTF-8 bytes; the contracts here speak of characters, so
//! that a name with letters outside ASCII is handled like any other.

use vstd::prelude::*;
use vstd::std_specs::iter::IteratorSpec;
use vstd::string::StringSliceAdditionalSpecFns;
use vstd::utf8::encode_utf8_decode_utf8;

verus! {

/// Whether `char::is_whitespace` holds of `c`: whether Unicode counts the
/// character as white space.
pub uninterp spec fn white_space(c: char) -> bool;

/// The characters that `char::to_uppercase` yields for `c`, in order. For
/// most letters this is one character; a few map to two or three.
pub uninterp spec fn uppercase_of(c: char) -> Seq<char>;

/// The index of the first `c` in `s`, or the length of `s` where it holds none.
pub open spec fn first_index(s: Seq<char>, c: char) -> int
    decreases s.len(),
{
    if s.len() == 0 {
        0
    } else if s[0] == c {
        0
    } else {
        1 + first_index(s.drop_first(), c)
    }
}

/// `s` with every `c` replaced by the text `with`.
pub open spec fn replaced(s: Seq<char>, c: char, with: Seq<char>) -> Seq<char>
    decreases s.len(),
{
    if s.len() == 0 {
        Seq::empty()
    } else {
        replaced(s.drop_last(), c, with) + (if s.last() == c {
            with
        } else {
            seq![s.last()]
        })
    }
}

/// A text of white space only; the empty text is one.
pub open spec fn blank(text: Seq<char>) -> bool {
    forall|i: int| 0 <= i < text.len() ==> white_space(#[trigger] text[i])
}

/// `s` with the text `first` in place of its first character; the empty
/// text stays empty.
pub open spec fn with_first(first: Seq<char>, s: Seq<char>) -> Seq<char> {
    if s.len() == 0 {
        s
    } else {
        first + s.skip(1)
    }
}

/// `s` with its first character in upper case; the empty text stays empty.
pub open spec fn capitalized(s: Seq<char>) -> Seq<char> {
    if s.len() == 0 {
        s
    } else {
        with_first(uppercase_of(s[0]), s)
    }
}

/// Two texts are equal when their UTF-8 encodings are equal.
pub proof fn lemma_equal_bytes_equal_text(a: Seq<char>, b: Seq<char>)
    requires
        vstd::utf8::encode_utf8(a) == vstd::utf8::encode_utf8(b),
    ensures
        a == b,
{
    encode_utf8_decode_utf8(a);
    encode_utf8_decode_utf8(b);
}

/// `first_index` is at most the length, names a `c` where it is less, and
/// passes no `c` on its way.
pub proof fn lemma_first_index(s: Seq<char>, c: char)
    ensures
        0 <= first_index(s, c) <= s.len(),
        first_index(s, c) < s.len() ==> s[first_index(s, c)] == c,
        forall|j: int| 0 <= j < first_index(s, c) ==> s[j] != c,
    decreases s.len(),
{
    if s.len() != 0 && s[0] != c {
        let rest = s.drop_first();
        lemma_first_index(rest, c);
        assert forall|j: int| 0 <= j < first_index(s, c) implies s[j] != c by {
            if j > 0 {
                assert(s[j] == rest[j - 1]);
            }
        }
    }
}

/// An index that no `c` precedes, and that holds `c` or ends the text, is
/// the first index of `c`.
pub proof fn lemma_first_index_is(s: Seq<char>, c: char, i: int)
    requires
        0 <= i <= s.len(),
        forall|j: int| 0 <= j < i ==> s[j] != c,
        i < s.len() ==> s[i] == c,
    ensures
        first_index(s, c) == i,
    decreases s.len(),
{
    if s.len() != 0 && i != 0 {
        let rest = s.drop_first();
        assert(s[0] != c);
        assert forall|j: int| 0 <= j < i - 1 implies rest[j] != c by {
            assert(rest[j] == s[j + 1]);
        }
        lemma_first_index_is(rest, c, i - 1);
    }
}

/// Whether two string slices hold the same characters.
pub fn same_text(a: &str, b: &str) -> (same: bool)
    ensures
        same == (a@ == b@),
{
    let x = a.as_bytes();
    let y = b.as_bytes();
    if x.len() != y.len() {
        return false;
    }
    let mut i: usize = 0;
    while i < x.len()
        invariant
            x@ == a.spec_bytes(),
            y@ == b.spec_bytes(),
            x@.len() == y@.len(),
            i <= x@.len(),
            forall|j: int| 0 <= j < i ==> x@[j] == y@[j],
        decreases x@.len() - i,
    {
        if x[i] != y[i] {
            return false;
        }
        i = i + 1;
    }
    proof {
        assert(x@ =~= y@);
        lemma_equal_bytes_equal_text(a@, b@);
    }
    true
}

/// Whether `s` begins with `prefix`.
pub fn has_prefix(s: &str, prefix: &str) -> (begins: bool)
    ensures
        begins == prefix@.is_prefix_of(s@),
{
    let n = s.unicode_len();
    let m = prefix.unicode_len();
    if m > n {
        return false;
    }
    same_text(s.substring_char(0, m), prefix)
}

/// What follows the first `skip` characters of `s`.
pub(crate) fn tail_from(s: &str, skip: usize) -> (tail: &str)
    requires
        skip <= s@.len(),
    ensures
        tail@ == s@.skip(skip as int),
{
    let n = s.unicode_len();
    s.substring_char(skip, n)
}

/// The first `count` characters of `s`.
pub(crate) fn head_to(s: &str, count: usize) -> (head: &str)
    requires
        count <= s@.len(),
    ensures
        head@ == s@.take(count as int),
{
    s.substring_char(0, count)
}

/// The index of the first `c` in `s`, counted in characters, or the length of
/// `s` where it holds none.
pub fn index_of(s: &str, c: char) -> (index: usize)
    ensures
        index == first_index(s@, c),
        index <= s@.len(),
{
    let n = s.unicode_len();
    let mut rest = s.chars();
    let mut i: usize = 0;
    loop
        invariant
            n == s@.len(),
            i <= n,
            s@.take(i as int) + rest.remaining() == s@,
            forall|j: int| 0 <= j < i ==> s@[j] != c,
            rest.obeys_prophetic_iter_laws(),
            rest.decrease() is Some,
        decreases rest.decrease()->0,
    {
        let ghost before = rest.remaining();
        match rest.next() {
            Some(found) => {
                proof {
                    assert(s@.take(i as int).len() == i);
                    assert(before.len() == n - i);
                    assert(s@[i as int] == (s@.take(i as int) + before)[i as int]);
                    assert(found == s@[i as int]);
                }
                if found == c {
                    proof {
                        lemma_first_index_is(s@, c, i as int);
                    }
                    return i;
                }
                i = i + 1;
                proof {
                    assert(s@.take(i as int) + rest.remaining() =~= s@);
                }
            },
            None => {
                proof {
                    assert(s@.take(i as int).len() == i);
                    assert(i == n);
                    lemma_first_index_is(s@, c, i as int);
                }
                return i;
            },
        }
    }
}

/// Whether `c` occurs in `s`.
pub fn holds_char(s: &str, c: char) -> (occurs: bool)
    ensures
        occurs == s@.contains(c),
{
    let n = s.unicode_len();
    let i = index_of(s, c);
    proof {
        lemma_first_index(s@, c);
        if i < n {
            assert(s@[i as int] == c);
        } else {
            assert forall|j: int| 0 <= j < s@.len() implies s@[j] != c by {}
        }
    }
    i < n
}

/// `s` with every `c` replaced by the text `with`.
pub fn replace_char(s: &str, c: char, with: &str) -> (out: String)
    ensures
        out@ == replaced(s@, c, with@),
{
    let list = characters(s);
    let n = list.len();
    let mut out = String::new();
    let mut start: usize = 0;
    let mut i: usize = 0;
    while i < n
        invariant
            list@ == s@,
            n == s@.len(),
            start <= i <= n,
            out@ + s@.subrange(start as int, i as int) == replaced(s@.take(i as int), c, with@),
        decreases n - i,
    {
        proof {
            let next = s@.take(i + 1);
            assert(next.drop_last() =~= s@.take(i as int));
            assert(next.last() == s@[i as int]);
        }
        if list[i] == c {
            out.append(s.substring_char(start, i));
            out.append(with);
            start = i + 1;
            proof {
                assert(s@.subrange(start as int, start as int) =~= Seq::<char>::empty());
                assert(out@ + s@.subrange(start as int, start as int) =~= out@);
            }
        } else {
            proof {
                assert(s@.subrange(start as int, i + 1) =~= s@.subrange(start as int, i as int)
                    + seq![s@[i as int]]);
                assert(out@ + (s@.subrange(start as int, i as int) + seq![s@[i as int]]) =~= (out@
                    + s@.subrange(start as int, i as int)) + seq![s@[i as int]]);
            }
        }
        i = i + 1;
    }
    out.append(s.substring_char(start, n));
    proof {
        assert(s@.take(n as int) =~= s@);
    }
    out
}

/// The characters of a string slice, one by one.
pub fn characters(s: &str) -> (list: Vec<char>)
    ensures
        list@ == s@,
{
    let mut list: Vec<char> = Vec::new();
    let mut rest = s.chars();
    loop
        invariant
            list@ + rest.remaining() == s@,
            rest.obeys_prophetic_iter_laws(),
            rest.decrease() is Some,
        decreases rest.decrease()->0,
    {
        match rest.next() {
            Some(c) => {
                list.push(c);
                assert(list@ + rest.remaining() =~= s@);
            },
            None => {
                assert(list@ =~= s@);
                return list;
            },
        }
    }
}

/// `s` with the text `first` in place of its first character.
pub fn replace_first(first: String, s: &str) -> (out: String)
    ensures
        out@ == with_first(first@, s@),
{
    if s.unicode_len() == 0 {
        return String::new();
    }
    let mut out = first;
    out.append(tail_from(s, 1));
    out
}

/// `s` with its first character in upper case.
pub fn capitalize(s: &str) -> (out: String)
    ensures
        out@ == capitalized(s@),
{
    let mut rest = s.chars();
    match rest.next() {
        Some(first) => replace_first(uppercase(first), s),
        None => String::new(),
    }
}

/// Whether a line holds white space only, or nothing.
pub fn is_blank(line: &str) -> (none: bool)
    ensures
        none == blank(line@),
{
    let n = line.unicode_len();
    let mut rest = line.chars();
    let mut i: usize = 0;
    loop
        invariant
            n == line@.len(),
            i <= n,
            line@.take(i as int) + rest.remaining() == line@,
            forall|j: int| 0 <= j < i ==> white_space(#[trigger] line@[j]),
            rest.obeys_prophetic_iter_laws(),
            rest.decrease() is Some,
        decreases rest.decrease()->0,
    {
        let ghost before = rest.remaining();
        match rest.next() {
            Some(found) => {
                proof {
                    assert(line@.take(i as int).len() == i);
                    assert(before.len() == n - i);
                    assert(line@[i as int] == (line@.take(i as int) + before)[i as int]);
                }
                if !is_white_space(found) {
                    return false;
                }
                i = i + 1;
                proof {
                    assert(line@.take(i as int) + rest.remaining() =~= line@);
                }
            },
            None => {
                proof {
                    assert(line@.take(i as int).len() == i);
                }
                return true;
            },
        }
    }
}

/// Whether a character is white space.
///
/// Calls `char::is_whitespace`. What comes back is claimed to depend on the
/// character alone; it is named [`white_space`].
#[verifier::external_body]
pub(crate) fn is_white_space(c: char) -> (white: bool)
    ensures
        white == white_space(c),
{
    c.is_whitespace()
}

/// The upper-case form of one character, as a string.
///
/// Calls `char::to_uppercase` and collects what it yields. What comes back is
/// claimed to be the function [`uppercase_of`] of the character, and nothing
/// more.
#[verifier::external_body]
pub(crate) fn uppercase(c: char) -> (upper: String)
    ensures
        upper@ == uppercase_of(c),
{
    c.to_uppercase().collect()
}

} // verus!
