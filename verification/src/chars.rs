//! Text as characters: conversion from and to strings, splitting at a
//! separator and into words.

use vstd::prelude::*;
use vstd::slice::slice_subrange;

verus! {

/// The characters of a string.
pub fn to_chars(s: &str) -> (chars: Vec<char>)
    ensures
        chars@ == s@,
{
    let mut out: Vec<char> = Vec::new();
    for c in it: s.chars()
        invariant
            it.seq() == s@,
            out@ == s@.take(it.index() as int),
    {
        out.push(c);
        assert(out@ =~= s@.take(it.index() + 1));
    }
    assert(out@ =~= s@);
    out
}

/// `String::push`: the string afterwards is the string before with the
/// character as its last.
#[verifier::external_body]
fn push_char(s: &mut String, c: char)
    ensures
        final(s)@ == old(s)@.push(c),
{
    s.push(c)
}

/// Appends the characters to the string.
pub fn append_chars(s: &mut String, chars: &[char])
    ensures
        final(s)@ == old(s)@ + chars@,
{
    let mut i: usize = 0;
    while i < chars.len()
        invariant
            i <= chars@.len(),
            s@ == old(s)@ + chars@.take(i as int),
        decreases chars@.len() - i,
    {
        push_char(s, chars[i]);
        assert(s@ =~= old(s)@ + chars@.take(i + 1));
        i += 1;
    }
    assert(chars@.take(i as int) =~= chars@);
}

/// The string of the characters.
pub fn from_chars(chars: &[char]) -> (s: String)
    ensures
        s@ == chars@,
{
    let mut s = String::new();
    append_chars(&mut s, chars);
    assert(s@ =~= chars@);
    s
}

/// The views of a list of pieces.
pub open spec fn pieces_view(pieces: Seq<Vec<char>>) -> Seq<Seq<char>> {
    Seq::new(pieces.len(), |i: int| pieces[i]@)
}

/// The pieces of `s` between the occurrences of `sep`: one more piece than
/// there are occurrences, empty pieces among them.
pub open spec fn split(s: Seq<char>, sep: char) -> Seq<Seq<char>>
    decreases s.len(),
{
    if s.len() == 0 {
        seq![Seq::empty()]
    } else {
        let before = split(s.drop_last(), sep);
        if s.last() == sep {
            before.push(Seq::empty())
        } else {
            before.drop_last().push(before.last().push(s.last()))
        }
    }
}

/// Splits `s` at each occurrence of `sep`.
pub fn split_chars(s: &[char], sep: char) -> (pieces: Vec<Vec<char>>)
    ensures
        pieces_view(pieces@) == split(s@, sep),
        pieces@.len() >= 1,
{
    let mut done: Vec<Vec<char>> = Vec::new();
    let mut current: Vec<char> = Vec::new();
    let mut i: usize = 0;
    assert(s@.take(0) =~= Seq::<char>::empty());
    assert(pieces_view(done@).push(current@) =~= seq![Seq::<char>::empty()]);
    while i < s.len()
        invariant
            i <= s@.len(),
            split(s@.take(i as int), sep) == pieces_view(done@).push(current@),
        decreases s@.len() - i,
    {
        let c = s[i];
        let ghost prefix = s@.take(i as int);
        let ghost grown = s@.take(i + 1);
        assert(grown.drop_last() =~= prefix);
        assert(grown.last() == c);
        let ghost before = pieces_view(done@);
        let ghost piece = current@;
        if c == sep {
            done.push(current);
            current = Vec::new();
            assert(pieces_view(done@) =~= before.push(piece));
        } else {
            current.push(c);
            assert(before.push(piece).drop_last() =~= before);
        }
        i += 1;
    }
    assert(s@.take(i as int) =~= s@);
    let ghost before = pieces_view(done@);
    let ghost piece = current@;
    done.push(current);
    assert(pieces_view(done@) =~= before.push(piece));
    done
}

/// Whether `c` is white space: one of the characters with the Unicode
/// property `White_Space`.
pub open spec fn is_space(c: char) -> bool {
    let n = c as u32;
    (0x09 <= n <= 0x0d) || n == 0x20 || n == 0x85 || n == 0xa0 || n == 0x1680 || (0x2000 <= n
        <= 0x200a) || n == 0x2028 || n == 0x2029 || n == 0x202f || n == 0x205f || n == 0x3000
}

/// Whether `c` is white space.
pub fn is_whitespace(c: char) -> (space: bool)
    ensures
        space == is_space(c),
{
    let n: u32 = c as u32;
    (0x09 <= n && n <= 0x0d) || n == 0x20 || n == 0x85 || n == 0xa0 || n == 0x1680 || (0x2000 <= n
        && n <= 0x200a) || n == 0x2028 || n == 0x2029 || n == 0x202f || n == 0x205f || n
        == 0x3000
}

/// The words of `s` that are complete, and the word that its end is in,
/// which is empty where `s` ends with white space.
pub open spec fn words_read(s: Seq<char>) -> (Seq<Seq<char>>, Seq<char>)
    decreases s.len(),
{
    if s.len() == 0 {
        (Seq::empty(), Seq::empty())
    } else {
        let (done, current) = words_read(s.drop_last());
        if !is_space(s.last()) {
            (done, current.push(s.last()))
        } else if current.len() > 0 {
            (done.push(current), Seq::empty())
        } else {
            (done, current)
        }
    }
}

/// The words of `s`: its longest runs of characters that are not white space.
pub open spec fn words(s: Seq<char>) -> Seq<Seq<char>> {
    let (done, current) = words_read(s);
    if current.len() > 0 {
        done.push(current)
    } else {
        done
    }
}

/// Splits `s` into its words.
pub fn split_words(s: &[char]) -> (found: Vec<Vec<char>>)
    ensures
        pieces_view(found@) == words(s@),
{
    let mut done: Vec<Vec<char>> = Vec::new();
    let mut current: Vec<char> = Vec::new();
    let mut i: usize = 0;
    assert(s@.take(0) =~= Seq::<char>::empty());
    assert(pieces_view(done@) =~= Seq::<Seq<char>>::empty());
    while i < s.len()
        invariant
            i <= s@.len(),
            words_read(s@.take(i as int)) == (pieces_view(done@), current@),
        decreases s@.len() - i,
    {
        let c = s[i];
        let ghost prefix = s@.take(i as int);
        let ghost grown = s@.take(i + 1);
        assert(grown.drop_last() =~= prefix);
        assert(grown.last() == c);
        let ghost before = pieces_view(done@);
        let ghost piece = current@;
        if !is_whitespace(c) {
            current.push(c);
        } else if current.len() > 0 {
            done.push(current);
            current = Vec::new();
            assert(pieces_view(done@) =~= before.push(piece));
        }
        i += 1;
    }
    assert(s@.take(i as int) =~= s@);
    if current.len() > 0 {
        let ghost before = pieces_view(done@);
        let ghost piece = current@;
        done.push(current);
        assert(pieces_view(done@) =~= before.push(piece));
    }
    done
}

/// The number of white-space characters at the start of `s`.
pub open spec fn leading_spaces(s: Seq<char>) -> int
    decreases s.len(),
{
    if s.len() > 0 && is_space(s[0]) {
        1 + leading_spaces(s.drop_first())
    } else {
        0
    }
}

/// The number of white-space characters at the end of `s`.
pub open spec fn trailing_spaces(s: Seq<char>) -> int
    decreases s.len(),
{
    if s.len() > 0 && is_space(s.last()) {
        1 + trailing_spaces(s.drop_last())
    } else {
        0
    }
}

/// The text without the white space at its start and at its end.
pub open spec fn trimmed(s: Seq<char>) -> Seq<char> {
    let from = leading_spaces(s);
    let rest = s.subrange(from, s.len() as int);
    rest.subrange(0, rest.len() - trailing_spaces(rest))
}

/// Where the first `n` characters are white space, the white space at the
/// start is these and what follows them of it.
proof fn lemma_leading_run(s: Seq<char>, n: int)
    requires
        0 <= n <= s.len(),
        forall|k: int| 0 <= k < n ==> is_space(#[trigger] s[k]),
    ensures
        leading_spaces(s) == n + leading_spaces(s.subrange(n, s.len() as int)),
    decreases n,
{
    if n == 0 {
        assert(s.subrange(0, s.len() as int) =~= s);
    } else {
        let rest = s.drop_first();
        assert forall|k: int| 0 <= k < n - 1 implies is_space(#[trigger] rest[k]) by {
            assert(rest[k] == s[k + 1]);
        }
        lemma_leading_run(rest, n - 1);
        assert(rest.subrange(n - 1, rest.len() as int) =~= s.subrange(n, s.len() as int));
    }
}

/// Where the last `n` characters are white space, the white space at the end
/// is these and what stands before them of it.
proof fn lemma_trailing_run(s: Seq<char>, n: int)
    requires
        0 <= n <= s.len(),
        forall|k: int| s.len() - n <= k < s.len() ==> is_space(#[trigger] s[k]),
    ensures
        trailing_spaces(s) == n + trailing_spaces(s.subrange(0, s.len() - n)),
    decreases n,
{
    if n == 0 {
        assert(s.subrange(0, s.len() as int) =~= s);
    } else {
        let rest = s.drop_last();
        assert forall|k: int| rest.len() - (n - 1) <= k < rest.len() implies is_space(
            #[trigger] rest[k],
        ) by {
            assert(rest[k] == s[k]);
        }
        lemma_trailing_run(rest, n - 1);
        assert(rest.subrange(0, rest.len() - (n - 1)) =~= s.subrange(0, s.len() - n));
    }
}

/// Takes the white space from the start and from the end of a text.
pub fn trim_chars(s: &[char]) -> (inner: Vec<char>)
    ensures
        inner@ == trimmed(s@),
{
    let mut from: usize = 0;
    while from < s.len() && is_whitespace(s[from])
        invariant
            from <= s@.len(),
            forall|k: int| 0 <= k < from ==> is_space(#[trigger] s@[k]),
        decreases s@.len() - from,
    {
        from += 1;
    }
    let ghost rest = s@.subrange(from as int, s@.len() as int);
    proof {
        lemma_leading_run(s@, from as int);
        if from < s@.len() {
            assert(rest[0] == s@[from as int]);
        }
        assert(leading_spaces(rest) == 0);
    }
    let mut to: usize = s.len();
    while to > from && is_whitespace(s[to - 1])
        invariant
            from <= to <= s@.len(),
            forall|k: int| to <= k < s@.len() ==> is_space(#[trigger] s@[k]),
        decreases to,
    {
        to -= 1;
    }
    proof {
        assert forall|k: int| rest.len() - (s@.len() - to) <= k < rest.len() implies is_space(
            #[trigger] rest[k],
        ) by {
            assert(rest[k] == s@[k + from]);
        }
        lemma_trailing_run(rest, s@.len() - to);
        let kept = rest.subrange(0, to - from);
        if to > from {
            assert(kept.last() == s@[to - 1]);
        }
        assert(trailing_spaces(kept) == 0);
        assert(kept =~= s@.subrange(from as int, to as int));
    }
    chars_between(s, from, to)
}

/// Whether two texts hold the same characters.
pub fn chars_equal(a: &[char], b: &[char]) -> (same: bool)
    ensures
        same == (a@ == b@),
{
    if a.len() != b.len() {
        return false;
    }
    let mut i: usize = 0;
    while i < a.len()
        invariant
            a@.len() == b@.len(),
            i <= a@.len(),
            forall|k: int| 0 <= k < i ==> a@[k] == b@[k],
        decreases a@.len() - i,
    {
        if a[i] != b[i] {
            return false;
        }
        i += 1;
    }
    assert(a@ =~= b@);
    true
}

/// The characters of `s` from `from` up to `to`.
pub fn chars_between(s: &[char], from: usize, to: usize) -> (part: Vec<char>)
    requires
        from <= to <= s@.len(),
    ensures
        part@ == s@.subrange(from as int, to as int),
{
    let part = slice_subrange(s, from, to);
    let mut out: Vec<char> = Vec::new();
    out.extend_from_slice(part);
    assert(out@ =~= part@);
    out
}

} // verus!
