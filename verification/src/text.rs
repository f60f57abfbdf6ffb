//! Character-level text utilities shared by the tag codec, the search
//! sanitizer and the query composer: conversion between strings and character
//! vectors, and whitespace trimming.
//!
//! Whitespace is the Unicode whitespace set throughout — the characters
//! with the White_Space property, as `char::is_whitespace` decides it.
//! This is the one consistent whitespace policy of the whole pipeline.

use vstd::prelude::*;
use vstd::string::StrSliceExecFns;

verus! {

/// Unicode whitespace: the characters with the White_Space property —
/// tab through carriage return, space, next line, no-break space, ogham
/// space mark, the en-quad..hair-space range, the line and paragraph
/// separators, narrow no-break space, medium mathematical space, and
/// ideographic space.
pub open spec fn is_space(c: char) -> bool {
    ('\u{9}' <= c && c <= '\u{d}') || c == ' ' || c == '\u{85}' || c == '\u{a0}' || c == '\u{1680}'
        || ('\u{2000}' <= c && c <= '\u{200a}') || c == '\u{2028}' || c == '\u{2029}' || c
        == '\u{202f}' || c == '\u{205f}' || c == '\u{3000}'
}

/// `s` without its leading whitespace.
pub open spec fn trim_left(s: Seq<char>) -> Seq<char>
    decreases s.len(),
{
    if s.len() > 0 && is_space(s[0]) {
        trim_left(s.drop_first())
    } else {
        s
    }
}

/// `s` without its trailing whitespace.
pub open spec fn trim_right(s: Seq<char>) -> Seq<char>
    decreases s.len(),
{
    if s.len() > 0 && is_space(s.last()) {
        trim_right(s.drop_last())
    } else {
        s
    }
}

/// `s` without its leading and trailing whitespace.
pub open spec fn trim_spec(s: Seq<char>) -> Seq<char> {
    trim_right(trim_left(s))
}

/// A blank string — empty or all whitespace — is treated as an absent
/// parameter by every operation of the pipeline.
pub open spec fn blank(s: Seq<char>) -> bool {
    trim_spec(s).len() == 0
}

/// When non-empty, a left-trimmed sequence starts with a non-whitespace
/// character.
pub proof fn lemma_trim_left_first(s: Seq<char>)
    ensures
        trim_left(s).len() > 0 ==> !is_space(trim_left(s)[0]),
    decreases s.len(),
{
    if s.len() > 0 && is_space(s[0]) {
        lemma_trim_left_first(s.drop_first());
    }
}

/// When non-empty, a right-trimmed sequence ends with a non-whitespace
/// character.
pub proof fn lemma_trim_right_last(s: Seq<char>)
    ensures
        trim_right(s).len() > 0 ==> !is_space(trim_right(s).last()),
    decreases s.len(),
{
    if s.len() > 0 && is_space(s.last()) {
        lemma_trim_right_last(s.drop_last());
    }
}

/// Right-trimming keeps a prefix of the original characters.
pub proof fn lemma_trim_right_prefix(s: Seq<char>)
    ensures
        trim_right(s).len() <= s.len(),
        forall|i: int| 0 <= i < trim_right(s).len() ==> trim_right(s)[i] == s[i],
    decreases s.len(),
{
    if s.len() > 0 && is_space(s.last()) {
        lemma_trim_right_prefix(s.drop_last());
        assert forall|i: int| 0 <= i < trim_right(s).len() implies trim_right(s)[i] == s[i] by {
            assert(trim_right(s)[i] == trim_right(s.drop_last())[i]);
            assert(s.drop_last()[i] == s[i]);
        }
    }
}

/// Trimming is idempotent: a trimmed sequence trims to itself.
pub proof fn lemma_trim_idempotent(s: Seq<char>)
    ensures
        trim_spec(trim_spec(s)) == trim_spec(s),
{
    lemma_trim_left_first(s);
    lemma_trim_right_last(trim_left(s));
    lemma_trim_right_prefix(trim_left(s));
    let y = trim_spec(s);
    if y.len() > 0 {
        assert(y[0] == trim_left(s)[0]);
        assert(!is_space(y[0]));
        assert(trim_left(y) == y);
        assert(!is_space(y.last()));
        assert(trim_right(y) == y);
    } else {
        assert(trim_left(y) == y);
        assert(trim_right(y) == y);
    }
}

/// Decides `is_space` on a concrete character.
pub fn is_space_char(c: char) -> (b: bool)
    ensures
        b == is_space(c),
{
    ('\u{9}' <= c && c <= '\u{d}') || c == ' ' || c == '\u{85}' || c == '\u{a0}' || c == '\u{1680}'
        || ('\u{2000}' <= c && c <= '\u{200a}') || c == '\u{2028}' || c == '\u{2029}' || c
        == '\u{202f}' || c == '\u{205f}' || c == '\u{3000}'
}

/// The characters of `s`, in order.
pub fn to_chars(s: &str) -> (v: Vec<char>)
    ensures
        v@ == s@,
{
    let n = s.unicode_len();
    let mut v: Vec<char> = Vec::new();
    let mut i: usize = 0;
    while i < n
        invariant
            i <= n,
            n == s@.len(),
            v@ == s@.take(i as int),
        decreases n - i,
    {
        let c = s.get_char(i);
        v.push(c);
        i = i + 1;
        proof {
            assert(v@ =~= s@.take(i as int));
        }
    }
    proof {
        assert(v@ =~= s@);
    }
    v
}

/// Relies on `String::push`: appends the given character to the end of the
/// string.
pub assume_specification[ String::push ](s: &mut String, ch: char)
    ensures
        final(s)@ == old(s)@.push(ch),
;

/// Builds the string holding exactly the characters of `v`.
pub fn from_chars(v: &Vec<char>) -> (s: String)
    ensures
        s@ == v@,
{
    let mut s = String::new();
    let mut i: usize = 0;
    while i < v.len()
        invariant
            i <= v.len(),
            s@ == v@.take(i as int),
        decreases v.len() - i,
    {
        s.push(v[i]);
        i = i + 1;
        proof {
            assert(s@ =~= v@.take(i as int));
        }
    }
    proof {
        assert(s@ =~= v@);
    }
    s
}

/// `v` without its leading and trailing whitespace characters.
pub fn trim_chars(v: &Vec<char>) -> (r: Vec<char>)
    ensures
        r@ == trim_spec(v@),
{
    let n = v.len();
    let mut start: usize = 0;
    proof {
        assert(v@.skip(0) =~= v@);
    }
    while start < n && is_space_char(v[start])
        invariant
            start <= n,
            n == v.len(),
            trim_left(v@) == trim_left(v@.skip(start as int)),
        decreases n - start,
    {
        proof {
            assert(v@.skip(start as int)[0] == v@[start as int]);
            assert(v@.skip(start as int).drop_first() =~= v@.skip(start as int + 1));
        }
        start = start + 1;
    }
    proof {
        if start < n {
            assert(v@.skip(start as int)[0] == v@[start as int]);
        }
        assert(trim_left(v@) == v@.skip(start as int));
        assert(v@.subrange(start as int, n as int) =~= v@.skip(start as int));
    }
    let mut end: usize = n;
    while end > start && is_space_char(v[end - 1])
        invariant
            start <= end <= n,
            n == v.len(),
            trim_left(v@) == v@.skip(start as int),
            trim_spec(v@) == trim_right(v@.subrange(start as int, end as int)),
        decreases end,
    {
        proof {
            assert(v@.subrange(start as int, end as int).last() == v@[end - 1]);
            assert(v@.subrange(start as int, end as int).drop_last() =~= v@.subrange(
                start as int,
                end as int - 1,
            ));
        }
        end = end - 1;
    }
    proof {
        if end > start {
            assert(v@.subrange(start as int, end as int).last() == v@[end - 1]);
        }
        assert(trim_spec(v@) == v@.subrange(start as int, end as int));
    }
    let mut r: Vec<char> = Vec::new();
    let mut i: usize = start;
    proof {
        assert(r@ =~= v@.subrange(start as int, start as int));
    }
    while i < end
        invariant
            start <= i <= end <= n,
            n == v.len(),
            trim_spec(v@) == v@.subrange(start as int, end as int),
            r@ == v@.subrange(start as int, i as int),
        decreases end - i,
    {
        r.push(v[i]);
        i = i + 1;
        proof {
            assert(r@ =~= v@.subrange(start as int, i as int));
        }
    }
    r
}

/// Decides whether `s` is blank (empty or all whitespace).
pub fn is_blank(s: &str) -> (b: bool)
    ensures
        b == blank(s@),
{
    let v = to_chars(s);
    let t = trim_chars(&v);
    t.len() == 0
}

} // verus!
