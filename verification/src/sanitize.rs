//! Search-text sanitizer.
//!
//! Raw user search text is cleaned before it reaches the full-text engine:
//! only characters that are harmless or meaningful in the engine's query
//! syntax survive; everything else is dropped silently.

use vstd::prelude::*;
use crate::text::from_chars;
use crate::text::is_space;
use crate::text::is_space_char;
use crate::text::to_chars;

verus! {

/// A character the sanitizer keeps: ASCII alphanumerics, Unicode
/// whitespace, and the five characters that carry meaning in the full-text
/// query syntax — `-`, `_`, `|`, `*`, `"` (word joiners, boolean OR, prefix
/// wildcard, phrase quoting). Alphanumeric is the ASCII definition, applied
/// consistently: a non-ASCII letter or digit is dropped.
pub open spec fn keep_char(c: char) -> bool {
    ('0' <= c && c <= '9') || ('A' <= c && c <= 'Z') || ('a' <= c && c <= 'z') || is_space(c) || c
        == '-' || c == '_' || c == '|' || c == '*' || c == '"'
}

/// The sanitized form of `s`: the characters of `s` that `keep_char` admits,
/// in their original order. Whitespace is neither trimmed nor collapsed
/// beyond what dropping characters naturally does.
pub open spec fn sanitize_spec(s: Seq<char>) -> Seq<char> {
    s.filter(|c: char| keep_char(c))
}

/// Decides `keep_char` on a concrete character.
pub fn keep_char_exec(c: char) -> (b: bool)
    ensures
        b == keep_char(c),
{
    ('0' <= c && c <= '9') || ('A' <= c && c <= 'Z') || ('a' <= c && c <= 'z') || is_space_char(c)
        || c == '-' || c == '_' || c == '|' || c == '*' || c == '"'
}

/// Cleans raw user search text: retains exactly the characters `keep_char`
/// admits and drops every other character silently, without error.
pub fn sanitize_query(s: &str) -> (r: String)
    ensures
        r@ == sanitize_spec(s@),
{
    let v = to_chars(s);
    let mut kept: Vec<char> = Vec::new();
    let mut i: usize = 0;
    proof {
        reveal(Seq::filter);
        assert(sanitize_spec(s@.take(0)) =~= Seq::<char>::empty());
    }
    while i < v.len()
        invariant
            i <= v.len(),
            v@ == s@,
            kept@ == sanitize_spec(s@.take(i as int)),
        decreases v.len() - i,
    {
        if keep_char_exec(v[i]) {
            kept.push(v[i]);
        }
        i = i + 1;
        proof {
            reveal(Seq::filter);
            assert(s@.take(i as int).drop_last() =~= s@.take(i as int - 1));
            assert(s@.take(i as int).last() == s@[i as int - 1]);
            assert(kept@ == sanitize_spec(s@.take(i as int)));
        }
    }
    proof {
        assert(s@.take(v@.len() as int) =~= s@);
    }
    from_chars(&kept)
}

} // verus!
