//! Tag codec.
//!
//! Listings carry a denormalized comma-separated tag field. Parsing splits it
//! on `,`, trims each segment, discards the empty segments and preserves the
//! relative order of the rest, without deduplication. The display summary
//! joins the parsed tags with `", "`, or falls back to a fixed placeholder
//! when there are none.

use vstd::prelude::*;
use vstd::string::StringExecFns;
use crate::text::from_chars;
use crate::text::is_space;
use crate::text::lemma_trim_idempotent;
use crate::text::to_chars;
use crate::text::trim_chars;
use crate::text::trim_left;
use crate::text::trim_right;
use crate::text::trim_spec;

verus! {

/// The comma-separated segments of `s`, in order. Splitting the empty
/// sequence yields one empty segment; every comma opens a new segment.
pub open spec fn comma_split(s: Seq<char>) -> Seq<Seq<char>>
    decreases s.len(),
{
    if s.len() == 0 {
        seq![Seq::<char>::empty()]
    } else if s[0] == ',' {
        seq![Seq::<char>::empty()] + comma_split(s.drop_first())
    } else {
        let rest = comma_split(s.drop_first());
        seq![seq![s[0]] + rest[0]] + rest.drop_first()
    }
}

/// Trims each raw segment and keeps the non-empty results, in order.
pub open spec fn tags_of(raw: Seq<Seq<char>>) -> Seq<Seq<char>>
    decreases raw.len(),
{
    if raw.len() == 0 {
        Seq::empty()
    } else {
        let t = trim_spec(raw[0]);
        let rest = tags_of(raw.drop_first());
        if t.len() > 0 {
            seq![t] + rest
        } else {
            rest
        }
    }
}

/// The tags of a raw tag field: split on `,`, trim each segment, drop the
/// empty ones, keep the order.
pub open spec fn parse_tags_spec(s: Seq<char>) -> Seq<Seq<char>> {
    tags_of(comma_split(s))
}

proof fn lemma_comma_split_nonempty(s: Seq<char>)
    ensures
        comma_split(s).len() >= 1,
    decreases s.len(),
{
    if s.len() != 0 {
        lemma_comma_split_nonempty(s.drop_first());
    }
}

proof fn lemma_tags_of_add(a: Seq<Seq<char>>, b: Seq<Seq<char>>)
    ensures
        tags_of(a + b) == tags_of(a) + tags_of(b),
    decreases a.len(),
{
    if a.len() == 0 {
        assert(a + b =~= b);
        assert(tags_of(a) + tags_of(b) =~= tags_of(b));
    } else {
        assert((a + b).len() > 0);
        assert((a + b)[0] == a[0]);
        assert((a + b).drop_first() =~= a.drop_first() + b);
        lemma_tags_of_add(a.drop_first(), b);
        if trim_spec(a[0]).len() > 0 {
            assert(seq![trim_spec(a[0])] + (tags_of(a.drop_first()) + tags_of(b)) =~= (seq![
                trim_spec(a[0]),
            ] + tags_of(a.drop_first())) + tags_of(b));
        }
    }
}

/// Parses the raw tag field: splits on `,`, trims each segment, discards
/// empty segments, preserves the relative order of the rest. An absent field
/// parses as no tags.
pub fn parse_tags(tags_str: Option<String>) -> (tags: Vec<String>)
    ensures
        tags.deep_view() == parse_tags_spec(
            match tags_str {
                Some(s) => s@,
                None => Seq::<char>::empty(),
            },
        ),
{
    let raw: String = match tags_str {
        Some(s) => s,
        None => String::new(),
    };
    let chars = to_chars(raw.as_str());
    let ghost s: Seq<char> = raw@;
    let n = chars.len();
    let mut out: Vec<String> = Vec::new();
    let mut cur: Vec<char> = Vec::new();
    let ghost mut done: Seq<Seq<char>> = Seq::empty();
    let mut i: usize = 0;
    proof {
        assert(s.skip(0) =~= s);
        lemma_comma_split_nonempty(s);
        let rest = comma_split(s);
        assert(cur@ + rest[0] =~= rest[0]);
        assert(done + seq![rest[0]] + rest.drop_first() =~= rest);
    }
    while i < n
        invariant
            i <= n,
            n == chars.len(),
            chars@ == s,
            comma_split(s) == done + seq![cur@ + comma_split(s.skip(i as int))[0]] + comma_split(
                s.skip(i as int),
            ).drop_first(),
            out.deep_view() == tags_of(done),
        decreases n - i,
    {
        let c = chars[i];
        proof {
            assert(s.skip(i as int).len() > 0);
            assert(s.skip(i as int)[0] == s[i as int]);
            assert(s.skip(i as int).drop_first() =~= s.skip(i as int + 1));
        }
        if c == ',' {
            let ghost cur_view = cur@;
            let ghost rest2 = comma_split(s.skip(i as int + 1));
            proof {
                lemma_comma_split_nonempty(s.skip(i as int + 1));
                // the segment just closed is exactly `cur`
                assert(comma_split(s.skip(i as int))[0] =~= Seq::<char>::empty());
                assert(cur_view + comma_split(s.skip(i as int))[0] =~= cur_view);
                assert(comma_split(s.skip(i as int)).drop_first() =~= rest2);
                assert(done + seq![cur_view] + (seq![rest2[0]] + rest2.drop_first()) =~= done
                    + seq![cur_view] + rest2);
                assert((done + seq![cur_view]) + seq![Seq::<char>::empty() + rest2[0]]
                    + rest2.drop_first() =~~= done + seq![cur_view] + (seq![rest2[0]]
                    + rest2.drop_first()));
            }
            let t = trim_chars(&cur);
            let ghost old_out = out.deep_view();
            if t.len() > 0 {
                let tag = from_chars(&t);
                out.push(tag);
            }
            proof {
                lemma_tags_of_add(done, seq![cur_view]);
                assert(seq![cur_view].drop_first() =~= Seq::<Seq<char>>::empty());
                assert(seq![cur_view][0] == cur_view);
                assert(tags_of(Seq::<Seq<char>>::empty()) =~= Seq::<Seq<char>>::empty());
                assert(done.push(cur_view) =~= done + seq![cur_view]);
                if trim_spec(cur_view).len() > 0 {
                    assert(tags_of(seq![cur_view]) =~= seq![trim_spec(cur_view)]);
                    assert(out.deep_view() =~~= old_out + seq![trim_spec(cur_view)]);
                } else {
                    assert(tags_of(seq![cur_view]) =~= Seq::<Seq<char>>::empty());
                    assert(tags_of(done) + tags_of(seq![cur_view]) =~= tags_of(done));
                }
                done = done.push(cur_view);
            }
            cur = Vec::new();
            proof {
                assert(cur@ + rest2[0] =~= Seq::<char>::empty() + rest2[0]);
            }
        } else {
            let ghost rest2 = comma_split(s.skip(i as int + 1));
            proof {
                lemma_comma_split_nonempty(s.skip(i as int + 1));
                assert(comma_split(s.skip(i as int))[0] == seq![s[i as int]] + rest2[0]);
                assert(comma_split(s.skip(i as int)).drop_first() =~= rest2.drop_first());
                assert(cur@.push(s[i as int]) + rest2[0] =~= cur@ + (seq![s[i as int]]
                    + rest2[0]));
            }
            cur.push(c);
        }
        i = i + 1;
    }
    proof {
        assert(s.skip(n as int) =~= Seq::<char>::empty());
        let rest = comma_split(s.skip(n as int));
        assert(rest[0] =~= Seq::<char>::empty());
        assert(cur@ + rest[0] =~= cur@);
        assert(done + seq![cur@ + rest[0]] + rest.drop_first() =~~= done + seq![cur@]);
    }
    let t = trim_chars(&cur);
    let ghost old_out = out.deep_view();
    if t.len() > 0 {
        let tag = from_chars(&t);
        out.push(tag);
    }
    proof {
        lemma_tags_of_add(done, seq![cur@]);
        assert(seq![cur@].drop_first() =~= Seq::<Seq<char>>::empty());
        assert(seq![cur@][0] == cur@);
        assert(tags_of(Seq::<Seq<char>>::empty()) =~= Seq::<Seq<char>>::empty());
        assert(done.push(cur@) =~= done + seq![cur@]);
        if trim_spec(cur@).len() > 0 {
            assert(tags_of(seq![cur@]) =~= seq![trim_spec(cur@)]);
            assert(out.deep_view() =~~= old_out + seq![trim_spec(cur@)]);
        } else {
            assert(tags_of(seq![cur@]) =~= Seq::<Seq<char>>::empty());
            assert(tags_of(done) + tags_of(seq![cur@]) =~= tags_of(done));
        }
        assert(out.deep_view() == tags_of(comma_split(s)));
    }
    out
}

/// The tags joined with `", "`; an empty tag list joins to the empty string.
pub open spec fn join_tags(tags: Seq<Seq<char>>) -> Seq<char>
    decreases tags.len(),
{
    if tags.len() == 0 {
        Seq::empty()
    } else if tags.len() == 1 {
        tags[0]
    } else {
        tags[0] + seq![',', ' '] + join_tags(tags.drop_first())
    }
}

proof fn lemma_join_push(a: Seq<Seq<char>>, x: Seq<char>)
    ensures
        join_tags(a.push(x)) == if a.len() == 0 {
            x
        } else {
            join_tags(a) + seq![',', ' '] + x
        },
    decreases a.len(),
{
    if a.len() == 0 {
        assert(a.push(x).len() == 1);
        assert(a.push(x)[0] == x);
    } else {
        lemma_join_push(a.drop_first(), x);
        assert(a.push(x).drop_first() =~= a.drop_first().push(x));
        assert(a.push(x)[0] == a[0]);
        if a.len() == 1 {
            assert(a.drop_first().len() == 0);
            assert(join_tags(a) == a[0]);
        } else {
            assert((a[0] + seq![',', ' '] + (join_tags(a.drop_first()) + seq![',', ' '] + x)) =~= (
            (a[0] + seq![',', ' '] + join_tags(a.drop_first())) + seq![',', ' '] + x));
        }
    }
}

/// Joins the tags with `", "`.
pub fn join_tag_list(tags: &Vec<String>) -> (r: String)
    ensures
        r@ == join_tags(tags.deep_view()),
{
    let mut r = String::new();
    let mut i: usize = 0;
    proof {
        assert(tags.deep_view().take(0) =~= Seq::<Seq<char>>::empty());
    }
    while i < tags.len()
        invariant
            i <= tags.len(),
            r@ == join_tags(tags.deep_view().take(i as int)),
        decreases tags.len() - i,
    {
        if i > 0 {
            r.append(", ");
        }
        r.append(tags[i].as_str());
        i = i + 1;
        proof {
            reveal_strlit(", ");
            assert((", ")@ =~= seq![',', ' ']);
            let d = tags.deep_view();
            assert(d[i as int - 1] == tags@[i as int - 1]@);
            assert(d.take(i as int) =~= d.take(i as int - 1).push(d[i as int - 1]));
            lemma_join_push(d.take(i as int - 1), d[i as int - 1]);
        }
    }
    proof {
        assert(tags.deep_view().take(tags.len() as int) =~= tags.deep_view());
    }
    r
}

/// The display summary of a tag list: the tags joined with `", "`, or the
/// placeholder "no tags yet" (in Chinese) when the list is empty.
pub open spec fn tag_summary_spec(tags: Seq<Seq<char>>) -> Seq<char> {
    if tags.len() == 0 {
        "暂无标签"@
    } else {
        join_tags(tags)
    }
}

/// Builds the display summary of a parsed tag list.
pub fn tag_summary(tags: &Vec<String>) -> (r: String)
    ensures
        r@ == tag_summary_spec(tags.deep_view()),
{
    if tags.len() == 0 {
        "暂无标签".to_owned()
    } else {
        join_tag_list(tags)
    }
}

/// A text free of commas, as every parsed segment is.
pub open spec fn comma_free(t: Seq<char>) -> bool {
    forall|i: int| 0 <= i < t.len() ==> t[i] != ','
}

/// A well-formed tag, in the shape parsing produces: non-empty, already
/// trimmed, and containing no comma.
pub open spec fn well_formed_tag(t: Seq<char>) -> bool {
    t.len() > 0 && trim_spec(t) == t && comma_free(t)
}

proof fn lemma_drop_first_comma_free(t: Seq<char>)
    requires
        comma_free(t),
        t.len() > 0,
    ensures
        comma_free(t.drop_first()),
{
    assert forall|i: int| 0 <= i < t.drop_first().len() implies t.drop_first()[i] != ',' by {
        assert(t.drop_first()[i] == t[i + 1]);
    }
}

proof fn lemma_trim_left_comma_free(t: Seq<char>)
    requires
        comma_free(t),
    ensures
        comma_free(trim_left(t)),
    decreases t.len(),
{
    if t.len() > 0 && is_space(t[0]) {
        lemma_drop_first_comma_free(t);
        lemma_trim_left_comma_free(t.drop_first());
    }
}

proof fn lemma_trim_right_comma_free(t: Seq<char>)
    requires
        comma_free(t),
    ensures
        comma_free(trim_right(t)),
    decreases t.len(),
{
    if t.len() > 0 && is_space(t.last()) {
        assert(comma_free(t.drop_last())) by {
            assert forall|i: int| 0 <= i < t.drop_last().len() implies t.drop_last()[i] != ',' by {
                assert(t.drop_last()[i] == t[i]);
            }
        }
        lemma_trim_right_comma_free(t.drop_last());
    }
}

proof fn lemma_comma_split_comma_free(s: Seq<char>)
    ensures
        forall|k: int| 0 <= k < comma_split(s).len() ==> comma_free(#[trigger] comma_split(s)[k]),
    decreases s.len(),
{
    if s.len() == 0 {
        assert(comma_free(comma_split(s)[0]));
    } else if s[0] == ',' {
        lemma_comma_split_comma_free(s.drop_first());
        assert forall|k: int| 0 <= k < comma_split(s).len() implies comma_free(
            #[trigger] comma_split(s)[k],
        ) by {
            if k == 0 {
                assert(comma_split(s)[0] == Seq::<char>::empty());
            } else {
                assert(comma_split(s)[k] == comma_split(s.drop_first())[k - 1]);
            }
        }
    } else {
        lemma_comma_split_nonempty(s.drop_first());
        lemma_comma_split_comma_free(s.drop_first());
        let rest = comma_split(s.drop_first());
        assert forall|k: int| 0 <= k < comma_split(s).len() implies comma_free(
            #[trigger] comma_split(s)[k],
        ) by {
            if k == 0 {
                assert(comma_split(s)[0] == seq![s[0]] + rest[0]);
                assert(comma_free(rest[0]));
                assert forall|i: int| 0 <= i < (seq![s[0]] + rest[0]).len() implies (seq![s[0]]
                    + rest[0])[i] != ',' by {
                    if i == 0 {
                        assert((seq![s[0]] + rest[0])[0] == s[0]);
                    } else {
                        assert((seq![s[0]] + rest[0])[i] == rest[0][i - 1]);
                    }
                }
            } else {
                assert(comma_split(s)[k] == rest.drop_first()[k - 1]);
                assert(rest.drop_first()[k - 1] == rest[k]);
            }
        }
    }
}

proof fn lemma_tags_of_well_formed(raw: Seq<Seq<char>>)
    requires
        forall|k: int| 0 <= k < raw.len() ==> comma_free(#[trigger] raw[k]),
    ensures
        forall|k: int|
            0 <= k < tags_of(raw).len() ==> well_formed_tag(#[trigger] tags_of(raw)[k]),
    decreases raw.len(),
{
    if raw.len() > 0 {
        assert forall|k: int| 0 <= k < raw.drop_first().len() implies comma_free(
            #[trigger] raw.drop_first()[k],
        ) by {
            assert(raw.drop_first()[k] == raw[k + 1]);
        }
        lemma_tags_of_well_formed(raw.drop_first());
        let t = trim_spec(raw[0]);
        let rest = tags_of(raw.drop_first());
        assert(comma_free(raw[0]));
        lemma_trim_left_comma_free(raw[0]);
        lemma_trim_right_comma_free(trim_left(raw[0]));
        lemma_trim_idempotent(raw[0]);
        if t.len() > 0 {
            assert(well_formed_tag(t));
            assert forall|k: int| 0 <= k < tags_of(raw).len() implies well_formed_tag(
                #[trigger] tags_of(raw)[k],
            ) by {
                if k == 0 {
                    assert(tags_of(raw)[0] == t);
                } else {
                    assert(tags_of(raw)[k] == rest[k - 1]);
                }
            }
        } else {
            assert(tags_of(raw) == rest);
        }
    }
}

/// Every parsed tag is well-formed: non-empty, trimmed, comma-free.
pub proof fn lemma_parse_tags_well_formed(s: Seq<char>)
    ensures
        forall|k: int|
            0 <= k < parse_tags_spec(s).len() ==> well_formed_tag(
                #[trigger] parse_tags_spec(s)[k],
            ),
{
    lemma_comma_split_comma_free(s);
    lemma_tags_of_well_formed(comma_split(s));
}

proof fn lemma_comma_split_no_comma(t: Seq<char>)
    requires
        comma_free(t),
    ensures
        comma_split(t) == seq![t],
    decreases t.len(),
{
    if t.len() == 0 {
        assert(t =~= Seq::<char>::empty());
        assert(comma_split(t) =~~= seq![t]);
    } else {
        assert(t[0] != ',');
        lemma_drop_first_comma_free(t);
        lemma_comma_split_no_comma(t.drop_first());
        assert(seq![t[0]] + t.drop_first() =~= t);
        assert((seq![t.drop_first()]).drop_first() =~= Seq::<Seq<char>>::empty());
        assert(comma_split(t) =~~= seq![t]);
    }
}

proof fn lemma_comma_split_concat(t: Seq<char>, r: Seq<char>)
    requires
        comma_free(t),
    ensures
        comma_split(t + seq![','] + r) == seq![t] + comma_split(r),
    decreases t.len(),
{
    let s = t + seq![','] + r;
    if t.len() == 0 {
        assert(s[0] == ',');
        assert(s.drop_first() =~= r);
        assert(t =~= Seq::<char>::empty());
        assert(comma_split(s) =~~= seq![t] + comma_split(r));
    } else {
        assert(t[0] != ',');
        assert(s[0] == t[0]);
        assert(s.drop_first() =~= t.drop_first() + seq![','] + r);
        lemma_drop_first_comma_free(t);
        lemma_comma_split_concat(t.drop_first(), r);
        lemma_comma_split_nonempty(r);
        let rest = comma_split(s.drop_first());
        assert(rest == seq![t.drop_first()] + comma_split(r));
        assert(rest[0] == t.drop_first());
        assert(seq![s[0]] + rest[0] =~= t);
        assert(rest.drop_first() =~= comma_split(r));
        assert(comma_split(s) =~~= seq![t] + comma_split(r));
    }
}

proof fn lemma_trim_space_prefix(y: Seq<char>)
    ensures
        trim_spec(seq![' '] + y) == trim_spec(y),
{
    let s = seq![' '] + y;
    assert(s.len() > 0);
    assert(s[0] == ' ');
    assert(s.drop_first() =~= y);
}

proof fn lemma_tags_of_space_prefix(x: Seq<char>)
    ensures
        tags_of(comma_split(seq![' '] + x)) == tags_of(comma_split(x)),
{
    let s = seq![' '] + x;
    assert(s.len() > 0);
    assert(s[0] == ' ');
    assert(s[0] != ',');
    assert(s.drop_first() =~= x);
    lemma_comma_split_nonempty(x);
    let rest = comma_split(x);
    assert(comma_split(s) == seq![seq![' '] + rest[0]] + rest.drop_first());
    lemma_trim_space_prefix(rest[0]);
    let a = comma_split(s);
    assert(a[0] == seq![' '] + rest[0]);
    assert(a.drop_first() =~= rest.drop_first());
    assert(trim_spec(a[0]) == trim_spec(rest[0]));
    assert(tags_of(a) == tags_of(rest));
}

/// Law: any list of well-formed tags, joined with `", "`, parses back to
/// exactly itself.
pub proof fn lemma_join_reparse(ts: Seq<Seq<char>>)
    requires
        forall|k: int| 0 <= k < ts.len() ==> well_formed_tag(#[trigger] ts[k]),
    ensures
        parse_tags_spec(join_tags(ts)) == ts,
    decreases ts.len(),
{
    if ts.len() == 0 {
        assert(join_tags(ts) == Seq::<char>::empty());
        assert(trim_left(Seq::<char>::empty()) == Seq::<char>::empty());
        assert(trim_right(Seq::<char>::empty()) == Seq::<char>::empty());
        assert(seq![Seq::<char>::empty()].drop_first() =~= Seq::<Seq<char>>::empty());
        assert(tags_of(Seq::<Seq<char>>::empty()) == Seq::<Seq<char>>::empty());
        assert(parse_tags_spec(join_tags(ts)) =~= ts);
    } else if ts.len() == 1 {
        assert(join_tags(ts) == ts[0]);
        assert(well_formed_tag(ts[0]));
        lemma_comma_split_no_comma(ts[0]);
        assert(seq![ts[0]].drop_first() =~= Seq::<Seq<char>>::empty());
        assert(tags_of(Seq::<Seq<char>>::empty()) == Seq::<Seq<char>>::empty());
        assert(tags_of(seq![ts[0]]) =~= seq![ts[0]]);
        assert(seq![ts[0]] =~= ts);
    } else {
        let head = ts[0];
        let tail = ts.drop_first();
        let rest_join = join_tags(tail);
        assert(join_tags(ts) == head + seq![',', ' '] + rest_join);
        let sp_rest = seq![' '] + rest_join;
        assert(head + seq![',', ' '] + rest_join =~= head + seq![','] + sp_rest);
        assert(well_formed_tag(head));
        lemma_comma_split_concat(head, sp_rest);
        assert(comma_split(join_tags(ts)) == seq![head] + comma_split(sp_rest));
        lemma_tags_of_add(seq![head], comma_split(sp_rest));
        assert(seq![head].drop_first() =~= Seq::<Seq<char>>::empty());
        assert(tags_of(Seq::<Seq<char>>::empty()) == Seq::<Seq<char>>::empty());
        assert(tags_of(seq![head]) =~= seq![head]);
        lemma_tags_of_space_prefix(rest_join);
        assert forall|k: int| 0 <= k < tail.len() implies well_formed_tag(
            #[trigger] tail[k],
        ) by {
            assert(tail[k] == ts[k + 1]);
        }
        lemma_join_reparse(tail);
        assert(seq![head] + tail =~= ts);
    }
}

/// Law: serializing and re-parsing is the identity — the tags a parse
/// produced, joined with `", "`, parse back to exactly themselves.
pub proof fn lemma_tags_round_trip(s: Seq<char>)
    ensures
        parse_tags_spec(join_tags(parse_tags_spec(s))) == parse_tags_spec(s),
{
    lemma_parse_tags_well_formed(s);
    lemma_join_reparse(parse_tags_spec(s));
}

} // verus!
