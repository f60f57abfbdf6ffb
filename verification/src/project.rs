//! Result projector.
//!
//! Turns the ordered batch of raw rows a query fetched into view-ready
//! items. A row whose mandatory columns cannot be decoded is dropped — the
//! rest of the batch survives and closes the gap — and every item's score
//! is derived from its zero-based position in the produced result
//! sequence, whose order follows the fetched order and is never reordered
//! here.

use vstd::prelude::*;
use vstd::string::StrSliceExecFns;
use crate::score::calculate_score;
use crate::score::score_spec;
use crate::tags::parse_tags;
use crate::tags::parse_tags_spec;
use crate::tags::tag_summary;
use crate::tags::tag_summary_spec;

verus! {

/// A raw persisted row as the store hands it over: every column optional,
/// so that a malformed row can be observed instead of aborting the batch.
pub struct RawRow {
    pub id: Option<i64>,
    pub title: Option<String>,
    pub city: Option<String>,
    pub tags: Option<String>,
}

/// The transient, view-ready projection of one listing. Constructed fresh
/// per request and never persisted.
pub struct ListingItem {
    pub id: i64,
    pub title: String,
    pub city: String,
    pub tags: Vec<String>,
    pub tag_summary: String,
    pub has_tags: bool,
    pub score: i64,
}

/// The error for a single row that cannot be minimally decoded. It is
/// recovered locally: the row is skipped, the batch goes on.
#[derive(Clone, Copy, Debug, PartialEq, Eq, Structural)]
pub enum RowError {
    MalformedRow,
}

/// A row is decodable when its mandatory `id` and `title` columns are
/// present.
pub open spec fn decodable(row: RawRow) -> bool {
    row.id is Some && row.title is Some
}

/// The displayed city: the row's city when non-empty — passed through
/// unchanged, without trimming — else the placeholder "city not provided"
/// (in Chinese).
pub open spec fn city_of(city: Option<String>) -> Seq<char> {
    match city {
        Some(c) => if c@.len() > 0 {
            c@
        } else {
            "城市未填写"@
        },
        None => "城市未填写"@,
    }
}

/// The raw tag text of a row: an absent tag column reads as empty text.
pub open spec fn tags_text(tags: Option<String>) -> Seq<char> {
    match tags {
        Some(t) => t@,
        None => Seq::empty(),
    }
}

/// How a view item relates to the row it was decoded from and to the
/// item's zero-based position in the produced result sequence.
pub open spec fn item_matches(item: ListingItem, row: RawRow, pos: int) -> bool {
    &&& row.id matches Some(id) && item.id == id
    &&& row.title matches Some(t) && item.title@ == t@
    &&& item.city@ == city_of(row.city)
    &&& item.tags.deep_view() == parse_tags_spec(tags_text(row.tags))
    &&& item.has_tags == (parse_tags_spec(tags_text(row.tags)).len() > 0)
    &&& item.tag_summary@ == tag_summary_spec(parse_tags_spec(tags_text(row.tags)))
    &&& item.score == score_spec(pos)
}

/// Decodes one raw row into the view item standing at zero-based position
/// `index` of the produced result sequence. A row missing a mandatory
/// column is malformed; nothing else fails.
pub fn row_to_listing_item(row: &RawRow, index: usize) -> (r: Result<ListingItem, RowError>)
    ensures
        r is Ok <==> decodable(*row),
        r matches Ok(item) ==> item_matches(item, *row, index as int),
        r is Err ==> r == Err::<ListingItem, RowError>(RowError::MalformedRow),
{
    let id: i64 = match &row.id {
        Some(i) => *i,
        None => {
            return Err(RowError::MalformedRow);
        },
    };
    let title: String = match &row.title {
        Some(t) => t.clone(),
        None => {
            return Err(RowError::MalformedRow);
        },
    };
    let city: String = match &row.city {
        Some(c) => if c.as_str().is_empty() {
            "城市未填写".to_owned()
        } else {
            c.clone()
        },
        None => "城市未填写".to_owned(),
    };
    let tags_arg: Option<String> = match &row.tags {
        Some(t) => Some(t.clone()),
        None => None,
    };
    let tags = parse_tags(tags_arg);
    let has_tags = tags.len() > 0;
    proof {
        assert(tags.deep_view().len() == tags@.len());
    }
    let summary = tag_summary(&tags);
    let score = calculate_score(index);
    Ok(ListingItem { id, title, city, tags, tag_summary: summary, has_tags, score })
}

/// The positions of the decodable rows of a batch, in fetched order: where
/// each produced item's columns come from. A malformed row is dropped and
/// the items after it close the gap.
pub open spec fn kept_positions(rows: Seq<RawRow>) -> Seq<int>
    decreases rows.len(),
{
    if rows.len() == 0 {
        Seq::empty()
    } else {
        let rest = kept_positions(rows.drop_last());
        if decodable(rows.last()) {
            rest.push(rows.len() - 1)
        } else {
            rest
        }
    }
}

/// The positions of the undecodable rows of a batch, in fetched order.
pub open spec fn dropped_positions(rows: Seq<RawRow>) -> Seq<int>
    decreases rows.len(),
{
    if rows.len() == 0 {
        Seq::empty()
    } else {
        let rest = dropped_positions(rows.drop_last());
        if !decodable(rows.last()) {
            rest.push(rows.len() - 1)
        } else {
            rest
        }
    }
}

/// The fetched positions a vector of indices stands for.
pub open spec fn positions_view(v: Seq<usize>) -> Seq<int> {
    v.map_values(|p: usize| p as int)
}

/// Reports the positions of the malformed rows of a batch, in fetched
/// order, so the caller can log one warning per dropped row while the
/// batch itself survives.
pub fn malformed_positions(rows: &Vec<RawRow>) -> (dropped: Vec<usize>)
    ensures
        positions_view(dropped@) == dropped_positions(rows@),
{
    let mut dropped: Vec<usize> = Vec::new();
    let mut i: usize = 0;
    proof {
        assert(rows@.take(0) =~= Seq::<RawRow>::empty());
        assert(positions_view(dropped@) =~= dropped_positions(rows@.take(0)));
    }
    while i < rows.len()
        invariant
            i <= rows.len(),
            positions_view(dropped@) == dropped_positions(rows@.take(i as int)),
        decreases rows.len() - i,
    {
        if rows[i].id.is_none() || rows[i].title.is_none() {
            dropped.push(i);
        }
        i = i + 1;
        proof {
            assert(rows@.take(i as int).drop_last() =~= rows@.take(i as int - 1));
            assert(rows@.take(i as int).last() == rows@[i as int - 1]);
            assert(positions_view(dropped@) =~= dropped_positions(rows@.take(i as int)));
        }
    }
    proof {
        assert(rows@.take(rows.len() as int) =~= rows@);
    }
    dropped
}

/// The `j`-th projected item carries the columns of the `j`-th decodable
/// row and scores by `j`, its position in the output.
pub open spec fn item_ok_at(rows: Seq<RawRow>, items: Seq<ListingItem>, j: int) -> bool {
    let p = kept_positions(rows)[j];
    0 <= p < rows.len() && item_matches(items[j], rows[p], j)
}

/// How a projected batch relates to the fetched rows: one item per
/// decodable row, in fetched order.
pub open spec fn projected(rows: Seq<RawRow>, items: Seq<ListingItem>) -> bool {
    &&& items.len() == kept_positions(rows).len()
    &&& forall|j: int| 0 <= j < items.len() ==> #[trigger] item_ok_at(rows, items, j)
}

/// Projects an ordered batch of raw rows into view items: malformed rows
/// are dropped, the rest keep their fetched order, and each item's score
/// comes from its position in the produced sequence, leaving no score gap
/// after a dropped row.
pub fn project_rows(rows: &Vec<RawRow>) -> (items: Vec<ListingItem>)
    ensures
        projected(rows@, items@),
{
    let mut items: Vec<ListingItem> = Vec::new();
    let mut i: usize = 0;
    proof {
        assert(rows@.take(0) =~= Seq::<RawRow>::empty());
    }
    while i < rows.len()
        invariant
            i <= rows.len(),
            projected(rows@.take(i as int), items@),
        decreases rows.len() - i,
    {
        let ghost old_items = items@;
        let ghost tk1 = rows@.take(i as int);
        let ghost tk = rows@.take(i as int + 1);
        proof {
            assert(tk.drop_last() =~= tk1);
            assert(tk.last() == rows@[i as int]);
        }
        let r = row_to_listing_item(&rows[i], items.len());
        match r {
            Ok(item) => {
                items.push(item);
                proof {
                    assert(kept_positions(tk) == kept_positions(tk1).push(i as int));
                    assert forall|j: int| 0 <= j < items@.len() implies #[trigger] item_ok_at(
                        tk,
                        items@,
                        j,
                    ) by {
                        if j == items@.len() - 1 {
                            assert(kept_positions(tk)[j] == i as int);
                            assert(items@[j] == item);
                            assert(tk[i as int] == rows@[i as int]);
                        } else {
                            assert(item_ok_at(tk1, old_items, j));
                            let p = kept_positions(tk1)[j];
                            assert(kept_positions(tk)[j] == p);
                            assert(items@[j] == old_items[j]);
                            assert(tk[p] == tk1[p]);
                        }
                    }
                }
            },
            Err(_) => {
                proof {
                    assert(kept_positions(tk) == kept_positions(tk1));
                    assert forall|j: int| 0 <= j < items@.len() implies #[trigger] item_ok_at(
                        tk,
                        items@,
                        j,
                    ) by {
                        assert(item_ok_at(tk1, old_items, j));
                        let p = kept_positions(tk1)[j];
                        assert(tk[p] == tk1[p]);
                    }
                }
            },
        }
        i = i + 1;
    }
    proof {
        assert(rows@.take(rows.len() as int) =~= rows@);
    }
    items
}

} // verus!
