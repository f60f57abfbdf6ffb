//! Discovery service.
//!
//! The three stateless operations — browse, search, filter-by-city — are
//! each a single request/response cycle: decide the query shape from the
//! request parameters, let the caller run it against the store, then
//! project whatever came back. The decisions and the projection live here,
//! verified; executing the query is the caller's work.

use vstd::prelude::*;
use crate::project::project_rows;
use crate::project::projected;
use crate::project::ListingItem;
use crate::project::RawRow;
use crate::query::effective_filter;
use crate::query::ListingQuery;
use crate::sanitize::sanitize_query;
use crate::sanitize::sanitize_spec;
use crate::text::blank;
use crate::text::from_chars;
use crate::text::is_blank;
use crate::text::to_chars;
use crate::text::trim_chars;
use crate::text::trim_spec;

verus! {

/// Failure of a whole discovery operation: the store could not answer the
/// query. It is not retried here; the request fails as a unit.
#[derive(Clone, Copy, Debug, PartialEq, Eq, Structural)]
pub enum DiscoveryError {
    StoreUnavailable,
}

/// The text of an optional request parameter: absent reads as empty.
pub open spec fn opt_text(p: Option<String>) -> Seq<char> {
    match p {
        Some(s) => s@,
        None => Seq::empty(),
    }
}

/// The view of an optional request parameter.
pub open spec fn opt_view(p: Option<String>) -> Option<Seq<char>> {
    match p {
        Some(s) => Some(s@),
        None => None,
    }
}

/// Composes the query shape of `browse`: the city-filtered shape when a
/// usable filter is supplied, else the unfiltered shape — a blank filter
/// falls back to browsing everything.
pub fn browse_query(city_filter: Option<String>) -> (q: ListingQuery)
    ensures
        match effective_filter(opt_view(city_filter)) {
            None => q is Browse,
            Some(cv) => q matches ListingQuery::BrowseByCity { city } && city@ == cv,
        },
{
    match city_filter {
        Some(c) => {
            if is_blank(c.as_str()) {
                ListingQuery::Browse
            } else {
                ListingQuery::BrowseByCity { city: c }
            }
        },
        None => ListingQuery::Browse,
    }
}

/// Composes the query shape of `search`. A blank query text short-circuits
/// — no shape is produced, so the store is never consulted and the result
/// is empty. Otherwise the trimmed text is sanitized and searched, with
/// the effective city filter applied.
pub fn search_query(query_text: Option<String>, city_filter: Option<String>) -> (r: Option<
    ListingQuery,
>)
    ensures
        r is None <==> blank(opt_text(query_text)),
        r matches Some(q) ==> {
            &&& q matches ListingQuery::Search { text, city }
            &&& text@ == sanitize_spec(trim_spec(opt_text(query_text)))
            &&& match effective_filter(opt_view(city_filter)) {
                None => city is None,
                Some(cv) => city matches Some(cs) && cs@ == cv,
            }
        },
{
    let qraw: String = match query_text {
        Some(s) => s,
        None => String::new(),
    };
    let v = to_chars(qraw.as_str());
    let t = trim_chars(&v);
    if t.len() == 0 {
        return None;
    }
    let trimmed = from_chars(&t);
    let text = sanitize_query(trimmed.as_str());
    let city: Option<String> = match city_filter {
        Some(c) => {
            if is_blank(c.as_str()) {
                None
            } else {
                Some(c)
            }
        },
        None => None,
    };
    Some(ListingQuery::Search { text, city })
}

/// Composes the query shape of `filterByCity`. Without a usable city
/// filter the operation produces no shape and its result is the empty
/// sequence — unlike `browse`, it does not fall back to unfiltered
/// results.
pub fn filter_by_city_query(city_filter: Option<String>) -> (r: Option<ListingQuery>)
    ensures
        match effective_filter(opt_view(city_filter)) {
            None => r is None,
            Some(cv) => r matches Some(q) && q matches ListingQuery::BrowseByCity { city }
                && city@ == cv,
        },
{
    match city_filter {
        Some(c) => {
            if is_blank(c.as_str()) {
                None
            } else {
                Some(ListingQuery::BrowseByCity { city: c })
            }
        },
        None => None,
    }
}

/// Finishes a discovery operation once the store has answered. A failed
/// query — `None` — becomes `StoreUnavailable`; fetched rows are projected
/// with malformed rows skipped, so success always carries a (possibly
/// empty) batch.
pub fn complete_fetch(fetched: Option<Vec<RawRow>>) -> (r: Result<
    Vec<ListingItem>,
    DiscoveryError,
>)
    ensures
        fetched matches Some(rows) ==> r matches Ok(items) && projected(rows@, items@),
        fetched is None ==> r == Err::<Vec<ListingItem>, DiscoveryError>(
            DiscoveryError::StoreUnavailable,
        ),
{
    match fetched {
        Some(rows) => Ok(project_rows(&rows)),
        None => Err(DiscoveryError::StoreUnavailable),
    }
}

/// Law: a blank city filter is the same as no city filter at all, so
/// browsing with a blank filter browses unfiltered.
pub proof fn lemma_blank_filter_is_absent(c: Seq<char>)
    requires
        blank(c),
    ensures
        effective_filter(Some(c)) == effective_filter(None::<Seq<char>>),
{
}

} // verus!
