//! Query composer.
//!
//! Builds the query shapes the discovery operations execute against the
//! store. Every shape is constrained to active rows, ordered, and capped at
//! a fixed page size of 20. A supplied city filter is honoured only when it
//! is not blank; city matching is exact-or-prefix, so a partial or
//! hierarchical city name still matches.

use vstd::prelude::*;
use vstd::string::StringExecFns;
use crate::text::blank;

verus! {

/// The three query shapes, each over active rows only, ordered and capped
/// at 20 rows.
pub enum ListingQuery {
    /// All active listings, newest first.
    Browse,
    /// Active listings whose city equals the filter or starts with it,
    /// newest first.
    BrowseByCity { city: String },
    /// Full-text match of the sanitized search text against the parallel
    /// index, joined to active listings by identifier, best match first;
    /// the same city rule applies when a city accompanies the search.
    Search { text: String, city: Option<String> },
}

/// The city filter a query shape actually applies: a blank filter is
/// treated as absent. This rule applies uniformly to every shape.
pub open spec fn effective_filter(city: Option<Seq<char>>) -> Option<Seq<char>> {
    match city {
        Some(c) => if blank(c) {
            None
        } else {
            Some(c)
        },
        None => None,
    }
}

/// The statement text of each query shape.
pub open spec fn sql_spec(q: ListingQuery) -> Seq<char> {
    match q {
        ListingQuery::Browse => "SELECT id, title, city, tags FROM listings WHERE is_active = 1 ORDER BY created_at DESC LIMIT 20"@,
        ListingQuery::BrowseByCity {
            ..
        } => "SELECT id, title, city, tags FROM listings WHERE is_active = 1 AND (city = ? OR city LIKE ?) ORDER BY created_at DESC LIMIT 20"@,
        ListingQuery::Search { city, .. } => match city {
            None => "SELECT l.id, l.title, l.city, l.tags FROM listings_fts f JOIN listings l ON l.id = f.rowid WHERE f MATCH ? AND l.is_active = 1 ORDER BY rank LIMIT 20"@,
            Some(
                _,
            ) => "SELECT l.id, l.title, l.city, l.tags FROM listings_fts f JOIN listings l ON l.id = f.rowid WHERE f MATCH ? AND l.is_active = 1 AND (l.city = ? OR l.city LIKE ?) ORDER BY rank LIMIT 20"@,
        },
    }
}

/// The `?`-placeholder values of each query shape, in placeholder order: the
/// search text binds first; a city filter binds as itself and then as the
/// prefix pattern `city%`.
pub open spec fn binds_spec(q: ListingQuery) -> Seq<Seq<char>> {
    match q {
        ListingQuery::Browse => Seq::empty(),
        ListingQuery::BrowseByCity { city } => seq![city@, city@ + "%"@],
        ListingQuery::Search { text, city } => match city {
            None => seq![text@],
            Some(c) => seq![text@, c@, c@ + "%"@],
        },
    }
}

/// The LIKE pattern that accepts the filter itself and anything it is a
/// prefix of.
pub fn prefix_pattern(city: &String) -> (p: String)
    ensures
        p@ == city@ + "%"@,
{
    let mut p = city.clone();
    p.append("%");
    p
}

impl ListingQuery {
    /// The SQL text of this query shape.
    pub fn sql(&self) -> (s: &'static str)
        ensures
            s@ == sql_spec(*self),
    {
        match self {
            ListingQuery::Browse => "SELECT id, title, city, tags FROM listings WHERE is_active = 1 ORDER BY created_at DESC LIMIT 20",
            ListingQuery::BrowseByCity {
                ..
            } => "SELECT id, title, city, tags FROM listings WHERE is_active = 1 AND (city = ? OR city LIKE ?) ORDER BY created_at DESC LIMIT 20",
            ListingQuery::Search { city: None, .. } => "SELECT l.id, l.title, l.city, l.tags FROM listings_fts f JOIN listings l ON l.id = f.rowid WHERE f MATCH ? AND l.is_active = 1 ORDER BY rank LIMIT 20",
            ListingQuery::Search {
                city: Some(_),
                ..
            } => "SELECT l.id, l.title, l.city, l.tags FROM listings_fts f JOIN listings l ON l.id = f.rowid WHERE f MATCH ? AND l.is_active = 1 AND (l.city = ? OR l.city LIKE ?) ORDER BY rank LIMIT 20",
        }
    }

    /// The bind values of this query shape, in placeholder order.
    pub fn binds(&self) -> (b: Vec<String>)
        ensures
            b.deep_view() == binds_spec(*self),
    {
        let mut b: Vec<String> = Vec::new();
        match self {
            ListingQuery::Browse => {},
            ListingQuery::BrowseByCity { city } => {
                b.push(city.clone());
                b.push(prefix_pattern(city));
            },
            ListingQuery::Search { text, city } => {
                b.push(text.clone());
                match city {
                    Some(c) => {
                        b.push(c.clone());
                        b.push(prefix_pattern(c));
                    },
                    None => {},
                }
            },
        }
        proof {
            assert(b.deep_view() =~~= binds_spec(*self));
        }
        b
    }
}

} // verus!
