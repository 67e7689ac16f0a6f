//! Stored results: their timestamps and the paging of result lists.
use vstd::prelude::*;

verus! {

/// The Unix time, in seconds, of an RFC 3339 date and time, if `text` is one.
pub uninterp spec fn rfc3339_seconds(text: Seq<char>) -> Option<int>;

/// Relies on `chrono::DateTime::parse_from_rfc3339` and `DateTime::timestamp`:
/// the seconds since the epoch of the instant that `text` writes, which
/// depend on the text alone.
#[verifier::external_body]
fn rfc3339_to_unix(text: &str) -> (r: Option<i64>)
    ensures
        match r {
            Some(t) => rfc3339_seconds(text@) == Some(t as int),
            None => rfc3339_seconds(text@) is None,
        },
{
    chrono::DateTime::parse_from_rfc3339(text).ok().map(|d| d.timestamp())
}

/// The Unix time of a probe's RFC 3339 timestamp, or `None` if it is not one.
pub fn parse_to_unix_time(timestamp: &str) -> (r: Option<i64>)
    ensures
        match r {
            Some(t) => rfc3339_seconds(timestamp@) == Some(t as int),
            None => rfc3339_seconds(timestamp@) is None,
        },
{
    rfc3339_to_unix(timestamp)
}

/// How many pages of `size` items it takes to list `items` items: at least
/// one, so that an empty list has its one empty page.
pub open spec fn pages_needed(items: int, size: int) -> int {
    if items <= 0 {
        1
    } else {
        (items - 1) / size + 1
    }
}

/// The number of pages of `page_size` items that `item_count` items fill.
pub fn page_count(item_count: i32, page_size: i32) -> (r: i32)
    requires
        page_size > 0,
    ensures
        r == pages_needed(item_count as int, page_size as int),
{
    if item_count <= 0 {
        1
    } else {
        proof {
            lemma_quotient_bound(item_count as int - 1, page_size as int);
        }
        (item_count - 1) / page_size + 1
    }
}

proof fn lemma_quotient_bound(n: int, d: int)
    requires
        n >= 0,
        d > 0,
    ensures
        0 <= n / d <= n,
        (n / d) * d <= n,
{
    assert(0 <= n / d <= n) by (nonlinear_arith)
        requires
            n >= 0,
            d > 0,
    ;
    assert((n / d) * d <= n) by (nonlinear_arith)
        requires
            n >= 0,
            d > 0,
    ;
}

/// The page size when a query names none.
pub const DEFAULT_LIMIT: i32 = 3;

/// The page when a query names none.
pub const DEFAULT_PAGE: i32 = 1;

/// A request for one page of the stored results; pages count from one.
pub struct ResultsListQuery {
    pub limit: Option<i32>,
    pub page: Option<i32>,
}

/// Which results one page lists, and its neighbours.
#[derive(Clone, Copy, Debug, PartialEq, Eq, Structural)]
pub struct PagePlan {
    /// How many results a page holds.
    pub limit: i32,
    /// How many results, newest first, come before this page.
    pub offset: i32,
    /// The page before, if this is not the first.
    pub prev: Option<i32>,
    /// The page after, if results remain past this one.
    pub next: Option<i32>,
}

/// Why a page cannot be listed.
#[derive(Clone, Copy, Debug, PartialEq, Eq, Structural)]
pub enum PageError {
    /// The page size is below one.
    InvalidLimit,
    /// The page lies before the first or after the last.
    PageOutOfRange,
}

/// The page size a query asks for.
pub open spec fn query_limit(q: ResultsListQuery) -> int {
    match q.limit {
        Some(l) => l as int,
        None => DEFAULT_LIMIT as int,
    }
}

/// The page a query asks for.
pub open spec fn query_page(q: ResultsListQuery) -> int {
    match q.page {
        Some(p) => p as int,
        None => DEFAULT_PAGE as int,
    }
}

impl ResultsListQuery {
    /// The plan for listing the page that this query asks for, out of
    /// `count` stored results.
    pub fn plan(&self, count: i32) -> (r: Result<PagePlan, PageError>)
        ensures
            query_limit(*self) < 1 ==> r == Err::<PagePlan, _>(PageError::InvalidLimit),
            query_limit(*self) >= 1 && (query_page(*self) < 1 || query_page(*self) > pages_needed(
                count as int,
                query_limit(*self),
            )) ==> r == Err::<PagePlan, _>(PageError::PageOutOfRange),
            r matches Ok(p) ==> {
                let limit = query_limit(*self);
                let page = query_page(*self);
                &&& p.limit == limit
                &&& p.offset == (page - 1) * limit
                &&& p.prev == if page > 1 {
                    Some((page - 1) as i32)
                } else {
                    None
                }
                &&& p.next == if p.offset + limit < count {
                    Some((page + 1) as i32)
                } else {
                    None
                }
            },
            r is Ok <==> query_limit(*self) >= 1 && 1 <= query_page(*self) <= pages_needed(
                count as int,
                query_limit(*self),
            ),
    {
        let limit: i32 = match self.limit {
            Some(l) => l,
            None => DEFAULT_LIMIT,
        };
        let page: i32 = match self.page {
            Some(p) => p,
            None => DEFAULT_PAGE,
        };
        if limit < 1 {
            return Err(PageError::InvalidLimit);
        }
        let pages = page_count(count, limit);
        if page < 1 || page > pages {
            return Err(PageError::PageOutOfRange);
        }
        proof {
            if count > 0 {
                lemma_quotient_bound(count as int - 1, limit as int);
                let q = (count as int - 1) / limit as int;
                assert((page as int - 1) * (limit as int) <= q * (limit as int)) by (nonlinear_arith)
                    requires
                        0 <= page as int - 1 <= q,
                        limit as int > 0,
                ;
            } else {
                assert(page == 1);
                assert((page as int - 1) * (limit as int) == 0);
            }
        }
        let offset: i32 = (page - 1) * limit;
        let prev: Option<i32> = if page > 1 {
            Some(page - 1)
        } else {
            None
        };
        let next: Option<i32> = if (offset as i64) + (limit as i64) < (count as i64) {
            proof {
                assert((page as int - 1) * (limit as int) + (limit as int) >= page as int)
                    by (nonlinear_arith)
                    requires
                        page >= 1,
                        limit >= 1,
                ;
            }
            Some(page + 1)
        } else {
            None
        };
        Ok(PagePlan { limit, offset, prev, next })
    }
}

} // verus!
