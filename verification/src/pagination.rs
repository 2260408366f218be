//! Pagination: which results a query gets, and what it is told of their number.
use vstd::prelude::*;

use crate::query::{SearchQuery, DEFAULT_SEARCH_LIMIT};

verus! {

/// The number of results that can be reached in an index without a setting of its own.
pub const DEFAULT_PAGINATION_MAX_TOTAL_HITS: usize = 1000;

/// What a query is told of the number of its results.
#[derive(Debug, Clone, Copy, PartialEq, Eq, Structural)]
pub enum HitsInfo {
    Pagination { hits_per_page: usize, page: usize, total_pages: usize, total_hits: usize },
    OffsetLimit { limit: usize, offset: usize, estimated_total_hits: usize },
}

/// The lesser of two numbers.
pub open spec fn lesser(a: int, b: int) -> int {
    if a <= b {
        a
    } else {
        b
    }
}

/// The results from `offset` on, at most `limit` of them.
pub struct Window {
    pub offset: int,
    pub limit: int,
}

/// The number of results on a page of a query.
pub open spec fn page_size(query: SearchQuery) -> usize {
    match query.hits_per_page {
        Some(hits_per_page) => hits_per_page,
        None => DEFAULT_SEARCH_LIMIT,
    }
}

/// The page that a query asks for; the first one has the number one.
pub open spec fn page_number(query: SearchQuery) -> usize {
    match query.page {
        Some(page) => page,
        None => 1,
    }
}

/// The results that a query asks for: those of its page, or those from its offset on. There is
/// none on page zero.
pub open spec fn asked_window(query: SearchQuery) -> Window {
    if !query.finite_pagination() {
        Window { offset: query.offset as int, limit: query.limit as int }
    } else if page_number(query) == 0 {
        Window { offset: 0, limit: 0 }
    } else {
        Window {
            offset: page_size(query) * (page_number(query) - 1),
            limit: page_size(query) as int,
        }
    }
}

/// Whether the page that a query asks for starts at a result that has a number.
pub open spec fn page_in_range(query: SearchQuery) -> bool {
    asked_window(query).offset <= usize::MAX
}

/// The part of a window that lies among the first `max_total_hits` results.
pub open spec fn clipped(window: Window, max_total_hits: int) -> Window {
    let offset = lesser(window.offset, max_total_hits);
    Window { offset, limit: lesser(window.limit, max_total_hits - offset) }
}

/// The results that a query gets, of which no more than `max_total_hits` can be reached.
pub open spec fn window(query: SearchQuery, max_total_hits: usize) -> Window {
    clipped(asked_window(query), max_total_hits as int)
}

/// The offset and the limit of the results that a query gets.
pub fn search_window(query: &SearchQuery, max_total_hits: usize) -> (bounds: (usize, usize))
    requires
        page_in_range(*query),
    ensures
        bounds.0 == window(*query, max_total_hits).offset,
        bounds.1 == window(*query, max_total_hits).limit,
{
    let (offset, limit) = if query.is_finite_pagination() {
        let limit = match query.hits_per_page {
            Some(hits_per_page) => hits_per_page,
            None => DEFAULT_SEARCH_LIMIT,
        };
        let page = match query.page {
            Some(page) => page,
            None => 1,
        };
        // page 0 gives a limit of 0, so that no document is returned.
        if page == 0 {
            (0, 0)
        } else {
            assert(0 <= limit * (page - 1)) by (nonlinear_arith)
                requires
                    page >= 1,
            ;
            (limit * (page - 1), limit)
        }
    } else {
        (query.offset, query.limit)
    };
    // Make sure that a user can't get more documents than the hard limit,
    // we align that on the offset too.
    let offset = if offset <= max_total_hits {
        offset
    } else {
        max_total_hits
    };
    let rest: usize = max_total_hits - offset;
    let limit = if limit <= rest {
        limit
    } else {
        rest
    };
    (offset, limit)
}

/// The number of results that can be reached, of `candidates` documents that match.
pub open spec fn reachable(candidates: u64, max_total_hits: usize) -> usize {
    lesser((candidates as usize) as int, max_total_hits as int) as usize
}

/// The number of pages that `total_hits` results fill; none where a page holds nothing.
pub open spec fn page_count(total_hits: int, hits_per_page: int) -> int {
    if hits_per_page == 0 {
        0
    } else {
        (total_hits + hits_per_page - 1) / hits_per_page
    }
}

/// What a query is told of the number of its results.
pub open spec fn told(
    query: SearchQuery,
    offset: usize,
    candidates: u64,
    max_total_hits: usize,
) -> HitsInfo {
    let number_of_hits = reachable(candidates, max_total_hits);
    if query.finite_pagination() {
        HitsInfo::Pagination {
            hits_per_page: page_size(query),
            page: page_number(query),
            total_pages: page_count(number_of_hits as int, page_size(query) as int) as usize,
            total_hits: number_of_hits,
        }
    } else {
        HitsInfo::OffsetLimit {
            limit: query.limit,
            offset,
            estimated_total_hits: number_of_hits,
        }
    }
}

/// Whether the numbers that go into the page count of a query can be added up.
pub open spec fn page_count_in_range(
    query: SearchQuery,
    candidates: u64,
    max_total_hits: usize,
) -> bool {
    query.finite_pagination() ==> reachable(candidates, max_total_hits) + page_size(query)
        <= usize::MAX + 1
}

/// Tells whether the page that a query asks for starts at a result that has a number.
pub fn page_fits(query: &SearchQuery) -> (fits: bool)
    ensures
        fits == page_in_range(*query),
{
    if !query.is_finite_pagination() {
        return true;
    }
    let limit = match query.hits_per_page {
        Some(hits_per_page) => hits_per_page,
        None => DEFAULT_SEARCH_LIMIT,
    };
    let page = match query.page {
        Some(page) => page,
        None => 1,
    };
    page == 0 || limit.checked_mul(page - 1).is_some()
}

/// Tells whether the numbers that go into the page count of a query can be added up.
pub fn page_count_fits(query: &SearchQuery, candidates: u64, max_total_hits: usize) -> (fits: bool)
    ensures
        fits == page_count_in_range(*query, candidates, max_total_hits),
{
    if !query.is_finite_pagination() {
        return true;
    }
    let found = candidates as usize;
    let number_of_hits = if found <= max_total_hits {
        found
    } else {
        max_total_hits
    };
    let hits_per_page = match query.hits_per_page {
        Some(hits_per_page) => hits_per_page,
        None => DEFAULT_SEARCH_LIMIT,
    };
    hits_per_page == 0 || number_of_hits.checked_add(hits_per_page - 1).is_some()
}

/// What a query is told of the number of its results, where `candidates` documents match and its
/// results start at `offset`.
pub fn hits_info(
    query: &SearchQuery,
    offset: usize,
    candidates: u64,
    max_total_hits: usize,
) -> (info: HitsInfo)
    requires
        page_count_in_range(*query, candidates, max_total_hits),
    ensures
        info == told(*query, offset, candidates, max_total_hits),
{
    let found = candidates as usize;
    let number_of_hits = if found <= max_total_hits {
        found
    } else {
        max_total_hits
    };
    if query.is_finite_pagination() {
        let hits_per_page = match query.hits_per_page {
            Some(hits_per_page) => hits_per_page,
            None => DEFAULT_SEARCH_LIMIT,
        };
        // If hit_per_page is 0, then pages can't be computed and so we respond 0.
        let total_pages = if hits_per_page == 0 {
            0
        } else {
            (number_of_hits + (hits_per_page - 1)) / hits_per_page
        };
        let page = match query.page {
            Some(page) => page,
            None => 1,
        };
        HitsInfo::Pagination { hits_per_page, page, total_pages, total_hits: number_of_hits }
    } else {
        HitsInfo::OffsetLimit { limit: query.limit, offset, estimated_total_hits: number_of_hits }
    }
}

/// No query reaches a result beyond the hard limit.
pub proof fn law_hard_limit(query: SearchQuery, max_total_hits: usize)
    requires
        page_in_range(query),
    ensures
        0 <= window(query, max_total_hits).offset,
        0 <= window(query, max_total_hits).limit,
        window(query, max_total_hits).offset + window(query, max_total_hits).limit
            <= max_total_hits,
{
    lemma_page_start(query);
}

proof fn lemma_page_start(query: SearchQuery)
    ensures
        asked_window(query).offset >= 0,
{
    if query.finite_pagination() && page_number(query) != 0 {
        let size = page_size(query);
        let page = page_number(query);
        assert(size * (page - 1) >= 0) by (nonlinear_arith)
            requires
                page >= 1,
        ;
    }
}

/// Page zero holds no result.
pub proof fn law_page_zero(query: SearchQuery, max_total_hits: usize)
    requires
        query.page == Some(0usize),
    ensures
        window(query, max_total_hits).limit == 0,
{
}

/// Each page starts where the one before it ends, so that going through the pages meets every
/// result once.
pub proof fn law_pages_follow(
    query: SearchQuery,
    next_query: SearchQuery,
    max_total_hits: usize,
)
    requires
        query.finite_pagination(),
        next_query.finite_pagination(),
        page_size(next_query) == page_size(query),
        page_number(query) >= 1,
        page_number(next_query) == page_number(query) + 1,
    ensures
        window(query, max_total_hits).offset + window(query, max_total_hits).limit == window(
            next_query,
            max_total_hits,
        ).offset,
{
    let size = page_size(query) as int;
    let page = page_number(query) as int;
    assert(size * page == size * (page - 1) + size) by (nonlinear_arith);
    assert(size * (page - 1) >= 0) by (nonlinear_arith)
        requires
            size >= 0,
            page >= 1,
    ;
}

/// The first page starts at the first result.
pub proof fn law_first_page(query: SearchQuery, max_total_hits: usize)
    requires
        query.finite_pagination(),
        page_number(query) == 1,
    ensures
        window(query, max_total_hits).offset == 0,
{
    let size = page_size(query);
    assert(size * 0 == 0);
}

/// The page count that a query is told is that of the pages that hold a result: a page starts
/// before the end of the results just where its number is within the count.
pub proof fn law_page_count(
    query: SearchQuery,
    offset: usize,
    candidates: u64,
    max_total_hits: usize,
)
    requires
        query.finite_pagination(),
        page_number(query) >= 1,
        page_count_in_range(query, candidates, max_total_hits),
    ensures
        ({
            let info = told(query, offset, candidates, max_total_hits);
            let got = window(query, max_total_hits);
            got.limit > 0 && got.offset < info->total_hits <==> page_number(query)
                <= info->total_pages
        }),
{
    let size = page_size(query) as int;
    let page = page_number(query) as int;
    let hits = reachable(candidates, max_total_hits) as int;
    let count = page_count(hits, size);
    assert(size * (page - 1) >= 0) by (nonlinear_arith)
        requires
            size >= 0,
            page >= 1,
    ;
    if size > 0 {
        let sum = hits + size - 1;
        vstd::arithmetic::div_mod::lemma_fundamental_div_mod(sum, size);
        vstd::arithmetic::div_mod::lemma_mod_bound(sum, size);
        assert(sum == size * count + sum % size);
        assert(0 <= count <= sum) by (nonlinear_arith)
            requires
                sum >= 0,
                size > 0,
                sum == size * count + sum % size,
                0 <= sum % size < size,
        ;
        if page <= count {
            assert(size * page <= size * count) by (nonlinear_arith)
                requires
                    page <= count,
                    size > 0,
            ;
            assert(size * (page - 1) == size * page - size) by (nonlinear_arith);
        } else {
            assert(size * (page - 1) >= size * count) by (nonlinear_arith)
                requires
                    page - 1 >= count,
                    size > 0,
            ;
        }
    }
}

/// No query is told of more results than can be reached.
pub proof fn law_told_within_limit(
    query: SearchQuery,
    offset: usize,
    candidates: u64,
    max_total_hits: usize,
)
    ensures
        match told(query, offset, candidates, max_total_hits) {
            HitsInfo::Pagination { total_hits, .. } => total_hits <= max_total_hits,
            HitsInfo::OffsetLimit { estimated_total_hits, .. } => estimated_total_hits
                <= max_total_hits,
        },
{
}

/// Whether a query asks for a page by its first result and its size: it is the same as another, but
/// for having no page, and for the offset and the limit of the page that the other asks for.
pub open spec fn asks_for_page_as_window(query: SearchQuery, page_query: SearchQuery) -> bool {
    &&& page_query.finite_pagination() && page_number(page_query) >= 1
    &&& query.page is None && query.hits_per_page is None
    &&& query.offset == page_size(page_query) * (page_number(page_query) - 1)
    &&& query.limit == page_size(page_query)
    &&& query == SearchQuery {
        page: query.page,
        hits_per_page: query.hits_per_page,
        offset: query.offset,
        limit: query.limit,
        ..page_query
    }
}

/// A page is the window from its first result on, of its size: page `p` of `h` results is what the
/// offset `h * (p - 1)` and the limit `h` give.
pub proof fn law_page_is_window(
    query: SearchQuery,
    page_query: SearchQuery,
    max_total_hits: usize,
)
    requires
        asks_for_page_as_window(query, page_query),
    ensures
        page_in_range(query),
        page_in_range(page_query),
        window(query, max_total_hits) == window(page_query, max_total_hits),
{
}

/// A result is among those that a query gets just where it is among those that it asks for: from
/// the offset on, or on its page, where pages have twenty results unless the query says otherwise
/// and the first page has the number one. On page zero there are none.
pub proof fn law_window_of_ranks(query: SearchQuery, max_total_hits: usize, rank: int)
    requires
        0 <= rank < max_total_hits,
    ensures
        query.page is None && query.hits_per_page is None ==> {
            let got = window(query, max_total_hits);
            got.offset <= rank < got.offset + got.limit <==> query.offset <= rank < query.offset
                + query.limit
        },
        query.page is Some || query.hits_per_page is Some ==> {
            let got = window(query, max_total_hits);
            let size: int = if query.hits_per_page is Some {
                query.hits_per_page->0 as int
            } else {
                20
            };
            let page: int = if query.page is Some {
                query.page->0 as int
            } else {
                1
            };
            &&& page == 0 ==> got.limit == 0
            &&& page > 0 ==> (got.offset <= rank < got.offset + got.limit <==> size * (page - 1)
                <= rank < size * (page - 1) + size)
        },
{
    lemma_page_start(query);
}

/// A query that asks for pages is told its page and the size of its pages, and one that does not
/// is told its limit and where its results start; either is told how many of the documents that
/// match can be reached. The pages are as many as hold all of these and none that is empty, and
/// there are none where a page holds nothing.
pub proof fn law_told_what_was_asked(
    query: SearchQuery,
    offset: usize,
    candidates: u64,
    max_total_hits: usize,
)
    requires
        candidates <= usize::MAX,
        page_count_in_range(query, candidates, max_total_hits),
    ensures
        told(query, offset, candidates, max_total_hits) is Pagination <==> query.page is Some
            || query.hits_per_page is Some,
        told(query, offset, candidates, max_total_hits) matches HitsInfo::OffsetLimit {
            limit,
            offset: start,
            estimated_total_hits,
        } ==> {
            &&& limit == query.limit
            &&& start == offset
            &&& estimated_total_hits <= candidates && estimated_total_hits <= max_total_hits
            &&& estimated_total_hits == candidates || estimated_total_hits == max_total_hits
        },
        told(query, offset, candidates, max_total_hits) matches HitsInfo::Pagination {
            hits_per_page,
            page,
            total_pages,
            total_hits,
        } ==> {
            &&& query.hits_per_page is Some ==> hits_per_page == query.hits_per_page->0
            &&& query.hits_per_page is None ==> hits_per_page == 20
            &&& query.page is Some ==> page == query.page->0
            &&& query.page is None ==> page == 1
            &&& total_hits <= candidates && total_hits <= max_total_hits
            &&& total_hits == candidates || total_hits == max_total_hits
            &&& hits_per_page == 0 ==> total_pages == 0
            &&& hits_per_page > 0 ==> total_hits <= total_pages * hits_per_page
            &&& hits_per_page > 0 && total_pages > 0 ==> (total_pages - 1) * hits_per_page
                < total_hits
        },
{
    let hits = reachable(candidates, max_total_hits) as int;
    let size = page_size(query) as int;
    if query.finite_pagination() && size > 0 {
        let count = (hits + size - 1) / size;
        vstd::arithmetic::div_mod::lemma_fundamental_div_mod(hits + size - 1, size);
        let rest = (hits + size - 1) % size;
        assert(hits + size - 1 == size * count + rest);
        assert(0 <= count <= hits) by (nonlinear_arith)
            requires
                hits + size - 1 == size * count + rest,
                0 <= rest < size,
                hits >= 0,
                size > 0,
        ;
        assert(size * count == count * size) by (nonlinear_arith);
        assert((count - 1) * size == count * size - size) by (nonlinear_arith);
    }
}

/// That a page starts at a result that has a number is asked only of queries for a page other than
/// zero; and then all the results before the page have a number.
pub proof fn law_page_in_range(query: SearchQuery)
    ensures
        query.page is None && query.hits_per_page is None ==> page_in_range(query),
        query.page == Some(0usize) ==> page_in_range(query),
        query.page is None ==> page_in_range(query),
        query.page is Some && query.page->0 > 0 ==> {
            let before = query.page->0 - 1;
            &&& query.hits_per_page is Some ==> (page_in_range(query) <==> query.hits_per_page->0
                * before <= usize::MAX)
            &&& query.hits_per_page is None ==> (page_in_range(query) <==> 20 * before
                <= usize::MAX)
        },
{
    lemma_page_start(query);
    if query.page is None {
        assert(page_size(query) * (1 - 1) == 0) by (nonlinear_arith);
    }
}

/// The pages of a query can be counted where it asks for none, where a page holds nothing, and
/// where the results and all but one place of a page can be added up.
pub proof fn law_countable_pages(
    query: SearchQuery,
    candidates: u64,
    max_total_hits: usize,
    fits: bool,
)
    requires
        call_ensures(page_count_fits, (&query, candidates, max_total_hits), fits),
        candidates <= usize::MAX,
    ensures
        query.page is None && query.hits_per_page is None ==> fits,
        query.hits_per_page == Some(0usize) ==> fits,
        query.hits_per_page is Some && query.hits_per_page->0 > 0 ==> {
            let more = query.hits_per_page->0 - 1;
            fits <==> candidates + more <= usize::MAX || max_total_hits + more <= usize::MAX
        },
        query.page is Some && query.hits_per_page is None ==> (fits <==> candidates + 19
            <= usize::MAX || max_total_hits + 19 <= usize::MAX),
{
}

/// The offset and the limit that a query gets are those of the results that it asks for, as far as
/// they can be reached; and it is told that the page is in range just where it is.
pub proof fn law_search_window(
    query: SearchQuery,
    max_total_hits: usize,
    bounds: (usize, usize),
    fits: bool,
    rank: int,
)
    requires
        call_ensures(search_window, (&query, max_total_hits), bounds),
        call_ensures(page_fits, (&query,), fits),
        page_in_range(query),
        0 <= rank < max_total_hits,
    ensures
        fits,
        bounds.0 + bounds.1 <= max_total_hits,
        query.page is None && query.hits_per_page is None ==> (bounds.0 <= rank < bounds.0
            + bounds.1 <==> query.offset <= rank < query.offset + query.limit),
        query.page is Some || query.hits_per_page is Some ==> {
            let size: int = if query.hits_per_page is Some {
                query.hits_per_page->0 as int
            } else {
                20
            };
            let page: int = if query.page is Some {
                query.page->0 as int
            } else {
                1
            };
            &&& page == 0 ==> bounds.1 == 0
            &&& page > 0 ==> (bounds.0 <= rank < bounds.0 + bounds.1 <==> size * (page - 1) <= rank
                < size * (page - 1) + size)
        },
{
    law_window_of_ranks(query, max_total_hits, rank);
    lemma_page_start(query);
}

/// What a query is told of the number of its results is its own page and page size, or its own
/// limit and where its results start, and how many of the documents that match can be reached.
pub proof fn law_hits_info(
    query: SearchQuery,
    offset: usize,
    candidates: u64,
    max_total_hits: usize,
    info: HitsInfo,
)
    requires
        call_ensures(hits_info, (&query, offset, candidates, max_total_hits), info),
        page_count_in_range(query, candidates, max_total_hits),
        candidates <= usize::MAX,
    ensures
        info matches HitsInfo::OffsetLimit { limit, offset: start, estimated_total_hits } ==> {
            &&& query.page is None && query.hits_per_page is None
            &&& limit == query.limit && start == offset
            &&& estimated_total_hits == if candidates <= max_total_hits {
                candidates as int
            } else {
                max_total_hits as int
            }
        },
        info matches HitsInfo::Pagination { hits_per_page, page, total_pages, total_hits } ==> {
            &&& query.page is Some || query.hits_per_page is Some
            &&& query.page is Some ==> page == query.page->0
            &&& query.page is None ==> page == 1
            &&& query.hits_per_page is Some ==> hits_per_page == query.hits_per_page->0
            &&& query.hits_per_page is None ==> hits_per_page == 20
            &&& total_hits == if candidates <= max_total_hits {
                candidates as int
            } else {
                max_total_hits as int
            }
            &&& hits_per_page == 0 ==> total_pages == 0
            &&& hits_per_page > 0 ==> total_hits <= total_pages * hits_per_page
            &&& total_pages > 0 ==> (total_pages - 1) * hits_per_page < total_hits
        },
{
    law_told_what_was_asked(query, offset, candidates, max_total_hits);
}

/// That a page is in range is told just where it is: always where no page is asked for, or page
/// zero, and otherwise where the number of results before the page fits.
pub proof fn law_page_in_range_is_told(query: SearchQuery, fits: bool)
    requires
        call_ensures(page_fits, (&query,), fits),
    ensures
        fits <==> page_in_range(query),
        query.page is None || query.page == Some(0usize) ==> fits,
        query.page is Some && query.page->0 > 0 && query.hits_per_page is Some ==> (fits
            <==> query.hits_per_page->0 * (query.page->0 - 1) <= usize::MAX),
        query.page is Some && query.page->0 > 0 && query.hits_per_page is None ==> (fits <==> 20 * (
        query.page->0 - 1) <= usize::MAX),
{
    law_page_in_range(query);
}

} // verus!
