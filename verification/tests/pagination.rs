use search::pagination::{hits_info, page_count_fits, page_fits, search_window, HitsInfo};
use search::query::SearchQuery;

fn offset_query(offset: usize, limit: usize) -> SearchQuery {
    SearchQuery { offset, limit, ..SearchQuery::default() }
}

fn page_query(page: Option<usize>, hits_per_page: Option<usize>) -> SearchQuery {
    SearchQuery { page, hits_per_page, offset: 77, limit: 88, ..SearchQuery::default() }
}

#[test]
fn an_offset_and_a_limit_are_taken_as_they_are() {
    assert_eq!(search_window(&offset_query(5, 20), 1000), (5, 20));
    assert_eq!(search_window(&offset_query(0, 0), 1000), (0, 0));
}

#[test]
fn nothing_beyond_the_hard_limit_is_reached() {
    assert_eq!(search_window(&offset_query(990, 20), 1000), (990, 10));
    assert_eq!(search_window(&offset_query(1000, 20), 1000), (1000, 0));
    assert_eq!(search_window(&offset_query(usize::MAX, usize::MAX), 1000), (1000, 0));
    assert_eq!(search_window(&offset_query(3, 3), 0), (0, 0));
    assert_eq!(search_window(&page_query(Some(4), Some(3)), 10), (9, 1));
    assert_eq!(search_window(&page_query(Some(5), Some(3)), 10), (10, 0));
}

#[test]
fn a_page_is_a_window() {
    assert_eq!(search_window(&page_query(Some(1), Some(3)), 1000), (0, 3));
    assert_eq!(search_window(&page_query(Some(3), Some(3)), 1000), (6, 3));
    assert_eq!(search_window(&page_query(Some(2), None), 1000), (20, 20));
    assert_eq!(search_window(&page_query(None, Some(7)), 1000), (0, 7));
    assert_eq!(search_window(&page_query(Some(9), Some(0)), 1000), (0, 0));
}

#[test]
fn page_zero_holds_nothing() {
    assert_eq!(search_window(&page_query(Some(0), Some(3)), 1000), (0, 0));
    assert_eq!(search_window(&page_query(Some(0), None), 1000), (0, 0));
}

#[test]
fn pages_follow_each_other() {
    let mut next = 0;
    for page in 1..=6 {
        let (offset, limit) = search_window(&page_query(Some(page), Some(4)), 17);
        assert_eq!(offset, next);
        next = offset + limit;
    }
    assert_eq!(next, 17);
}

#[test]
fn pages_that_start_too_far_do_not_fit() {
    assert!(page_fits(&offset_query(usize::MAX, usize::MAX)));
    assert!(page_fits(&page_query(Some(0), Some(usize::MAX))));
    assert!(page_fits(&page_query(Some(2), Some(usize::MAX))));
    assert!(!page_fits(&page_query(Some(3), Some(usize::MAX))));
}

#[test]
fn an_offset_query_is_told_an_estimate() {
    assert_eq!(
        hits_info(&offset_query(5, 20), 5, 42, 1000),
        HitsInfo::OffsetLimit { limit: 20, offset: 5, estimated_total_hits: 42 }
    );
    assert_eq!(
        hits_info(&offset_query(5, 20), 5, 4200, 1000),
        HitsInfo::OffsetLimit { limit: 20, offset: 5, estimated_total_hits: 1000 }
    );
}

#[test]
fn a_page_query_is_told_the_number_of_pages() {
    let told = |page, hits_per_page, candidates| {
        hits_info(&page_query(page, hits_per_page), 0, candidates, 1000)
    };
    assert_eq!(
        told(Some(2), Some(10), 41),
        HitsInfo::Pagination { hits_per_page: 10, page: 2, total_pages: 5, total_hits: 41 }
    );
    assert_eq!(
        told(None, Some(10), 40),
        HitsInfo::Pagination { hits_per_page: 10, page: 1, total_pages: 4, total_hits: 40 }
    );
    assert_eq!(
        told(Some(1), None, 5000),
        HitsInfo::Pagination { hits_per_page: 20, page: 1, total_pages: 50, total_hits: 1000 }
    );
    assert_eq!(
        told(Some(1), Some(0), 5),
        HitsInfo::Pagination { hits_per_page: 0, page: 1, total_pages: 0, total_hits: 5 }
    );
    assert_eq!(
        told(Some(0), Some(3), 0),
        HitsInfo::Pagination { hits_per_page: 3, page: 0, total_pages: 0, total_hits: 0 }
    );
}

#[test]
fn a_page_within_the_count_holds_a_result() {
    for page in 1..8 {
        let query = page_query(Some(page), Some(5));
        let (offset, limit) = search_window(&query, 1000);
        match hits_info(&query, offset, 23, 1000) {
            HitsInfo::Pagination { total_pages, total_hits, .. } => {
                assert_eq!(page <= total_pages, limit > 0 && offset < total_hits);
            }
            HitsInfo::OffsetLimit { .. } => panic!(),
        }
    }
}

#[test]
fn page_counts_that_overflow_do_not_fit() {
    assert!(page_count_fits(&page_query(None, Some(usize::MAX)), 1, 1000));
    assert!(!page_count_fits(&page_query(None, Some(usize::MAX)), 2, 1000));
    assert!(page_count_fits(&page_query(None, Some(0)), 2, usize::MAX));
    assert!(page_count_fits(&offset_query(0, usize::MAX), 2, 1000));
}
