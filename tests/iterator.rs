use issue_sync::issue::SearchableIssue;
use issue_sync::iterator::{IssueIterator, Step, SyncError};

fn page(first_id: u64, count: u64) -> Vec<SearchableIssue> {
    (0..count)
        .map(|k| SearchableIssue::new(first_id + k, first_id + k, format!("t{}", first_id + k), String::new(), 0))
        .collect()
}

/// Walks the iterator over `pages`, returning the ids handed out, the pages
/// requested, and the error that stopped the walk, if any.
fn walk(pages: &[Vec<SearchableIssue>], number_of_pages: u32) -> (Vec<u64>, Vec<u32>, Option<SyncError>) {
    let mut ids = Vec::new();
    let mut requested = Vec::new();
    let mut it = match IssueIterator::new(number_of_pages, pages[0].clone()) {
        Ok(it) => it,
        Err(e) => return (ids, requested, Some(e)),
    };
    loop {
        match it.next() {
            Step::Item(issue) => ids.push(issue.id),
            Step::FetchPage(p) => {
                requested.push(p);
                let items = pages.get(p as usize).cloned().unwrap_or_default();
                if let Err(e) = it.receive_page(items) {
                    return (ids, requested, Some(e));
                }
            }
            Step::End => return (ids, requested, None),
        }
    }
}

#[test]
fn three_pages_yield_every_issue_once() {
    let pages = vec![page(0, 100), page(100, 100), page(200, 37)];
    let (ids, requested, err) = walk(&pages, 3);
    assert!(err.is_none());
    assert_eq!(ids.len(), 237);
    assert_eq!(ids, (0..237).collect::<Vec<u64>>());
    assert_eq!(requested, vec![1, 2]);
}

#[test]
fn end_is_repeated_after_the_last_page() {
    let mut it = IssueIterator::new(1, page(0, 1)).unwrap();
    assert!(matches!(it.next(), Step::Item(_)));
    assert!(matches!(it.next(), Step::End));
    assert!(matches!(it.next(), Step::End));
}

#[test]
fn empty_middle_page_is_a_protocol_violation() {
    let pages = vec![page(0, 100), Vec::new(), page(100, 37)];
    let (ids, requested, err) = walk(&pages, 3);
    assert_eq!(ids.len(), 100);
    assert_eq!(requested, vec![1]);
    assert!(matches!(err, Some(SyncError::UpstreamProtocolViolation { page_index: 1 })));
}

#[test]
fn failed_walk_reports_failure() {
    let mut it = IssueIterator::new(3, page(0, 1)).unwrap();
    assert!(matches!(it.next(), Step::Item(_)));
    assert!(matches!(it.next(), Step::FetchPage(1)));
    assert!(it.awaits_page());
    assert!(it.receive_page(Vec::new()).is_err());
    assert!(it.has_failed());
}

#[test]
fn empty_first_page_of_many_is_a_protocol_violation() {
    let r = IssueIterator::new(2, Vec::new());
    assert!(matches!(r, Err(SyncError::UpstreamProtocolViolation { page_index: 0 })));
}

#[test]
fn empty_last_page_ends_the_walk() {
    let pages = vec![page(0, 3), Vec::new()];
    let (ids, requested, err) = walk(&pages, 2);
    assert!(err.is_none());
    assert_eq!(ids, vec![0, 1, 2]);
    assert_eq!(requested, vec![1]);
}

#[test]
fn unknown_page_count_walks_first_page_only() {
    let (ids, requested, err) = walk(&[page(5, 4)], 0);
    assert!(err.is_none());
    assert_eq!(ids, vec![5, 6, 7, 8]);
    assert!(requested.is_empty());
}

#[test]
fn empty_listing_ends_at_once() {
    let (ids, requested, err) = walk(&[Vec::new()], 1);
    assert!(err.is_none() && ids.is_empty() && requested.is_empty());
}

#[test]
fn request_is_repeated_while_awaiting() {
    let mut it = IssueIterator::new(2, page(0, 1)).unwrap();
    assert!(matches!(it.next(), Step::Item(_)));
    assert!(matches!(it.next(), Step::FetchPage(1)));
    assert!(matches!(it.next(), Step::FetchPage(1)));
}

#[test]
fn estimated_total_is_pages_times_page_size() {
    let it = IssueIterator::new(3, page(0, 100)).unwrap();
    assert_eq!(it.estimated_total(), 300);
}
