use crate::issue::{IssueView, SearchableIssue};
use vstd::prelude::*;

verus! {

/// Number of issues the tracker lists on one page.
pub const ITEMS_PER_PAGE: u64 = 100;

/// Why a synchronization run stopped before the end of the issue list.
#[derive(Debug)]
pub enum SyncError {
    /// The tracker sent an empty page that was not its last one.
    UpstreamProtocolViolation { page_index: u32 },
}

/// What the caller of [`IssueIterator::next`] has to do.
#[derive(Debug)]
pub enum Step {
    /// An issue to hydrate with its comments and hand on.
    Item(SearchableIssue),
    /// Fetch this page and hand it over with [`IssueIterator::receive_page`].
    FetchPage(u32),
    /// Every page has been walked; the run is complete.
    End,
}

/// Abstract state of an [`IssueIterator`].
pub struct PagerView {
    pub number_of_pages: u32,
    pub page_index: u32,
    pub page: Seq<IssueView>,
    pub offset: int,
    pub awaiting_page: bool,
    pub failed: bool,
}

/// The issues of a page, as abstract values.
pub open spec fn page_view(items: Seq<SearchableIssue>) -> Seq<IssueView> {
    items.map_values(|i: SearchableIssue| i@)
}

/// No page follows the current one.
pub open spec fn on_last_page(v: PagerView) -> bool {
    v.page_index + 1 >= v.number_of_pages
}

/// Forward-only walk over the pages of an issue listing.
///
/// The listing reports its number of pages together with page 0. The
/// iterator hands out the issues of the current page one by one and, when
/// the page is used up, asks for the next one until the last page is done.
pub struct IssueIterator {
    number_of_pages: u32,
    page_index: u32,
    current_page: Vec<SearchableIssue>,
    issue_on_page_index: usize,
    awaiting_page: bool,
    failed: bool,
}

impl View for IssueIterator {
    type V = PagerView;

    closed spec fn view(&self) -> PagerView {
        PagerView {
            number_of_pages: self.number_of_pages,
            page_index: self.page_index,
            page: page_view(self.current_page@),
            offset: self.issue_on_page_index as int,
            awaiting_page: self.awaiting_page,
            failed: self.failed,
        }
    }
}

impl IssueIterator {
    /// The position lies within the current page, the page index is a page of
    /// the listing, and the page awaited is never page 0.
    pub closed spec fn wf(&self) -> bool {
        &&& self.issue_on_page_index <= self.current_page@.len()
        &&& self.page_index == 0 || self.page_index < self.number_of_pages
        &&& self.awaiting_page ==> self.page_index >= 1
    }

    /// Starts the walk on page 0 of a listing that has `number_of_pages`
    /// pages. Page 0 may only be empty when it is the last page.
    pub fn new(number_of_pages: u32, first_page: Vec<SearchableIssue>) -> (r: Result<Self, SyncError>)
        ensures
            r is Err <==> first_page@.len() == 0 && number_of_pages > 1,
            r matches Err(e) ==> e matches SyncError::UpstreamProtocolViolation { page_index } && page_index == 0,
            r matches Ok(it) ==> it.wf() && it@ == (PagerView {
                number_of_pages,
                page_index: 0,
                page: page_view(first_page@),
                offset: 0,
                awaiting_page: false,
                failed: false,
            }),
    {
        if first_page.len() == 0 && number_of_pages > 1 {
            return Err(SyncError::UpstreamProtocolViolation { page_index: 0 });
        }
        Ok(
            IssueIterator {
                number_of_pages,
                page_index: 0,
                current_page: first_page,
                issue_on_page_index: 0,
                awaiting_page: false,
                failed: false,
            },
        )
    }

    /// Estimated number of issues: pages times page size. The last page may
    /// hold fewer, so this is an upper bound, not an exact count.
    pub fn estimated_total(&self) -> (r: u64)
        ensures
            r == self@.number_of_pages * ITEMS_PER_PAGE,
    {
        self.number_of_pages as u64 * ITEMS_PER_PAGE
    }

    /// Whether the walk waits for the page it asked for.
    pub fn awaits_page(&self) -> (r: bool)
        ensures
            r == self@.awaiting_page,
    {
        self.awaiting_page
    }

    /// Whether the walk stopped on a protocol violation.
    pub fn has_failed(&self) -> (r: bool)
        ensures
            r == self@.failed,
    {
        self.failed
    }

    /// Advances the walk by one step.
    ///
    /// While a page is awaited the request is repeated. Otherwise the next
    /// issue of the current page is handed out; past the end of the page,
    /// the following page is requested, or the walk ends after the last one.
    pub fn next(&mut self) -> (r: Step)
        requires
            old(self).wf(),
            !old(self)@.failed,
        ensures
            final(self).wf(),
            r matches Step::FetchPage(p) ==> p >= 1,
            ({
                let v = old(self)@;
                let w = final(self)@;
                if v.awaiting_page {
                    r matches Step::FetchPage(p) && p == v.page_index && w == v
                } else if v.offset < v.page.len() {
                    &&& r matches Step::Item(item) && item@ == v.page[v.offset]
                    &&& w == PagerView { offset: v.offset + 1, ..v }
                } else if on_last_page(v) {
                    r is End && w == v
                } else {
                    &&& r matches Step::FetchPage(p) && p == v.page_index + 1
                    &&& w == PagerView { page_index: (v.page_index + 1) as u32, awaiting_page: true, ..v }
                }
            }),
    {
        if self.awaiting_page {
            return Step::FetchPage(self.page_index);
        }
        if self.issue_on_page_index < self.current_page.len() {
            let item = self.current_page[self.issue_on_page_index].duplicate();
            self.issue_on_page_index = self.issue_on_page_index + 1;
            return Step::Item(item);
        }
        if self.page_index as u64 + 1 >= self.number_of_pages as u64 {
            return Step::End;
        }
        self.page_index = self.page_index + 1;
        self.awaiting_page = true;
        Step::FetchPage(self.page_index)
    }

    /// Takes the page that [`IssueIterator::next`] asked for and continues
    /// from its first issue. An empty page that is not the last one is a
    /// protocol violation: the walk fails instead of ending.
    pub fn receive_page(&mut self, items: Vec<SearchableIssue>) -> (r: Result<(), SyncError>)
        requires
            old(self).wf(),
            old(self)@.awaiting_page,
            !old(self)@.failed,
        ensures
            final(self).wf(),
            ({
                let v = old(self)@;
                let violation = items@.len() == 0 && !on_last_page(v);
                &&& r is Err <==> violation
                &&& r matches Err(e) ==> e matches SyncError::UpstreamProtocolViolation { page_index }
                    && page_index == v.page_index
                &&& final(self)@ == PagerView {
                    page: page_view(items@),
                    offset: 0,
                    awaiting_page: false,
                    failed: violation,
                    ..v
                }
            }),
    {
        let violation = items.len() == 0 && (self.page_index as u64) + 1 < self.number_of_pages as u64;
        self.current_page = items;
        self.issue_on_page_index = 0;
        self.awaiting_page = false;
        if violation {
            self.failed = true;
            return Err(SyncError::UpstreamProtocolViolation { page_index: self.page_index });
        }
        Ok(())
    }
}

} // verus!
