use crate::checkpoint::{checkpoint_record, CheckpointRecord};
use crate::folded;
use crate::issue::{fingerprint_of, IssueView, SearchableComment, SearchableIssue};
use crate::iterator::{on_last_page, IssueIterator, PagerView, Step, SyncError};
use vstd::prelude::*;

verus! {

/// The next thing a synchronization run asks its caller to do.
#[derive(Debug)]
pub enum SyncAction {
    /// Fetch this page of the listing and pass it to `on_page`.
    FetchPage(u32),
    /// Fetch every comment of the issue with this number and pass them to
    /// `on_comments`.
    FetchComments(u64),
    /// Write this issue to the search index and then call `on_indexed`.
    Index(SearchableIssue),
    /// Write this record to the checkpoint store and then call
    /// `on_checkpointed`.
    Checkpoint(CheckpointRecord),
    /// The listing is exhausted; the run succeeded.
    Done,
}

/// Where a run stands between two calls.
pub enum Stage {
    /// A page was requested.
    AwaitPage,
    /// The comments of this issue were requested.
    AwaitComments(IssueView),
    /// This issue, with its comments, was handed out for indexing.
    AwaitIndex(IssueView),
    /// The checkpoint record of the last indexed issue was handed out.
    AwaitCheckpoint,
    /// The run is over, successfully or not.
    Finished,
}

/// The checkpoint record of an issue, as an abstract value.
pub open spec fn record_of(v: IssueView) -> CheckpointRecord {
    CheckpointRecord {
        id: v.id,
        fingerprint: folded(fingerprint_of(v)),
        last_update_at: v.last_update_at,
    }
}

/// The outcome of pulling the next step from a walk in state `v` that awaits
/// no page: `w` is the walk afterwards, `r` the action, `s` the stage.
pub open spec fn pull_outcome(v: PagerView, w: PagerView, r: SyncAction, s: Stage) -> bool {
    if v.offset < v.page.len() {
        &&& r matches SyncAction::FetchComments(n) && n == v.page[v.offset].number
        &&& s == Stage::AwaitComments(v.page[v.offset])
        &&& w == PagerView { offset: v.offset + 1, ..v }
    } else if on_last_page(v) {
        r is Done && s is Finished && w == v
    } else {
        &&& r matches SyncAction::FetchPage(p) && p == v.page_index + 1
        &&& s is AwaitPage
        &&& w == PagerView { page_index: (v.page_index + 1) as u32, awaiting_page: true, ..v }
    }
}

/// One synchronization run: walks the listing and, for each issue, asks for
/// its comments, then for it to be indexed, then for its checkpoint to be
/// written, strictly in that order. A checkpoint is only asked for after the
/// caller reports the issue indexed.
pub struct Synchronizer {
    issues: IssueIterator,
    in_hand: Option<SearchableIssue>,
    stage: Ghost<Stage>,
}

impl Synchronizer {
    /// The walk is consistent with the stage, and the issue in hand is the
    /// one the stage names.
    pub closed spec fn wf(&self) -> bool {
        &&& self.issues.wf()
        &&& match self.stage@ {
            Stage::AwaitPage => self.issues@.awaiting_page && !self.issues@.failed
                && self.in_hand is None,
            Stage::AwaitComments(v) => !self.issues@.awaiting_page && !self.issues@.failed
                && (self.in_hand matches Some(i) && i@ == v),
            Stage::AwaitIndex(v) => !self.issues@.awaiting_page && !self.issues@.failed
                && (self.in_hand matches Some(i) && i@ == v),
            Stage::AwaitCheckpoint => !self.issues@.awaiting_page && !self.issues@.failed
                && self.in_hand is None,
            Stage::Finished => true,
        }
    }

    /// Where the run stands.
    pub closed spec fn stage(&self) -> Stage {
        self.stage@
    }

    /// State of the underlying walk.
    pub closed spec fn walk(&self) -> PagerView {
        self.issues@
    }

    fn pull(issues: &mut IssueIterator) -> (r: (SyncAction, Option<SearchableIssue>, Ghost<Stage>))
        requires
            old(issues).wf(),
            !old(issues)@.failed,
            !old(issues)@.awaiting_page,
        ensures
            final(issues).wf(),
            !final(issues)@.failed,
            pull_outcome(old(issues)@, final(issues)@, r.0, r.2@),
            r.2@ matches Stage::AwaitComments(v) ==> r.1 matches Some(i) && i@ == v,
            !(r.2@ is AwaitComments) ==> r.1 is None,
    {
        match issues.next() {
            Step::Item(issue) => {
                let number = issue.number;
                let ghost v = issue@;
                (SyncAction::FetchComments(number), Some(issue), Ghost(Stage::AwaitComments(v)))
            },
            Step::FetchPage(p) => (SyncAction::FetchPage(p), None, Ghost(Stage::AwaitPage)),
            Step::End => (SyncAction::Done, None, Ghost(Stage::Finished)),
        }
    }

    /// Starts a run over a walk that has its first page and has not failed;
    /// returns the run and its first action.
    pub fn start(issues: IssueIterator) -> (r: (Self, SyncAction))
        requires
            issues.wf(),
            !issues@.failed,
            !issues@.awaiting_page,
        ensures
            r.0.wf(),
            pull_outcome(issues@, r.0.walk(), r.1, r.0.stage()),
    {
        let mut issues = issues;
        let (action, in_hand, stage) = Self::pull(&mut issues);
        (Synchronizer { issues, in_hand, stage }, action)
    }

    /// Takes the page that was asked for. An empty page that is not the last
    /// one ends the run with a protocol violation.
    pub fn on_page(&mut self, items: Vec<SearchableIssue>) -> (r: Result<SyncAction, SyncError>)
        requires
            old(self).wf(),
            old(self).stage() is AwaitPage,
        ensures
            final(self).wf(),
            ({
                let v = old(self).walk();
                let fresh = PagerView {
                    page: crate::iterator::page_view(items@),
                    offset: 0,
                    awaiting_page: false,
                    ..v
                };
                let violation = items@.len() == 0 && !on_last_page(v);
                &&& r is Err <==> violation
                &&& r matches Err(e) ==> e matches SyncError::UpstreamProtocolViolation { page_index }
                    && page_index == v.page_index && final(self).stage() is Finished
                &&& r matches Ok(a) ==> pull_outcome(fresh, final(self).walk(), a, final(self).stage())
            }),
    {
        match self.issues.receive_page(items) {
            Err(e) => {
                self.stage = Ghost(Stage::Finished);
                Err(e)
            },
            Ok(()) => {
                let (action, in_hand, stage) = Self::pull(&mut self.issues);
                self.in_hand = in_hand;
                self.stage = stage;
                Ok(action)
            },
        }
    }

    /// Takes every comment of the issue in hand, in order, and asks for that
    /// issue to be indexed with them.
    pub fn on_comments(&mut self, comments: Vec<SearchableComment>) -> (r: SyncAction)
        requires
            old(self).wf(),
            old(self).stage() is AwaitComments,
        ensures
            final(self).wf(),
            final(self).walk() == old(self).walk(),
            ({
                let v = old(self).stage()->AwaitComments_0;
                let hydrated = IssueView {
                    comments: comments@.map_values(|c: SearchableComment| c@),
                    ..v
                };
                &&& r matches SyncAction::Index(doc) && doc@ == hydrated
                &&& final(self).stage() == Stage::AwaitIndex(hydrated)
            }),
    {
        let issue = self.in_hand.take().unwrap();
        let issue = issue.with_comments(comments);
        let doc = issue.duplicate();
        let ghost hydrated = issue@;
        self.in_hand = Some(issue);
        self.stage = Ghost(Stage::AwaitIndex(hydrated));
        SyncAction::Index(doc)
    }

    /// Records that the issue in hand was indexed, and asks for its
    /// checkpoint record to be written.
    pub fn on_indexed(&mut self) -> (r: SyncAction)
        requires
            old(self).wf(),
            old(self).stage() is AwaitIndex,
        ensures
            final(self).wf(),
            final(self).walk() == old(self).walk(),
            final(self).stage() is AwaitCheckpoint,
            r matches SyncAction::Checkpoint(rec) && rec == record_of(
                old(self).stage()->AwaitIndex_0,
            ),
    {
        let issue = self.in_hand.take().unwrap();
        let rec = checkpoint_record(&issue);
        self.stage = Ghost(Stage::AwaitCheckpoint);
        SyncAction::Checkpoint(rec)
    }

    /// Records that the checkpoint was written, and moves on to the next
    /// issue, page, or the end of the run.
    pub fn on_checkpointed(&mut self) -> (r: SyncAction)
        requires
            old(self).wf(),
            old(self).stage() is AwaitCheckpoint,
        ensures
            final(self).wf(),
            pull_outcome(old(self).walk(), final(self).walk(), r, final(self).stage()),
    {
        let (action, in_hand, stage) = Self::pull(&mut self.issues);
        self.in_hand = in_hand;
        self.stage = stage;
        action
    }
}

} // verus!
