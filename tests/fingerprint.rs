use issue_sync::issue::{fingerprint, SearchableComment, SearchableIssue};

fn comment(author: &str, content: &str) -> SearchableComment {
    SearchableComment::new(author.to_string(), content.to_string())
}

fn issue_with(id: u64, comments: Vec<SearchableComment>) -> SearchableIssue {
    SearchableIssue::new(id, id + 1, "Bug".to_string(), "crash".to_string(), 10).with_comments(comments)
}

#[test]
fn same_content_same_fingerprint() {
    let a = issue_with(1, vec![comment("alice", "confirmed"), comment("bob", "fixed")]);
    let b = issue_with(1, vec![comment("alice", "confirmed"), comment("bob", "fixed")]);
    assert_eq!(fingerprint(&a), fingerprint(&b));
    assert_eq!(fingerprint(&a), fingerprint(&a));
}

#[test]
fn fingerprint_ignores_identity_and_time() {
    let a = issue_with(1, vec![comment("alice", "confirmed")]);
    let mut b = issue_with(2, vec![comment("alice", "confirmed")]);
    b.last_update_at = 99;
    assert_eq!(fingerprint(&a), fingerprint(&b));
}

#[test]
fn comment_order_changes_fingerprint() {
    let a = issue_with(1, vec![comment("alice", "confirmed"), comment("bob", "fixed")]);
    let b = issue_with(1, vec![comment("bob", "fixed"), comment("alice", "confirmed")]);
    assert_ne!(fingerprint(&a), fingerprint(&b));
}

#[test]
fn text_boundaries_change_fingerprint() {
    let a = SearchableIssue::new(1, 1, "ab".to_string(), "c".to_string(), 0);
    let b = SearchableIssue::new(1, 1, "a".to_string(), "bc".to_string(), 0);
    assert_ne!(fingerprint(&a), fingerprint(&b));
}

#[test]
fn content_change_changes_fingerprint() {
    let a = issue_with(1, vec![comment("alice", "confirmed")]);
    let b = issue_with(1, vec![comment("alice", "not confirmed")]);
    let c = issue_with(1, vec![]);
    assert_ne!(fingerprint(&a), fingerprint(&b));
    assert_ne!(fingerprint(&a), fingerprint(&c));
}

#[test]
fn with_comments_replaces_comments_in_order() {
    let issue = issue_with(5, vec![comment("x", "old")]);
    let issue = issue.with_comments(vec![comment("alice", "one"), comment("bob", "two")]);
    assert_eq!(issue.id, 5);
    assert_eq!(issue.title, "Bug");
    assert_eq!(issue.comments.len(), 2);
    assert_eq!(issue.comments[0].author, "alice");
    assert_eq!(issue.comments[1].content, "two");
}

#[test]
fn duplicate_keeps_every_field() {
    let issue = issue_with(5, vec![comment("alice", "one")]);
    let copy = issue.duplicate();
    assert_eq!(copy.id, issue.id);
    assert_eq!(copy.number, issue.number);
    assert_eq!(copy.body, issue.body);
    assert_eq!(copy.comments[0].content, "one");
    assert_eq!(fingerprint(&copy), fingerprint(&issue));
}
