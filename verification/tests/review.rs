use github_notif_tui::gh::{Author, CiStatus, PrDetails, Review};
use github_notif_tui::review::{analyze_reviewers, approved_count, has_active_changes, ReviewStatus};

fn make_review(login: &str, state: &str) -> Review {
    Review {
        state: state.to_string(),
        author: Author { login: login.to_string() },
        submitted_at: None,
    }
}

fn make_details(reviews: Vec<Review>, requested: Vec<&str>) -> PrDetails {
    PrDetails {
        reviews,
        additions: 0,
        deletions: 0,
        review_decision: None,
        requested_reviewers: requested.into_iter().map(String::from).collect(),
        checks: vec![],
        ci_status: CiStatus::NoChecks,
    }
}

#[test]
fn approved_reviewer_shows_approved() {
    let d = make_details(vec![make_review("alice", "APPROVED")], vec![]);
    let entries = analyze_reviewers(&d, "author");
    assert_eq!(entries.len(), 1);
    assert_eq!(entries[0].status, ReviewStatus::Approved);
}

#[test]
fn changes_requested_shows_changes_requested() {
    let d = make_details(vec![make_review("alice", "CHANGES_REQUESTED")], vec![]);
    let entries = analyze_reviewers(&d, "author");
    assert_eq!(entries[0].status, ReviewStatus::ChangesRequested);
}

#[test]
fn re_requested_after_changes_shows_pending() {
    let d = make_details(
        vec![make_review("alice", "CHANGES_REQUESTED")],
        vec!["alice"],
    );
    let entries = analyze_reviewers(&d, "author");
    assert_eq!(entries[0].status, ReviewStatus::Pending);
}

#[test]
fn comment_does_not_override_approval() {
    let d = make_details(
        vec![
            make_review("alice", "APPROVED"),
            make_review("alice", "COMMENTED"),
        ],
        vec![],
    );
    let entries = analyze_reviewers(&d, "author");
    assert_eq!(entries.len(), 1);
    assert_eq!(entries[0].status, ReviewStatus::Approved);
}

#[test]
fn pr_author_excluded_from_reviewers() {
    let d = make_details(vec![make_review("author", "APPROVED")], vec![]);
    let entries = analyze_reviewers(&d, "author");
    assert!(entries.is_empty());
}

#[test]
fn pending_reviewer_not_in_reviews() {
    let d = make_details(vec![], vec!["bob"]);
    let entries = analyze_reviewers(&d, "author");
    assert_eq!(entries[0].status, ReviewStatus::Pending);
}

#[test]
fn no_duplicate_between_reviews_and_requested() {
    let d = make_details(
        vec![make_review("alice", "APPROVED")],
        vec!["alice"],
    );
    let entries = analyze_reviewers(&d, "author");
    assert_eq!(entries.len(), 1);
}

#[test]
fn approved_count_correct() {
    let d = make_details(
        vec![
            make_review("alice", "APPROVED"),
            make_review("bob", "CHANGES_REQUESTED"),
        ],
        vec![],
    );
    let entries = analyze_reviewers(&d, "author");
    assert_eq!(approved_count(&entries), 1);
    assert!(has_active_changes(&entries));
}

#[test]
fn reviewers_sorted_by_login_and_unique() {
    let d = make_details(
        vec![
            make_review("carol", "COMMENTED"),
            make_review("alice", "APPROVED"),
            make_review("bob", "DISMISSED"),
            make_review("alice", "CHANGES_REQUESTED"),
        ],
        vec!["dave", "author", "bob"],
    );
    let entries = analyze_reviewers(&d, "author");
    let logins: Vec<&str> = entries.iter().map(|e| e.login.as_str()).collect();
    assert_eq!(logins, vec!["alice", "bob", "carol", "dave"]);
    assert_eq!(entries[0].status, ReviewStatus::ChangesRequested);
    assert_eq!(entries[1].status, ReviewStatus::Pending);
    assert_eq!(entries[2].status, ReviewStatus::Pending);
    assert_eq!(entries[3].status, ReviewStatus::Pending);
    assert_eq!(approved_count(&entries), 0);
    assert!(has_active_changes(&entries));
}

#[test]
fn dismissal_after_approval_is_pending() {
    let d = make_details(
        vec![make_review("zoe", "APPROVED"), make_review("zoe", "DISMISSED")],
        vec![],
    );
    let entries = analyze_reviewers(&d, "author");
    assert_eq!(entries.len(), 1);
    assert_eq!(entries[0].status, ReviewStatus::Pending);
    assert!(!has_active_changes(&entries));
}

#[test]
fn non_ascii_logins_order_by_code_point() {
    let d = make_details(vec![make_review("Émile", "APPROVED"), make_review("zed", "APPROVED")], vec![]);
    let entries = analyze_reviewers(&d, "author");
    assert_eq!(entries[0].login, "zed");
    assert_eq!(entries[1].login, "Émile");
    assert_eq!(approved_count(&entries), 2);
}
