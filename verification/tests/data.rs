use github_notif_tui::categories::{search_query, team_only};
use github_notif_tui::app::{matches_query, AppState, Tab};
use github_notif_tui::gh::{assemble_details, details_from_json, Author, CiStatus, PullRequest, Repository, ReviewRequest};
use github_notif_tui::table::PrTable;
use github_notif_tui::text::{contains, same_text, starts_with, strip_prefix};

fn pr(number: u64, repo: &str) -> PullRequest {
    PullRequest {
        number,
        title: "t".to_string(),
        url: "u".to_string(),
        author: Author { login: "a".to_string() },
        repository: Repository { name_with_owner: repo.to_string() },
        created_at: 0,
        updated_at: 0,
        is_draft: false,
        comments_count: 0,
    }
}

#[test]
fn details_from_view_fields() {
    let d = assemble_details(
        Some(12),
        Some((1u64 << 32) + 5),
        Some("approved".to_string()),
        vec![],
        vec![
            ReviewRequest { login: Some("alice".to_string()), slug: None },
            ReviewRequest { login: None, slug: Some("core-team".to_string()) },
            ReviewRequest { login: None, slug: None },
            ReviewRequest { login: Some("bob".to_string()), slug: Some("x".to_string()) },
        ],
    );
    assert_eq!(d.additions, 12);
    assert_eq!(d.deletions, 5);
    assert_eq!(d.review_decision.as_deref(), Some("APPROVED"));
    assert_eq!(d.requested_reviewers, vec!["alice", "core-team", "bob"]);
    assert_eq!(d.ci_status, CiStatus::NoChecks);
    assert!(d.checks.is_empty());
    let e = assemble_details(None, None, None, vec![], vec![]);
    assert_eq!((e.additions, e.deletions), (0, 0));
    assert!(e.review_decision.is_none());
}

#[test]
fn team_tab_excludes_personal_requests() {
    let all = vec![pr(1, "a/b"), pr(2, "a/b"), pr(3, "c/d"), pr(2, "c/d")];
    let personal = vec![pr(2, "x/y")];
    let team = team_only(all, &personal);
    let numbers: Vec<u64> = team.iter().map(|p| p.number).collect();
    assert_eq!(numbers, vec![1, 3]);
    assert_eq!(search_query(Tab::Personal), Some("user-review-requested:@me"));
    assert_eq!(search_query(Tab::Mine), None);
}

#[test]
fn text_helpers() {
    assert!(contains("hello world", "o w"));
    assert!(contains("abc", ""));
    assert!(!contains("abc", "abcd"));
    assert!(!contains("abc", "ac"));
    assert!(starts_with("repo:x", "repo:"));
    assert!(!starts_with("rep", "repo:"));
    assert_eq!(strip_prefix("@bob", "@").as_deref(), Some("bob"));
    assert_eq!(strip_prefix("bob", "@"), None);
    assert!(same_text("é", "é"));
    assert!(!same_text("a", "A"));
}

#[test]
fn search_ignores_case() {
    let mut p = pr(4, "Org/Ä-Repo");
    p.title = "Fix THE Bug".to_string();
    p.author = Author { login: "Alice".to_string() };
    assert!(matches_query(&p, "the bug"));
    assert!(matches_query(&p, "FIX"));
    assert!(matches_query(&p, "@ALI"));
    assert!(!matches_query(&p, "@bug"));
    assert!(matches_query(&p, "repo:ä-re"));
    assert!(!matches_query(&p, "repo:fix"));
    assert!(matches_query(&p, "org/ä"));
}

#[test]
fn tab_label_counts_its_requests() {
    let mut s = AppState::default();
    s.tabs[1].prs = (0..12).map(|n| pr(n, "a/b")).collect();
    assert_eq!(s.tab_label(1), "Team (12)");
    assert_eq!(s.tab_label(0), "Personal");
}

#[test]
fn pr_table_operations() {
    let mut t: PrTable<i64> = PrTable::new();
    t.insert(("o/r".to_string(), 1), 10);
    t.insert(("o/r".to_string(), 2), 20);
    t.insert(("o/r".to_string(), 1), 11);
    assert_eq!(t.len(), 2);
    assert_eq!(t.get("o/r", 1), Some(&11));
    assert!(!t.contains("o/s", 1));
    assert!(t.remove("o/r", 1));
    assert!(!t.remove("o/r", 1));
    assert_eq!(t.len(), 1);
    t.clear();
    assert_eq!(t.len(), 0);
    let mut s: PrTable<()> = PrTable::new();
    assert!(s.toggle(("a/b".to_string(), 3)));
    assert!(!s.toggle(("a/b".to_string(), 3)));
    assert_eq!(s.len(), 0);
}

#[test]
fn details_from_gh_answer() {
    let json = r#"{"additions": 12, "deletions": 3, "reviewDecision": "approved",
        "reviews": [
            {"state": "APPROVED", "author": {"login": "alice"}, "submittedAt": "2024-01-02T03:04:05Z", "body": ""},
            {"state": "COMMENTED", "author": {"login": "bob"}, "submittedAt": null},
            {"state": "PENDING", "author": {"login": "dan"}}
        ],
        "reviewRequests": [{"login": "carol"}, {"slug": "core"}, {"name": "x"}]}"#;
    let d = details_from_json(json).unwrap();
    assert_eq!((d.additions, d.deletions), (12, 3));
    assert_eq!(d.review_decision.as_deref(), Some("APPROVED"));
    assert_eq!(d.reviews.len(), 3);
    assert_eq!(d.reviews[0].author.login, "alice");
    assert_eq!(d.reviews[0].state, "APPROVED");
    assert_eq!(d.reviews[0].submitted_at, Some(1_704_164_645));
    assert_eq!(d.reviews[1].submitted_at, None);
    assert_eq!(d.reviews[2].author.login, "dan");
    assert_eq!(d.requested_reviewers, vec!["carol", "core"]);
    assert_eq!(d.ci_status, CiStatus::NoChecks);
}

#[test]
fn details_with_an_unreadable_review_drop_all_reviews() {
    let bad_time = r#"{"reviews": [
        {"state": "APPROVED", "author": {"login": "a"}, "submittedAt": "2024-01-02T03:04:05Z"},
        {"state": "APPROVED", "author": {"login": "b"}, "submittedAt": "yesterday"}]}"#;
    let d = details_from_json(bad_time).unwrap();
    assert!(d.reviews.is_empty());
    let no_author = r#"{"reviews": [{"state": "APPROVED"}], "additions": -4}"#;
    let d = details_from_json(no_author).unwrap();
    assert!(d.reviews.is_empty());
    assert_eq!(d.additions, 0);
    assert!(d.review_decision.is_none());
    assert!(d.requested_reviewers.is_empty());
    assert!(details_from_json("not json").is_none());
    assert!(details_from_json("[1, 2]").unwrap().reviews.is_empty());
}
