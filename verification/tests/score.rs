use github_notif_tui::gh::{Author, CiStatus, PrDetails, PullRequest, Repository};
use github_notif_tui::score::{compute_priority, priority_at};

fn now() -> i64 {
    chrono::Utc::now().timestamp()
}

fn make_pr(age_days: i64, is_draft: bool, updated_hours_ago: i64) -> PullRequest {
    let now = now();
    PullRequest {
        number: 1,
        title: "test".to_string(),
        url: "https://example.com".to_string(),
        author: Author { login: "user".to_string() },
        repository: Repository { name_with_owner: "org/repo".to_string() },
        created_at: now - age_days * 86400,
        updated_at: now - updated_hours_ago * 3600,
        is_draft,
        comments_count: 0,
    }
}

fn make_details(ci: CiStatus, decision: Option<&str>, lines: u32) -> PrDetails {
    PrDetails {
        reviews: vec![],
        additions: lines,
        deletions: 0,
        review_decision: decision.map(String::from),
        requested_reviewers: vec![],
        checks: vec![],
        ci_status: ci,
    }
}

#[test]
fn draft_pr_scores_lower() {
    let draft = make_pr(1, true, 2);
    let non_draft = make_pr(1, false, 2);
    assert!(compute_priority(&draft, None) < compute_priority(&non_draft, None));
}

#[test]
fn old_pr_scores_higher() {
    let fresh = make_pr(0, false, 0);
    let old = make_pr(8, false, 0);
    assert!(compute_priority(&fresh, None) < compute_priority(&old, None));
}

#[test]
fn ci_pass_scores_higher_than_fail() {
    let pr = make_pr(1, false, 2);
    let pass = make_details(CiStatus::Pass, None, 50);
    let fail = make_details(CiStatus::Fail, None, 50);
    assert!(compute_priority(&pr, Some(&pass)) > compute_priority(&pr, Some(&fail)));
}

#[test]
fn approved_scores_highest_review() {
    let pr = make_pr(1, false, 2);
    let approved = make_details(CiStatus::Pass, Some("APPROVED"), 50);
    let pending = make_details(CiStatus::Pass, Some("REVIEW_REQUIRED"), 50);
    assert!(compute_priority(&pr, Some(&approved)) > compute_priority(&pr, Some(&pending)));
}

#[test]
fn large_pr_scores_higher() {
    let pr = make_pr(1, false, 2);
    let small = make_details(CiStatus::Pass, None, 50);
    let large = make_details(CiStatus::Pass, None, 1500);
    assert!(compute_priority(&pr, Some(&small)) < compute_priority(&pr, Some(&large)));
}

fn fixed_pr(created_at: i64, updated_at: i64, is_draft: bool) -> PullRequest {
    PullRequest {
        number: 7,
        title: "fixed".to_string(),
        url: "https://example.com/7".to_string(),
        author: Author { login: "u".to_string() },
        repository: Repository { name_with_owner: "o/r".to_string() },
        created_at,
        updated_at,
        is_draft,
        comments_count: 0,
    }
}

#[test]
fn priority_exact_values() {
    let now = 1_700_000_000;
    // 8 days old (25), not a draft (10), updated 10 minutes ago (5)
    let pr = fixed_pr(now - 8 * 86400, now - 600, false);
    assert_eq!(priority_at(&pr, None, now), 40);
    // + 1200 lines (15) + passing CI (20) + approved (25)
    let d = make_details(CiStatus::Pass, Some("APPROVED"), 1200);
    assert_eq!(priority_at(&pr, Some(&d), now), 100);
    // 2 days old (8), draft (0), updated 2 hours ago (3), 600 lines (10),
    // pending CI (10), changes requested (15)
    let pr2 = fixed_pr(now - 2 * 86400, now - 7200, true);
    let d2 = make_details(CiStatus::Pending, Some("CHANGES_REQUESTED"), 600);
    assert_eq!(priority_at(&pr2, Some(&d2), now), 46);
    // fresh (0), not a draft (10), idle for two days (0), no decision (5)
    let pr3 = fixed_pr(now - 100, now - 2 * 86400, false);
    let d3 = make_details(CiStatus::NoChecks, None, 10);
    assert_eq!(priority_at(&pr3, Some(&d3), now), 15);
    // an unknown decision counts as none; a time in the future counts by its distance
    let d4 = make_details(CiStatus::Fail, Some("SOMETHING"), 101);
    assert_eq!(priority_at(&pr3, Some(&d4), now - 4 * 86400), 10 + 15 + 5 + 5);
}

#[test]
fn priority_never_exceeds_hundred() {
    let now = 1_700_000_000;
    let pr = fixed_pr(i64::MIN, now, false);
    let d = make_details(CiStatus::Pass, Some("APPROVED"), u32::MAX);
    let mut d2 = make_details(CiStatus::Pass, Some("APPROVED"), u32::MAX);
    d2.deletions = u32::MAX;
    assert_eq!(priority_at(&pr, Some(&d), now), 100);
    assert_eq!(priority_at(&pr, Some(&d2), now), 100);
}
