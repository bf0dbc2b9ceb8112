use github_notif_tui::app::{AppState, FilterPreset, SortDir, SortKey};
use github_notif_tui::gh::{Author, CheckRun, CiStatus, PrDetails, PullRequest, Repository, Review};
use github_notif_tui::review::analyze_reviewers;
use github_notif_tui::ui::{
    body_title, centered_rect, ci_line, decision_label, extra_bar, failed_check_names, filter_dot,
    fit_title, footer_text_at, highlighted_row, list_title, row_badges, score_tone, search_bar_text, short_age,
    title_width, Area, DecisionLabel, ExtraBar, Icon, Tone,
};

fn check(name: &str, conclusion: &str) -> CheckRun {
    CheckRun { name: name.to_string(), status: String::new(), conclusion: conclusion.to_string(), details_url: String::new() }
}

fn review(l: &str, s: &str) -> Review {
    Review { state: s.to_string(), author: Author { login: l.to_string() }, submitted_at: None }
}

fn details(decision: Option<&str>, reviews: Vec<Review>, requested: Vec<&str>) -> PrDetails {
    PrDetails {
        reviews,
        additions: 1,
        deletions: 1,
        review_decision: decision.map(String::from),
        requested_reviewers: requested.into_iter().map(String::from).collect(),
        checks: vec![],
        ci_status: CiStatus::Pending,
    }
}

#[test]
fn decision_labels() {
    let d = details(Some("APPROVED"), vec![review("a", "APPROVED")], vec![]);
    let r = analyze_reviewers(&d, "me");
    assert!(matches!(decision_label(&d, &r), DecisionLabel::Approved(1)));
    let d = details(Some("APPROVED"), vec![review("a", "APPROVED")], vec!["b"]);
    let r = analyze_reviewers(&d, "me");
    assert!(matches!(decision_label(&d, &r), DecisionLabel::ReviewRequired));
    let d = details(Some("REVIEW_REQUIRED"), vec![review("a", "APPROVED"), review("b", "APPROVED")], vec![]);
    let r = analyze_reviewers(&d, "me");
    assert!(matches!(decision_label(&d, &r), DecisionLabel::Approved(2)));
    let d = details(Some("REVIEW_REQUIRED"), vec![review("a", "APPROVED")], vec![]);
    let r = analyze_reviewers(&d, "me");
    assert!(matches!(decision_label(&d, &r), DecisionLabel::Partial(1)));
    let d = details(Some("REVIEW_REQUIRED"), vec![], vec![]);
    assert!(matches!(decision_label(&d, &[]), DecisionLabel::ReviewRequired));
    let d = details(Some("CHANGES_REQUESTED"), vec![review("a", "CHANGES_REQUESTED")], vec!["a"]);
    let r = analyze_reviewers(&d, "me");
    assert!(matches!(decision_label(&d, &r), DecisionLabel::ReReviewRequested));
    let d = details(Some("CHANGES_REQUESTED"), vec![review("a", "CHANGES_REQUESTED")], vec![]);
    let r = analyze_reviewers(&d, "me");
    assert!(matches!(decision_label(&d, &r), DecisionLabel::ChangesRequested));
    let d = details(Some("WEIRD"), vec![], vec![]);
    match decision_label(&d, &[]) {
        DecisionLabel::Other(s) => assert_eq!(s, "WEIRD"),
        _ => panic!("expected the decision as it is"),
    }
    let d = details(None, vec![], vec![]);
    assert!(matches!(decision_label(&d, &[]), DecisionLabel::Missing));
}

#[test]
fn ci_lines_and_failed_checks() {
    let mut d = details(None, vec![], vec![]);
    let (icon, tone, text) = ci_line(&d);
    assert_eq!((icon, tone, text.as_str()), (Icon::Dash, Tone::Dim, ""));
    d.checks = vec![check("build", "success"), check("lint", "FAILURE"), check("docs", "skipped"), check("e2e", "cancelled"), check("slow", "")];
    d.ci_status = CiStatus::Fail;
    let (icon, tone, text) = ci_line(&d);
    assert_eq!((icon, tone, text.as_str()), (Icon::Cross, Tone::CiFail, "2 failed, 2 passed"));
    d.ci_status = CiStatus::Pending;
    assert_eq!(ci_line(&d).2, "2/5 passed, rest pending");
    d.ci_status = CiStatus::Pass;
    assert_eq!(ci_line(&d).2, "2/5 passed");
    d.ci_status = CiStatus::NoChecks;
    assert_eq!(ci_line(&d).2, "none");
    assert_eq!(failed_check_names(&d.checks), vec!["lint".to_string(), "e2e".to_string()]);
}

#[test]
fn row_badges_and_tones() {
    let d = details(Some("APPROVED"), vec![review("a", "APPROVED")], vec![]);
    let r = analyze_reviewers(&d, "me");
    let b = row_badges(Some(&d), &r);
    assert_eq!(b.number_tone, Tone::CiPass);
    assert_eq!(b.review, Some((1, Icon::Check)));
    assert_eq!(b.ci, Some(Icon::Clock));
    let d2 = details(None, vec![review("a", "CHANGES_REQUESTED"), review("b", "CHANGES_REQUESTED")], vec![]);
    let r2 = analyze_reviewers(&d2, "me");
    let b2 = row_badges(Some(&d2), &r2);
    assert_eq!(b2.review, Some((2, Icon::Cross)));
    assert_eq!(b2.review_tone, Tone::CiFail);
    let d3 = details(None, vec![review("a", "APPROVED")], vec!["b"]);
    let r3 = analyze_reviewers(&d3, "me");
    assert_eq!(row_badges(Some(&d3), &r3).review_tone, Tone::CiPending);
    let none = row_badges(None, &[]);
    assert_eq!(none.review, None);
    assert_eq!(none.ci, None);
    assert_eq!(score_tone(71), Tone::CiPass);
    assert_eq!(score_tone(70), Tone::CiPending);
    assert_eq!(score_tone(41), Tone::CiPending);
    assert_eq!(score_tone(40), Tone::CiFail);
    assert_eq!(filter_dot(FilterPreset::All), ("", Tone::Dim));
    assert_eq!(filter_dot(FilterPreset::Draft), ("○ ", Tone::Dim));
}

#[test]
fn ages() {
    let (text, tone) = short_age(0);
    assert_eq!(text, "0s");
    assert_eq!(tone, Tone::AgeFresh);
    let (text, tone) = short_age(3 * 86400 + 3600);
    assert_eq!(text, "3days");
    assert_eq!(tone, Tone::AgeMedium);
    let (text, tone) = short_age(10 * 86400);
    assert_eq!(text, "10days");
    assert_eq!(tone, Tone::AgeOld);
    assert_eq!(short_age(2 * 86400).1, Tone::AgeFresh);
}

#[test]
fn titles_and_widths() {
    assert_eq!(title_width(40, 10, 4, 6), 20);
    assert_eq!(title_width(10, 10, 4, 6), 0);
    assert_eq!(title_width(15, 10, 4, 6), 0);
    assert_eq!(fit_title("héllo world", 5), "héllo");
    assert_eq!(fit_title("ab", 5), "ab   ");
    assert_eq!(fit_title("", 0), "");
    assert_eq!(list_title("Team", true, 3, true, 1, 2), " Team — loading… ");
    assert_eq!(list_title("Team", false, 3, true, 1, 2), " Team (3 selected) ");
    assert_eq!(list_title("Team", false, 0, true, 1, 12), " Team (1/12) ");
    assert_eq!(list_title("Team", false, 0, false, 1, 12), " Team ");
}

fn pr(number: u64) -> PullRequest {
    PullRequest {
        number,
        title: "t".to_string(),
        url: "u".to_string(),
        author: Author { login: "a".to_string() },
        repository: Repository { name_with_owner: "o/r".to_string() },
        created_at: 0,
        updated_at: 0,
        is_draft: false,
        comments_count: 0,
    }
}

#[test]
fn bars_and_footer() {
    let mut s = AppState::default();
    assert_eq!(body_title(&s), " Personal — loading… ");
    assert_eq!(highlighted_row(&s), None);
    s.tabs[0].loading = false;
    s.tabs[0].prs = vec![pr(1), pr(2)];
    assert_eq!(body_title(&s), " Personal ");
    assert_eq!(highlighted_row(&s), Some(0));
    s.filter = FilterPreset::Draft;
    assert_eq!(body_title(&s), " Personal (0/2) ");
    assert_eq!(extra_bar(&s), ExtraBar::NoBar);
    s.search_query = "ab".to_string();
    assert_eq!(extra_bar(&s), ExtraBar::Search);
    assert_eq!(search_bar_text(&s), "/ab");
    s.search_mode = true;
    assert_eq!(search_bar_text(&s), "/ab█");
    assert_eq!(footer_text_at(&s, 100), " Esc cancel  Enter confirm");
    s.snooze_mode = true;
    assert_eq!(extra_bar(&s), ExtraBar::Snooze);
    s.snooze_mode = false;
    s.search_mode = false;
    s.last_refresh = Some(58);
    assert_eq!(footer_text_at(&s, 100), " q quit  o open  d done  z snooze  / search  f filter  s sort  ? help  ⟳ 42s ago");
    s.sort.key = SortKey::Size;
    s.sort.dir = SortDir::Desc;
    assert_eq!(footer_text_at(&s, 50), " q quit  o open  d done  z snooze  / search  f filter  s sort  · sort: size ↓  ? help  ⟳ -8s ago");
    s.tabs[0].toggle_selection(1);
    s.last_refresh = None;
    assert_eq!(footer_text_at(&s, 50), " v toggle  V all  Esc clear  o open (1 selected)  ? help");
}

#[test]
fn centered_popup() {
    let r = centered_rect(Area { x: 0, y: 0, width: 100, height: 40 }, 56, 24);
    assert_eq!(r, Area { x: 22, y: 8, width: 56, height: 24 });
    let small = centered_rect(Area { x: 5, y: 5, width: 20, height: 10 }, 56, 24);
    assert_eq!(small, Area { x: 7, y: 6, width: 16, height: 8 });
    let tiny = centered_rect(Area { x: 0, y: 0, width: 3, height: 1 }, 56, 24);
    assert_eq!(tiny, Area { x: 1, y: 0, width: 0, height: 0 });
}
