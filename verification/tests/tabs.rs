use github_notif_tui::app::{
    matches_query, AppState, FilterPreset, PrStatus, SortDir, SortKey, SortState, Tab, TabState,
};
use github_notif_tui::gh::{Author, CiStatus, PrDetails, PullRequest, Repository, Review};

fn pr(number: u64, title: &str, login: &str, repo: &str, created_at: i64, draft: bool) -> PullRequest {
    PullRequest {
        number,
        title: title.to_string(),
        url: format!("https://github.com/{}/pull/{}", repo, number),
        author: Author { login: login.to_string() },
        repository: Repository { name_with_owner: repo.to_string() },
        created_at,
        updated_at: created_at,
        is_draft: draft,
        comments_count: 0,
    }
}

fn details(ci: CiStatus, decision: Option<&str>, reviews: Vec<(&str, &str)>, lines: u32) -> PrDetails {
    PrDetails {
        reviews: reviews
            .into_iter()
            .map(|(l, s)| Review { state: s.to_string(), author: Author { login: l.to_string() }, submitted_at: None })
            .collect(),
        additions: lines,
        deletions: 0,
        review_decision: decision.map(String::from),
        requested_reviewers: vec![],
        checks: vec![],
        ci_status: ci,
    }
}

fn sample_tab() -> TabState {
    let mut t = TabState::default();
    t.prs = vec![
        pr(1, "Fix parser", "alice", "org/core", 300, false),
        pr(2, "Add docs", "bob", "org/docs", 100, true),
        pr(3, "Refactor Parser", "carol", "org/core", 200, false),
        pr(4, "Bump deps", "alice", "other/tool", 400, false),
    ];
    t.details_cache.insert(("org/core".to_string(), 1), details(CiStatus::Pass, Some("APPROVED"), vec![("bob", "APPROVED")], 10));
    t.details_cache.insert(("org/core".to_string(), 3), details(CiStatus::Fail, None, vec![], 900));
    t.details_cache.insert(("other/tool".to_string(), 4), details(CiStatus::Pass, Some("REVIEW_REQUIRED"), vec![("dan", "CHANGES_REQUESTED")], 50));
    t
}

fn numbers(v: &[&PullRequest]) -> Vec<u64> {
    v.iter().map(|p| p.number).collect()
}

#[test]
fn labels_and_cycles() {
    assert_eq!(FilterPreset::All.label(), "All");
    assert_eq!(FilterPreset::NeedsReview.label(), "Review");
    assert_eq!(FilterPreset::NeedsWork.label(), "Attention");
    assert_eq!(FilterPreset::Draft.next(), FilterPreset::All);
    assert_eq!(FilterPreset::All.prev(), FilterPreset::Draft);
    let mut f = FilterPreset::Ready;
    for _ in 0..5 {
        f = f.next();
    }
    assert_eq!(f, FilterPreset::Ready);
    assert_eq!(f.next().prev(), f);
    assert_eq!(SortKey::Default.label(), "default");
    assert_eq!(SortKey::Priority.next(), SortKey::Default);
    assert_eq!(SortKey::Age.next(), SortKey::Size);
    assert_eq!(Tab::Mine.label(), "Mine");
    assert_eq!(Tab::from(7), Tab::Mentioned);
    assert_eq!(Tab::from(Tab::Assigned.index()), Tab::Assigned);
    assert_eq!(PrStatus::default(), PrStatus::InProgress);
    assert_eq!(SortState::default(), SortState { key: SortKey::Default, dir: SortDir::Asc });
}

#[test]
fn query_matching_forms() {
    let p = pr(9, "Make Parser FAST", "Alice", "Org/Core", 0, false);
    assert!(matches_query(&p, "parser"));
    assert!(matches_query(&p, "@ali"));
    assert!(!matches_query(&p, "@core"));
    assert!(matches_query(&p, "repo:org/co"));
    assert!(!matches_query(&p, "repo:parser"));
    assert!(matches_query(&p, "ORG"));
    assert!(!matches_query(&p, "slow"));
    assert!(matches_query(&p, "@"));
}

#[test]
fn status_from_details() {
    let t = sample_tab();
    assert_eq!(t.pr_status(&t.prs[0]), PrStatus::Ready);
    assert_eq!(t.pr_status(&t.prs[1]), PrStatus::Draft);
    assert_eq!(t.pr_status(&t.prs[2]), PrStatus::NeedsWork);
    assert_eq!(t.pr_status(&t.prs[3]), PrStatus::NeedsWork);
    let bare = pr(5, "x", "y", "z/w", 0, false);
    assert_eq!(t.pr_status(&bare), PrStatus::InProgress);
}

#[test]
fn visible_filter_and_search() {
    let t = sample_tab();
    let d = SortState::default();
    assert_eq!(numbers(&t.visible_prs("", &d, FilterPreset::All)), vec![1, 2, 3, 4]);
    assert_eq!(numbers(&t.visible_prs("", &d, FilterPreset::Ready)), vec![1]);
    assert_eq!(numbers(&t.visible_prs("", &d, FilterPreset::NeedsWork)), vec![3, 4]);
    assert_eq!(numbers(&t.visible_prs("", &d, FilterPreset::Draft)), vec![2]);
    assert_eq!(numbers(&t.visible_prs("", &d, FilterPreset::NeedsReview)), Vec::<u64>::new());
    assert_eq!(numbers(&t.visible_prs("parser", &d, FilterPreset::All)), vec![1, 3]);
    assert_eq!(numbers(&t.visible_prs("@alice", &d, FilterPreset::All)), vec![1, 4]);
    assert_eq!(numbers(&t.visible_prs("repo:other", &d, FilterPreset::All)), vec![4]);
    assert_eq!(t.visible_count("parser", FilterPreset::NeedsWork), 1);
}

#[test]
fn visible_sorted_stable() {
    let t = sample_tab();
    let age = SortState { key: SortKey::Age, dir: SortDir::Asc };
    assert_eq!(numbers(&t.visible_prs("", &age, FilterPreset::All)), vec![2, 3, 1, 4]);
    let age_desc = SortState { key: SortKey::Age, dir: SortDir::Desc };
    assert_eq!(numbers(&t.visible_prs("", &age_desc, FilterPreset::All)), vec![4, 1, 3, 2]);
    // sizes 10, none (0), 900, 50: ties keep fetched order
    let size = SortState { key: SortKey::Size, dir: SortDir::Asc };
    assert_eq!(numbers(&t.visible_prs("", &size, FilterPreset::All)), vec![2, 1, 4, 3]);
    // reviews 1, 0, 0, 1: stable
    let reviews = SortState { key: SortKey::Reviews, dir: SortDir::Asc };
    assert_eq!(numbers(&t.visible_prs("", &reviews, FilterPreset::All)), vec![2, 3, 1, 4]);
    let at = t.visible_prs_at("", &SortState { key: SortKey::Priority, dir: SortDir::Desc }, FilterPreset::All, 500);
    assert_eq!(at.len(), 4);
}

#[test]
fn cursor_moves_within_list() {
    let mut t = sample_tab();
    let d = SortState::default();
    t.move_up();
    assert_eq!(t.selected, 0);
    t.move_down("", &d, FilterPreset::All);
    t.move_down("", &d, FilterPreset::All);
    assert_eq!(t.selected, 2);
    t.go_to_last("", &d, FilterPreset::All);
    assert_eq!(t.selected, 3);
    t.move_down("", &d, FilterPreset::All);
    assert_eq!(t.selected, 3);
    assert_eq!(t.selected_pr("", &d, FilterPreset::All).unwrap().number, 4);
    t.go_to_last("", &d, FilterPreset::Ready);
    assert_eq!(t.selected, 0);
    t.go_to_first();
    assert_eq!(t.selected, 0);
    t.selected = 9;
    assert!(t.selected_pr("", &d, FilterPreset::All).is_none());
    let mut empty = TabState::default();
    empty.go_to_last("", &d, FilterPreset::All);
    assert_eq!(empty.selected, 0);
}

#[test]
fn marks_toggle_and_select_all() {
    let mut t = sample_tab();
    assert!(!t.has_selection());
    t.toggle_selection(2);
    assert!(t.has_selection());
    t.toggle_selection(2);
    assert!(!t.has_selection());
    t.select_all_visible(3);
    assert_eq!(t.selected_set.len(), 3);
    assert!(t.selected_set.contains(&0) && t.selected_set.contains(&2));
    t.select_all_visible(3);
    assert!(!t.has_selection());
    t.toggle_selection(1);
    t.clear_selection();
    assert!(!t.has_selection());
}

#[test]
fn app_state_tabs() {
    let mut s = AppState::default();
    assert!(s.tabs.iter().all(|t| t.loading));
    assert_eq!(s.tab_label(0), "Personal");
    s.tabs[1].prs = vec![pr(1, "a", "b", "c/d", 0, false), pr(2, "a", "b", "c/d", 0, false)];
    assert_eq!(s.tab_label(1), "Team (2)");
    s.search_mode = true;
    s.search_query = "abc".to_string();
    s.tabs[1].selected = 1;
    s.next_tab();
    assert_eq!(s.active_tab, 1);
    assert!(!s.search_mode);
    assert_eq!(s.search_query, "");
    assert_eq!(s.active_tab_state().selected, 0);
    s.prev_tab();
    s.prev_tab();
    assert_eq!(s.active_tab, 4);
    s.next_tab();
    assert_eq!(s.active_tab, 0);
    s.active_tab_state_mut().selected = 3;
    s.reset_search();
    assert_eq!(s.active_tab_state().selected, 0);
}

#[test]
fn the_filters_split_the_list() {
    let mut t = sample_tab();
    t.prs.push(pr(5, "Tidy", "erin", "org/core", 500, false));
    let sort = SortState { key: SortKey::Age, dir: SortDir::Desc };
    let mut all = numbers(&t.visible_prs_at("", &sort, FilterPreset::All, 1000));
    let mut parts = Vec::new();
    for f in [FilterPreset::Ready, FilterPreset::NeedsReview, FilterPreset::NeedsWork, FilterPreset::Draft] {
        let shown = numbers(&t.visible_prs_at("", &sort, f, 1000));
        assert!(!shown.is_empty());
        parts.extend(shown);
    }
    all.sort();
    parts.sort();
    assert_eq!(all, parts);
    assert_eq!(all, vec![1, 2, 3, 4, 5]);
}
