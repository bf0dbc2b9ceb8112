use github_notif_tui::app::{AppState, FilterPreset, SortDir, SortKey};
use github_notif_tui::control::{
    command_for, handle_event_at, handle_key, handle_normal_key, handle_search_key, handle_snooze_key,
    open_in_browser, open_selected_in_browser, snooze_duration, toggle_done, Command,
};
use github_notif_tui::events::{is_quit, AppEvent, Effect, KeyCode, KeyEvent, KeyModifiers};
use github_notif_tui::gh::{Author, CiStatus, PrDetails, PullRequest, Repository};

const NOW: i64 = 1_700_000_000; // Tuesday 14 November 2023, 22:13:20 UTC

fn no_mods() -> KeyModifiers {
    KeyModifiers { shift: false, control: false, alt: false, super_key: false, hyper: false, meta: false }
}

fn key(c: char) -> KeyEvent {
    KeyEvent { code: KeyCode::Char(c), modifiers: no_mods() }
}

fn pr(number: u64, repo: &str, created_at: i64) -> PullRequest {
    PullRequest {
        number,
        title: format!("PR {}", number),
        url: format!("https://github.com/{}/pull/{}", repo, number),
        author: Author { login: "someone".to_string() },
        repository: Repository { name_with_owner: repo.to_string() },
        created_at,
        updated_at: created_at,
        is_draft: false,
        comments_count: 0,
    }
}

fn details() -> PrDetails {
    PrDetails {
        reviews: vec![],
        additions: 3,
        deletions: 4,
        review_decision: Some("APPROVED".to_string()),
        requested_reviewers: vec!["x".to_string()],
        checks: vec![],
        ci_status: CiStatus::Pass,
    }
}

fn loaded_state() -> AppState {
    let mut s = AppState::default();
    let prs = vec![pr(1, "o/a", 10), pr(2, "o/a", 20), pr(3, "o/b", 30)];
    let e = handle_event_at(&mut s, AppEvent::TabLoaded(0, prs), NOW);
    assert_eq!(e.len(), 1);
    match &e[0] {
        Effect::FetchDetails(ids) => {
            assert_eq!(ids.len(), 3);
            assert_eq!(ids[2], ("o/b".to_string(), 3));
        }
        _ => panic!("expected a fetch of details"),
    }
    s
}

fn fetched(e: &[Effect]) -> Option<(String, u64)> {
    match e {
        [Effect::FetchDetail(id)] => Some(id.clone()),
        [] => None,
        _ => panic!("unexpected effects"),
    }
}

#[test]
fn quit_keys() {
    assert!(is_quit(&key('q')));
    let mut ctrl = no_mods();
    ctrl.control = true;
    assert!(is_quit(&KeyEvent { code: KeyCode::Char('c'), modifiers: ctrl }));
    let mut ctrl_shift = ctrl;
    ctrl_shift.shift = true;
    assert!(!is_quit(&KeyEvent { code: KeyCode::Char('c'), modifiers: ctrl_shift }));
    assert!(!is_quit(&key('c')));
    let mut s = loaded_state();
    let e = handle_key(&mut s, key('q'), NOW);
    assert!(matches!(e.as_slice(), [Effect::Quit]));
}

#[test]
fn key_bindings() {
    assert_eq!(command_for(KeyCode::Tab, false), Command::NextTab);
    assert_eq!(command_for(KeyCode::Char('h'), false), Command::PrevTab);
    assert_eq!(command_for(KeyCode::Char('g'), false), Command::ArmGoToFirst);
    assert_eq!(command_for(KeyCode::Char('g'), true), Command::GoToFirst);
    assert_eq!(command_for(KeyCode::Enter, false), Command::Open);
    assert_eq!(command_for(KeyCode::Char('x'), false), Command::Nothing);
    assert_eq!(command_for(KeyCode::Backspace, false), Command::Nothing);
}

#[test]
fn moving_asks_for_details_once() {
    let mut s = loaded_state();
    let e = handle_normal_key(&mut s, KeyCode::Char('j'), NOW);
    assert_eq!(s.active_tab_state().selected, 1);
    assert_eq!(fetched(&e), Some(("o/a".to_string(), 2)));
    let e = handle_event_at(&mut s, AppEvent::DetailLoaded(("o/a".to_string(), 2), details()), NOW);
    assert!(e.is_empty());
    assert!(s.tabs[0].details_cache.contains("o/a", 2));
    assert!(!s.tabs[1].details_cache.contains("o/a", 2));
    let e = handle_normal_key(&mut s, KeyCode::Char('k'), NOW);
    assert_eq!(fetched(&e), Some(("o/a".to_string(), 1)));
    let e = handle_event_at(&mut s, AppEvent::DetailError(("o/a".to_string(), 1)), NOW);
    assert!(e.is_empty());
    assert!(s.tabs[0].failed_details.contains("o/a", 1));
    let e = handle_normal_key(&mut s, KeyCode::Up, NOW);
    assert_eq!(fetched(&e), None);
    let e = handle_normal_key(&mut s, KeyCode::Down, NOW);
    assert_eq!(fetched(&e), None);
    // details arriving clear an earlier failure
    handle_event_at(&mut s, AppEvent::DetailLoaded(("o/a".to_string(), 1), details()), NOW);
    assert!(!s.tabs[0].failed_details.contains("o/a", 1));
}

#[test]
fn double_g_and_capital_g() {
    let mut s = loaded_state();
    handle_normal_key(&mut s, KeyCode::Char('G'), NOW);
    assert_eq!(s.active_tab_state().selected, 2);
    handle_normal_key(&mut s, KeyCode::Char('g'), NOW);
    assert!(s.pending_g);
    assert_eq!(s.active_tab_state().selected, 2);
    handle_normal_key(&mut s, KeyCode::Char('g'), NOW);
    assert!(!s.pending_g);
    assert_eq!(s.active_tab_state().selected, 0);
    handle_normal_key(&mut s, KeyCode::Char('g'), NOW);
    handle_normal_key(&mut s, KeyCode::Char('x'), NOW);
    assert!(!s.pending_g);
}

#[test]
fn search_mode_typing() {
    let mut s = loaded_state();
    s.active_tab_state_mut().selected = 2;
    handle_key(&mut s, key('/'), NOW);
    assert!(s.search_mode);
    assert_eq!(s.active_tab_state().selected, 0);
    handle_key(&mut s, key('o'), NOW);
    handle_key(&mut s, key('/'), NOW);
    handle_key(&mut s, key('b'), NOW);
    assert_eq!(s.search_query, "o/b");
    handle_key(&mut s, KeyEvent { code: KeyCode::Backspace, modifiers: no_mods() }, NOW);
    assert_eq!(s.search_query, "o/");
    handle_search_key(&mut s, KeyCode::Char('b'), NOW);
    let e = handle_search_key(&mut s, KeyCode::Enter, NOW);
    assert!(!s.search_mode);
    assert_eq!(s.search_query, "o/b");
    assert_eq!(fetched(&e), Some(("o/b".to_string(), 3)));
    // q in the search text does not quit
    handle_key(&mut s, key('/'), NOW);
    let e = handle_key(&mut s, key('q'), NOW);
    assert!(e.is_empty());
    assert_eq!(s.search_query, "q");
    handle_key(&mut s, KeyEvent { code: KeyCode::Esc, modifiers: no_mods() }, NOW);
    assert!(!s.search_mode);
    assert_eq!(s.search_query, "");
    let e = handle_search_key(&mut s, KeyCode::Backspace, NOW);
    assert!(e.is_empty());
    assert_eq!(s.search_query, "");
}

#[test]
fn filters_and_sorting() {
    let mut s = loaded_state();
    s.active_tab_state_mut().selected = 1;
    handle_normal_key(&mut s, KeyCode::Char('f'), NOW);
    assert_eq!(s.filter, FilterPreset::Ready);
    assert_eq!(s.active_tab_state().selected, 0);
    handle_normal_key(&mut s, KeyCode::Char('F'), NOW);
    handle_normal_key(&mut s, KeyCode::Char('F'), NOW);
    assert_eq!(s.filter, FilterPreset::Draft);
    for expected in [SortKey::Age, SortKey::Size, SortKey::Reviews, SortKey::Priority] {
        handle_normal_key(&mut s, KeyCode::Char('s'), NOW);
        assert_eq!(s.sort.key, expected);
    }
    handle_normal_key(&mut s, KeyCode::Char('S'), NOW);
    assert_eq!(s.sort.dir, SortDir::Desc);
    handle_normal_key(&mut s, KeyCode::Char('s'), NOW);
    assert_eq!(s.sort.key, SortKey::Default);
    assert_eq!(s.sort.dir, SortDir::Asc);
}

#[test]
fn marking_and_bulk_actions() {
    let mut s = loaded_state();
    handle_normal_key(&mut s, KeyCode::Char('v'), NOW);
    assert_eq!(s.active_tab_state().selected, 1);
    handle_normal_key(&mut s, KeyCode::Char('v'), NOW);
    assert_eq!(s.active_tab_state().selected_set.len(), 2);
    let e = handle_normal_key(&mut s, KeyCode::Char('d'), NOW);
    assert!(matches!(e.as_slice(), [Effect::SaveLocalState]));
    assert!(!s.active_tab_state().has_selection());
    assert!(s.local_state.done.contains("o/a", 1));
    assert!(s.local_state.done.contains("o/a", 2));
    assert!(!s.local_state.done.contains("o/b", 3));
    // d on the cursor toggles it
    handle_normal_key(&mut s, KeyCode::Char('d'), NOW);
    assert!(s.local_state.done.contains("o/b", 3));
    handle_normal_key(&mut s, KeyCode::Char('d'), NOW);
    assert!(!s.local_state.done.contains("o/b", 3));
    handle_normal_key(&mut s, KeyCode::Char('V'), NOW);
    assert_eq!(s.active_tab_state().selected_set.len(), 3);
    let e = handle_normal_key(&mut s, KeyCode::Char('o'), NOW);
    assert_eq!(e.len(), 3);
    match &e[0] {
        Effect::OpenUrl(u) => assert_eq!(u, "https://github.com/o/a/pull/1"),
        _ => panic!("expected a page"),
    }
    assert!(!s.active_tab_state().has_selection());
    let e = handle_normal_key(&mut s, KeyCode::Enter, NOW);
    assert_eq!(e.len(), 2);
    assert!(matches!(&e[0], Effect::SaveLocalState));
    assert!(s.local_state.read.contains("o/b", 3));
    handle_normal_key(&mut s, KeyCode::Char('V'), NOW);
    handle_normal_key(&mut s, KeyCode::Esc, NOW);
    assert!(!s.active_tab_state().has_selection());
    handle_normal_key(&mut s, KeyCode::Char('p'), NOW);
    assert!(s.local_state.pinned.contains("o/b", 3));
    handle_normal_key(&mut s, KeyCode::Char('u'), NOW);
    assert!(!s.local_state.read.contains("o/b", 3));
}

#[test]
fn at_most_ten_pages_open() {
    let mut s = AppState::default();
    let prs: Vec<PullRequest> = (1..=12).map(|n| pr(n, "o/a", n as i64)).collect();
    handle_event_at(&mut s, AppEvent::TabLoaded(0, prs), NOW);
    handle_normal_key(&mut s, KeyCode::Char('V'), NOW);
    let e = handle_normal_key(&mut s, KeyCode::Char('o'), NOW);
    assert_eq!(e.len(), 10);
    match &e[9] {
        Effect::OpenUrl(u) => assert_eq!(u, "https://github.com/o/a/pull/10"),
        _ => panic!("expected a page"),
    }
}

#[test]
fn refresh_forgets_details() {
    let mut s = loaded_state();
    handle_event_at(&mut s, AppEvent::DetailLoaded(("o/a".to_string(), 1), details()), NOW);
    let e = handle_normal_key(&mut s, KeyCode::Char('r'), NOW);
    assert!(matches!(e.as_slice(), [Effect::FetchAllTabs]));
    assert_eq!(s.tabs[0].details_cache.len(), 0);
    assert!(s.last_refresh.is_none());
}

#[test]
fn tabs_switch_and_errors() {
    let mut s = loaded_state();
    assert_eq!(s.last_refresh, Some(NOW));
    handle_normal_key(&mut s, KeyCode::Char('l'), NOW);
    assert_eq!(s.active_tab, 1);
    handle_normal_key(&mut s, KeyCode::BackTab, NOW);
    assert_eq!(s.active_tab, 0);
    handle_event_at(&mut s, AppEvent::TabError(3, "boom".to_string()), NOW);
    assert!(!s.tabs[3].loading);
    assert_eq!(s.error.as_deref(), Some("boom"));
    // a reload with fewer PRs keeps the cursor on the list
    s.active_tab_state_mut().selected = 2;
    handle_event_at(&mut s, AppEvent::TabLoaded(0, vec![pr(9, "o/c", 1)]), NOW);
    assert_eq!(s.tabs[0].selected, 0);
}

#[test]
fn help_and_snooze_modes() {
    let mut s = loaded_state();
    handle_key(&mut s, key('?'), NOW);
    assert!(s.show_help);
    handle_key(&mut s, key('j'), NOW);
    assert_eq!(s.active_tab_state().selected, 0);
    handle_key(&mut s, KeyEvent { code: KeyCode::Esc, modifiers: no_mods() }, NOW);
    assert!(!s.show_help);
    handle_key(&mut s, key('z'), NOW);
    assert!(s.snooze_mode);
    let e = handle_key(&mut s, key('x'), NOW);
    assert!(e.is_empty() && s.snooze_mode);
    let e = handle_snooze_key(&mut s, KeyCode::Char('4'), NOW);
    assert!(matches!(e.as_slice(), [Effect::SaveLocalState]));
    assert!(!s.snooze_mode);
    assert_eq!(s.local_state.snoozed.get("o/a", 1), Some(&(NOW + 4 * 3600)));
    handle_key(&mut s, key('z'), NOW);
    handle_key(&mut s, KeyEvent { code: KeyCode::Esc, modifiers: no_mods() }, NOW);
    assert!(!s.snooze_mode);
}

#[test]
fn snooze_times() {
    assert_eq!(snooze_duration(KeyCode::Char('1'), NOW), Some(3600));
    // tomorrow 09:00 UTC is Wednesday 15 November 2023 09:00 = 1700038800
    assert_eq!(snooze_duration(KeyCode::Char('t'), NOW), Some(1_700_038_800 - NOW));
    // next Monday 09:00 UTC is 20 November 2023 09:00 = 1700470800
    assert_eq!(snooze_duration(KeyCode::Char('w'), NOW), Some(1_700_470_800 - NOW));
    // on a Monday, next Monday is a week later
    let monday = 1_700_470_800;
    assert_eq!(snooze_duration(KeyCode::Char('w'), monday), Some(7 * 86400));
    // before 1970 (a Wednesday, 31 December 1969)
    assert_eq!(snooze_duration(KeyCode::Char('t'), -10), Some(9 * 3600 + 10));
    assert_eq!(snooze_duration(KeyCode::Char('w'), -10), Some(4 * 86400 + 9 * 3600 + 10));
    assert_eq!(snooze_duration(KeyCode::Esc, NOW), None);
}

#[test]
fn steps_leave_the_g_prefix_alone() {
    let mut s = AppState::default();
    s.pending_g = true;
    let e = toggle_done(&mut s, NOW);
    assert!(e.is_empty());
    assert!(s.pending_g);
    let e = open_in_browser(&mut s, NOW);
    assert!(e.is_empty());
    assert!(s.pending_g);

    let mut s = loaded_state();
    s.pending_g = true;
    s.tabs[0].selected_set.insert(2);
    let e = open_selected_in_browser(&mut s, NOW);
    assert!(matches!(e.as_slice(), [Effect::OpenUrl(u)] if u == "https://github.com/o/b/pull/3"));
    assert!(s.tabs[0].selected_set.is_empty());
    assert!(s.pending_g);
    assert!(s.local_state.read.len() == 0);

    let mut s = loaded_state();
    s.pending_g = true;
    let e = open_in_browser(&mut s, NOW);
    assert!(matches!(e.as_slice(), [Effect::SaveLocalState, Effect::OpenUrl(u)] if u == "https://github.com/o/a/pull/1"));
    assert!(s.local_state.read.contains("o/a", 1));
    assert!(s.pending_g);
    let e = handle_normal_key(&mut s, KeyCode::Char('d'), NOW);
    assert!(matches!(e.as_slice(), [Effect::SaveLocalState]));
    assert!(!s.pending_g);
}
