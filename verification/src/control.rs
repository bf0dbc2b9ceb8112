//! The client as a state machine: each event changes the state and asks for
//! effects (fetches, saving the marks, opening pages, quitting).
use vstd::prelude::*;
use crate::app::{tab_reset, AppState, FilterPreset, SortDir, SortKey, SortState, TabState};
use crate::clock::{in_clock_range, now_timestamp};
use crate::events::{control_only, is_quit, quits, AppEvent, Effect, KeyCode, KeyEvent};
use crate::gh::{id_view, pr_key, same_details, PrDetails, PrId, PullRequest};
use crate::state::LocalState;
use crate::table::Key;
use crate::text::{pop_char, push_char, same_text};

verus! {

broadcast use vstd::std_specs::hash::group_hash_axioms;

// ---------------------------------------------------------------------------
// Rows of the shown list

/// The rows below `n` that are marked, in row order.
pub open spec fn marked_rows(marks: Set<usize>, n: int) -> Seq<int>
    decreases n,
{
    if n <= 0 {
        Seq::empty()
    } else {
        let front = marked_rows(marks, n - 1);
        if marks.contains((n - 1) as usize) {
            front.push(n - 1)
        } else {
            front
        }
    }
}

/// The pull request on row `row` of a list shown in `order`.
pub open spec fn row_pr(t: TabState, order: Seq<usize>, row: int) -> PullRequest {
    t.prs@[order[row] as int]
}

/// `v` is the list shown in `order`.
pub open spec fn rows_match(t: TabState, v: Seq<&PullRequest>, order: Seq<usize>) -> bool {
    &&& v.len() == order.len()
    &&& forall|i: int| 0 <= i < order.len() ==> #[trigger] order[i] < t.prs@.len()
    &&& forall|i: int| 0 <= i < v.len() ==> *#[trigger] v[i] == t.prs@[order[i] as int]
}

/// The order of the active tab's list at time `now`.
pub open spec fn shown_order(s: AppState, now: int) -> Seq<usize> {
    s.current().visible_order(s.search_query@, s.sort, s.filter, now)
}

/// Identities of the marked rows, in row order.
pub open spec fn marked_keys(t: TabState, order: Seq<usize>) -> Seq<Key> {
    marked_rows(t.selected_set@, order.len() as int).map_values(|r: int| pr_key(row_pr(t, order, r)))
}

/// Pages of the marked rows, in row order.
pub open spec fn marked_urls(t: TabState, order: Seq<usize>) -> Seq<Seq<char>> {
    marked_rows(t.selected_set@, order.len() as int).map_values(|r: int| row_pr(t, order, r).url@)
}

/// The pull request under the cursor, if the cursor is on the list.
pub open spec fn cursor_pr(t: TabState, order: Seq<usize>) -> Option<PullRequest> {
    if t.selected < order.len() {
        Some(row_pr(t, order, t.selected as int))
    } else {
        None
    }
}

proof fn lemma_rows_match(t: TabState, v: Seq<&PullRequest>, q: Seq<char>, sort: SortState, filter: FilterPreset, now: int)
    requires
        t.lists_visible(v, q, sort, filter, now),
    ensures
        rows_match(t, v, t.visible_order(q, sort, filter, now)),
{
    let order = t.visible_order(q, sort, filter, now);
    assert(v.len() == order.len());
    assert forall|i: int| 0 <= i < order.len() implies #[trigger] order[i] < t.prs@.len() by {
        let x = v[i];
    }
}

fn marked_ids(t: &TabState, visible: &Vec<&PullRequest>, Ghost(order): Ghost<Seq<usize>>) -> (r: Vec<PrId>)
    requires
        rows_match(*t, visible@, order),
    ensures
        r@.map_values(|id: PrId| id_view(id)) == marked_keys(*t, order),
{
    let mut ids: Vec<PrId> = Vec::new();
    let mut i: usize = 0;
    while i < visible.len()
        invariant
            i <= visible@.len(),
            rows_match(*t, visible@, order),
            ids@.map_values(|id: PrId| id_view(id)) == marked_rows(t.selected_set@, i as int).map_values(
                |r: int| pr_key(row_pr(*t, order, r)),
            ),
        decreases visible@.len() - i,
    {
        let ghost before = ids@;
        let marked = t.selected_set.contains(&i);
        if marked {
            let id = visible[i].id();
            ids.push(id);
        }
        proof {
            let f = |r: int| pr_key(row_pr(*t, order, r));
            let g = |id: PrId| id_view(id);
            let m0 = marked_rows(t.selected_set@, i as int);
            let m1 = marked_rows(t.selected_set@, i + 1);
            if marked {
                assert(m1 == m0.push(i as int));
                assert(ids@ == before.push(ids@.last()));
                assert(m1.map_values(f) =~= m0.map_values(f).push(f(i as int)));
                assert(ids@.map_values(g) =~= before.map_values(g).push(g(ids@.last())));
            } else {
                assert(m1 == m0);
            }
            assert(ids@.map_values(|id: PrId| id_view(id)) =~= marked_rows(t.selected_set@, i + 1).map_values(
                |r: int| pr_key(row_pr(*t, order, r)),
            ));
        }
        i = i + 1;
    }
    ids
}

fn marked_url_list(t: &TabState, visible: &Vec<&PullRequest>, Ghost(order): Ghost<Seq<usize>>) -> (r: Vec<String>)
    requires
        rows_match(*t, visible@, order),
    ensures
        r@.map_values(|u: String| u@) == marked_urls(*t, order),
{
    let mut urls: Vec<String> = Vec::new();
    let mut i: usize = 0;
    while i < visible.len()
        invariant
            i <= visible@.len(),
            rows_match(*t, visible@, order),
            urls@.map_values(|u: String| u@) == marked_rows(t.selected_set@, i as int).map_values(
                |r: int| row_pr(*t, order, r).url@,
            ),
        decreases visible@.len() - i,
    {
        let ghost before = urls@;
        let marked = t.selected_set.contains(&i);
        if marked {
            urls.push(visible[i].url.clone());
        }
        proof {
            let f = |r: int| row_pr(*t, order, r).url@;
            let g = |u: String| u@;
            let m0 = marked_rows(t.selected_set@, i as int);
            let m1 = marked_rows(t.selected_set@, i + 1);
            if marked {
                assert(m1 == m0.push(i as int));
                assert(urls@ == before.push(urls@.last()));
                assert(m1.map_values(f) =~= m0.map_values(f).push(f(i as int)));
                assert(urls@.map_values(g) =~= before.map_values(g).push(g(urls@.last())));
            } else {
                assert(m1 == m0);
            }
            assert(urls@.map_values(|u: String| u@) =~= marked_rows(t.selected_set@, i + 1).map_values(
                |r: int| row_pr(*t, order, r).url@,
            ));
        }
        i = i + 1;
    }
    urls
}

// ---------------------------------------------------------------------------
// Marks

/// `k` removed if present, else added.
pub open spec fn toggled(m: Map<Key, ()>, k: Key) -> Map<Key, ()> {
    if m.contains_key(k) {
        m.remove(k)
    } else {
        m.insert(k, ())
    }
}

/// Each key of `ks` toggled in turn.
pub open spec fn toggled_each(m: Map<Key, ()>, ks: Seq<Key>) -> Map<Key, ()>
    decreases ks.len(),
{
    if ks.len() == 0 {
        m
    } else {
        toggled(toggled_each(m, ks.drop_last()), ks.last())
    }
}

/// Each key of `ks` snoozed until `wake`.
pub open spec fn snoozed_each(m: Map<Key, i64>, ks: Seq<Key>, wake: i64) -> Map<Key, i64>
    decreases ks.len(),
{
    if ks.len() == 0 {
        m
    } else {
        snoozed_each(m, ks.drop_last(), wake).insert(ks.last(), wake)
    }
}

/// `new` is `old` with no row marked.
pub open spec fn marks_cleared(old: TabState, new: TabState) -> bool {
    &&& new == TabState { selected_set: new.selected_set, ..old }
    &&& new.selected_set@.is_empty()
}

// ---------------------------------------------------------------------------
// Detail fetching

/// The pull request under the cursor whose details are neither fetched nor
/// known to have failed.
pub open spec fn detail_wanted(s: AppState, now: int) -> Option<Key> {
    let t = s.current();
    match cursor_pr(t, shown_order(s, now)) {
        Some(pr) => if t.details_cache.map().contains_key(pr_key(pr)) || t.failed_details.map().contains_key(
            pr_key(pr),
        ) {
            None
        } else {
            Some(pr_key(pr))
        },
        None => None,
    }
}

/// `e` asks for the details of `w`, if any.
pub open spec fn fetch_effects(e: Seq<Effect>, w: Option<Key>) -> bool {
    match w {
        Some(k) => e.len() == 1 && (e[0] matches Effect::FetchDetail(id) && id_view(id) == k),
        None => e.len() == 0,
    }
}

/// The pull request whose details should be fetched now (after a move of the
/// cursor), if any: the one under the cursor, unless its details are there
/// or failed.
pub fn detail_to_fetch(state: &AppState, now: i64) -> (r: Option<PrId>)
    requires
        state.active_tab < 5,
    ensures
        match r {
            Some(id) => detail_wanted(*state, now as int) == Some(id_view(id)),
            None => detail_wanted(*state, now as int) is None,
        },
{
    let t = state.active_tab_state();
    let visible = t.visible_prs_at(state.search_query.as_str(), &state.sort, state.filter, now);
    if t.selected < visible.len() {
        let pr = visible[t.selected];
        if t.details_cache.contains(pr.repository.name_with_owner.as_str(), pr.number) || t.failed_details.contains(
            pr.repository.name_with_owner.as_str(),
            pr.number,
        ) {
            None
        } else {
            Some(pr.id())
        }
    } else {
        None
    }
}

/// The effects of `spawn_fetch_detail_if_needed`.
fn fetch_if_needed(state: &AppState, now: i64) -> (r: Vec<Effect>)
    requires
        state.active_tab < 5,
    ensures
        fetch_effects(r@, detail_wanted(*state, now as int)),
{
    let mut e: Vec<Effect> = Vec::new();
    match detail_to_fetch(state, now) {
        Some(id) => e.push(Effect::FetchDetail(id)),
        None => {},
    }
    e
}

// ---------------------------------------------------------------------------
// Commands of the list

/// What a key does when the list has the focus.
#[derive(Clone, Copy, Debug, PartialEq, Eq, Structural)]
pub enum Command {
    NextTab,
    PrevTab,
    MoveDown,
    MoveUp,
    GoToLast,
    GoToFirst,
    ArmGoToFirst,
    StartSearch,
    Refresh,
    ToggleDone,
    StartSnooze,
    ToggleRead,
    TogglePin,
    NextFilter,
    PrevFilter,
    MarkAndMoveDown,
    MarkAll,
    ClearMarks,
    Open,
    NextSortKey,
    FlipSortDir,
    ShowHelp,
    Nothing,
}

/// The key bindings of the list: `Tab`/`l` and `Shift-Tab`/`h` switch tabs,
/// `j`/`Down` and `k`/`Up` move, `G` goes to the last row and `gg` to the
/// first, `/` searches, `r` refreshes, `d` marks done, `z` snoozes, `u`
/// toggles read, `p` pins, `f`/`F` cycle the filter, `v` marks and moves
/// down, `V` marks all, `Esc` unmarks, `o`/`Enter` open, `s` cycles the sort
/// key, `S` flips the direction, `?` shows help.
pub open spec fn normal_command(code: KeyCode, pending_g: bool) -> Command {
    match code {
        KeyCode::Tab => Command::NextTab,
        KeyCode::BackTab => Command::PrevTab,
        KeyCode::Down => Command::MoveDown,
        KeyCode::Up => Command::MoveUp,
        KeyCode::Esc => Command::ClearMarks,
        KeyCode::Enter => Command::Open,
        KeyCode::Char(c) => if c == 'l' {
            Command::NextTab
        } else if c == 'h' {
            Command::PrevTab
        } else if c == 'j' {
            Command::MoveDown
        } else if c == 'k' {
            Command::MoveUp
        } else if c == 'G' {
            Command::GoToLast
        } else if c == 'g' {
            if pending_g {
                Command::GoToFirst
            } else {
                Command::ArmGoToFirst
            }
        } else if c == '/' {
            Command::StartSearch
        } else if c == 'r' {
            Command::Refresh
        } else if c == 'd' {
            Command::ToggleDone
        } else if c == 'z' {
            Command::StartSnooze
        } else if c == 'u' {
            Command::ToggleRead
        } else if c == 'p' {
            Command::TogglePin
        } else if c == 'f' {
            Command::NextFilter
        } else if c == 'F' {
            Command::PrevFilter
        } else if c == 'v' {
            Command::MarkAndMoveDown
        } else if c == 'V' {
            Command::MarkAll
        } else if c == 'o' {
            Command::Open
        } else if c == 's' {
            Command::NextSortKey
        } else if c == 'S' {
            Command::FlipSortDir
        } else if c == '?' {
            Command::ShowHelp
        } else {
            Command::Nothing
        },
        _ => Command::Nothing,
    }
}

/// The command of a key (see `normal_command`).
pub fn command_for(code: KeyCode, pending_g: bool) -> (r: Command)
    ensures
        r == normal_command(code, pending_g),
{
    match code {
        KeyCode::Tab => Command::NextTab,
        KeyCode::BackTab => Command::PrevTab,
        KeyCode::Down => Command::MoveDown,
        KeyCode::Up => Command::MoveUp,
        KeyCode::Esc => Command::ClearMarks,
        KeyCode::Enter => Command::Open,
        KeyCode::Char(c) => {
            if c == 'l' {
                Command::NextTab
            } else if c == 'h' {
                Command::PrevTab
            } else if c == 'j' {
                Command::MoveDown
            } else if c == 'k' {
                Command::MoveUp
            } else if c == 'G' {
                Command::GoToLast
            } else if c == 'g' {
                if pending_g {
                    Command::GoToFirst
                } else {
                    Command::ArmGoToFirst
                }
            } else if c == '/' {
                Command::StartSearch
            } else if c == 'r' {
                Command::Refresh
            } else if c == 'd' {
                Command::ToggleDone
            } else if c == 'z' {
                Command::StartSnooze
            } else if c == 'u' {
                Command::ToggleRead
            } else if c == 'p' {
                Command::TogglePin
            } else if c == 'f' {
                Command::NextFilter
            } else if c == 'F' {
                Command::PrevFilter
            } else if c == 'v' {
                Command::MarkAndMoveDown
            } else if c == 'V' {
                Command::MarkAll
            } else if c == 'o' {
                Command::Open
            } else if c == 's' {
                Command::NextSortKey
            } else if c == 'S' {
                Command::FlipSortDir
            } else if c == '?' {
                Command::ShowHelp
            } else {
                Command::Nothing
            }
        },
        _ => Command::Nothing,
    }
}

/// `new` is `old` with tab `b` active, out of search, and that tab back on
/// its first row with nothing marked.
pub open spec fn switched_to(old: AppState, new: AppState, b: int) -> bool {
    &&& new == AppState {
        tabs: new.tabs,
        active_tab: b as usize,
        search_mode: false,
        search_query: new.search_query,
        ..old
    }
    &&& new.search_query@.len() == 0
    &&& new.tabs@ == old.tabs@.update(b, new.tabs@[b])
    &&& tab_reset(old.tabs@[b], new.tabs@[b])
}

/// `new` is `old` with the active tab replaced by `t`, and `pending_g` set to `g`.
pub open spec fn active_replaced(old: AppState, new: AppState, t: TabState, g: bool) -> bool {
    &&& new == AppState { tabs: new.tabs, pending_g: g, ..old }
    &&& new.tabs@ == old.tabs@.update(old.active_tab as int, t)
}

/// `new` is `old` with the cursor at `target`, `pending_g` set to `g`, and the
/// effects those of a detail fetch for the new cursor.
pub open spec fn cursor_moved(old: AppState, new: AppState, e: Seq<Effect>, target: usize, g: bool, now: int) -> bool {
    &&& active_replaced(old, new, TabState { selected: target, ..old.current() }, g)
    &&& fetch_effects(e, detail_wanted(new, now))
}

/// `new` is `old` with the marks `m` and the active tab `t`.
pub open spec fn marks_and_tab(old: AppState, new: AppState, m: LocalState, t: TabState) -> bool {
    &&& new == AppState { tabs: new.tabs, local_state: m, ..old }
    &&& new.tabs@ == old.tabs@.update(old.active_tab as int, t)
}

/// `s` with `pending_g` set to `g`.
pub open spec fn with_pending_g(s: AppState, g: bool) -> AppState {
    AppState { pending_g: g, ..s }
}

/// Outcome of toggling done: the marked rows toggle done and lose their marks,
/// else the row under the cursor toggles done; the marks are saved when
/// anything changed. With nothing marked and no row under the cursor, nothing
/// changes.
pub open spec fn done_toggled(old: AppState, new: AppState, e: Seq<Effect>, now: int) -> bool {
    let t = old.current();
    let order = shown_order(old, now);
    let done = old.local_state.done.map();
    if !t.selected_set@.is_empty() {
        &&& new.local_state.done.map() == toggled_each(done, marked_keys(t, order))
        &&& marks_and_tab(old, new, LocalState { done: new.local_state.done, ..old.local_state }, new.current())
        &&& marks_cleared(t, new.current())
        &&& e == seq![Effect::SaveLocalState]
    } else {
        match cursor_pr(t, order) {
            Some(pr) => {
                &&& new.local_state.done.map() == toggled(done, pr_key(pr))
                &&& new == AppState { local_state: LocalState { done: new.local_state.done, ..old.local_state }, ..old }
                &&& e == seq![Effect::SaveLocalState]
            },
            None => new == old && e.len() == 0,
        }
    }
}

/// Outcome of toggling read: the row under the cursor toggles read, and the
/// marks are saved; with no row under the cursor nothing changes.
pub open spec fn read_toggled(old: AppState, new: AppState, e: Seq<Effect>, now: int) -> bool {
    match cursor_pr(old.current(), shown_order(old, now)) {
        Some(pr) => {
            &&& new.local_state.read.map() == toggled(old.local_state.read.map(), pr_key(pr))
            &&& new == AppState { local_state: LocalState { read: new.local_state.read, ..old.local_state }, ..old }
            &&& e == seq![Effect::SaveLocalState]
        },
        None => new == old && e.len() == 0,
    }
}

/// Outcome of toggling pinned: the row under the cursor toggles pinned, and
/// the marks are saved; with no row under the cursor nothing changes.
pub open spec fn pin_toggled(old: AppState, new: AppState, e: Seq<Effect>, now: int) -> bool {
    match cursor_pr(old.current(), shown_order(old, now)) {
        Some(pr) => {
            &&& new.local_state.pinned.map() == toggled(old.local_state.pinned.map(), pr_key(pr))
            &&& new == AppState { local_state: LocalState { pinned: new.local_state.pinned, ..old.local_state }, ..old }
            &&& e == seq![Effect::SaveLocalState]
        },
        None => new == old && e.len() == 0,
    }
}

/// At most ten pages are opened at once.
pub open spec fn bulk_open_limit() -> int {
    10
}

/// Outcome of opening the marked rows: the pages of the first ten marked rows
/// (in row order) open and the marks go; nothing else changes.
pub open spec fn marked_opened(old: AppState, new: AppState, e: Seq<Effect>, now: int) -> bool {
    let t = old.current();
    let urls = marked_urls(t, shown_order(old, now));
    let n = if urls.len() < bulk_open_limit() {
        urls.len() as int
    } else {
        bulk_open_limit()
    };
    &&& e.len() == n
    &&& forall|i: int| 0 <= i < n ==> (#[trigger] e[i] matches Effect::OpenUrl(u) && u@ == urls[i])
    &&& active_replaced(old, new, new.current(), old.pending_g)
    &&& marks_cleared(t, new.current())
}

/// Outcome of opening the row under the cursor: its page opens and it is
/// marked read, and the marks are saved; with no row under the cursor nothing
/// changes.
pub open spec fn row_opened(old: AppState, new: AppState, e: Seq<Effect>, now: int) -> bool {
    match cursor_pr(old.current(), shown_order(old, now)) {
        Some(pr) => {
            &&& new.local_state.read.map() == old.local_state.read.map().insert(pr_key(pr), ())
            &&& new == AppState { local_state: LocalState { read: new.local_state.read, ..old.local_state }, ..old }
            &&& e.len() == 2
            &&& e[0] matches Effect::SaveLocalState
            &&& (e[1] matches Effect::OpenUrl(u) && u@ == pr.url@)
        },
        None => new == old && e.len() == 0,
    }
}

/// Outcome of `o`: the marked rows open when there are any, else the row
/// under the cursor.
pub open spec fn opened(old: AppState, new: AppState, e: Seq<Effect>, now: int) -> bool {
    if !old.current().selected_set@.is_empty() {
        marked_opened(old, new, e, now)
    } else {
        row_opened(old, new, e, now)
    }
}

/// The sort after `s`: the next key, and back to the default order (ascending)
/// after the last key.
pub open spec fn next_sort(s: SortState) -> SortState {
    let k = SortKey::at_position(s.key.position() + 1);
    if k == SortKey::Default {
        SortState { key: SortKey::Default, dir: SortDir::Asc }
    } else {
        SortState { key: k, ..s }
    }
}

/// The other direction.
pub open spec fn flipped(d: SortDir) -> SortDir {
    match d {
        SortDir::Asc => SortDir::Desc,
        SortDir::Desc => SortDir::Asc,
    }
}

/// `new` is `old` with the active tab back on its first row and nothing
/// marked, no effect asked.
pub open spec fn view_reset(old: AppState, new: AppState, e: Seq<Effect>) -> bool {
    &&& new.tabs@ == old.tabs@.update(old.active_tab as int, new.current())
    &&& tab_reset(old.current(), new.current())
    &&& e.len() == 0
}

/// `new` is `old` after forgetting what was fetched of details and the marks,
/// in every tab.
pub open spec fn tab_forgotten(old: TabState, new: TabState) -> bool {
    &&& new == TabState {
        details_cache: new.details_cache,
        failed_details: new.failed_details,
        selected_set: new.selected_set,
        ..old
    }
    &&& new.details_cache.map().is_empty()
    &&& new.failed_details.map().is_empty()
    &&& new.selected_set@.is_empty()
}

/// What command `cmd` does to the state `old` at time `now`: the new state
/// `new` and the effects `e`.
pub open spec fn command_outcome(old: AppState, new: AppState, e: Seq<Effect>, cmd: Command, now: int) -> bool {
    let t = old.current();
    let q = old.search_query@;
    let a = old.active_tab as int;
    match cmd {
        Command::NextTab => switched_to(old, new, (a + 1) % 5) && fetch_effects(e, detail_wanted(new, now)),
        Command::PrevTab => switched_to(old, new, (a + 4) % 5) && fetch_effects(e, detail_wanted(new, now)),
        Command::MoveDown => cursor_moved(old, new, e, t.down_target(q, old.filter), old.pending_g, now),
        Command::MoveUp => cursor_moved(old, new, e, t.up_target(), old.pending_g, now),
        Command::GoToLast => cursor_moved(old, new, e, t.last_target(q, old.filter), false, now),
        Command::GoToFirst => cursor_moved(old, new, e, 0, false, now),
        Command::ArmGoToFirst => new == AppState { pending_g: true, ..old } && e.len() == 0,
        Command::StartSearch => {
            &&& new == AppState {
                tabs: new.tabs,
                search_mode: true,
                search_query: new.search_query,
                pending_g: false,
                ..old
            }
            &&& new.search_query@.len() == 0
            &&& view_reset(old, new, e)
        },
        Command::Refresh => {
            &&& new == AppState { tabs: new.tabs, last_refresh: None, pending_g: false, ..old }
            &&& forall|i: int| 0 <= i < 5 ==> tab_forgotten(#[trigger] old.tabs@[i], new.tabs@[i])
            &&& e == seq![Effect::FetchAllTabs]
        },
        Command::ToggleDone => !new.pending_g && done_toggled(old, with_pending_g(new, old.pending_g), e, now),
        Command::StartSnooze => new == AppState { snooze_mode: true, pending_g: false, ..old } && e.len() == 0,
        Command::ToggleRead => !new.pending_g && read_toggled(old, with_pending_g(new, old.pending_g), e, now),
        Command::TogglePin => !new.pending_g && pin_toggled(old, with_pending_g(new, old.pending_g), e, now),
        Command::NextFilter => {
            &&& new == AppState {
                tabs: new.tabs,
                filter: FilterPreset::at_position(old.filter.position() + 1),
                pending_g: false,
                ..old
            }
            &&& view_reset(old, new, e)
        },
        Command::PrevFilter => {
            &&& new == AppState {
                tabs: new.tabs,
                filter: FilterPreset::at_position(old.filter.position() + 4),
                pending_g: false,
                ..old
            }
            &&& view_reset(old, new, e)
        },
        Command::MarkAndMoveDown => {
            let marks = if t.selected_set@.contains(t.selected) {
                t.selected_set@.remove(t.selected)
            } else {
                t.selected_set@.insert(t.selected)
            };
            &&& active_replaced(
                old,
                new,
                TabState {
                    selected: t.down_target(q, old.filter),
                    selected_set: new.current().selected_set,
                    ..t
                },
                false,
            )
            &&& new.current().selected_set@ == marks
            &&& fetch_effects(e, detail_wanted(new, now))
        },
        Command::MarkAll => {
            let count = t.visible_len(q, old.filter);
            &&& active_replaced(old, new, TabState { selected_set: new.current().selected_set, ..t }, false)
            &&& new.current().selected_set@ == if t.selected_set@.len() == count {
                Set::<usize>::empty()
            } else {
                Set::new(|i: usize| i < count)
            }
            &&& e.len() == 0
        },
        Command::ClearMarks => {
            &&& active_replaced(old, new, new.current(), false)
            &&& if t.selected_set@.is_empty() {
                new.current() == t
            } else {
                marks_cleared(t, new.current())
            }
            &&& e.len() == 0
        },
        Command::Open => !new.pending_g && opened(old, with_pending_g(new, old.pending_g), e, now),
        Command::NextSortKey => {
            &&& new == AppState { tabs: new.tabs, sort: next_sort(old.sort), pending_g: false, ..old }
            &&& view_reset(old, new, e)
        },
        Command::FlipSortDir => {
            &&& new == AppState {
                tabs: new.tabs,
                sort: SortState { dir: flipped(old.sort.dir), ..old.sort },
                pending_g: false,
                ..old
            }
            &&& view_reset(old, new, e)
        },
        Command::ShowHelp => new == AppState { show_help: true, pending_g: false, ..old } && e.len() == 0,
        Command::Nothing => new == AppState { pending_g: false, ..old } && e.len() == 0,
    }
}

/// Puts the active tab back on its first row with nothing marked.
fn reset_view(state: &mut AppState)
    requires
        old(state).active_tab < 5,
    ensures
        *final(state) == (AppState { tabs: final(state).tabs, ..*old(state) }),
        final(state).tabs@ == old(state).tabs@.update(old(state).active_tab as int, final(state).current()),
        tab_reset(old(state).current(), final(state).current()),
{
    let t = state.active_tab_state_mut();
    t.selected = 0;
    t.clear_selection();
}

/// Toggles done on the marked rows (and unmarks them), else on the row under
/// the cursor; asks to save the marks when anything changed.
pub fn toggle_done(state: &mut AppState, now: i64) -> (e: Vec<Effect>)
    requires
        old(state).active_tab < 5,
    ensures
        done_toggled(*old(state), *final(state), e@, now as int),
        final(state).active_tab < 5,
{
    let ghost order = shown_order(*state, now as int);
    let t = state.active_tab_state();
    let visible = t.visible_prs_at(state.search_query.as_str(), &state.sort, state.filter, now);
    let mut e: Vec<Effect> = Vec::new();
    assert(*t == state.current());
    assert(order == t.visible_order(state.search_query@, state.sort, state.filter, now as int));
    proof {
        lemma_rows_match(*t, visible@, state.search_query@, state.sort, state.filter, now as int);
    }
    if t.has_selection() {
        let ids = marked_ids(t, &visible, Ghost(order));
        let ghost keys = ids@.map_values(|id: PrId| id_view(id));
        let ghost done0 = state.local_state.done.map();
        let mut i: usize = 0;
        while i < ids.len()
            invariant
                i <= ids@.len(),
                keys == ids@.map_values(|id: PrId| id_view(id)),
                state.local_state.done.map() == toggled_each(done0, keys.take(i as int)),
                *state == (AppState { local_state: LocalState { done: state.local_state.done, ..old(state).local_state }, ..*old(state) }),
            decreases ids@.len() - i,
        {
            let id = ids[i].0.clone();
            let number = ids[i].1;
            state.local_state.done.toggle((id, number));
            proof {
                assert(keys.take(i + 1).drop_last() =~= keys.take(i as int));
            }
            i = i + 1;
        }
        proof {
            assert(keys.take(ids@.len() as int) =~= keys);
        }
        state.active_tab_state_mut().clear_selection();
        e.push(Effect::SaveLocalState);
    } else if t.selected < visible.len() {
        let id = visible[t.selected].id();
        state.local_state.done.toggle(id);
        e.push(Effect::SaveLocalState);
    }
    e
}

/// `u`: toggles read on the row under the cursor and asks to save the marks.
pub fn toggle_read(state: &mut AppState, now: i64) -> (e: Vec<Effect>)
    requires
        old(state).active_tab < 5,
    ensures
        read_toggled(*old(state), *final(state), e@, now as int),
        final(state).active_tab < 5,
{
    let t = state.active_tab_state();
    let visible = t.visible_prs_at(state.search_query.as_str(), &state.sort, state.filter, now);
    proof {
        lemma_rows_match(*t, visible@, state.search_query@, state.sort, state.filter, now as int);
    }
    let mut e: Vec<Effect> = Vec::new();
    if t.selected < visible.len() {
        let id = visible[t.selected].id();
        state.local_state.read.toggle(id);
        e.push(Effect::SaveLocalState);
    }
    e
}

/// `p`: toggles pinned on the row under the cursor and asks to save the marks.
pub fn toggle_pin(state: &mut AppState, now: i64) -> (e: Vec<Effect>)
    requires
        old(state).active_tab < 5,
    ensures
        pin_toggled(*old(state), *final(state), e@, now as int),
        final(state).active_tab < 5,
{
    let t = state.active_tab_state();
    let visible = t.visible_prs_at(state.search_query.as_str(), &state.sort, state.filter, now);
    proof {
        lemma_rows_match(*t, visible@, state.search_query@, state.sort, state.filter, now as int);
    }
    let mut e: Vec<Effect> = Vec::new();
    if t.selected < visible.len() {
        let id = visible[t.selected].id();
        state.local_state.pinned.toggle(id);
        e.push(Effect::SaveLocalState);
    }
    e
}

/// Opens the pages of the marked rows (ten at most, in row order) and unmarks
/// them.
pub fn open_selected_in_browser(state: &mut AppState, now: i64) -> (e: Vec<Effect>)
    requires
        old(state).active_tab < 5,
    ensures
        marked_opened(*old(state), *final(state), e@, now as int),
        final(state).active_tab < 5,
{
    let ghost order = shown_order(*state, now as int);
    let t = state.active_tab_state();
    let visible = t.visible_prs_at(state.search_query.as_str(), &state.sort, state.filter, now);
    proof {
        lemma_rows_match(*t, visible@, state.search_query@, state.sort, state.filter, now as int);
    }
    let mut e: Vec<Effect> = Vec::new();
    let urls = marked_url_list(t, &visible, Ghost(order));
    let ghost want = urls@.map_values(|u: String| u@);
    let mut i: usize = 0;
    while i < urls.len() && i < 10
        invariant
            i <= urls@.len(),
            i <= 10,
            want == urls@.map_values(|u: String| u@),
            e@.len() == i,
            forall|j: int| 0 <= j < i ==> (#[trigger] e@[j] matches Effect::OpenUrl(u) && u@ == want[j]),
        decreases urls@.len() - i,
    {
        e.push(Effect::OpenUrl(urls[i].clone()));
        proof {
            assert(e@[i as int] matches Effect::OpenUrl(u) && u@ == want[i as int]);
        }
        i = i + 1;
    }
    state.active_tab_state_mut().clear_selection();
    e
}

/// Opens the page of the row under the cursor and marks it read, asking to
/// save the marks.
pub fn open_in_browser(state: &mut AppState, now: i64) -> (e: Vec<Effect>)
    requires
        old(state).active_tab < 5,
    ensures
        row_opened(*old(state), *final(state), e@, now as int),
        final(state).active_tab < 5,
{
    let t = state.active_tab_state();
    let visible = t.visible_prs_at(state.search_query.as_str(), &state.sort, state.filter, now);
    proof {
        lemma_rows_match(*t, visible@, state.search_query@, state.sort, state.filter, now as int);
    }
    let mut e: Vec<Effect> = Vec::new();
    if t.selected < visible.len() {
        let pr = visible[t.selected];
        let id = pr.id();
        let url = pr.url.clone();
        state.local_state.read.insert(id, ());
        e.push(Effect::SaveLocalState);
        e.push(Effect::OpenUrl(url));
    }
    e
}

/// `r`: forgets the fetched details, the failures and the marks of every tab,
/// and asks to fetch all tabs again.
fn refresh(state: &mut AppState) -> (e: Vec<Effect>)
    requires
        old(state).active_tab < 5,
    ensures
        command_outcome(*old(state), *final(state), e@, Command::Refresh, 0),
{
    state.last_refresh = None;
    state.pending_g = false;
    let ghost mid = *state;
    let mut i: usize = 0;
    while i < 5
        invariant
            i <= 5,
            *state == (AppState { tabs: state.tabs, ..mid }),
            mid == (AppState { tabs: mid.tabs, last_refresh: None, pending_g: false, ..*old(state) }),
            mid.tabs == old(state).tabs,
            forall|j: int| 0 <= j < i ==> tab_forgotten(#[trigger] old(state).tabs@[j], state.tabs@[j]),
            forall|j: int| i <= j < 5 ==> #[trigger] state.tabs@[j] == old(state).tabs@[j],
        decreases 5 - i,
    {
        let t = &mut state.tabs[i];
        t.details_cache.clear();
        t.failed_details.clear();
        t.clear_selection();
        i = i + 1;
    }
    let mut e: Vec<Effect> = Vec::new();
    e.push(Effect::FetchAllTabs);
    e
}

/// Does what command `cmd` says to the state (see `command_outcome`), the
/// clock reading `now`.
#[verifier::rlimit(60)]
#[verifier::spinoff_prover]
pub fn run_command(state: &mut AppState, cmd: Command, now: i64) -> (e: Vec<Effect>)
    requires
        old(state).active_tab < 5,
    ensures
        command_outcome(*old(state), *final(state), e@, cmd, now as int),
        final(state).active_tab < 5,
{
    let ghost prior = *state;
    let query = state.search_query.clone();
    let sort = state.sort;
    let filter = state.filter;
    match cmd {
        Command::NextTab => {
            state.next_tab();
            let e = fetch_if_needed(state, now);
            assert(command_outcome(prior, *state, e@, cmd, now as int));
            e
        },
        Command::PrevTab => {
            state.prev_tab();
            let e = fetch_if_needed(state, now);
            assert(command_outcome(prior, *state, e@, cmd, now as int));
            e
        },
        Command::MoveDown => {
            state.active_tab_state_mut().move_down(query.as_str(), &sort, filter);
            let e = fetch_if_needed(state, now);
            assert(command_outcome(prior, *state, e@, cmd, now as int));
            e
        },
        Command::MoveUp => {
            state.active_tab_state_mut().move_up();
            let e = fetch_if_needed(state, now);
            assert(command_outcome(prior, *state, e@, cmd, now as int));
            e
        },
        Command::GoToLast => {
            state.active_tab_state_mut().go_to_last(query.as_str(), &sort, filter);
            state.pending_g = false;
            let e = fetch_if_needed(state, now);
            assert(command_outcome(prior, *state, e@, cmd, now as int));
            e
        },
        Command::GoToFirst => {
            state.active_tab_state_mut().go_to_first();
            state.pending_g = false;
            let e = fetch_if_needed(state, now);
            assert(command_outcome(prior, *state, e@, cmd, now as int));
            e
        },
        Command::ArmGoToFirst => {
            state.pending_g = true;
            let e: Vec<Effect> = Vec::new();
            assert(command_outcome(prior, *state, e@, cmd, now as int));
            e
        },
        Command::StartSearch => {
            state.search_mode = true;
            state.search_query = String::new();
            reset_view(state);
            state.pending_g = false;
            let e: Vec<Effect> = Vec::new();
            assert(command_outcome(prior, *state, e@, cmd, now as int));
            e
        },
        Command::Refresh => {
            let e = refresh(state);
            assert(command_outcome(prior, *state, e@, cmd, now as int));
            e
        },
        Command::ToggleDone => {
            let e = toggle_done(state, now);
            let ghost mid = *state;
            state.pending_g = false;
            assert(with_pending_g(*state, prior.pending_g) == mid);
            assert(command_outcome(prior, *state, e@, cmd, now as int));
            e
        },
        Command::StartSnooze => {
            state.snooze_mode = true;
            state.pending_g = false;
            let e: Vec<Effect> = Vec::new();
            assert(command_outcome(prior, *state, e@, cmd, now as int));
            e
        },
        Command::ToggleRead => {
            let e = toggle_read(state, now);
            let ghost mid = *state;
            state.pending_g = false;
            assert(with_pending_g(*state, prior.pending_g) == mid);
            assert(command_outcome(prior, *state, e@, cmd, now as int));
            e
        },
        Command::TogglePin => {
            let e = toggle_pin(state, now);
            let ghost mid = *state;
            state.pending_g = false;
            assert(with_pending_g(*state, prior.pending_g) == mid);
            assert(command_outcome(prior, *state, e@, cmd, now as int));
            e
        },
        Command::NextFilter => {
            state.filter = state.filter.next();
            reset_view(state);
            state.pending_g = false;
            let e: Vec<Effect> = Vec::new();
            assert(command_outcome(prior, *state, e@, cmd, now as int));
            e
        },
        Command::PrevFilter => {
            state.filter = state.filter.prev();
            reset_view(state);
            state.pending_g = false;
            let e: Vec<Effect> = Vec::new();
            assert(command_outcome(prior, *state, e@, cmd, now as int));
            e
        },
        Command::MarkAndMoveDown => {
            let idx = state.active_tab_state().selected;
            let t = state.active_tab_state_mut();
            t.toggle_selection(idx);
            t.move_down(query.as_str(), &sort, filter);
            state.pending_g = false;
            let e = fetch_if_needed(state, now);
            assert(command_outcome(prior, *state, e@, cmd, now as int));
            e
        },
        Command::MarkAll => {
            let count = state.active_tab_state().visible_count(query.as_str(), filter);
            state.active_tab_state_mut().select_all_visible(count);
            state.pending_g = false;
            let e: Vec<Effect> = Vec::new();
            assert(command_outcome(prior, *state, e@, cmd, now as int));
            e
        },
        Command::ClearMarks => {
            if state.active_tab_state().has_selection() {
                state.active_tab_state_mut().clear_selection();
            } else {
                assert(state.tabs@.update(state.active_tab as int, state.current()) =~= state.tabs@);
            }
            state.pending_g = false;
            let e: Vec<Effect> = Vec::new();
            assert(command_outcome(prior, *state, e@, cmd, now as int));
            e
        },
        Command::Open => {
            let e = if state.active_tab_state().has_selection() {
                open_selected_in_browser(state, now)
            } else {
                open_in_browser(state, now)
            };
            let ghost mid = *state;
            state.pending_g = false;
            assert(with_pending_g(*state, prior.pending_g) == mid);
            assert(command_outcome(prior, *state, e@, cmd, now as int));
            e
        },
        Command::NextSortKey => {
            let next = state.sort.key.next();
            if next == SortKey::Default {
                state.sort = SortState::default();
            } else {
                state.sort.key = next;
            }
            reset_view(state);
            state.pending_g = false;
            let e: Vec<Effect> = Vec::new();
            assert(command_outcome(prior, *state, e@, cmd, now as int));
            e
        },
        Command::FlipSortDir => {
            state.sort.dir = if state.sort.dir == SortDir::Asc {
                SortDir::Desc
            } else {
                SortDir::Asc
            };
            reset_view(state);
            state.pending_g = false;
            let e: Vec<Effect> = Vec::new();
            assert(command_outcome(prior, *state, e@, cmd, now as int));
            e
        },
        Command::ShowHelp => {
            state.show_help = true;
            state.pending_g = false;
            let e: Vec<Effect> = Vec::new();
            assert(command_outcome(prior, *state, e@, cmd, now as int));
            e
        },
        Command::Nothing => {
            state.pending_g = false;
            let e: Vec<Effect> = Vec::new();
            assert(command_outcome(prior, *state, e@, cmd, now as int));
            e
        },
    }
}

// ---------------------------------------------------------------------------
// Snoozing

/// Seconds in a day; UTC days have no leap seconds in chrono's arithmetic.
pub open spec fn day_secs() -> int {
    86400
}

/// Start (00:00 UTC) of the day of instant `t`.
pub open spec fn day_start(t: int) -> int {
    (t / day_secs()) * day_secs()
}

/// 09:00 UTC of the day after the day of `now`.
pub open spec fn tomorrow_at_nine(now: int) -> int {
    day_start(now + day_secs()) + 9 * 3600
}

/// ISO day of the week of instant `t` in UTC, Monday 1 to Sunday 7
/// (1 January 1970 was a Thursday).
pub open spec fn iso_weekday(t: int) -> int {
    ((t / day_secs()) + 3) % 7 + 1
}

/// Days from the day of `now` to the next Monday, 1 to 7.
pub open spec fn days_until_monday(now: int) -> int {
    let d = (8 - iso_weekday(now)) % 7;
    if d == 0 {
        7
    } else {
        d
    }
}

/// 09:00 UTC of the next Monday after the day of `now`.
pub open spec fn next_monday_at_nine(now: int) -> int {
    day_start(now + days_until_monday(now) * day_secs()) + 9 * 3600
}

/// How long a snooze key snoozes, at time `now`: `1` an hour, `4` four hours,
/// `t` until tomorrow 09:00 UTC, `w` until next Monday 09:00 UTC.
pub open spec fn snooze_delay(code: KeyCode, now: int) -> Option<int> {
    match code {
        KeyCode::Char(c) => if c == '1' {
            Some(3600int)
        } else if c == '4' {
            Some(4 * 3600int)
        } else if c == 't' {
            Some(tomorrow_at_nine(now) - now)
        } else if c == 'w' {
            Some(next_monday_at_nine(now) - now)
        } else {
            None
        },
        _ => None,
    }
}

/// `t / 86400`, rounded down.
fn days_since_epoch(t: i64) -> (r: i64)
    ensures
        r == t as int / day_secs(),
{
    if t >= 0 {
        let u = t as u64;
        (u / 86400) as i64
    } else {
        let m = (-(t as i128) - 1) as u64;
        let q = (m / 86400) as i64;
        proof {
            let mi = m as int;
            let qi = q as int;
            let ri = mi % 86400;
            assert(mi == 86400 * qi + ri && 0 <= ri < 86400) by (nonlinear_arith)
                requires
                    qi == mi / 86400,
                    ri == mi % 86400,
                    mi >= 0,
            ;
            assert(t as int == 86400 * (-qi - 1) + (86400 - ri - 1));
            vstd::arithmetic::div_mod::lemma_fundamental_div_mod_converse(
                t as int,
                86400,
                -qi - 1,
                86400 - ri - 1,
            );
        }
        -q - 1
    }
}

/// `x` modulo 7, from 0 to 6.
fn mod7(x: i64) -> (r: i64)
    ensures
        r == x as int % 7,
{
    if x >= 0 {
        ((x as u64) % 7) as i64
    } else {
        let m = (-(x as i128)) as u64;
        let k = (m % 7) as i64;
        proof {
            let mi = m as int;
            let qi = mi / 7;
            assert(mi == 7 * qi + k && 0 <= k < 7) by (nonlinear_arith)
                requires
                    qi == mi / 7,
                    k == mi % 7,
                    mi >= 0,
            ;
            if k == 0 {
                vstd::arithmetic::div_mod::lemma_fundamental_div_mod_converse(x as int, 7, -qi, 0);
            } else {
                vstd::arithmetic::div_mod::lemma_fundamental_div_mod_converse(x as int, 7, -qi - 1, 7 - k);
            }
        }
        if k == 0 {
            0
        } else {
            7 - k
        }
    }
}

/// The time `snooze_delay` gives for `code` at `now`, if any.
pub fn snooze_duration(code: KeyCode, now: i64) -> (r: Option<i64>)
    requires
        in_clock_range(now as int),
    ensures
        match snooze_delay(code, now as int) {
            Some(d) => r == Some(d as i64) && 0 < d <= 8 * day_secs(),
            None => r is None,
        },
{
    match code {
        KeyCode::Char(c) => {
            if c == '1' {
                Some(3600)
            } else if c == '4' {
                Some(4 * 3600)
            } else if c == 't' {
                let day = days_since_epoch(now + 86400);
                proof {
                    let t = now as int + 86400;
                    assert(day * 86400 <= t < day * 86400 + 86400) by (nonlinear_arith)
                        requires
                            day == t / 86400,
                    ;
                }
                Some(day * 86400 + 9 * 3600 - now)
            } else if c == 'w' {
                let today = days_since_epoch(now);
                proof {
                    assert(today * 86400 <= now < today * 86400 + 86400) by (nonlinear_arith)
                        requires
                            today == now as int / 86400,
                    ;
                }
                let weekday = mod7(today + 3) + 1;
                assert(weekday == iso_weekday(now as int));
                let d0 = (8 - weekday) % 7;
                let d = if d0 == 0 {
                    7
                } else {
                    d0
                };
                let target = now + d * 86400;
                let day = days_since_epoch(target);
                proof {
                    let t = target as int;
                    assert(day * 86400 <= t < day * 86400 + 86400) by (nonlinear_arith)
                        requires
                            day == t / 86400,
                    ;
                }
                Some(day * 86400 + 9 * 3600 - now)
            } else {
                None
            }
        },
        _ => None,
    }
}

/// Outcome of snoozing until `wake`: the marked rows are snoozed and unmarked,
/// else the row under the cursor is snoozed; the marks are saved when anything
/// changed.
pub open spec fn snooze_applied(old: AppState, new: AppState, e: Seq<Effect>, wake: i64, now: int) -> bool {
    let t = old.current();
    let order = shown_order(old, now);
    let sn = old.local_state.snoozed.map();
    if !t.selected_set@.is_empty() {
        &&& new.local_state.snoozed.map() == snoozed_each(sn, marked_keys(t, order), wake)
        &&& new == AppState {
            tabs: new.tabs,
            local_state: LocalState { snoozed: new.local_state.snoozed, ..old.local_state },
            ..old
        }
        &&& new.tabs@ == old.tabs@.update(old.active_tab as int, new.current())
        &&& marks_cleared(t, new.current())
        &&& e == seq![Effect::SaveLocalState]
    } else {
        match cursor_pr(t, order) {
            Some(pr) => {
                &&& new.local_state.snoozed.map() == sn.insert(pr_key(pr), wake)
                &&& new == AppState { local_state: LocalState { snoozed: new.local_state.snoozed, ..old.local_state }, ..old }
                &&& e == seq![Effect::SaveLocalState]
            },
            None => new == old && e.len() == 0,
        }
    }
}

/// Snoozes the marked rows (and unmarks them), else the row under the cursor,
/// until `wake`; asks to save the marks when anything changed.
pub fn apply_snooze(state: &mut AppState, wake: i64, now: i64) -> (e: Vec<Effect>)
    requires
        old(state).active_tab < 5,
    ensures
        snooze_applied(*old(state), *final(state), e@, wake, now as int),
{
    let ghost order = shown_order(*state, now as int);
    let t = state.active_tab_state();
    let visible = t.visible_prs_at(state.search_query.as_str(), &state.sort, state.filter, now);
    proof {
        lemma_rows_match(*t, visible@, state.search_query@, state.sort, state.filter, now as int);
    }
    let mut e: Vec<Effect> = Vec::new();
    if t.has_selection() {
        let ids = marked_ids(t, &visible, Ghost(order));
        let ghost keys = ids@.map_values(|id: PrId| id_view(id));
        let ghost sn0 = state.local_state.snoozed.map();
        let mut i: usize = 0;
        while i < ids.len()
            invariant
                i <= ids@.len(),
                keys == ids@.map_values(|id: PrId| id_view(id)),
                state.local_state.snoozed.map() == snoozed_each(sn0, keys.take(i as int), wake),
                *state == (AppState { local_state: LocalState { snoozed: state.local_state.snoozed, ..old(state).local_state }, ..*old(state) }),
            decreases ids@.len() - i,
        {
            let id = ids[i].0.clone();
            let number = ids[i].1;
            state.local_state.snoozed.insert((id, number), wake);
            proof {
                assert(keys.take(i + 1).drop_last() =~= keys.take(i as int));
            }
            i = i + 1;
        }
        proof {
            assert(keys.take(ids@.len() as int) =~= keys);
        }
        state.active_tab_state_mut().clear_selection();
        e.push(Effect::SaveLocalState);
    } else {
        if t.selected < visible.len() {
            let id = visible[t.selected].id();
            state.local_state.snoozed.insert(id, wake);
            e.push(Effect::SaveLocalState);
        }
    }
    e
}

/// What a key does in snooze mode: `Esc` leaves it; a snooze key snoozes
/// (see `snooze_delay`, `snooze_applied`) and leaves it; other keys do nothing.
pub open spec fn snooze_outcome(old: AppState, new: AppState, e: Seq<Effect>, code: KeyCode, now: int) -> bool {
    if code == KeyCode::Esc {
        new == AppState { snooze_mode: false, ..old } && e.len() == 0
    } else {
        match snooze_delay(code, now) {
            Some(d) => snooze_applied(AppState { snooze_mode: false, ..old }, new, e, (now + d) as i64, now),
            None => new == old && e.len() == 0,
        }
    }
}

/// Handles a key in snooze mode (see `snooze_outcome`).
pub fn handle_snooze_key(state: &mut AppState, code: KeyCode, now: i64) -> (e: Vec<Effect>)
    requires
        old(state).active_tab < 5,
        in_clock_range(now as int),
    ensures
        snooze_outcome(*old(state), *final(state), e@, code, now as int),
{
    if code == KeyCode::Esc {
        state.snooze_mode = false;
        return Vec::new();
    }
    match snooze_duration(code, now) {
        Some(d) => {
            state.snooze_mode = false;
            apply_snooze(state, now + d, now)
        },
        None => Vec::new(),
    }
}

// ---------------------------------------------------------------------------
// Search and help

/// What a key does while typing a search: `Esc` leaves search and clears it,
/// `Enter` leaves search keeping the text, `Backspace` deletes the last
/// character and `c` appends it (both back to the first row); other keys do
/// nothing.
pub open spec fn search_outcome(old: AppState, new: AppState, e: Seq<Effect>, code: KeyCode, now: int) -> bool {
    let t = old.current();
    let a = old.active_tab as int;
    match code {
        KeyCode::Esc => {
            &&& new == AppState { tabs: new.tabs, search_mode: false, search_query: new.search_query, ..old }
            &&& new.search_query@.len() == 0
            &&& view_reset(old, new, e)
        },
        KeyCode::Enter => new == AppState { search_mode: false, ..old } && fetch_effects(e, detail_wanted(new, now)),
        KeyCode::Backspace => {
            &&& new == AppState { tabs: new.tabs, search_query: new.search_query, ..old }
            &&& new.search_query@ == if old.search_query@.len() > 0 {
                old.search_query@.drop_last()
            } else {
                old.search_query@
            }
            &&& new.tabs@ == old.tabs@.update(a, TabState { selected: 0, ..t })
            &&& e.len() == 0
        },
        KeyCode::Char(c) => {
            &&& new == AppState { tabs: new.tabs, search_query: new.search_query, ..old }
            &&& new.search_query@ == old.search_query@.push(c)
            &&& new.tabs@ == old.tabs@.update(a, TabState { selected: 0, ..t })
            &&& e.len() == 0
        },
        _ => new == old && e.len() == 0,
    }
}

/// Handles a key while typing a search (see `search_outcome`).
pub fn handle_search_key(state: &mut AppState, code: KeyCode, now: i64) -> (e: Vec<Effect>)
    requires
        old(state).active_tab < 5,
    ensures
        search_outcome(*old(state), *final(state), e@, code, now as int),
{
    match code {
        KeyCode::Esc => {
            state.reset_search();
            Vec::new()
        },
        KeyCode::Enter => {
            state.search_mode = false;
            fetch_if_needed(state, now)
        },
        KeyCode::Backspace => {
            let _ = pop_char(&mut state.search_query);
            state.active_tab_state_mut().selected = 0;
            Vec::new()
        },
        KeyCode::Char(c) => {
            push_char(&mut state.search_query, c);
            state.active_tab_state_mut().selected = 0;
            Vec::new()
        },
        _ => Vec::new(),
    }
}

/// What a key does while the help is shown: `?` or `Esc` hides it.
pub open spec fn help_outcome(old: AppState, new: AppState, e: Seq<Effect>, code: KeyCode) -> bool {
    &&& new == if code == KeyCode::Char('?') || code == KeyCode::Esc {
        AppState { show_help: false, ..old }
    } else {
        old
    }
    &&& e.len() == 0
}

/// What a key does: the help takes it when shown, else snooze mode, else the
/// search; otherwise `q` or Control-C quits and other keys are commands of
/// the list (see `normal_command`, `command_outcome`).
pub open spec fn key_outcome(old: AppState, new: AppState, e: Seq<Effect>, key: KeyEvent, now: int) -> bool {
    if old.show_help {
        help_outcome(old, new, e, key.code)
    } else if old.snooze_mode {
        snooze_outcome(old, new, e, key.code, now)
    } else if old.search_mode {
        search_outcome(old, new, e, key.code, now)
    } else if quits(key) {
        new == old && e == seq![Effect::Quit]
    } else {
        command_outcome(old, new, e, normal_command(key.code, old.pending_g), now)
    }
}

/// Handles a key of the list (see `normal_command`, `command_outcome`).
pub fn handle_normal_key(state: &mut AppState, code: KeyCode, now: i64) -> (e: Vec<Effect>)
    requires
        old(state).active_tab < 5,
    ensures
        command_outcome(*old(state), *final(state), e@, normal_command(code, old(state).pending_g), now as int),
        final(state).active_tab < 5,
{
    let cmd = command_for(code, state.pending_g);
    run_command(state, cmd, now)
}

/// Handles a key press (see `key_outcome`).
pub fn handle_key(state: &mut AppState, key: KeyEvent, now: i64) -> (e: Vec<Effect>)
    requires
        old(state).active_tab < 5,
        in_clock_range(now as int),
    ensures
        key_outcome(*old(state), *final(state), e@, key, now as int),
        final(state).active_tab < 5,
{
    if state.show_help {
        if key.code == KeyCode::Char('?') || key.code == KeyCode::Esc {
            state.show_help = false;
        }
        Vec::new()
    } else if state.snooze_mode {
        handle_snooze_key(state, key.code, now)
    } else if state.search_mode {
        handle_search_key(state, key.code, now)
    } else if is_quit(&key) {
        let mut e: Vec<Effect> = Vec::new();
        e.push(Effect::Quit);
        e
    } else {
        handle_normal_key(state, key.code, now)
    }
}

// ---------------------------------------------------------------------------
// Events

/// Tab `t` lists a pull request with identity `k`.
pub open spec fn lists_pr(t: TabState, k: Key) -> bool {
    exists|j: int| 0 <= j < t.prs@.len() && pr_key(#[trigger] t.prs@[j]) == k
}

/// The cursor kept within a list of `n` rows (`min(selected, n - 1)`, and 0
/// for an empty list).
pub open spec fn clamped(selected: usize, n: nat) -> usize {
    let last: int = if n > 0 {
        n - 1
    } else {
        0
    };
    if selected <= last {
        selected
    } else {
        last as usize
    }
}

/// After details arrive for `k`: a tab that lists it stops waiting, forgets a
/// failure for it and keeps a copy of the details; other tabs are unchanged.
pub open spec fn detail_recorded(old: TabState, new: TabState, k: Key, d: PrDetails) -> bool {
    if lists_pr(old, k) {
        &&& new == TabState {
            loading_detail: false,
            details_cache: new.details_cache,
            failed_details: new.failed_details,
            ..old
        }
        &&& new.failed_details.map() == old.failed_details.map().remove(k)
        &&& new.details_cache.map() == old.details_cache.map().insert(k, new.details_cache.map()[k])
        &&& same_details(new.details_cache.map()[k], d)
    } else {
        new == old
    }
}

/// After fetching the details of `k` failed: a tab that lists it stops
/// waiting and records the failure; other tabs are unchanged.
pub open spec fn failure_recorded(old: TabState, new: TabState, k: Key) -> bool {
    if lists_pr(old, k) {
        &&& new == TabState { loading_detail: false, failed_details: new.failed_details, ..old }
        &&& new.failed_details.map() == old.failed_details.map().insert(k, ())
    } else {
        new == old
    }
}

/// The tab an event names exists.
pub open spec fn event_ok(ev: AppEvent) -> bool {
    match ev {
        AppEvent::TabLoaded(i, _) => i < 5,
        AppEvent::TabError(i, _) => i < 5,
        _ => true,
    }
}

/// What an event does to the state at time `now`: keys as `key_outcome`;
/// a loaded tab takes its pull requests, stops loading, keeps the cursor on
/// the list, records the time and asks for the details of all of them; a tab
/// error stops loading and shows the error; arriving or failed details are
/// recorded in each tab that lists the pull request.
pub open spec fn event_outcome(old: AppState, new: AppState, e: Seq<Effect>, ev: AppEvent, now: int) -> bool {
    match ev {
        AppEvent::Key(k) => key_outcome(old, new, e, k, now),
        AppEvent::TabLoaded(i, prs) => {
            let t = old.tabs@[i as int];
            &&& new == AppState { tabs: new.tabs, last_refresh: Some(now as i64), ..old }
            &&& new.tabs@ == old.tabs@.update(
                i as int,
                TabState { loading: false, selected: clamped(t.selected, prs@.len()), prs: prs, ..t },
            )
            &&& e.len() == 1
            &&& (e[0] matches Effect::FetchDetails(ids) && ids@.map_values(|id: PrId| id_view(id))
                == prs@.map_values(|p: PullRequest| pr_key(p)))
        },
        AppEvent::TabError(i, err) => {
            &&& new == AppState { tabs: new.tabs, error: Some(err), ..old }
            &&& new.tabs@ == old.tabs@.update(i as int, TabState { loading: false, ..old.tabs@[i as int] })
            &&& e.len() == 0
        },
        AppEvent::DetailLoaded(id, d) => {
            &&& new == AppState { tabs: new.tabs, ..old }
            &&& forall|i: int| 0 <= i < 5 ==> detail_recorded(#[trigger] old.tabs@[i], new.tabs@[i], id_view(id), d)
            &&& e.len() == 0
        },
        AppEvent::DetailError(id) => {
            &&& new == AppState { tabs: new.tabs, ..old }
            &&& forall|i: int| 0 <= i < 5 ==> failure_recorded(#[trigger] old.tabs@[i], new.tabs@[i], id_view(id))
            &&& e.len() == 0
        },
    }
}

/// Whether the tab lists the pull request `id`.
fn tab_lists(t: &TabState, id: &PrId) -> (r: bool)
    ensures
        r == lists_pr(*t, id_view(*id)),
{
    let mut j: usize = 0;
    while j < t.prs.len()
        invariant
            j <= t.prs@.len(),
            forall|k: int| 0 <= k < j ==> pr_key(t.prs@[k]) != id_view(*id),
        decreases t.prs@.len() - j,
    {
        let pr = &t.prs[j];
        if pr.number == id.1 && same_text(pr.repository.name_with_owner.as_str(), id.0.as_str()) {
            assert(pr_key(t.prs@[j as int]) == id_view(*id));
            return true;
        }
        j = j + 1;
    }
    false
}

fn record_details(state: &mut AppState, id: PrId, details: PrDetails)
    ensures
        *final(state) == (AppState { tabs: final(state).tabs, ..*old(state) }),
        forall|i: int| 0 <= i < 5 ==> detail_recorded(#[trigger] old(state).tabs@[i], final(state).tabs@[i], id_view(id), details),
{
    let mut i: usize = 0;
    while i < 5
        invariant
            i <= 5,
            *state == (AppState { tabs: state.tabs, ..*old(state) }),
            forall|j: int| 0 <= j < i ==> detail_recorded(#[trigger] old(state).tabs@[j], state.tabs@[j], id_view(id), details),
            forall|j: int| i <= j < 5 ==> #[trigger] state.tabs@[j] == old(state).tabs@[j],
        decreases 5 - i,
    {
        if tab_lists(&state.tabs[i], &id) {
            let t = &mut state.tabs[i];
            t.loading_detail = false;
            t.failed_details.remove(id.0.as_str(), id.1);
            let key = (id.0.clone(), id.1);
            t.details_cache.insert(key, details.duplicate());
        }
        i = i + 1;
    }
}

fn record_failure(state: &mut AppState, id: PrId)
    ensures
        *final(state) == (AppState { tabs: final(state).tabs, ..*old(state) }),
        forall|i: int| 0 <= i < 5 ==> failure_recorded(#[trigger] old(state).tabs@[i], final(state).tabs@[i], id_view(id)),
{
    let mut i: usize = 0;
    while i < 5
        invariant
            i <= 5,
            *state == (AppState { tabs: state.tabs, ..*old(state) }),
            forall|j: int| 0 <= j < i ==> failure_recorded(#[trigger] old(state).tabs@[j], state.tabs@[j], id_view(id)),
            forall|j: int| i <= j < 5 ==> #[trigger] state.tabs@[j] == old(state).tabs@[j],
        decreases 5 - i,
    {
        if tab_lists(&state.tabs[i], &id) {
            let t = &mut state.tabs[i];
            t.loading_detail = false;
            let key = (id.0.clone(), id.1);
            t.failed_details.insert(key, ());
        }
        i = i + 1;
    }
}

/// Identities of `prs`, in order.
fn ids_of(prs: &Vec<PullRequest>) -> (r: Vec<PrId>)
    ensures
        r@.map_values(|id: PrId| id_view(id)) == prs@.map_values(|p: PullRequest| pr_key(p)),
{
    let mut ids: Vec<PrId> = Vec::new();
    let mut i: usize = 0;
    while i < prs.len()
        invariant
            i <= prs@.len(),
            ids@.map_values(|id: PrId| id_view(id)) == prs@.take(i as int).map_values(|p: PullRequest| pr_key(p)),
        decreases prs@.len() - i,
    {
        let ghost before = ids@;
        let id = prs[i].id();
        ids.push(id);
        proof {
            let f = |id: PrId| id_view(id);
            let g = |p: PullRequest| pr_key(p);
            assert(ids@ == before.push(id));
            assert(ids@.map_values(f) =~= before.map_values(f).push(f(id)));
            assert(prs@.take(i + 1) =~= prs@.take(i as int).push(prs@[i as int]));
            assert(prs@.take(i + 1).map_values(g) =~= prs@.take(i as int).map_values(g).push(g(prs@[i as int])));
        }
        i = i + 1;
    }
    proof {
        assert(prs@.take(i as int) =~= prs@);
    }
    ids
}

/// Handles an event at time `now` (see `event_outcome`).
pub fn handle_event_at(state: &mut AppState, event: AppEvent, now: i64) -> (e: Vec<Effect>)
    requires
        old(state).active_tab < 5,
        in_clock_range(now as int),
        event_ok(event),
    ensures
        event_outcome(*old(state), *final(state), e@, event, now as int),
        final(state).active_tab < 5,
{
    match event {
        AppEvent::Key(key) => handle_key(state, key, now),
        AppEvent::TabLoaded(idx, prs) => {
            let ids = ids_of(&prs);
            let t = &mut state.tabs[idx];
            t.loading = false;
            let last = if prs.len() > 0 {
                prs.len() - 1
            } else {
                0
            };
            if t.selected > last {
                t.selected = last;
            }
            t.prs = prs;
            state.last_refresh = Some(now);
            let mut e: Vec<Effect> = Vec::new();
            e.push(Effect::FetchDetails(ids));
            e
        },
        AppEvent::TabError(idx, err) => {
            state.tabs[idx].loading = false;
            state.error = Some(err);
            Vec::new()
        },
        AppEvent::DetailLoaded(id, details) => {
            record_details(state, id, details);
            Vec::new()
        },
        AppEvent::DetailError(id) => {
            record_failure(state, id);
            Vec::new()
        },
    }
}

/// Handles an event now: reads the clock once, then does what
/// `handle_event_at` does for the time read.
pub fn handle_event(state: &mut AppState, event: AppEvent) -> (e: Vec<Effect>)
    requires
        old(state).active_tab < 5,
        event_ok(event),
    ensures
        exists|now: i64| in_clock_range(now as int) && event_outcome(*old(state), *final(state), e@, event, now as int),
        final(state).active_tab < 5,
{
    let now = now_timestamp();
    handle_event_at(state, event, now)
}

} // verus!
