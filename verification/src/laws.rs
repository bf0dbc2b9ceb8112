//! Properties of the client that span several operations.
use vstd::prelude::*;
use crate::app::{
    filter_accepts, lemma_shown_positions_bounded, keyed_positions, shown, shown_positions, status_of, AppState, FilterPreset, PrStatus, SortDir,
    SortKey, SortState, Tab, TabState,
};
use crate::control::{
    clamped, command_outcome, day_secs, days_until_monday, day_start, event_outcome, iso_weekday,
    next_monday_at_nine, normal_command, search_outcome, snooze_delay, tomorrow_at_nine, toggled, toggled_each,
    Command,
};
use crate::events::AppEvent;
use crate::gh::{pr_key, CiStatus, PrDetails, PullRequest, Review};
use crate::app::{query_matches, sort_value};
use crate::categories::{has_number, team_requests};
use crate::review::{add_requested, review_effect, standing_after_reviews};
use crate::text::{contains_text, lowercase_text, occurs_at};
use crate::events::{Effect, KeyCode};
use crate::review::{count_status, lists_standing, reviewer_standing, sorted_by_login, ReviewerEntry, ReviewStatus};
use crate::sorting::{keys_ascending, lemma_stable_sorted_ascending, lemma_stable_sorted_len, lemma_stable_sorted_permutes, stable_sorted};
use crate::table::Key;

verus! {

/// Five steps forward through the filters come back to the start.
pub proof fn filter_cycle_has_period_five(f: FilterPreset)
    ensures
        FilterPreset::at_position(f.position() + 5) == f,
        FilterPreset::at_position(f.position() + 1) != f,
        FilterPreset::at_position(f.position() + 2) != f,
        FilterPreset::at_position(f.position() + 3) != f,
        FilterPreset::at_position(f.position() + 4) != f,
{
}

/// Stepping the filter back undoes stepping it forward, and the other way round.
pub proof fn filter_prev_undoes_next(f: FilterPreset)
    ensures
        FilterPreset::at_position(FilterPreset::at_position(f.position() + 1).position() + 4) == f,
        FilterPreset::at_position(FilterPreset::at_position(f.position() + 4).position() + 1) == f,
{
}

/// Five steps through the sort keys come back to the start, visiting each key once.
pub proof fn sort_key_cycle_has_period_five(k: SortKey)
    ensures
        SortKey::at_position(k.position() + 5) == k,
        SortKey::at_position(k.position() + 1) != k,
        SortKey::at_position(k.position() + 2) != k,
        SortKey::at_position(k.position() + 3) != k,
        SortKey::at_position(k.position() + 4) != k,
{
}

/// A tab index names the tab at that index modulo 5; every tab is named by its index.
pub proof fn tab_index_round_trip(t: Tab, i: int)
    requires
        i >= 0,
    ensures
        Tab::of_index(t.position()) == t,
        Tab::of_index(i) == Tab::of_index(i % 5),
        0 <= t.position() < 5,
{
}

/// The labels of the tabs are distinct.
pub proof fn tab_labels_distinct(a: Tab, b: Tab)
    requires
        a != b,
    ensures
        a.label_text() != b.label_text(),
{
    reveal_strlit("Personal");
    reveal_strlit("Team");
    reveal_strlit("Mentioned");
    reveal_strlit("Assigned");
    reveal_strlit("Mine");
    if a.label_text().len() == b.label_text().len() {
        assert(a.label_text()[0] != b.label_text()[0]);
    }
}

/// Marking a row twice leaves the marks as they were.
pub proof fn toggling_a_mark_twice_is_identity(marks: Set<usize>, i: usize)
    ensures
        ({
            let once = if marks.contains(i) {
                marks.remove(i)
            } else {
                marks.insert(i)
            };
            let twice = if once.contains(i) {
                once.remove(i)
            } else {
                once.insert(i)
            };
            twice == marks
        }),
{
    let once = if marks.contains(i) {
        marks.remove(i)
    } else {
        marks.insert(i)
    };
    let twice = if once.contains(i) {
        once.remove(i)
    } else {
        once.insert(i)
    };
    assert(twice =~= marks);
}

/// Toggling done (read, pinned) twice on a pull request leaves the marks as they were.
pub proof fn toggling_done_twice_is_identity(m: Map<Key, ()>, k: Key)
    ensures
        toggled(toggled(m, k), k) == m,
{
    if m.contains_key(k) {
        assert(m.remove(k).insert(k, ()) =~= m);
    } else {
        assert(m.insert(k, ()).remove(k) =~= m);
    }
}

/// Toggling each of a list of marks, then the same list again, leaves the marks
/// as they were.
pub proof fn toggling_all_twice_is_identity(m: Map<Key, ()>, ks: Seq<Key>)
    ensures
        toggled_each(toggled_each(m, ks), ks) == m,
    decreases ks.len(),
{
    if ks.len() > 0 {
        lemma_toggled_each_commutes(m, ks);
        toggling_all_twice_is_identity(m, ks.drop_last());
        assert(toggled_each(toggled_each(m, ks), ks) == toggled(toggled_each(toggled_each(m, ks), ks.drop_last()), ks.last()));
        lemma_toggled_each_commutes(toggled_each(m, ks.drop_last()), ks);
        lemma_toggled_each_shift(m, ks);
    }
}

proof fn lemma_toggle_commutes(m: Map<Key, ()>, a: Key, b: Key)
    ensures
        toggled(toggled(m, a), b) == toggled(toggled(m, b), a),
{
    assert(toggled(toggled(m, a), b) =~= toggled(toggled(m, b), a));
}

proof fn lemma_toggled_each_after(m: Map<Key, ()>, ks: Seq<Key>, k: Key)
    ensures
        toggled_each(toggled(m, k), ks) == toggled(toggled_each(m, ks), k),
    decreases ks.len(),
{
    if ks.len() > 0 {
        lemma_toggled_each_after(m, ks.drop_last(), k);
        lemma_toggle_commutes(toggled_each(m, ks.drop_last()), k, ks.last());
    }
}

proof fn lemma_toggled_each_commutes(m: Map<Key, ()>, ks: Seq<Key>)
    requires
        ks.len() > 0,
    ensures
        toggled_each(m, ks) == toggled(toggled_each(m, ks.drop_last()), ks.last()),
{
}

proof fn lemma_toggled_each_shift(m: Map<Key, ()>, ks: Seq<Key>)
    requires
        ks.len() > 0,
    ensures
        toggled_each(toggled_each(m, ks), ks) == toggled_each(toggled_each(m, ks.drop_last()), ks.drop_last()),
    decreases ks.len(),
{
    let k = ks.last();
    let front = ks.drop_last();
    let a = toggled_each(m, front);
    // toggled_each(toggled(a, k), ks) = toggled(toggled_each(toggled(a, k), front), k)
    lemma_toggled_each_after(a, front, k);
    toggling_done_twice_is_identity(toggled_each(a, front), k);
}

/// Switching to the next tab and then to the previous one comes back to the
/// tab one started on.
pub proof fn next_then_prev_tab_returns(s0: AppState, s1: AppState, s2: AppState, e1: Seq<Effect>, e2: Seq<Effect>, n1: int, n2: int)
    requires
        s0.active_tab < 5,
        command_outcome(s0, s1, e1, Command::NextTab, n1),
        command_outcome(s1, s2, e2, Command::PrevTab, n2),
    ensures
        s2.active_tab == s0.active_tab,
{
}

/// Pressing `g` twice (not already waiting for one) puts the cursor on the
/// first row and stops waiting.
pub proof fn double_g_goes_to_first_row(s0: AppState, s1: AppState, s2: AppState, e1: Seq<Effect>, e2: Seq<Effect>, n1: int, n2: int)
    requires
        !s0.pending_g,
        s0.active_tab < 5,
        command_outcome(s0, s1, e1, normal_command(KeyCode::Char('g'), s0.pending_g), n1),
        command_outcome(s1, s2, e2, normal_command(KeyCode::Char('g'), s1.pending_g), n2),
    ensures
        s2.current().selected == 0,
        !s2.pending_g,
{
}

/// Typing a character into the search and deleting it again restores the search text.
pub proof fn type_then_backspace_restores_query(s0: AppState, s1: AppState, s2: AppState, e1: Seq<Effect>, e2: Seq<Effect>, c: char, n1: int, n2: int)
    requires
        search_outcome(s0, s1, e1, KeyCode::Char(c), n1),
        search_outcome(s1, s2, e2, KeyCode::Backspace, n2),
    ensures
        s2.search_query@ == s0.search_query@,
{
    assert(s0.search_query@.push(c).drop_last() =~= s0.search_query@);
}

/// A cursor on the list stays on the list when it moves up or down, and `G`
/// puts it on the last row.
pub proof fn cursor_stays_on_list(t: TabState, q: Seq<char>, f: FilterPreset)
    requires
        t.selected < t.visible_len(q, f),
    ensures
        t.down_target(q, f) < t.visible_len(q, f),
        t.up_target() < t.visible_len(q, f),
        t.last_target(q, f) == t.visible_len(q, f) - 1,
        t.down_target(q, f) >= t.selected,
        t.up_target() <= t.selected,
{
    broadcast use vstd::std_specs::vec::axiom_spec_len;
    lemma_shown_positions_len(t.prs@, t.details_cache.map(), q, f);
    assert(t.prs.len() == t.prs@.len());
}

proof fn lemma_shown_positions_len(prs: Seq<PullRequest>, cache: Map<Key, PrDetails>, q: Seq<char>, f: FilterPreset)
    ensures
        shown_positions(prs, cache, q, f).len() <= prs.len(),
    decreases prs.len(),
{
    if prs.len() > 0 {
        lemma_shown_positions_len(prs.drop_last(), cache, q, f);
    }
}

/// After a tab loads, its cursor is on its list, or on the first row when
/// the list is empty.
pub proof fn loaded_tab_cursor_on_list(s0: AppState, s1: AppState, e: Seq<Effect>, i: usize, prs: Vec<PullRequest>, now: int)
    requires
        i < 5,
        event_outcome(s0, s1, e, AppEvent::TabLoaded(i, prs), now),
    ensures
        s1.tabs@[i as int].prs@.len() == 0 ==> s1.tabs@[i as int].selected == 0,
        s1.tabs@[i as int].prs@.len() > 0 ==> s1.tabs@[i as int].selected < s1.tabs@[i as int].prs@.len(),
        !s1.tabs@[i as int].loading,
{
    assert(s1.tabs@[i as int] == s1.tabs@[i as int]);
}

/// Snoozing with `t` wakes at 09:00 UTC, after now and at most two days later;
/// with `w`, on a Monday at 09:00 UTC, after now and at most eight days later.
pub proof fn snooze_targets(now: int)
    ensures
        now < tomorrow_at_nine(now) <= now + 2 * day_secs(),
        tomorrow_at_nine(now) % day_secs() == 9 * 3600,
        now < next_monday_at_nine(now) <= now + 8 * day_secs(),
        next_monday_at_nine(now) % day_secs() == 9 * 3600,
        iso_weekday(next_monday_at_nine(now)) == 1,
{
    let t1 = now + day_secs();
    let d1 = t1 / 86400;
    assert(d1 * 86400 <= t1 < d1 * 86400 + 86400) by (nonlinear_arith)
        requires
            d1 == t1 / 86400,
    ;
    let x = d1 * 86400 + 32400;
    assert(x % 86400 == 32400 && x / 86400 == d1) by (nonlinear_arith)
        requires
            x == d1 * 86400 + 32400,
    ;
    let d0 = now / 86400;
    assert(d0 * 86400 <= now < d0 * 86400 + 86400) by (nonlinear_arith)
        requires
            d0 == now / 86400,
    ;
    let k = days_until_monday(now);
    let wd = iso_weekday(now);
    assert(1 <= wd <= 7);
    assert(1 <= k <= 7);
    let t2 = now + k * 86400;
    assert(t2 / 86400 == d0 + k) by (nonlinear_arith)
        requires
            t2 == now + k * 86400,
            d0 * 86400 <= now < d0 * 86400 + 86400,
    ;
    let y = (d0 + k) * 86400 + 32400;
    assert(y % 86400 == 32400 && y / 86400 == d0 + k) by (nonlinear_arith)
        requires
            y == (d0 + k) * 86400 + 32400,
    ;
    assert(day_start(t2) == (d0 + k) * 86400);
    assert(next_monday_at_nine(now) == y);
    assert(wd == (d0 + 3) % 7 + 1);
    assert(((d0 + k) + 3) % 7 == 0) by (nonlinear_arith)
        requires
            wd == (d0 + 3) % 7 + 1,
            k == (if (8 - wd) % 7 == 0 { 7 } else { (8 - wd) % 7 }),
            1 <= wd <= 7,
    ;
}

/// Every snooze key snoozes for a positive time of at most eight days.
pub proof fn snooze_delays_are_positive(code: KeyCode, now: int)
    ensures
        snooze_delay(code, now) matches Some(d) ==> 0 < d <= 8 * day_secs(),
{
    snooze_targets(now);
}

/// Drafts are drafts whatever their details; without details a pull request
/// that is not a draft is in progress.
pub proof fn status_without_details(cache: Map<Key, PrDetails>, pr: PullRequest)
    ensures
        pr.is_draft ==> status_of(cache, pr) == PrStatus::Draft,
        !pr.is_draft && !cache.contains_key(pr_key(pr)) ==> status_of(cache, pr) == PrStatus::InProgress,
{
}

/// With no search text and the filter `All`, every pull request is listed,
/// in fetched order.
pub proof fn everything_shown_without_search_or_filter(prs: Seq<PullRequest>, cache: Map<Key, PrDetails>)
    ensures
        shown_positions(prs, cache, Seq::empty(), FilterPreset::All) == Seq::new(prs.len(), |i: int| i as usize),
    decreases prs.len(),
{
    if prs.len() > 0 {
        everything_shown_without_search_or_filter(prs.drop_last(), cache);
        assert(shown_positions(prs, cache, Seq::empty(), FilterPreset::All) =~= Seq::new(prs.len(), |i: int| i as usize));
    }
}

/// The list shown is a rearrangement of the matching pull requests: in their
/// fetched order without a sort key, else sorted by the key, ascending or
/// descending, each matching pull request once.
pub proof fn visible_list_rearranges_matches(t: TabState, q: Seq<char>, sort: SortState, f: FilterPreset, now: int)
    ensures
        t.visible_order(q, sort, f, now).to_multiset() == shown_positions(t.prs@, t.details_cache.map(), q, f).to_multiset(),
{
    let pos = shown_positions(t.prs@, t.details_cache.map(), q, f);
    if sort.key != SortKey::Default {
        let keyed = keyed_positions(t.prs@, t.details_cache.map(), pos, sort.key, now);
        let sorted = stable_sorted(keyed);
        lemma_stable_sorted_permutes(keyed);
        let proj = |p: (i64, usize)| p.1;
        lemma_map_multiset(sorted, keyed, proj);
        assert(keyed.map_values(proj) =~= pos);
        if sort.dir == SortDir::Desc {
            lemma_reverse_multiset(sorted.map_values(proj));
        }
    }
}

proof fn lemma_map_multiset(a: Seq<(i64, usize)>, b: Seq<(i64, usize)>, f: spec_fn((i64, usize)) -> usize)
    requires
        a.to_multiset() == b.to_multiset(),
    ensures
        a.map_values(f).to_multiset() == b.map_values(f).to_multiset(),
    decreases a.len(),
{
    broadcast use vstd::seq_lib::group_to_multiset_ensures;
    broadcast use vstd::seq_lib::to_multiset_insert;
    if a.len() == 0 {
        assert(b.to_multiset().len() == 0);
        assert(b.len() == 0);
        assert(a.map_values(f) =~= b.map_values(f));
    } else {
        let x = a.last();
        assert(a.contains(x)) by {
            assert(a[a.len() - 1] == x);
        }
        assert(a.to_multiset().count(x) > 0);
        assert(b.contains(x));
        let i = choose|i: int| 0 <= i < b.len() && b[i] == x;
        let a2 = a.drop_last();
        let b2 = b.remove(i);
        assert(a2.push(x) =~= a);
        assert(a2.to_multiset() =~= a.to_multiset().remove(x)) by {
            assert(a.remove(a.len() - 1) =~= a2);
        }
        assert(b2.to_multiset() == b.to_multiset().remove(x));
        lemma_map_multiset(a2, b2, f);
        assert(a.map_values(f) =~= a2.map_values(f).push(f(x)));
        assert(b.map_values(f) =~= b2.map_values(f).insert(i, f(x)));
    }
}

proof fn lemma_reverse_multiset(s: Seq<usize>)
    ensures
        s.reverse().to_multiset() == s.to_multiset(),
{
    s.lemma_reverse_to_multiset();
}

/// Sorted lists are ascending by their sort value; a descending order lists
/// the values from largest to smallest.
pub proof fn sorted_list_is_ordered(t: TabState, q: Seq<char>, sort: SortState, f: FilterPreset, now: int)
    requires
        sort.key != SortKey::Default,
    ensures
        ({
            let pos = shown_positions(t.prs@, t.details_cache.map(), q, f);
            let sorted = stable_sorted(keyed_positions(t.prs@, t.details_cache.map(), pos, sort.key, now));
            &&& keys_ascending(sorted)
            &&& sort.dir == SortDir::Asc ==> t.visible_order(q, sort, f, now) == sorted.map_values(|p: (i64, usize)| p.1)
            &&& sort.dir == SortDir::Desc ==> t.visible_order(q, sort, f, now) == sorted.map_values(|p: (i64, usize)| p.1).reverse()
        }),
{
    let pos = shown_positions(t.prs@, t.details_cache.map(), q, f);
    lemma_stable_sorted_ascending(keyed_positions(t.prs@, t.details_cache.map(), pos, sort.key, now));
}

/// The author of a pull request is never listed among its participants; every
/// requested participant other than the author is; no participant is listed twice.
pub proof fn reviewer_list_laws(d: PrDetails, author: Seq<char>, entries: Seq<ReviewerEntry>)
    requires
        sorted_by_login(entries),
        lists_standing(entries, reviewer_standing(d, author)),
    ensures
        forall|i: int| 0 <= i < entries.len() ==> #[trigger] entries[i].login@ != author,
        forall|j: int| 0 <= j < d.requested_reviewers@.len() && d.requested_reviewers@[j]@ != author
            ==> exists|i: int| 0 <= i < entries.len() && entries[i].login@ == #[trigger] d.requested_reviewers@[j]@,
        forall|i: int, j: int| 0 <= i < j < entries.len() ==> #[trigger] entries[i].login@ != #[trigger] entries[j].login@,
{
    let base = crate::review::standing_after_reviews(d.reviews@, author, d.requested_reviewers@);
    lemma_standing_excludes_author(d.reviews@, author, d.requested_reviewers@);
    lemma_add_requested_excludes_author(base, d.requested_reviewers@, author);
    lemma_add_requested_includes(base, d.requested_reviewers@, author);
    assert forall|i: int, j: int| 0 <= i < j < entries.len() implies #[trigger] entries[i].login@ != #[trigger] entries[j].login@ by {
        crate::text::lemma_chars_lt_irreflexive(entries[i].login@);
    }
    let m = reviewer_standing(d, author);
    assert forall|j: int| 0 <= j < d.requested_reviewers@.len() && d.requested_reviewers@[j]@ != author
        implies exists|i: int| 0 <= i < entries.len() && entries[i].login@ == #[trigger] d.requested_reviewers@[j]@ by {
        assert(m.contains_key(d.requested_reviewers@[j]@));
    }
}

proof fn lemma_standing_excludes_author(reviews: Seq<crate::gh::Review>, author: Seq<char>, requested: Seq<String>)
    ensures
        !crate::review::standing_after_reviews(reviews, author, requested).contains_key(author),
    decreases reviews.len(),
{
    if reviews.len() > 0 {
        lemma_standing_excludes_author(reviews.drop_last(), author, requested);
    }
}

proof fn lemma_add_requested_excludes_author(m: Map<Seq<char>, ReviewStatus>, requested: Seq<String>, author: Seq<char>)
    requires
        !m.contains_key(author),
    ensures
        !crate::review::add_requested(m, requested, author).contains_key(author),
    decreases requested.len(),
{
    if requested.len() > 0 {
        lemma_add_requested_excludes_author(m, requested.drop_last(), author);
    }
}

proof fn lemma_add_requested_includes(m: Map<Seq<char>, ReviewStatus>, requested: Seq<String>, author: Seq<char>)
    ensures
        forall|j: int| 0 <= j < requested.len() && requested[j]@ != author
            ==> crate::review::add_requested(m, requested, author).contains_key(#[trigger] requested[j]@),
        forall|k: Seq<char>| m.contains_key(k) ==> #[trigger] crate::review::add_requested(m, requested, author).contains_key(k),
    decreases requested.len(),
{
    if requested.len() > 0 {
        lemma_add_requested_includes(m, requested.drop_last(), author);
        let front = requested.drop_last();
        assert forall|j: int| 0 <= j < requested.len() && requested[j]@ != author
            implies crate::review::add_requested(m, requested, author).contains_key(#[trigger] requested[j]@) by {
            if j < requested.len() - 1 {
                assert(front[j] == requested[j]);
            }
        }
        assert forall|k: Seq<char>| m.contains_key(k) implies #[trigger] crate::review::add_requested(m, requested, author).contains_key(k) by {
            assert(crate::review::add_requested(m, front, author).contains_key(k));
        }
    }
}

/// No more participants approved than are listed.
pub proof fn approvals_at_most_reviewers(entries: Seq<ReviewerEntry>)
    ensures
        count_status(entries, ReviewStatus::Approved) <= entries.len(),
    decreases entries.len(),
{
    if entries.len() > 0 {
        approvals_at_most_reviewers(entries.drop_last());
    }
}

/// The four filters other than `All` split the `All` list: together they
/// list each pull request of it, and each exactly once.
pub proof fn filters_split_the_list(t: TabState, q: Seq<char>, sort: SortState, now: int)
    ensures
        ({
            let all = t.visible_order(q, sort, FilterPreset::All, now);
            let r = t.visible_order(q, sort, FilterPreset::Ready, now);
            let n = t.visible_order(q, sort, FilterPreset::NeedsReview, now);
            let w = t.visible_order(q, sort, FilterPreset::NeedsWork, now);
            let d = t.visible_order(q, sort, FilterPreset::Draft, now);
            &&& all.to_multiset() == r.to_multiset().add(n.to_multiset()).add(w.to_multiset()).add(d.to_multiset())
            &&& all.len() == r.len() + n.len() + w.len() + d.len()
            &&& forall|p: usize|
                r.to_multiset().count(p) + n.to_multiset().count(p) + w.to_multiset().count(p)
                    + d.to_multiset().count(p) <= 1
        }),
{
    broadcast use vstd::seq_lib::group_to_multiset_ensures;
    broadcast use vstd::multiset::group_multiset_axioms;
    let prs = t.prs@;
    let cache = t.details_cache.map();
    visible_list_rearranges_matches(t, q, sort, FilterPreset::All, now);
    visible_list_rearranges_matches(t, q, sort, FilterPreset::Ready, now);
    visible_list_rearranges_matches(t, q, sort, FilterPreset::NeedsReview, now);
    visible_list_rearranges_matches(t, q, sort, FilterPreset::NeedsWork, now);
    visible_list_rearranges_matches(t, q, sort, FilterPreset::Draft, now);
    lemma_positions_split(prs, cache, q);
    assert(t.prs.len() == prs.len());
    lemma_positions_once(prs, cache, q, FilterPreset::All);
    let all = t.visible_order(q, sort, FilterPreset::All, now);
    let r = t.visible_order(q, sort, FilterPreset::Ready, now);
    let n = t.visible_order(q, sort, FilterPreset::NeedsReview, now);
    let w = t.visible_order(q, sort, FilterPreset::NeedsWork, now);
    let d = t.visible_order(q, sort, FilterPreset::Draft, now);
    assert(all.len() == all.to_multiset().len());
    assert forall|p: usize|
        r.to_multiset().count(p) + n.to_multiset().count(p) + w.to_multiset().count(p)
            + d.to_multiset().count(p) <= 1 by {
        assert(all.to_multiset().count(p) <= 1);
    }
}

/// Under each of the four filters other than `All`, the positions listed are
/// those `All` lists, split by status.
proof fn lemma_positions_split(prs: Seq<PullRequest>, cache: Map<Key, PrDetails>, q: Seq<char>)
    ensures
        shown_positions(prs, cache, q, FilterPreset::All).to_multiset()
            == shown_positions(prs, cache, q, FilterPreset::Ready).to_multiset()
                .add(shown_positions(prs, cache, q, FilterPreset::NeedsReview).to_multiset())
                .add(shown_positions(prs, cache, q, FilterPreset::NeedsWork).to_multiset())
                .add(shown_positions(prs, cache, q, FilterPreset::Draft).to_multiset()),
    decreases prs.len(),
{
    broadcast use vstd::seq_lib::group_to_multiset_ensures;
    broadcast use vstd::multiset::group_multiset_axioms;
    if prs.len() == 0 {
        assert(shown_positions(prs, cache, q, FilterPreset::All).to_multiset() =~= vstd::multiset::Multiset::empty());
        assert(shown_positions(prs, cache, q, FilterPreset::Ready).to_multiset() =~= vstd::multiset::Multiset::empty());
        assert(shown_positions(prs, cache, q, FilterPreset::NeedsReview).to_multiset() =~= vstd::multiset::Multiset::empty());
        assert(shown_positions(prs, cache, q, FilterPreset::NeedsWork).to_multiset() =~= vstd::multiset::Multiset::empty());
        assert(shown_positions(prs, cache, q, FilterPreset::Draft).to_multiset() =~= vstd::multiset::Multiset::empty());
    } else {
        let front = prs.drop_last();
        lemma_positions_split(front, cache, q);
        let x = (prs.len() - 1) as usize;
        let a0 = shown_positions(front, cache, q, FilterPreset::All).to_multiset();
        let r0 = shown_positions(front, cache, q, FilterPreset::Ready).to_multiset();
        let n0 = shown_positions(front, cache, q, FilterPreset::NeedsReview).to_multiset();
        let w0 = shown_positions(front, cache, q, FilterPreset::NeedsWork).to_multiset();
        let d0 = shown_positions(front, cache, q, FilterPreset::Draft).to_multiset();
        let st = status_of(cache, prs.last());
        if shown(cache, prs.last(), q, FilterPreset::All) {
            assert(shown_positions(prs, cache, q, FilterPreset::All).to_multiset() == a0.insert(x));
            match st {
                PrStatus::Ready => {
                    assert(shown_positions(prs, cache, q, FilterPreset::Ready).to_multiset() == r0.insert(x));
                    assert(a0.insert(x) =~= r0.insert(x).add(n0).add(w0).add(d0));
                },
                PrStatus::InProgress => {
                    assert(shown_positions(prs, cache, q, FilterPreset::NeedsReview).to_multiset() == n0.insert(x));
                    assert(a0.insert(x) =~= r0.add(n0.insert(x)).add(w0).add(d0));
                },
                PrStatus::NeedsWork => {
                    assert(shown_positions(prs, cache, q, FilterPreset::NeedsWork).to_multiset() == w0.insert(x));
                    assert(a0.insert(x) =~= r0.add(n0).add(w0.insert(x)).add(d0));
                },
                PrStatus::Draft => {
                    assert(shown_positions(prs, cache, q, FilterPreset::Draft).to_multiset() == d0.insert(x));
                    assert(a0.insert(x) =~= r0.add(n0).add(w0).add(d0.insert(x)));
                },
            }
        }
    }
}

/// A filter lists each position at most once.
proof fn lemma_positions_once(prs: Seq<PullRequest>, cache: Map<Key, PrDetails>, q: Seq<char>, f: FilterPreset)
    requires
        prs.len() <= usize::MAX,
    ensures
        forall|p: usize| #[trigger] shown_positions(prs, cache, q, f).to_multiset().count(p) <= 1,
    decreases prs.len(),
{
    broadcast use vstd::seq_lib::group_to_multiset_ensures;
    broadcast use vstd::multiset::group_multiset_axioms;
    if prs.len() == 0 {
        assert(shown_positions(prs, cache, q, f).to_multiset() =~= vstd::multiset::Multiset::empty());
    } else {
        let front = prs.drop_last();
        lemma_positions_once(front, cache, q, f);
        lemma_shown_positions_bounded(front, cache, q, f);
        let fp = shown_positions(front, cache, q, f);
        let x = (prs.len() - 1) as usize;
        if shown(cache, prs.last(), q, f) {
            assert(front.len() == x);
            assert forall|i: int| 0 <= i < fp.len() implies fp[i] != x by {
                assert(shown_positions(front, cache, q, f)[i] < front.len());
            }
            assert(!fp.contains(x));
            assert(fp.to_multiset().count(x) == 0);
            assert(shown_positions(prs, cache, q, f).to_multiset() == fp.to_multiset().insert(x));
        }
    }
}

/// A participant's latest review that says something decides where they
/// stand, whatever came before and whatever comments follow: an approval
/// approves (a later approval overrides an earlier change request); a change
/// request stands, or is pending when they were asked again; a dismissal makes
/// them pending.
pub proof fn latest_verdict_stands(d: PrDetails, author: Seq<char>, entries: Seq<ReviewerEntry>, i: int)
    requires
        lists_standing(entries, reviewer_standing(d, author)),
        0 <= i < d.reviews@.len(),
        d.reviews@[i].author.login@ != author,
        d.reviews@[i].state@ == "APPROVED"@ || d.reviews@[i].state@ == "CHANGES_REQUESTED"@
            || d.reviews@[i].state@ == "DISMISSED"@,
        forall|j: int| i < j < d.reviews@.len() && #[trigger] d.reviews@[j].author.login@ == d.reviews@[i].author.login@
            ==> d.reviews@[j].state@ != "APPROVED"@ && d.reviews@[j].state@ != "CHANGES_REQUESTED"@
                && d.reviews@[j].state@ != "DISMISSED"@,
    ensures
        ({
            let p = d.reviews@[i].author.login@;
            let st = d.reviews@[i].state@;
            let asked_again = exists|k: int| 0 <= k < d.requested_reviewers@.len() && #[trigger] d.requested_reviewers@[k]@ == p;
            let expected = if st == "APPROVED"@ {
                ReviewStatus::Approved
            } else if st == "CHANGES_REQUESTED"@ && !asked_again {
                ReviewStatus::ChangesRequested
            } else {
                ReviewStatus::Pending
            };
            &&& reviewer_standing(d, author).contains_key(p)
            &&& reviewer_standing(d, author)[p] == expected
            &&& exists|k: int| 0 <= k < entries.len() && #[trigger] entries[k].login@ == p
            &&& forall|k: int| 0 <= k < entries.len() && #[trigger] entries[k].login@ == p ==> entries[k].status == expected
        }),
{
    let p = d.reviews@[i].author.login@;
    let requested = d.requested_reviewers@;
    lemma_standing_after_last(d.reviews@, author, requested, i);
    let m = standing_after_reviews(d.reviews@, author, requested);
    lemma_add_requested_keeps(m, requested, author, p);
    assert(reviewer_standing(d, author).contains_key(p));
}

/// A participant whose last review approves is listed as approved: a later
/// approval overrides an earlier change request, dismissal or comment.
pub proof fn last_approval_wins(d: PrDetails, author: Seq<char>, entries: Seq<ReviewerEntry>, i: int)
    requires
        lists_standing(entries, reviewer_standing(d, author)),
        0 <= i < d.reviews@.len(),
        d.reviews@[i].state@ == "APPROVED"@,
        d.reviews@[i].author.login@ != author,
        forall|j: int| i < j < d.reviews@.len() ==> #[trigger] d.reviews@[j].author.login@ != d.reviews@[i].author.login@,
    ensures
        reviewer_standing(d, author).contains_key(d.reviews@[i].author.login@),
        reviewer_standing(d, author)[d.reviews@[i].author.login@] == ReviewStatus::Approved,
        exists|k: int| 0 <= k < entries.len() && #[trigger] entries[k].login@ == d.reviews@[i].author.login@,
        forall|k: int| 0 <= k < entries.len() && #[trigger] entries[k].login@ == d.reviews@[i].author.login@
            ==> entries[k].status == ReviewStatus::Approved,
{
    latest_verdict_stands(d, author, entries, i);
}

/// The standing a participant's last review that says something gives is
/// the one they keep.
proof fn lemma_standing_after_last(reviews: Seq<Review>, author: Seq<char>, requested: Seq<String>, i: int)
    requires
        0 <= i < reviews.len(),
        reviews[i].author.login@ != author,
        forall|j: int| i < j < reviews.len() && #[trigger] reviews[j].author.login@ == reviews[i].author.login@
            ==> review_effect(reviews[j].state@, reviews[j].author.login@, requested) is None,
    ensures
        review_effect(reviews[i].state@, reviews[i].author.login@, requested) matches Some(s) ==> {
            &&& standing_after_reviews(reviews, author, requested).contains_key(reviews[i].author.login@)
            &&& standing_after_reviews(reviews, author, requested)[reviews[i].author.login@] == s
        },
    decreases reviews.len(),
{
    if reviews.len() > i + 1 {
        let front = reviews.drop_last();
        assert(front[i] == reviews[i]);
        assert forall|j: int| i < j < front.len() && #[trigger] front[j].author.login@ == front[i].author.login@
            implies review_effect(front[j].state@, front[j].author.login@, requested) is None by {
            assert(front[j] == reviews[j]);
        }
        lemma_standing_after_last(front, author, requested, i);
        assert(reviews.last() == reviews[reviews.len() - 1]);
    } else {
        assert(reviews.last() == reviews[i]);
    }
}

/// A participant none of whose reviews says anything (comments only, or
/// only asked for a review) is pending; and only participants are listed:
/// every entry reviewed or was asked to.
pub proof fn silent_participants_are_pending(d: PrDetails, author: Seq<char>, entries: Seq<ReviewerEntry>, p: Seq<char>)
    requires
        lists_standing(entries, reviewer_standing(d, author)),
        p != author,
        (exists|i: int| 0 <= i < d.reviews@.len() && #[trigger] d.reviews@[i].author.login@ == p)
            || (exists|k: int| 0 <= k < d.requested_reviewers@.len() && #[trigger] d.requested_reviewers@[k]@ == p),
        forall|i: int| 0 <= i < d.reviews@.len() && #[trigger] d.reviews@[i].author.login@ == p
            ==> d.reviews@[i].state@ != "APPROVED"@ && d.reviews@[i].state@ != "CHANGES_REQUESTED"@
                && d.reviews@[i].state@ != "DISMISSED"@,
    ensures
        reviewer_standing(d, author).contains_key(p),
        reviewer_standing(d, author)[p] == ReviewStatus::Pending,
        exists|k: int| 0 <= k < entries.len() && #[trigger] entries[k].login@ == p,
        forall|k: int| 0 <= k < entries.len() && #[trigger] entries[k].login@ == p ==> entries[k].status == ReviewStatus::Pending,
{
    let requested = d.requested_reviewers@;
    lemma_silent_standing(d.reviews@, author, requested, p);
    let m = standing_after_reviews(d.reviews@, author, requested);
    if m.contains_key(p) {
        lemma_add_requested_keeps(m, requested, author, p);
    } else {
        let k = choose|k: int| 0 <= k < requested.len() && #[trigger] requested[k]@ == p;
        lemma_add_requested_new(m, requested, author, p, k);
    }
    assert(reviewer_standing(d, author).contains_key(p));
}

/// Every listed participant reviewed the pull request or was asked to.
pub proof fn only_participants_are_listed(d: PrDetails, author: Seq<char>, entries: Seq<ReviewerEntry>)
    requires
        lists_standing(entries, reviewer_standing(d, author)),
    ensures
        forall|k: int| #![trigger entries[k]] 0 <= k < entries.len() ==> (exists|i: int| 0 <= i < d.reviews@.len()
            && #[trigger] d.reviews@[i].author.login@ == entries[k].login@)
            || (exists|j: int| 0 <= j < d.requested_reviewers@.len() && #[trigger] d.requested_reviewers@[j]@ == entries[k].login@),
{
    let requested = d.requested_reviewers@;
    let m = standing_after_reviews(d.reviews@, author, requested);
    lemma_standing_keys(d.reviews@, author, requested);
    lemma_add_requested_keys(m, requested, author);
    assert forall|k: int| #![trigger entries[k]] 0 <= k < entries.len() implies (exists|i: int| 0 <= i < d.reviews@.len()
        && #[trigger] d.reviews@[i].author.login@ == entries[k].login@)
        || (exists|j: int| 0 <= j < d.requested_reviewers@.len() && #[trigger] d.requested_reviewers@[j]@ == entries[k].login@) by {
        assert(reviewer_standing(d, author).contains_key(entries[k].login@));
    }
}

/// Reviews that say nothing leave a participant pending, and known exactly
/// when they reviewed at all.
proof fn lemma_silent_standing(reviews: Seq<Review>, author: Seq<char>, requested: Seq<String>, p: Seq<char>)
    requires
        p != author,
        forall|i: int| 0 <= i < reviews.len() && #[trigger] reviews[i].author.login@ == p
            ==> reviews[i].state@ != "APPROVED"@ && reviews[i].state@ != "CHANGES_REQUESTED"@
                && reviews[i].state@ != "DISMISSED"@,
    ensures
        standing_after_reviews(reviews, author, requested).contains_key(p)
            == (exists|i: int| 0 <= i < reviews.len() && #[trigger] reviews[i].author.login@ == p),
        standing_after_reviews(reviews, author, requested).contains_key(p)
            ==> standing_after_reviews(reviews, author, requested)[p] == ReviewStatus::Pending,
    decreases reviews.len(),
{
    if reviews.len() > 0 {
        let front = reviews.drop_last();
        assert forall|i: int| 0 <= i < front.len() && #[trigger] front[i].author.login@ == p
            implies front[i].state@ != "APPROVED"@ && front[i].state@ != "CHANGES_REQUESTED"@
                && front[i].state@ != "DISMISSED"@ by {
            assert(front[i] == reviews[i]);
        }
        lemma_silent_standing(front, author, requested, p);
        let last = reviews.len() - 1;
        assert(reviews.last() == reviews[last]);
        if exists|i: int| 0 <= i < front.len() && #[trigger] front[i].author.login@ == p {
            let i = choose|i: int| 0 <= i < front.len() && #[trigger] front[i].author.login@ == p;
            assert(reviews[i] == front[i]);
        }
        if exists|i: int| 0 <= i < reviews.len() && #[trigger] reviews[i].author.login@ == p {
            let i = choose|i: int| 0 <= i < reviews.len() && #[trigger] reviews[i].author.login@ == p;
            if i < last {
                assert(front[i] == reviews[i]);
            }
        }
    }
}

/// Every participant known after the reviews wrote one of them.
proof fn lemma_standing_keys(reviews: Seq<Review>, author: Seq<char>, requested: Seq<String>)
    ensures
        forall|p: Seq<char>| #[trigger] standing_after_reviews(reviews, author, requested).contains_key(p)
            ==> exists|i: int| 0 <= i < reviews.len() && #[trigger] reviews[i].author.login@ == p,
    decreases reviews.len(),
{
    if reviews.len() > 0 {
        let front = reviews.drop_last();
        lemma_standing_keys(front, author, requested);
        assert forall|p: Seq<char>| #[trigger] standing_after_reviews(reviews, author, requested).contains_key(p)
            implies exists|i: int| 0 <= i < reviews.len() && #[trigger] reviews[i].author.login@ == p by {
            if standing_after_reviews(front, author, requested).contains_key(p) {
                let i = choose|i: int| 0 <= i < front.len() && #[trigger] front[i].author.login@ == p;
                assert(reviews[i] == front[i]);
            } else {
                assert(reviews[reviews.len() - 1] == reviews.last());
            }
        }
    }
}

/// Every participant added for the requests was asked for a review.
proof fn lemma_add_requested_keys(m: Map<Seq<char>, ReviewStatus>, requested: Seq<String>, author: Seq<char>)
    ensures
        forall|p: Seq<char>| #[trigger] add_requested(m, requested, author).contains_key(p)
            ==> m.contains_key(p) || exists|j: int| 0 <= j < requested.len() && #[trigger] requested[j]@ == p,
    decreases requested.len(),
{
    if requested.len() > 0 {
        lemma_add_requested_keys(m, requested.drop_last(), author);
        assert forall|p: Seq<char>| #[trigger] add_requested(m, requested, author).contains_key(p)
            implies m.contains_key(p) || exists|j: int| 0 <= j < requested.len() && #[trigger] requested[j]@ == p by {
            if add_requested(m, requested.drop_last(), author).contains_key(p) {
                if !m.contains_key(p) {
                    let j = choose|j: int| 0 <= j < requested.drop_last().len() && #[trigger] requested.drop_last()[j]@ == p;
                    assert(requested[j] == requested.drop_last()[j]);
                }
            } else {
                assert(requested[requested.len() - 1] == requested.last());
            }
        }
    }
}

/// A requested participant not yet known is added as pending.
proof fn lemma_add_requested_new(m: Map<Seq<char>, ReviewStatus>, requested: Seq<String>, author: Seq<char>, p: Seq<char>, k: int)
    requires
        !m.contains_key(p),
        p != author,
        0 <= k < requested.len(),
        requested[k]@ == p,
    ensures
        add_requested(m, requested, author).contains_key(p),
        add_requested(m, requested, author)[p] == ReviewStatus::Pending,
    decreases requested.len(),
{
    let front = requested.drop_last();
    let m2 = add_requested(m, front, author);
    if k < requested.len() - 1 {
        assert(front[k] == requested[k]);
        lemma_add_requested_new(m, front, author, p, k);
    } else {
        assert(requested.last() == requested[k]);
        if m2.contains_key(p) {
            lemma_add_requested_pending(m, front, author, p);
        }
    }
}

/// A participant added for the requests, and not known before, is pending.
proof fn lemma_add_requested_pending(m: Map<Seq<char>, ReviewStatus>, requested: Seq<String>, author: Seq<char>, p: Seq<char>)
    requires
        !m.contains_key(p),
        add_requested(m, requested, author).contains_key(p),
    ensures
        add_requested(m, requested, author)[p] == ReviewStatus::Pending,
    decreases requested.len(),
{
    if requested.len() > 0 {
        let m2 = add_requested(m, requested.drop_last(), author);
        if m2.contains_key(p) {
            lemma_add_requested_pending(m, requested.drop_last(), author, p);
        }
    }
}

/// Adding the requested participants keeps every standing already known.
proof fn lemma_add_requested_keeps(m: Map<Seq<char>, ReviewStatus>, requested: Seq<String>, author: Seq<char>, p: Seq<char>)
    requires
        m.contains_key(p),
    ensures
        add_requested(m, requested, author).contains_key(p),
        add_requested(m, requested, author)[p] == m[p],
    decreases requested.len(),
{
    if requested.len() > 0 {
        lemma_add_requested_keeps(m, requested.drop_last(), author, p);
    }
}

/// A pull request is ready only when it is no draft, its details carry the
/// decision `APPROVED` and its CI passed. One that is no draft, whose CI
/// neither passed nor failed and where nobody stands on a change request,
/// still needs review.
pub proof fn ready_needs_approval_and_passing_ci(cache: Map<Key, PrDetails>, pr: PullRequest)
    ensures
        status_of(cache, pr) == PrStatus::Ready ==> !pr.is_draft && cache.contains_key(pr_key(pr)),
        status_of(cache, pr) == PrStatus::Ready ==> cache[pr_key(pr)].ci_status == CiStatus::Pass,
        status_of(cache, pr) == PrStatus::Ready ==> (cache[pr_key(pr)].review_decision matches Some(x) && x@ == "APPROVED"@),
        !pr.is_draft && cache.contains_key(pr_key(pr))
            && cache[pr_key(pr)].ci_status != CiStatus::Pass
            && cache[pr_key(pr)].ci_status != CiStatus::Fail
            && (forall|k: Seq<char>| #[trigger] reviewer_standing(cache[pr_key(pr)], pr.author.login@).contains_key(k)
                ==> reviewer_standing(cache[pr_key(pr)], pr.author.login@)[k] != ReviewStatus::ChangesRequested)
            ==> status_of(cache, pr) == PrStatus::InProgress,
{
}

/// How each status comes about: drafts are drafts; without details a pull
/// request needs review; failing CI or anybody standing on a change request
/// needs work; otherwise an `APPROVED` decision with passing CI is ready.
pub proof fn status_rules(cache: Map<Key, PrDetails>, pr: PullRequest)
    ensures
        pr.is_draft ==> status_of(cache, pr) == PrStatus::Draft,
        !pr.is_draft && !cache.contains_key(pr_key(pr)) ==> status_of(cache, pr) == PrStatus::InProgress,
        !pr.is_draft && cache.contains_key(pr_key(pr)) && cache[pr_key(pr)].ci_status == CiStatus::Fail
            ==> status_of(cache, pr) == PrStatus::NeedsWork,
        !pr.is_draft && cache.contains_key(pr_key(pr))
            && (exists|k: Seq<char>| #[trigger] reviewer_standing(cache[pr_key(pr)], pr.author.login@).contains_key(k)
                && reviewer_standing(cache[pr_key(pr)], pr.author.login@)[k] == ReviewStatus::ChangesRequested)
            ==> status_of(cache, pr) == PrStatus::NeedsWork,
        !pr.is_draft && cache.contains_key(pr_key(pr)) && cache[pr_key(pr)].ci_status == CiStatus::Pass
            && (cache[pr_key(pr)].review_decision matches Some(x) && x@ == "APPROVED"@)
            && (forall|k: Seq<char>| #[trigger] reviewer_standing(cache[pr_key(pr)], pr.author.login@).contains_key(k)
                ==> reviewer_standing(cache[pr_key(pr)], pr.author.login@)[k] != ReviewStatus::ChangesRequested)
            ==> status_of(cache, pr) == PrStatus::Ready,
        status_of(cache, pr) == PrStatus::NeedsWork ==> !pr.is_draft && cache.contains_key(pr_key(pr)),
{
}

/// What each sort key orders by: the opening time for age, the lines added
/// and deleted for size, the number of reviews; a pull request without
/// details counts 0 for size and reviews.
pub proof fn sort_values_by_key(cache: Map<Key, PrDetails>, pr: PullRequest, now: int)
    ensures
        sort_value(cache, pr, SortKey::Age, now) == pr.created_at,
        cache.contains_key(pr_key(pr)) ==> sort_value(cache, pr, SortKey::Size, now)
            == cache[pr_key(pr)].additions + cache[pr_key(pr)].deletions,
        cache.contains_key(pr_key(pr)) ==> sort_value(cache, pr, SortKey::Reviews, now)
            == cache[pr_key(pr)].reviews@.len() as i64,
        !cache.contains_key(pr_key(pr)) ==> sort_value(cache, pr, SortKey::Size, now) == 0
            && sort_value(cache, pr, SortKey::Reviews, now) == 0,
{
}

/// Each item of the sorted list carries the sort value of the pull request
/// it stands for.
proof fn lemma_sorted_carries_values(t: TabState, q: Seq<char>, key: SortKey, f: FilterPreset, now: int)
    ensures
        ({
            let cache = t.details_cache.map();
            let sorted = stable_sorted(keyed_positions(t.prs@, cache, shown_positions(t.prs@, cache, q, f), key, now));
            &&& keys_ascending(sorted)
            &&& forall|k: int| 0 <= k < sorted.len()
                ==> #[trigger] sorted[k].0 == sort_value(cache, t.prs@[sorted[k].1 as int], key, now)
        }),
{
    broadcast use vstd::seq_lib::group_to_multiset_ensures;
    let cache = t.details_cache.map();
    let pos = shown_positions(t.prs@, cache, q, f);
    let keyed = keyed_positions(t.prs@, cache, pos, key, now);
    let sorted = stable_sorted(keyed);
    lemma_stable_sorted_permutes(keyed);
    lemma_stable_sorted_ascending(keyed);
    assert forall|k: int| 0 <= k < sorted.len()
        implies #[trigger] sorted[k].0 == sort_value(cache, t.prs@[sorted[k].1 as int], key, now) by {
        assert(sorted.to_multiset().count(sorted[k]) > 0);
        assert(keyed.contains(sorted[k]));
        let m = choose|m: int| 0 <= m < keyed.len() && keyed[m] == sorted[k];
        assert(keyed[m] == (sort_value(cache, t.prs@[pos[m] as int], key, now), pos[m]));
    }
}

/// A sorted list runs by its sort value: from the smallest up when ascending,
/// from the largest down when descending.
pub proof fn sorted_list_follows_sort_values(t: TabState, q: Seq<char>, sort: SortState, f: FilterPreset, now: int)
    requires
        sort.key != SortKey::Default,
    ensures
        ({
            let cache = t.details_cache.map();
            let order = t.visible_order(q, sort, f, now);
            forall|i: int, j: int| 0 <= i < j < order.len() ==> {
                let a = sort_value(cache, t.prs@[#[trigger] order[i] as int], sort.key, now);
                let b = sort_value(cache, t.prs@[#[trigger] order[j] as int], sort.key, now);
                &&& sort.dir == SortDir::Asc ==> a <= b
                &&& sort.dir == SortDir::Desc ==> a >= b
            }
        }),
{
    let cache = t.details_cache.map();
    let sorted = stable_sorted(keyed_positions(t.prs@, cache, shown_positions(t.prs@, cache, q, f), sort.key, now));
    lemma_sorted_carries_values(t, q, sort.key, f, now);
    let order = t.visible_order(q, sort, f, now);
    let up = sorted.map_values(|p: (i64, usize)| p.1);
    assert forall|i: int, j: int| 0 <= i < j < order.len() implies ({
        let a = sort_value(cache, t.prs@[#[trigger] order[i] as int], sort.key, now);
        let b = sort_value(cache, t.prs@[#[trigger] order[j] as int], sort.key, now);
        &&& sort.dir == SortDir::Asc ==> a <= b
        &&& sort.dir == SortDir::Desc ==> a >= b
    }) by {
        if sort.dir == SortDir::Asc {
            assert(order == up);
            assert(order[i] == sorted[i].1);
            assert(order[j] == sorted[j].1);
            assert(sorted[i].0 <= sorted[j].0);
        } else {
            assert(order == up.reverse());
            let n = sorted.len();
            assert(order[i] == sorted[n - 1 - i].1);
            assert(order[j] == sorted[n - 1 - j].1);
            assert(sorted[n - 1 - j].0 <= sorted[n - 1 - i].0);
        }
    }
}

/// Sorted by age, a pull request is ordered by when it was opened, and the
/// ascending list runs from the oldest to the newest.
pub proof fn age_order_is_opening_order(t: TabState, q: Seq<char>, f: FilterPreset, now: int)
    ensures
        forall|cache: Map<Key, PrDetails>, pr: PullRequest| #[trigger] sort_value(cache, pr, SortKey::Age, now) == pr.created_at,
        ({
            let order = t.visible_order(q, SortState { key: SortKey::Age, dir: SortDir::Asc }, f, now);
            forall|i: int, j: int| 0 <= i < j < order.len()
                ==> #[trigger] t.prs@[order[i] as int].created_at <= #[trigger] t.prs@[order[j] as int].created_at
        }),
{
    let sort = SortState { key: SortKey::Age, dir: SortDir::Asc };
    sorted_list_follows_sort_values(t, q, sort, f, now);
    let order = t.visible_order(q, sort, f, now);
    let cache = t.details_cache.map();
    assert forall|i: int, j: int| 0 <= i < j < order.len()
        implies #[trigger] t.prs@[order[i] as int].created_at <= #[trigger] t.prs@[order[j] as int].created_at by {
        assert(sort_value(cache, t.prs@[order[i] as int], SortKey::Age, now) <= sort_value(cache, t.prs@[order[j] as int], SortKey::Age, now));
    }
}

/// A plain search text (neither `@user` nor `repo:name`) finds a pull request
/// exactly when it occurs, ignoring case, in the title, the author's login or
/// the repository; `@user` looks in the author's login alone, and
/// `repo:name` in the repository alone.
pub proof fn search_looks_in_title_author_and_repo(pr: PullRequest, query: Seq<char>)
    ensures
        ({
            let q = lowercase_text(query);
            let title = lowercase_text(pr.title@);
            let login = lowercase_text(pr.author.login@);
            let repo = lowercase_text(pr.repository.name_with_owner@);
            &&& !occurs_at(q, "@"@, 0) && !occurs_at(q, "repo:"@, 0) ==> (query_matches(pr, query) <==> (
                contains_text(title, q) || contains_text(login, q) || contains_text(repo, q)))
            &&& occurs_at(q, "@"@, 0) ==> (query_matches(pr, query) <==> contains_text(login, q.subrange(1, q.len() as int)))
            &&& !occurs_at(q, "@"@, 0) && occurs_at(q, "repo:"@, 0) ==> (query_matches(pr, query) <==> contains_text(
                repo,
                q.subrange(5, q.len() as int),
            ))
        }),
{
    reveal_strlit("@");
    reveal_strlit("repo:");
}

/// The pull requests of `all` whose number is that of none of `personal`.
pub open spec fn not_personal(all: Seq<PullRequest>, personal: Seq<PullRequest>) -> Seq<PullRequest> {
    all.filter(|p: PullRequest| forall|j: int| 0 <= j < personal.len() ==> personal[j].number != p.number)
}

/// The team list holds no pull request with the number of a personal request,
/// and keeps every other request of `all`, in order.
pub proof fn team_list_leaves_out_personal_requests(all: Seq<PullRequest>, personal: Seq<PullRequest>)
    ensures
        team_requests(all, personal) == not_personal(all, personal),
        forall|i: int, j: int| 0 <= i < team_requests(all, personal).len() && 0 <= j < personal.len()
            ==> #[trigger] team_requests(all, personal)[i].number != #[trigger] personal[j].number,
{
    lemma_team_requests_filter(all, personal);
    let pred = |p: PullRequest| forall|j: int| 0 <= j < personal.len() ==> personal[j].number != p.number;
    assert forall|i: int, j: int| 0 <= i < team_requests(all, personal).len() && 0 <= j < personal.len()
        implies #[trigger] team_requests(all, personal)[i].number != #[trigger] personal[j].number by {
        all.lemma_filter_pred(pred, i);
    }
}

proof fn lemma_team_requests_filter(all: Seq<PullRequest>, personal: Seq<PullRequest>)
    ensures
        team_requests(all, personal) == not_personal(all, personal),
    decreases all.len(),
{
    reveal(Seq::filter);
    if all.len() > 0 {
        lemma_team_requests_filter(all.drop_last(), personal);
        let x = all.last();
        if has_number(personal, x.number) {
            let j = choose|j: int| 0 <= j < personal.len() && #[trigger] personal[j].number == x.number;
            assert(!(forall|j: int| 0 <= j < personal.len() ==> personal[j].number != x.number));
        } else {
            assert forall|j: int| 0 <= j < personal.len() implies personal[j].number != x.number by {
                if personal[j].number == x.number {
                    assert(has_number(personal, x.number));
                }
            }
        }
    }
}

/// The list shows each pull request at most once, and shows exactly those
/// that match the search text (any, when it is empty) and whose status the
/// filter takes: all under `All`, the ready ones under `Ready`, those in
/// progress under `NeedsReview`, those needing work under `NeedsWork`, the
/// drafts under `Draft`.
pub proof fn visible_list_is_exactly_the_matches(t: TabState, q: Seq<char>, sort: SortState, f: FilterPreset, now: int, p: usize)
    ensures
        ({
            let order = t.visible_order(q, sort, f, now);
            let st = status_of(t.details_cache.map(), t.prs@[p as int]);
            let taken = match f {
                FilterPreset::All => true,
                FilterPreset::Ready => st == PrStatus::Ready,
                FilterPreset::NeedsReview => st == PrStatus::InProgress,
                FilterPreset::NeedsWork => st == PrStatus::NeedsWork,
                FilterPreset::Draft => st == PrStatus::Draft,
            };
            &&& order.contains(p) <==> (p < t.prs@.len() && (q.len() == 0 || query_matches(t.prs@[p as int], q)) && taken)
            &&& order.to_multiset().count(p) <= 1
        }),
{
    broadcast use vstd::seq_lib::group_to_multiset_ensures;
    let cache = t.details_cache.map();
    visible_list_rearranges_matches(t, q, sort, f, now);
    lemma_shown_positions_members(t.prs@, cache, q, f, p);
    assert(t.prs.len() == t.prs@.len());
    lemma_positions_once(t.prs@, cache, q, f);
    let order = t.visible_order(q, sort, f, now);
    let pos = shown_positions(t.prs@, cache, q, f);
    assert(order.to_multiset().count(p) == pos.to_multiset().count(p));
}

/// A position is listed exactly when it is in range and its pull request is
/// shown.
proof fn lemma_shown_positions_members(prs: Seq<PullRequest>, cache: Map<Key, PrDetails>, q: Seq<char>, f: FilterPreset, p: usize)
    requires
        prs.len() <= usize::MAX,
    ensures
        shown_positions(prs, cache, q, f).contains(p) <==> (p < prs.len() && shown(cache, prs[p as int], q, f)),
    decreases prs.len(),
{
    if prs.len() > 0 {
        let front = prs.drop_last();
        lemma_shown_positions_members(front, cache, q, f, p);
        let fp = shown_positions(front, cache, q, f);
        let x = (prs.len() - 1) as usize;
        assert(x == prs.len() - 1);
        if p < front.len() {
            assert(front[p as int] == prs[p as int]);
        }
        if shown(cache, prs.last(), q, f) {
            let all = fp.push(x);
            assert(shown_positions(prs, cache, q, f) == all);
            if fp.contains(p) {
                let i = choose|i: int| 0 <= i < fp.len() && fp[i] == p;
                assert(all[i] == p);
            }
            if all.contains(p) {
                let i = choose|i: int| 0 <= i < all.len() && all[i] == p;
                if i < fp.len() {
                    assert(fp[i] == p);
                }
            }
            assert(all[fp.len() as int] == x);
        }
    }
}

} // verus!
