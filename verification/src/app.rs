use vstd::prelude::*;
use std::collections::HashSet;
use crate::clock::now_timestamp;
use crate::gh::{pr_key, CiStatus, PrDetails, PullRequest};
use crate::review::{analyze_reviewers, has_active_changes, reviewer_standing, ReviewStatus};
use crate::score::{priority_at, priority_score};
use crate::sorting::{sort_stable, stable_sorted};
use crate::state::LocalState;
use crate::table::{Key, PrTable};
use crate::text::{contains, contains_text, lowercase_text, occurs_at, same_text, strip_prefix, to_lowercase};

verus! {

broadcast use vstd::std_specs::hash::group_hash_axioms;

/// Which subset of pull requests the list shows.
#[derive(Clone, Copy, Debug, PartialEq, Eq, Structural)]
pub enum FilterPreset {
    All,
    Ready,
    NeedsReview,
    NeedsWork,
    Draft,
}

impl FilterPreset {
    /// The short text shown in the filter bar.
    pub open spec fn label_text(self) -> Seq<char> {
        match self {
            FilterPreset::All => "All"@,
            FilterPreset::Ready => "Ready"@,
            FilterPreset::NeedsReview => "Review"@,
            FilterPreset::NeedsWork => "Attention"@,
            FilterPreset::Draft => "Draft"@,
        }
    }

    /// Position of the preset in the cycle `All, Ready, NeedsReview, NeedsWork, Draft`.
    pub open spec fn position(self) -> int {
        match self {
            FilterPreset::All => 0,
            FilterPreset::Ready => 1,
            FilterPreset::NeedsReview => 2,
            FilterPreset::NeedsWork => 3,
            FilterPreset::Draft => 4,
        }
    }

    pub open spec fn at_position(i: int) -> FilterPreset {
        let k = i % 5;
        if k == 0 {
            FilterPreset::All
        } else if k == 1 {
            FilterPreset::Ready
        } else if k == 2 {
            FilterPreset::NeedsReview
        } else if k == 3 {
            FilterPreset::NeedsWork
        } else {
            FilterPreset::Draft
        }
    }

    pub fn label(&self) -> (r: &'static str)
        ensures
            r@ == self.label_text(),
    {
        match self {
            FilterPreset::All => "All",
            FilterPreset::Ready => "Ready",
            FilterPreset::NeedsReview => "Review",
            FilterPreset::NeedsWork => "Attention",
            FilterPreset::Draft => "Draft",
        }
    }

    /// The preset after this one in the cycle.
    pub fn next(&self) -> (r: Self)
        ensures
            r == FilterPreset::at_position(self.position() + 1),
    {
        match self {
            FilterPreset::All => FilterPreset::Ready,
            FilterPreset::Ready => FilterPreset::NeedsReview,
            FilterPreset::NeedsReview => FilterPreset::NeedsWork,
            FilterPreset::NeedsWork => FilterPreset::Draft,
            FilterPreset::Draft => FilterPreset::All,
        }
    }

    /// The preset before this one in the cycle.
    pub fn prev(&self) -> (r: Self)
        ensures
            r == FilterPreset::at_position(self.position() + 4),
    {
        match self {
            FilterPreset::All => FilterPreset::Draft,
            FilterPreset::Ready => FilterPreset::All,
            FilterPreset::NeedsReview => FilterPreset::Ready,
            FilterPreset::NeedsWork => FilterPreset::NeedsReview,
            FilterPreset::Draft => FilterPreset::NeedsWork,
        }
    }
}

/// Where a pull request stands, as the filters see it.
#[derive(Clone, Copy, Debug, PartialEq, Eq, Structural)]
pub enum PrStatus {
    Ready,
    InProgress,
    NeedsWork,
    Draft,
}

impl Default for PrStatus {
    fn default() -> (r: Self)
        ensures
            r == PrStatus::InProgress,
    {
        PrStatus::InProgress
    }
}

/// What the list is ordered by.
#[derive(Clone, Copy, Debug, PartialEq, Eq, Structural)]
pub enum SortKey {
    Default,
    Age,
    Size,
    Reviews,
    Priority,
}

impl Default for SortKey {
    fn default() -> (r: Self)
        ensures
            r == SortKey::Default,
    {
        SortKey::Default
    }
}

/// Direction of the order.
#[derive(Clone, Copy, Debug, PartialEq, Eq, Structural)]
pub enum SortDir {
    Asc,
    Desc,
}

impl Default for SortDir {
    fn default() -> (r: Self)
        ensures
            r == SortDir::Asc,
    {
        SortDir::Asc
    }
}

/// The order of the list.
#[derive(Clone, Copy, Debug, PartialEq, Eq, Structural)]
pub struct SortState {
    pub key: SortKey,
    pub dir: SortDir,
}

impl Default for SortState {
    fn default() -> (r: Self)
        ensures
            r == (SortState { key: SortKey::Default, dir: SortDir::Asc }),
    {
        SortState { key: SortKey::Default, dir: SortDir::Asc }
    }
}

impl SortKey {
    pub open spec fn label_text(self) -> Seq<char> {
        match self {
            SortKey::Default => "default"@,
            SortKey::Age => "age"@,
            SortKey::Size => "size"@,
            SortKey::Reviews => "reviews"@,
            SortKey::Priority => "priority"@,
        }
    }

    /// Position in the cycle `Default, Age, Size, Reviews, Priority`.
    pub open spec fn position(self) -> int {
        match self {
            SortKey::Default => 0,
            SortKey::Age => 1,
            SortKey::Size => 2,
            SortKey::Reviews => 3,
            SortKey::Priority => 4,
        }
    }

    pub open spec fn at_position(i: int) -> SortKey {
        let k = i % 5;
        if k == 0 {
            SortKey::Default
        } else if k == 1 {
            SortKey::Age
        } else if k == 2 {
            SortKey::Size
        } else if k == 3 {
            SortKey::Reviews
        } else {
            SortKey::Priority
        }
    }

    pub fn label(&self) -> (r: &'static str)
        ensures
            r@ == self.label_text(),
    {
        match self {
            SortKey::Default => "default",
            SortKey::Age => "age",
            SortKey::Size => "size",
            SortKey::Reviews => "reviews",
            SortKey::Priority => "priority",
        }
    }

    /// The key after this one in the cycle.
    pub fn next(&self) -> (r: Self)
        ensures
            r == SortKey::at_position(self.position() + 1),
    {
        match self {
            SortKey::Default => SortKey::Age,
            SortKey::Age => SortKey::Size,
            SortKey::Size => SortKey::Reviews,
            SortKey::Reviews => SortKey::Priority,
            SortKey::Priority => SortKey::Default,
        }
    }
}

/// The five lists of the client.
#[derive(Clone, Copy, Debug, PartialEq, Eq, Structural)]
pub enum Tab {
    Personal,
    Team,
    Mentioned,
    Assigned,
    Mine,
}

impl Tab {
    /// Position of the tab, from 0 to 4.
    pub open spec fn position(self) -> int {
        match self {
            Tab::Personal => 0,
            Tab::Team => 1,
            Tab::Mentioned => 2,
            Tab::Assigned => 3,
            Tab::Mine => 4,
        }
    }

    pub open spec fn label_text(self) -> Seq<char> {
        match self {
            Tab::Personal => "Personal"@,
            Tab::Team => "Team"@,
            Tab::Mentioned => "Mentioned"@,
            Tab::Assigned => "Assigned"@,
            Tab::Mine => "Mine"@,
        }
    }

    /// The tab at position `i` modulo 5.
    pub open spec fn of_index(i: int) -> Tab {
        let k = i % 5;
        if k == 0 {
            Tab::Personal
        } else if k == 1 {
            Tab::Team
        } else if k == 2 {
            Tab::Mentioned
        } else if k == 3 {
            Tab::Assigned
        } else {
            Tab::Mine
        }
    }

    pub fn label(&self) -> (r: &'static str)
        ensures
            r@ == self.label_text(),
    {
        match self {
            Tab::Personal => "Personal",
            Tab::Team => "Team",
            Tab::Mentioned => "Mentioned",
            Tab::Assigned => "Assigned",
            Tab::Mine => "Mine",
        }
    }

    /// The position of the tab.
    pub fn index(&self) -> (r: usize)
        ensures
            r == self.position(),
    {
        match self {
            Tab::Personal => 0,
            Tab::Team => 1,
            Tab::Mentioned => 2,
            Tab::Assigned => 3,
            Tab::Mine => 4,
        }
    }
}

impl From<usize> for Tab {
    fn from(i: usize) -> (r: Self) {
        match i % 5 {
            0 => Tab::Personal,
            1 => Tab::Team,
            2 => Tab::Mentioned,
            3 => Tab::Assigned,
            _ => Tab::Mine,
        }
    }
}

impl vstd::std_specs::convert::FromSpecImpl<usize> for Tab {
    open spec fn obeys_from_spec() -> bool {
        true
    }

    open spec fn from_spec(i: usize) -> Tab {
        Tab::of_index(i as int)
    }
}

/// `query` (already lower case) matches the lower-cased fields: `@user`
/// looks in the author, `repo:name` in the repository, anything else in the
/// title, the author and the repository.
pub open spec fn lowered_query_matches(pr: PullRequest, q: Seq<char>) -> bool {
    let login = lowercase_text(pr.author.login@);
    let repo = lowercase_text(pr.repository.name_with_owner@);
    let title = lowercase_text(pr.title@);
    if occurs_at(q, "@"@, 0) {
        contains_text(login, q.subrange("@"@.len() as int, q.len() as int))
    } else if occurs_at(q, "repo:"@, 0) {
        contains_text(repo, q.subrange("repo:"@.len() as int, q.len() as int))
    } else {
        contains_text(title, q) || contains_text(login, q) || contains_text(repo, q)
    }
}

/// The search text `query` matches `pr`, case-insensitively.
pub open spec fn query_matches(pr: PullRequest, query: Seq<char>) -> bool {
    lowered_query_matches(pr, lowercase_text(query))
}

/// Whether `pr` matches the search text (see `query_matches`).
pub fn matches_query(pr: &PullRequest, query: &str) -> (r: bool)
    ensures
        r == query_matches(*pr, query@),
{
    let q = to_lowercase(query);
    match strip_prefix(q.as_str(), "@") {
        Some(user) => {
            let login = to_lowercase(pr.author.login.as_str());
            return contains(login.as_str(), user.as_str());
        },
        None => {},
    }
    match strip_prefix(q.as_str(), "repo:") {
        Some(repo) => {
            let name = to_lowercase(pr.repository.name_with_owner.as_str());
            return contains(name.as_str(), repo.as_str());
        },
        None => {},
    }
    let title = to_lowercase(pr.title.as_str());
    let login = to_lowercase(pr.author.login.as_str());
    let name = to_lowercase(pr.repository.name_with_owner.as_str());
    contains(title.as_str(), q.as_str()) || contains(login.as_str(), q.as_str()) || contains(
        name.as_str(),
        q.as_str(),
    )
}

/// Some participant's change request stands.
pub open spec fn changes_requested(standing: Map<Seq<char>, ReviewStatus>) -> bool {
    exists|k: Seq<char>| #[trigger] standing.contains_key(k) && standing[k] == ReviewStatus::ChangesRequested
}

/// The review decision is `APPROVED`.
pub open spec fn decision_approved(d: PrDetails) -> bool {
    d.review_decision matches Some(s) && s@ == "APPROVED"@
}

/// Where `pr` stands given the fetched details: drafts are drafts; without
/// details it is in progress; failing CI or a standing change request needs
/// work; an approval with passing CI is ready; anything else is in progress.
pub open spec fn status_of(cache: Map<Key, PrDetails>, pr: PullRequest) -> PrStatus {
    if pr.is_draft {
        PrStatus::Draft
    } else if !cache.contains_key(pr_key(pr)) {
        PrStatus::InProgress
    } else {
        let d = cache[pr_key(pr)];
        if d.ci_status == CiStatus::Fail || changes_requested(reviewer_standing(d, pr.author.login@)) {
            PrStatus::NeedsWork
        } else if decision_approved(d) && d.ci_status == CiStatus::Pass {
            PrStatus::Ready
        } else {
            PrStatus::InProgress
        }
    }
}

/// The filter lets a pull request of status `st` through.
pub open spec fn filter_accepts(filter: FilterPreset, st: PrStatus) -> bool {
    match filter {
        FilterPreset::All => true,
        FilterPreset::Ready => st == PrStatus::Ready,
        FilterPreset::NeedsReview => st == PrStatus::InProgress,
        FilterPreset::NeedsWork => st == PrStatus::NeedsWork,
        FilterPreset::Draft => st == PrStatus::Draft,
    }
}

/// `pr` is listed under search text `query` and `filter`.
pub open spec fn shown(cache: Map<Key, PrDetails>, pr: PullRequest, query: Seq<char>, filter: FilterPreset) -> bool {
    (query.len() == 0 || query_matches(pr, query)) && filter_accepts(filter, status_of(cache, pr))
}

/// Positions of the listed pull requests, in list order.
pub open spec fn shown_positions(prs: Seq<PullRequest>, cache: Map<Key, PrDetails>, query: Seq<char>, filter: FilterPreset) -> Seq<usize>
    decreases prs.len(),
{
    if prs.len() == 0 {
        Seq::empty()
    } else {
        let front = shown_positions(prs.drop_last(), cache, query, filter);
        if shown(cache, prs.last(), query, filter) {
            front.push((prs.len() - 1) as usize)
        } else {
            front
        }
    }
}

/// The value a pull request is ordered by under `key` at time `now`.
pub open spec fn sort_value(cache: Map<Key, PrDetails>, pr: PullRequest, key: SortKey, now: int) -> i64 {
    match key {
        SortKey::Default => 0,
        SortKey::Age => pr.created_at,
        SortKey::Size => if cache.contains_key(pr_key(pr)) {
            (cache[pr_key(pr)].additions + cache[pr_key(pr)].deletions) as i64
        } else {
            0
        },
        SortKey::Reviews => if cache.contains_key(pr_key(pr)) {
            cache[pr_key(pr)].reviews@.len() as i64
        } else {
            0
        },
        SortKey::Priority => priority_score(
            pr,
            if cache.contains_key(pr_key(pr)) {
                Some(cache[pr_key(pr)])
            } else {
                None
            },
            now,
        ) as i64,
    }
}

/// The listed positions paired with the values they are ordered by.
pub open spec fn keyed_positions(prs: Seq<PullRequest>, cache: Map<Key, PrDetails>, pos: Seq<usize>, key: SortKey, now: int) -> Seq<(i64, usize)> {
    pos.map_values(|i: usize| (sort_value(cache, prs[i as int], key, now), i))
}

impl TabState {
    /// Positions in `prs` of the pull requests the list shows, in list order:
    /// those that match the search text and the filter, in fetched order when
    /// not sorted, else stably sorted by the sort value at `now`, and reversed
    /// for a descending order.
    pub open spec fn visible_order(self, query: Seq<char>, sort: SortState, filter: FilterPreset, now: int) -> Seq<usize> {
        let pos = shown_positions(self.prs@, self.details_cache.map(), query, filter);
        if sort.key == SortKey::Default {
            pos
        } else {
            let sorted = stable_sorted(keyed_positions(self.prs@, self.details_cache.map(), pos, sort.key, now)).map_values(
                |p: (i64, usize)| p.1,
            );
            if sort.dir == SortDir::Desc {
                sorted.reverse()
            } else {
                sorted
            }
        }
    }

    /// The cursor one row up, staying on the first row.
    pub open spec fn up_target(self) -> usize {
        if self.selected > 0 {
            (self.selected - 1) as usize
        } else {
            0
        }
    }

    /// The cursor one row down, staying on the last row.
    pub open spec fn down_target(self, query: Seq<char>, filter: FilterPreset) -> usize {
        if self.visible_len(query, filter) > 0 && self.selected < self.visible_len(query, filter) - 1 {
            (self.selected + 1) as usize
        } else {
            self.selected
        }
    }

    /// The cursor on the last row, if there is one.
    pub open spec fn last_target(self, query: Seq<char>, filter: FilterPreset) -> usize {
        if self.visible_len(query, filter) > 0 {
            (self.visible_len(query, filter) - 1) as usize
        } else {
            self.selected
        }
    }

    /// Number of pull requests the list shows.
    pub open spec fn visible_len(self, query: Seq<char>, filter: FilterPreset) -> int {
        shown_positions(self.prs@, self.details_cache.map(), query, filter).len() as int
    }

    /// `r` is the list shown at time `now`.
    pub open spec fn lists_visible(self, r: Seq<&PullRequest>, query: Seq<char>, sort: SortState, filter: FilterPreset, now: int) -> bool {
        let order = self.visible_order(query, sort, filter, now);
        &&& r.len() == order.len()
        &&& forall|i: int| 0 <= i < r.len() ==> order[i] < self.prs@.len() && *#[trigger] r[i] == self.prs@[order[i] as int]
    }
}

/// State of one tab: its pull requests, the cursor, the fetched details and
/// the marked rows.
pub struct TabState {
    pub prs: Vec<PullRequest>,
    pub selected: usize,
    pub details_cache: PrTable<PrDetails>,
    pub failed_details: PrTable<()>,
    pub loading: bool,
    pub loading_detail: bool,
    pub selected_set: HashSet<usize>,
}

impl Default for TabState {
    fn default() -> (r: Self)
        ensures
            r.prs@.len() == 0,
            r.selected == 0,
            r.details_cache.map().is_empty(),
            r.failed_details.map().is_empty(),
            !r.loading,
            !r.loading_detail,
            r.selected_set@.is_empty(),
    {
        TabState {
            prs: Vec::new(),
            selected: 0,
            details_cache: PrTable::new(),
            failed_details: PrTable::new(),
            loading: false,
            loading_detail: false,
            selected_set: HashSet::new(),
        }
    }
}

pub(crate) proof fn lemma_shown_positions_bounded(prs: Seq<PullRequest>, cache: Map<Key, PrDetails>, query: Seq<char>, filter: FilterPreset)
    ensures
        forall|i: int| 0 <= i < shown_positions(prs, cache, query, filter).len()
            ==> #[trigger] shown_positions(prs, cache, query, filter)[i] < prs.len(),
    decreases prs.len(),
{
    if prs.len() > 0 {
        lemma_shown_positions_bounded(prs.drop_last(), cache, query, filter);
        let front = shown_positions(prs.drop_last(), cache, query, filter);
        assert forall|i: int| 0 <= i < front.len() implies #[trigger] front[i] < prs.len() by {
            assert(front[i] < prs.drop_last().len());
        }
    }
}

impl TabState {
    /// Where `pr` stands, from the details fetched for it (see `status_of`).
    pub fn pr_status(&self, pr: &PullRequest) -> (r: PrStatus)
        ensures
            r == status_of(self.details_cache.map(), *pr),
    {
        if pr.is_draft {
            return PrStatus::Draft;
        }
        let d = match self.details_cache.get(pr.repository.name_with_owner.as_str(), pr.number) {
            Some(d) => d,
            None => {
                return PrStatus::InProgress;
            },
        };
        let ci_fail = d.ci_status == CiStatus::Fail;
        let reviewers = analyze_reviewers(d, pr.author.login.as_str());
        let changes = has_active_changes(reviewers.as_slice());
        proof {
            let m = reviewer_standing(*d, pr.author.login@);
            if changes {
                let i = choose|i: int| 0 <= i < reviewers@.len() && #[trigger] reviewers@[i].status == ReviewStatus::ChangesRequested;
                assert(m.contains_key(reviewers@[i].login@));
            }
            if changes_requested(m) {
                let k = choose|k: Seq<char>| #[trigger] m.contains_key(k) && m[k] == ReviewStatus::ChangesRequested;
                let i = choose|i: int| 0 <= i < reviewers@.len() && reviewers@[i].login@ == k;
                assert(reviewers@[i].status == ReviewStatus::ChangesRequested);
            }
        }
        if ci_fail || changes {
            return PrStatus::NeedsWork;
        }
        let approved = match &d.review_decision {
            Some(s) => same_text(s.as_str(), "APPROVED"),
            None => false,
        } && d.ci_status == CiStatus::Pass;
        if approved {
            PrStatus::Ready
        } else {
            PrStatus::InProgress
        }
    }

    fn is_shown(&self, pr: &PullRequest, query: &str, filter: FilterPreset) -> (r: bool)
        ensures
            r == shown(self.details_cache.map(), *pr, query@, filter),
    {
        let text_ok = query.is_empty() || matches_query(pr, query);
        if !text_ok {
            return false;
        }
        let st = self.pr_status(pr);
        match filter {
            FilterPreset::All => true,
            FilterPreset::Ready => st == PrStatus::Ready,
            FilterPreset::NeedsReview => st == PrStatus::InProgress,
            FilterPreset::NeedsWork => st == PrStatus::NeedsWork,
            FilterPreset::Draft => st == PrStatus::Draft,
        }
    }

    fn shown_list(&self, query: &str, filter: FilterPreset) -> (r: Vec<usize>)
        ensures
            r@ == shown_positions(self.prs@, self.details_cache.map(), query@, filter),
    {
        let mut out: Vec<usize> = Vec::new();
        let mut i: usize = 0;
        while i < self.prs.len()
            invariant
                i <= self.prs@.len(),
                out@ == shown_positions(self.prs@.take(i as int), self.details_cache.map(), query@, filter),
            decreases self.prs@.len() - i,
        {
            proof {
                assert(self.prs@.take(i + 1).drop_last() =~= self.prs@.take(i as int));
            }
            if self.is_shown(&self.prs[i], query, filter) {
                out.push(i);
            }
            i = i + 1;
        }
        proof {
            assert(self.prs@.take(self.prs@.len() as int) =~= self.prs@);
        }
        out
    }

    /// Number of pull requests the list shows.
    pub fn visible_count(&self, query: &str, filter: FilterPreset) -> (r: usize)
        ensures
            r == self.visible_len(query@, filter),
    {
        self.shown_list(query, filter).len()
    }

    fn sort_value_of(&self, pr: &PullRequest, key: SortKey, now: i64) -> (r: i64)
        ensures
            r == sort_value(self.details_cache.map(), *pr, key, now as int),
    {
        let d = self.details_cache.get(pr.repository.name_with_owner.as_str(), pr.number);
        match key {
            SortKey::Default => 0,
            SortKey::Age => pr.created_at,
            SortKey::Size => match d {
                Some(d) => (d.additions as u64 + d.deletions as u64) as i64,
                None => 0,
            },
            SortKey::Reviews => match d {
                Some(d) => d.reviews.len() as i64,
                None => 0,
            },
            SortKey::Priority => priority_at(pr, d, now) as i64,
        }
    }

    /// The list shown when the clock reads `now` (the clock matters only for
    /// the priority order).
    pub fn visible_prs_at(&self, query: &str, sort: &SortState, filter: FilterPreset, now: i64) -> (r: Vec<&PullRequest>)
        ensures
            self.lists_visible(r@, query@, *sort, filter, now as int),
    {
        let pos = self.shown_list(query, filter);
        proof {
            lemma_shown_positions_bounded(self.prs@, self.details_cache.map(), query@, filter);
        }
        let ghost cache = self.details_cache.map();
        let order: Vec<usize> = if sort.key == SortKey::Default {
            pos
        } else {
            let mut keyed: Vec<(i64, usize)> = Vec::new();
            let mut i: usize = 0;
            while i < pos.len()
                invariant
                    i <= pos@.len(),
                    forall|j: int| 0 <= j < pos@.len() ==> pos@[j] < self.prs@.len(),
                    keyed@ == keyed_positions(self.prs@, cache, pos@, sort.key, now as int).take(i as int),
                    cache == self.details_cache.map(),
                decreases pos@.len() - i,
            {
                let p = pos[i];
                let v = self.sort_value_of(&self.prs[p], sort.key, now);
                keyed.push((v, p));
                proof {
                    assert(keyed@ =~= keyed_positions(self.prs@, cache, pos@, sort.key, now as int).take(i + 1));
                }
                i = i + 1;
            }
            proof {
                assert(keyed@ =~= keyed_positions(self.prs@, cache, pos@, sort.key, now as int));
            }
            let sorted = sort_stable(keyed);
            let mut seconds: Vec<usize> = Vec::new();
            let mut k: usize = 0;
            while k < sorted.len()
                invariant
                    k <= sorted@.len(),
                    seconds@ == sorted@.take(k as int).map_values(|p: (i64, usize)| p.1),
                decreases sorted@.len() - k,
            {
                seconds.push(sorted[k].1);
                proof {
                    assert(seconds@ =~= sorted@.take(k + 1).map_values(|p: (i64, usize)| p.1));
                }
                k = k + 1;
            }
            proof {
                assert(sorted@.take(sorted@.len() as int) =~= sorted@);
            }
            if sort.dir == SortDir::Desc {
                let mut rev: Vec<usize> = Vec::new();
                let mut m: usize = seconds.len();
                while m > 0
                    invariant
                        m <= seconds@.len(),
                        rev@ == seconds@.reverse().take(seconds@.len() - m),
                    decreases m,
                {
                    m = m - 1;
                    rev.push(seconds[m]);
                    proof {
                        assert(rev@ =~= seconds@.reverse().take(seconds@.len() - m));
                    }
                }
                proof {
                    assert(rev@ =~= seconds@.reverse());
                }
                rev
            } else {
                seconds
            }
        };
        let ghost want = self.visible_order(query@, *sort, filter, now as int);
        assert(order@ == want);
        proof {
            self.lemma_visible_order_bounded(query@, *sort, filter, now as int);
        }
        let mut out: Vec<&PullRequest> = Vec::new();
        let mut j: usize = 0;
        while j < order.len()
            invariant
                j <= order@.len(),
                order@ == want,
                forall|t: int| 0 <= t < order@.len() ==> order@[t] < self.prs@.len(),
                out@.len() == j,
                forall|t: int| 0 <= t < j ==> *out@[t] == self.prs@[order@[t] as int],
            decreases order@.len() - j,
        {
            out.push(&self.prs[order[j]]);
            j = j + 1;
        }
        out
    }

    /// Every position of the shown list is a position of `prs`.
    pub proof fn lemma_visible_order_bounded(self, query: Seq<char>, sort: SortState, filter: FilterPreset, now: int)
        ensures
            forall|t: int| 0 <= t < self.visible_order(query, sort, filter, now).len()
                ==> #[trigger] self.visible_order(query, sort, filter, now)[t] < self.prs@.len(),
    {
        let cache = self.details_cache.map();
        let pos = shown_positions(self.prs@, cache, query, filter);
        lemma_shown_positions_bounded(self.prs@, cache, query, filter);
        if sort.key != SortKey::Default {
            let keyed = keyed_positions(self.prs@, cache, pos, sort.key, now);
            let sorted = stable_sorted(keyed);
            crate::sorting::lemma_stable_sorted_permutes(keyed);
            crate::sorting::lemma_stable_sorted_len(keyed);
            let seconds = sorted.map_values(|p: (i64, usize)| p.1);
            assert forall|t: int| 0 <= t < seconds.len() implies seconds[t] < self.prs@.len() by {
                broadcast use vstd::seq_lib::group_to_multiset_ensures;
                assert(sorted.contains(sorted[t]));
                assert(sorted.to_multiset().count(sorted[t]) > 0);
                assert(keyed.to_multiset().count(sorted[t]) > 0);
                assert(keyed.contains(sorted[t]));
                let u = choose|u: int| 0 <= u < keyed.len() && keyed[u] == sorted[t];
                assert(keyed[u].1 == pos[u]);
            }
            if sort.dir == SortDir::Desc {
                assert forall|t: int| 0 <= t < seconds.reverse().len() implies seconds.reverse()[t] < self.prs@.len() by {
                    assert(seconds.reverse()[t] == seconds[seconds.len() - 1 - t]);
                }
            }
        }
    }

    /// The list shown now: matching pull requests, ordered as `sort` says.
    /// The clock is read once, for the priority order.
    pub fn visible_prs(&self, query: &str, sort: &SortState, filter: FilterPreset) -> (r: Vec<&PullRequest>)
        ensures
            exists|now: i64| self.lists_visible(r@, query@, *sort, filter, now as int),
    {
        let now = if sort.key == SortKey::Priority {
            now_timestamp()
        } else {
            0
        };
        self.visible_prs_at(query, sort, filter, now)
    }

    /// The pull request under the cursor, if the cursor is on the list.
    pub fn selected_pr(&self, query: &str, sort: &SortState, filter: FilterPreset) -> (r: Option<&PullRequest>)
        ensures
            exists|now: i64| {
                let order = #[trigger] self.visible_order(query@, *sort, filter, now as int);
                match r {
                    Some(p) => self.selected < order.len() && order[self.selected as int] < self.prs@.len()
                        && *p == self.prs@[order[self.selected as int] as int],
                    None => self.selected >= order.len(),
                }
            },
    {
        let visible = self.visible_prs(query, sort, filter);
        if self.selected < visible.len() {
            Some(visible[self.selected])
        } else {
            None
        }
    }

    /// Moves the cursor up one row, unless it is on the first.
    pub fn move_up(&mut self)
        ensures
            *final(self) == (TabState { selected: old(self).up_target(), ..*old(self) }),
    {
        if self.selected > 0 {
            self.selected = self.selected - 1;
        }
    }

    /// Moves the cursor down one row, unless it is on the last.
    pub fn move_down(&mut self, query: &str, sort: &SortState, filter: FilterPreset)
        ensures
            *final(self) == (TabState { selected: old(self).down_target(query@, filter), ..*old(self) }),
    {
        let count = self.visible_count(query, filter);
        if count > 0 && self.selected < count - 1 {
            self.selected = self.selected + 1;
        }
    }

    /// Puts the cursor on the first row.
    pub fn go_to_first(&mut self)
        ensures
            *final(self) == (TabState { selected: 0, ..*old(self) }),
    {
        self.selected = 0;
    }

    /// Puts the cursor on the last row, if there is one.
    pub fn go_to_last(&mut self, query: &str, sort: &SortState, filter: FilterPreset)
        ensures
            *final(self) == (TabState { selected: old(self).last_target(query@, filter), ..*old(self) }),
    {
        let count = self.visible_count(query, filter);
        if count > 0 {
            self.selected = count - 1;
        }
    }

    /// Marks row `idx`, or unmarks it if it was marked.
    pub fn toggle_selection(&mut self, idx: usize)
        ensures
            final(self).selected_set@ == if old(self).selected_set@.contains(idx) {
                old(self).selected_set@.remove(idx)
            } else {
                old(self).selected_set@.insert(idx)
            },
            *final(self) == (TabState { selected_set: final(self).selected_set, ..*old(self) }),
    {
        if !self.selected_set.remove(&idx) {
            self.selected_set.insert(idx);
        }
    }

    /// Marks rows `0..count`, or unmarks all when exactly `count` rows are marked.
    pub fn select_all_visible(&mut self, count: usize)
        ensures
            old(self).selected_set@.len() == count ==> final(self).selected_set@ == Set::<usize>::empty(),
            old(self).selected_set@.len() != count ==> final(self).selected_set@ == Set::new(|i: usize| i < count),
            *final(self) == (TabState { selected_set: final(self).selected_set, ..*old(self) }),
    {
        if self.selected_set.len() == count {
            self.selected_set.clear();
        } else {
            let mut all: HashSet<usize> = HashSet::new();
            let mut i: usize = 0;
            while i < count
                invariant
                    i <= count,
                    all@ == Set::new(|j: usize| j < i),
                decreases count - i,
            {
                all.insert(i);
                proof {
                    assert(all@ =~= Set::new(|j: usize| j < i + 1));
                }
                i = i + 1;
            }
            proof {
                assert(all@ =~= Set::new(|j: usize| j < count));
            }
            self.selected_set = all;
        }
    }

    /// Unmarks every row.
    pub fn clear_selection(&mut self)
        ensures
            final(self).selected_set@ == Set::<usize>::empty(),
            *final(self) == (TabState { selected_set: final(self).selected_set, ..*old(self) }),
    {
        self.selected_set.clear();
    }

    /// Whether some row is marked.
    pub fn has_selection(&self) -> (r: bool)
        ensures
            r == !self.selected_set@.is_empty(),
    {
        !self.selected_set.is_empty()
    }
}

/// `new` is `old` with the cursor on the first row and no row marked.
pub open spec fn tab_reset(old: TabState, new: TabState) -> bool {
    &&& new == TabState { selected: 0, selected_set: new.selected_set, ..old }
    &&& new.selected_set@.is_empty()
}

/// The whole state of the client.
pub struct AppState {
    pub tabs: [TabState; 5],
    pub active_tab: usize,
    pub last_refresh: Option<i64>,
    pub error: Option<String>,
    pub search_mode: bool,
    pub search_query: String,
    pub pending_g: bool,
    pub sort: SortState,
    pub filter: FilterPreset,
    pub show_help: bool,
    pub snooze_mode: bool,
    pub local_state: LocalState,
}

fn loading_tab() -> (r: TabState)
    ensures
        r.prs@.len() == 0,
        r.selected == 0,
        r.details_cache.map().is_empty(),
        r.failed_details.map().is_empty(),
        r.loading,
        !r.loading_detail,
        r.selected_set@.is_empty(),
{
    TabState { loading: true, ..TabState::default() }
}

impl Default for AppState {
    /// Every tab loading and empty, the first tab active, no search, no
    /// order, no filter, no overlay, nothing marked.
    fn default() -> (r: Self)
        ensures
            forall|i: int| 0 <= i < 5 ==> {
                let t = #[trigger] r.tabs@[i];
                &&& t.prs@.len() == 0
                &&& t.selected == 0
                &&& t.details_cache.map().is_empty()
                &&& t.failed_details.map().is_empty()
                &&& t.loading
                &&& !t.loading_detail
                &&& t.selected_set@.is_empty()
            },
            r.active_tab == 0,
            r.last_refresh is None,
            r.error is None,
            !r.search_mode,
            r.search_query@.len() == 0,
            !r.pending_g,
            r.sort == (SortState { key: SortKey::Default, dir: SortDir::Asc }),
            r.filter == FilterPreset::All,
            !r.show_help,
            !r.snooze_mode,
            r.local_state.done.map().is_empty(),
            r.local_state.snoozed.map().is_empty(),
            r.local_state.pinned.map().is_empty(),
            r.local_state.read.map().is_empty(),
    {
        AppState {
            tabs: [loading_tab(), loading_tab(), loading_tab(), loading_tab(), loading_tab()],
            active_tab: 0,
            last_refresh: None,
            error: None,
            search_mode: false,
            search_query: String::new(),
            pending_g: false,
            sort: SortState::default(),
            filter: FilterPreset::All,
            show_help: false,
            snooze_mode: false,
            local_state: LocalState::default(),
        }
    }
}

/// The decimal text of `n`, without leading zeros.
pub open spec fn decimal_text(n: nat) -> Seq<char>
    decreases n,
{
    let d = ((n % 10) + 48) as char;
    if n < 10 {
        seq![d]
    } else {
        decimal_text(n / 10).push(d)
    }
}

/// The decimal digit `d` as text.
fn digit_text(d: u64) -> (r: &'static str)
    requires
        d < 10,
    ensures
        r@ == seq![((d as nat % 10) + 48) as char],
{
    proof {
        reveal_strlit("0");
        reveal_strlit("1");
        reveal_strlit("2");
        reveal_strlit("3");
        reveal_strlit("4");
        reveal_strlit("5");
        reveal_strlit("6");
        reveal_strlit("7");
        reveal_strlit("8");
        reveal_strlit("9");
    }
    if d == 0 {
        "0"
    } else if d == 1 {
        "1"
    } else if d == 2 {
        "2"
    } else if d == 3 {
        "3"
    } else if d == 4 {
        "4"
    } else if d == 5 {
        "5"
    } else if d == 6 {
        "6"
    } else if d == 7 {
        "7"
    } else if d == 8 {
        "8"
    } else {
        "9"
    }
}

/// `n` written in decimal.
pub(crate) fn decimal_u64(n: u64) -> (r: String)
    ensures
        r@ == decimal_text(n as nat),
    decreases n,
{
    let d = digit_text(n % 10);
    if n < 10 {
        String::from_str(d)
    } else {
        let front = decimal_u64(n / 10);
        let r = front.concat(d);
        assert(r@ =~= decimal_text(n as nat));
        r
    }
}

/// `n` written in decimal.
pub(crate) fn decimal(n: usize) -> (r: String)
    ensures
        r@ == decimal_text(n as nat),
{
    decimal_u64(n as u64)
}

impl AppState {
    /// The tab `i` as a value.
    pub open spec fn tab(self, i: int) -> TabState {
        self.tabs@[i]
    }

    /// The active tab as a value.
    pub open spec fn current(self) -> TabState {
        self.tabs@[self.active_tab as int]
    }

    pub fn active_tab_state(&self) -> (r: &TabState)
        requires
            self.active_tab < 5,
        ensures
            *r == self.current(),
    {
        &self.tabs[self.active_tab]
    }

    pub fn active_tab_state_mut(&mut self) -> (r: &mut TabState)
        requires
            old(self).active_tab < 5,
        ensures
            *r == old(self).current(),
            *final(self) == (AppState { tabs: final(self).tabs, ..*old(self) }),
            final(self).tabs@ == old(self).tabs@.update(old(self).active_tab as int, *final(r)),
    {
        &mut self.tabs[self.active_tab]
    }

    /// Leaves search: no search mode, empty search text, and the active tab
    /// back on its first row with nothing marked.
    pub fn reset_search(&mut self)
        requires
            old(self).active_tab < 5,
        ensures
            *final(self) == (AppState {
                tabs: final(self).tabs,
                search_mode: false,
                search_query: final(self).search_query,
                ..*old(self)
            }),
            final(self).search_query@.len() == 0,
            final(self).tabs@ == old(self).tabs@.update(old(self).active_tab as int, final(self).current()),
            tab_reset(old(self).current(), final(self).current()),
    {
        self.search_mode = false;
        self.search_query = String::new();
        let t = self.active_tab_state_mut();
        t.selected = 0;
        t.clear_selection();
    }

    /// Activates the next tab (after the last comes the first) and leaves search.
    pub fn next_tab(&mut self)
        requires
            old(self).active_tab < 5,
        ensures
            final(self).active_tab == (old(self).active_tab + 1) % 5,
            *final(self) == (AppState {
                tabs: final(self).tabs,
                active_tab: final(self).active_tab,
                search_mode: false,
                search_query: final(self).search_query,
                ..*old(self)
            }),
            final(self).search_query@.len() == 0,
            final(self).tabs@ == old(self).tabs@.update(final(self).active_tab as int, final(self).current()),
            tab_reset(old(self).tab(final(self).active_tab as int), final(self).current()),
    {
        self.active_tab = (self.active_tab + 1) % 5;
        self.reset_search();
    }

    /// Activates the previous tab (before the first comes the last) and leaves search.
    pub fn prev_tab(&mut self)
        requires
            old(self).active_tab < 5,
        ensures
            final(self).active_tab == (old(self).active_tab + 4) % 5,
            *final(self) == (AppState {
                tabs: final(self).tabs,
                active_tab: final(self).active_tab,
                search_mode: false,
                search_query: final(self).search_query,
                ..*old(self)
            }),
            final(self).search_query@.len() == 0,
            final(self).tabs@ == old(self).tabs@.update(final(self).active_tab as int, final(self).current()),
            tab_reset(old(self).tab(final(self).active_tab as int), final(self).current()),
    {
        self.active_tab = (self.active_tab + 4) % 5;
        self.reset_search();
    }

    /// The title of tab `idx`: its name, followed by the number of its pull
    /// requests in brackets when it has any.
    pub fn tab_label(&self, idx: usize) -> (r: String)
        requires
            idx < 5,
        ensures
            r@ == if self.tab(idx as int).prs@.len() > 0 {
                Tab::of_index(idx as int).label_text() + " ("@ + decimal_text(self.tab(idx as int).prs@.len()) + ")"@
            } else {
                Tab::of_index(idx as int).label_text()
            },
    {
        let tab = Tab::from(idx);
        let count = self.tabs[idx].prs.len();
        if count > 0 {
            String::from_str(tab.label()).concat(" (").concat(decimal(count).as_str()).concat(")")
        } else {
            String::from_str(tab.label())
        }
    }
}

} // verus!
