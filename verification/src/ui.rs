//! What the screen shows, decided apart from drawing it: labels, badges,
//! tones, widths and texts of the tabs, the list, the detail panel and the bars.
use vstd::prelude::*;
use crate::app::{decimal, decimal_text, decimal_u64, AppState, FilterPreset, SortDir, SortKey, Tab, TabState};
use crate::clock::{elapsed_secs, now_timestamp, seconds_between};
use crate::gh::{CheckRun, CiStatus, PrDetails};
use crate::review::{count_status, ReviewStatus, ReviewerEntry};
use crate::text::{same_text, to_uppercase, uppercase_text};

verus! {

broadcast use vstd::std_specs::hash::group_hash_axioms;

/// The colour and weight a piece of text is drawn in.
#[derive(Clone, Copy, Debug, PartialEq, Eq, Structural)]
pub enum Tone {
    TabActive,
    TabInactive,
    SelectedRow,
    NormalRow,
    UnreadRow,
    Header,
    Dim,
    AgeOld,
    AgeMedium,
    AgeFresh,
    Additions,
    Deletions,
    Error,
    CiPass,
    CiFail,
    CiPending,
}

/// The symbols drawn beside items.
#[derive(Clone, Copy, Debug, PartialEq, Eq, Structural)]
pub enum Icon {
    Check,
    Cross,
    Clock,
    Comment,
    Dash,
    Draft,
}

/// Tone of a priority score: above 70 good, above 40 middling, else poor.
pub open spec fn score_tone_of(score: int) -> Tone {
    if score > 70 {
        Tone::CiPass
    } else if score > 40 {
        Tone::CiPending
    } else {
        Tone::CiFail
    }
}

/// The tone of a priority score (see `score_tone_of`).
pub fn score_tone(score: u32) -> (r: Tone)
    ensures
        r == score_tone_of(score as int),
{
    if score > 70 {
        Tone::CiPass
    } else if score > 40 {
        Tone::CiPending
    } else {
        Tone::CiFail
    }
}

/// Tone of an age: older than a week, older than two days, or fresh.
pub open spec fn age_tone_of(secs: int) -> Tone {
    if secs > 7 * 24 * 3600 {
        Tone::AgeOld
    } else if secs > 2 * 24 * 3600 {
        Tone::AgeMedium
    } else {
        Tone::AgeFresh
    }
}

/// Human-readable text of a duration of `secs` seconds, as `humantime`
/// writes it (`2days 3h 4m`); a function of the number alone.
pub uninterp spec fn duration_text(secs: nat) -> Seq<char>;

/// First whitespace-separated word of a text, if any (`str::split_whitespace`).
pub uninterp spec fn first_word(s: Seq<char>) -> Option<Seq<char>>;

/// Trusted: `humantime::format_duration` of a whole number of seconds,
/// written out with `Display`. The text is named `duration_text`; its form
/// (units, plurals) is left unsaid.
#[verifier::external_body]
pub(crate) fn format_secs(secs: u64) -> (r: String)
    ensures
        r@ == duration_text(secs as nat),
{
    humantime::format_duration(std::time::Duration::from_secs(secs)).to_string()
}

/// Trusted: `str::split_whitespace` followed by `next`, the word copied into
/// a `String`. The word is named `first_word`.
#[verifier::external_body]
pub(crate) fn first_word_of(s: &str) -> (r: Option<String>)
    ensures
        match r {
            Some(w) => first_word(s@) == Some(w@),
            None => first_word(s@) is None,
        },
{
    s.split_whitespace().next().map(|w| w.to_string())
}

/// The short age shown in the list (the first unit of the duration, `?`
/// when there is none) and its tone, `secs` seconds after opening.
pub fn short_age(secs: u64) -> (r: (String, Tone))
    ensures
        r.0@ == match first_word(duration_text(secs as nat)) {
            Some(w) => w,
            None => "?"@,
        },
        r.1 == age_tone_of(secs as int),
{
    let full = format_secs(secs);
    let short = match first_word_of(full.as_str()) {
        Some(w) => w,
        None => String::from_str("?"),
    };
    let tone = if secs > 7 * 24 * 3600 {
        Tone::AgeOld
    } else if secs > 2 * 24 * 3600 {
        Tone::AgeMedium
    } else {
        Tone::AgeFresh
    };
    (short, tone)
}

/// The short age of something opened at `created_at`, read against the clock.
pub fn format_age(created_at: i64) -> (r: (String, Tone))
    ensures
        exists|now: i64| {
            let secs = #[trigger] seconds_between(now as int, created_at as int);
            &&& r.0@ == match first_word(duration_text(secs as nat)) {
                Some(w) => w,
                None => "?"@,
            }
            &&& r.1 == age_tone_of(secs)
        },
{
    let now = now_timestamp();
    short_age(elapsed_secs(now, created_at))
}

/// The full age of something dated `t`, read against the clock.
pub fn rel_age(t: i64) -> (r: String)
    ensures
        exists|now: i64| r@ == duration_text(seconds_between(now as int, t as int) as nat),
{
    let now = now_timestamp();
    format_secs(elapsed_secs(now, t))
}

// ---------------------------------------------------------------------------
// Detail panel

/// What the detail panel says of the review decision.
#[derive(Clone, Debug)]
pub enum DecisionLabel {
    /// Approved by this many participants.
    Approved(usize),
    ChangesRequested,
    ReviewRequired,
    ReReviewRequested,
    /// Approved by this many of the two participants needed.
    Partial(usize),
    /// Another decision, shown as it is.
    Other(String),
    Missing,
}

/// Some listed participant is in the given standing.
pub open spec fn any_status(s: Seq<ReviewerEntry>, st: ReviewStatus) -> bool {
    exists|i: int| 0 <= i < s.len() && #[trigger] s[i].status == st
}

/// The text of a review decision equals `lit`.
pub open spec fn decision_is(d: PrDetails, lit: Seq<char>) -> bool {
    d.review_decision matches Some(s) && s@ == lit
}

/// The decision shown for details `d` with participants `rs`: approved when
/// GitHub approved and no one is pending, or two approved, and no change
/// request stands; else changes requested when one stands; else by GitHub's
/// decision.
pub open spec fn decision_label_kind(d: PrDetails, rs: Seq<ReviewerEntry>) -> int {
    let n = count_status(rs, ReviewStatus::Approved);
    let active = any_status(rs, ReviewStatus::ChangesRequested);
    let pending = any_status(rs, ReviewStatus::Pending);
    let fully = decision_is(d, "APPROVED"@) && !pending;
    if (fully || n >= 2) && !active {
        0
    } else if active {
        1
    } else if decision_is(d, "APPROVED"@) && pending {
        2
    } else if decision_is(d, "CHANGES_REQUESTED"@) {
        3
    } else if decision_is(d, "REVIEW_REQUIRED"@) && n > 0 {
        4
    } else if decision_is(d, "REVIEW_REQUIRED"@) {
        2
    } else if d.review_decision is Some {
        5
    } else {
        6
    }
}

/// `label` is the decision label of kind `kind` (see `decision_label_kind`).
pub open spec fn label_matches(label: DecisionLabel, kind: int, d: PrDetails, rs: Seq<ReviewerEntry>) -> bool {
    let n = count_status(rs, ReviewStatus::Approved);
    match label {
        DecisionLabel::Approved(k) => kind == 0 && k == n,
        DecisionLabel::ChangesRequested => kind == 1,
        DecisionLabel::ReviewRequired => kind == 2,
        DecisionLabel::ReReviewRequested => kind == 3,
        DecisionLabel::Partial(k) => kind == 4 && k == n,
        DecisionLabel::Other(s) => kind == 5 && d.review_decision == Some(s),
        DecisionLabel::Missing => kind == 6,
    }
}

fn any_with(rs: &[ReviewerEntry], st: ReviewStatus) -> (r: bool)
    ensures
        r == any_status(rs@, st),
{
    let mut i: usize = 0;
    while i < rs.len()
        invariant
            i <= rs@.len(),
            forall|k: int| 0 <= k < i ==> rs@[k].status != st,
        decreases rs@.len() - i,
    {
        if rs[i].status == st {
            return true;
        }
        i = i + 1;
    }
    false
}

fn decision_equals(d: &PrDetails, lit: &str) -> (r: bool)
    ensures
        r == decision_is(*d, lit@),
{
    match &d.review_decision {
        Some(s) => same_text(s.as_str(), lit),
        None => false,
    }
}

/// The decision label of the detail panel (see `decision_label_kind`).
pub fn decision_label(d: &PrDetails, reviewers: &[ReviewerEntry]) -> (r: DecisionLabel)
    ensures
        label_matches(r, decision_label_kind(*d, reviewers@), *d, reviewers@),
{
    let n = crate::review::approved_count(reviewers);
    let active = any_with(reviewers, ReviewStatus::ChangesRequested);
    let pending = any_with(reviewers, ReviewStatus::Pending);
    let approved = decision_equals(d, "APPROVED");
    let fully = approved && !pending;
    if (fully || n >= 2) && !active {
        DecisionLabel::Approved(n)
    } else if active {
        DecisionLabel::ChangesRequested
    } else if approved && pending {
        DecisionLabel::ReviewRequired
    } else if decision_equals(d, "CHANGES_REQUESTED") {
        DecisionLabel::ReReviewRequested
    } else if decision_equals(d, "REVIEW_REQUIRED") && n > 0 {
        DecisionLabel::Partial(n)
    } else if decision_equals(d, "REVIEW_REQUIRED") {
        DecisionLabel::ReviewRequired
    } else {
        match &d.review_decision {
            Some(s) => DecisionLabel::Other(s.clone()),
            None => DecisionLabel::Missing,
        }
    }
}

/// A check passed (or was neutral or skipped).
pub open spec fn check_passed(c: CheckRun) -> bool {
    let u = uppercase_text(c.conclusion@);
    u == "SUCCESS"@ || u == "NEUTRAL"@ || u == "SKIPPED"@
}

/// A check failed (or was cancelled).
pub open spec fn check_failed(c: CheckRun) -> bool {
    let u = uppercase_text(c.conclusion@);
    u == "FAILURE"@ || u == "CANCELLED"@
}

/// Number of checks of `cs` that passed (`failed` false) or failed (`failed` true).
pub open spec fn count_checks(cs: Seq<CheckRun>, failed: bool) -> nat
    decreases cs.len(),
{
    if cs.len() == 0 {
        0
    } else {
        count_checks(cs.drop_last(), failed) + if (failed && check_failed(cs.last())) || (!failed && check_passed(
            cs.last(),
        )) {
            1nat
        } else {
            0nat
        }
    }
}

/// Names of the failed checks, in order.
pub open spec fn failed_names(cs: Seq<CheckRun>) -> Seq<Seq<char>>
    decreases cs.len(),
{
    if cs.len() == 0 {
        Seq::empty()
    } else if check_failed(cs.last()) {
        failed_names(cs.drop_last()).push(cs.last().name@)
    } else {
        failed_names(cs.drop_last())
    }
}

fn check_state(c: &CheckRun) -> (r: (bool, bool))
    ensures
        r.0 == check_passed(*c),
        r.1 == check_failed(*c),
{
    let u = to_uppercase(c.conclusion.as_str());
    let passed = same_text(u.as_str(), "SUCCESS") || same_text(u.as_str(), "NEUTRAL") || same_text(
        u.as_str(),
        "SKIPPED",
    );
    let failed = same_text(u.as_str(), "FAILURE") || same_text(u.as_str(), "CANCELLED");
    (passed, failed)
}

/// Counts of passed and failed checks.
pub fn check_counts(checks: &Vec<CheckRun>) -> (r: (usize, usize))
    ensures
        r.0 == count_checks(checks@, false),
        r.1 == count_checks(checks@, true),
{
    let mut passed: usize = 0;
    let mut failed: usize = 0;
    let mut i: usize = 0;
    while i < checks.len()
        invariant
            i <= checks@.len(),
            passed == count_checks(checks@.take(i as int), false),
            failed == count_checks(checks@.take(i as int), true),
            passed <= i,
            failed <= i,
        decreases checks@.len() - i,
    {
        proof {
            assert(checks@.take(i + 1).drop_last() =~= checks@.take(i as int));
        }
        let (p, f) = check_state(&checks[i]);
        if p {
            passed = passed + 1;
        }
        if f {
            failed = failed + 1;
        }
        i = i + 1;
    }
    proof {
        assert(checks@.take(i as int) =~= checks@);
    }
    (passed, failed)
}

/// Names of the failed checks, in order (the "Failed checks" list).
pub fn failed_check_names(checks: &Vec<CheckRun>) -> (r: Vec<String>)
    ensures
        r@.map_values(|s: String| s@) == failed_names(checks@),
{
    let mut names: Vec<String> = Vec::new();
    let mut i: usize = 0;
    while i < checks.len()
        invariant
            i <= checks@.len(),
            names@.map_values(|s: String| s@) == failed_names(checks@.take(i as int)),
        decreases checks@.len() - i,
    {
        proof {
            assert(checks@.take(i + 1).drop_last() =~= checks@.take(i as int));
        }
        let ghost before = names@;
        let (_, f) = check_state(&checks[i]);
        if f {
            names.push(checks[i].name.clone());
            proof {
                assert(names@.map_values(|s: String| s@) =~= before.map_values(|s: String| s@).push(checks@[i as int].name@));
            }
        }
        i = i + 1;
    }
    proof {
        assert(checks@.take(i as int) =~= checks@);
    }
    names
}

/// The CI line of the detail panel: its icon, tone and text.
pub open spec fn ci_line_of(d: PrDetails) -> (Icon, Tone, Seq<char>) {
    let p = count_checks(d.checks@, false);
    let f = count_checks(d.checks@, true);
    let t = d.checks@.len();
    if t == 0 {
        (Icon::Dash, Tone::Dim, Seq::empty())
    } else {
        match d.ci_status {
            CiStatus::Pass => (Icon::Check, Tone::CiPass, decimal_text(p) + "/"@ + decimal_text(t) + " passed"@),
            CiStatus::Fail => (Icon::Cross, Tone::CiFail, decimal_text(f) + " failed, "@ + decimal_text(p) + " passed"@),
            CiStatus::Pending => (
                Icon::Clock,
                Tone::CiPending,
                decimal_text(p) + "/"@ + decimal_text(t) + " passed, rest pending"@,
            ),
            CiStatus::NoChecks => (Icon::Dash, Tone::Dim, "none"@),
        }
    }
}

/// The CI line of the detail panel (see `ci_line_of`); without checks only
/// the dash is shown.
pub fn ci_line(d: &PrDetails) -> (r: (Icon, Tone, String))
    ensures
        (r.0, r.1, r.2@) == ci_line_of(*d),
{
    let total = d.checks.len();
    if total == 0 {
        return (Icon::Dash, Tone::Dim, String::new());
    }
    let (p, f) = check_counts(&d.checks);
    match d.ci_status {
        CiStatus::Pass => (
            Icon::Check,
            Tone::CiPass,
            decimal(p).concat("/").concat(decimal(total).as_str()).concat(" passed"),
        ),
        CiStatus::Fail => (
            Icon::Cross,
            Tone::CiFail,
            decimal(f).concat(" failed, ").concat(decimal(p).as_str()).concat(" passed"),
        ),
        CiStatus::Pending => (
            Icon::Clock,
            Tone::CiPending,
            decimal(p).concat("/").concat(decimal(total).as_str()).concat(" passed, rest pending"),
        ),
        CiStatus::NoChecks => (Icon::Dash, Tone::Dim, String::from_str("none")),
    }
}

/// The symbol and tone of a participant in the detail panel.
pub fn reviewer_mark(status: ReviewStatus) -> (r: (Icon, Tone))
    ensures
        r == match status {
            ReviewStatus::Approved => (Icon::Check, Tone::CiPass),
            ReviewStatus::ChangesRequested => (Icon::Cross, Tone::CiFail),
            ReviewStatus::Pending => (Icon::Comment, Tone::Dim),
        },
{
    match status {
        ReviewStatus::Approved => (Icon::Check, Tone::CiPass),
        ReviewStatus::ChangesRequested => (Icon::Cross, Tone::CiFail),
        ReviewStatus::Pending => (Icon::Comment, Tone::Dim),
    }
}

// ---------------------------------------------------------------------------
// List rows

/// What a row of the list shows of the reviews and the CI.
#[derive(Clone, Copy, Debug)]
pub struct RowBadges {
    /// Tone of the pull-request number.
    pub number_tone: Tone,
    /// A count with its symbol, or nothing.
    pub review: Option<(usize, Icon)>,
    pub review_tone: Tone,
    /// The CI symbol, or nothing.
    pub ci: Option<Icon>,
    pub ci_tone: Tone,
}

/// The badges of a row: with details, a standing change request shows the
/// number of them with a cross; an approval by GitHub with no one pending, or
/// two approvals, shows the approvals in good tone; any approval shows them
/// in middling tone; and the CI state shows its symbol. Without details the
/// row shows nothing.
pub open spec fn row_badges_of(d: Option<PrDetails>, rs: Seq<ReviewerEntry>) -> RowBadges {
    match d {
        None => RowBadges { number_tone: Tone::Dim, review: None, review_tone: Tone::Dim, ci: None, ci_tone: Tone::Dim },
        Some(d) => {
            let n = count_status(rs, ReviewStatus::Approved);
            let changes = count_status(rs, ReviewStatus::ChangesRequested);
            let pending = any_status(rs, ReviewStatus::Pending);
            let fully = decision_is(d, "APPROVED"@) && !pending;
            let (ci, ci_tone) = match d.ci_status {
                CiStatus::Pass => (Some(Icon::Check), Tone::CiPass),
                CiStatus::Fail => (Some(Icon::Cross), Tone::CiFail),
                CiStatus::Pending => (Some(Icon::Clock), Tone::CiPending),
                CiStatus::NoChecks => (None, Tone::Dim),
            };
            if any_status(rs, ReviewStatus::ChangesRequested) {
                RowBadges {
                    number_tone: Tone::CiFail,
                    review: Some((changes as usize, Icon::Cross)),
                    review_tone: Tone::CiFail,
                    ci,
                    ci_tone,
                }
            } else if fully || n >= 2 {
                RowBadges {
                    number_tone: Tone::CiPass,
                    review: Some((n as usize, Icon::Check)),
                    review_tone: Tone::CiPass,
                    ci,
                    ci_tone,
                }
            } else if n > 0 {
                RowBadges {
                    number_tone: Tone::CiPending,
                    review: Some((n as usize, Icon::Check)),
                    review_tone: Tone::CiPending,
                    ci,
                    ci_tone,
                }
            } else {
                RowBadges { number_tone: Tone::Dim, review: None, review_tone: Tone::Dim, ci, ci_tone }
            }
        },
    }
}

fn count_with(rs: &[ReviewerEntry], st: ReviewStatus) -> (r: usize)
    ensures
        r == count_status(rs@, st),
{
    let mut n: usize = 0;
    let mut i: usize = 0;
    while i < rs.len()
        invariant
            i <= rs@.len(),
            n == count_status(rs@.take(i as int), st),
            n <= i,
        decreases rs@.len() - i,
    {
        proof {
            assert(rs@.take(i + 1).drop_last() =~= rs@.take(i as int));
        }
        if rs[i].status == st {
            n = n + 1;
        }
        i = i + 1;
    }
    proof {
        assert(rs@.take(i as int) =~= rs@);
    }
    n
}

/// The badges of a row (see `row_badges_of`), given the participants of the details.
pub fn row_badges(details: Option<&PrDetails>, reviewers: &[ReviewerEntry]) -> (r: RowBadges)
    ensures
        r == row_badges_of(crate::score::known_details(details), reviewers@),
{
    match details {
        None => RowBadges { number_tone: Tone::Dim, review: None, review_tone: Tone::Dim, ci: None, ci_tone: Tone::Dim },
        Some(d) => {
            let n = count_with(reviewers, ReviewStatus::Approved);
            let changes = count_with(reviewers, ReviewStatus::ChangesRequested);
            let active = any_with(reviewers, ReviewStatus::ChangesRequested);
            let pending = any_with(reviewers, ReviewStatus::Pending);
            let fully = decision_equals(d, "APPROVED") && !pending;
            let (ci, ci_tone) = match d.ci_status {
                CiStatus::Pass => (Some(Icon::Check), Tone::CiPass),
                CiStatus::Fail => (Some(Icon::Cross), Tone::CiFail),
                CiStatus::Pending => (Some(Icon::Clock), Tone::CiPending),
                CiStatus::NoChecks => (None, Tone::Dim),
            };
            if active {
                RowBadges {
                    number_tone: Tone::CiFail,
                    review: Some((changes, Icon::Cross)),
                    review_tone: Tone::CiFail,
                    ci,
                    ci_tone,
                }
            } else if fully || n >= 2 {
                RowBadges { number_tone: Tone::CiPass, review: Some((n, Icon::Check)), review_tone: Tone::CiPass, ci, ci_tone }
            } else if n > 0 {
                RowBadges {
                    number_tone: Tone::CiPending,
                    review: Some((n, Icon::Check)),
                    review_tone: Tone::CiPending,
                    ci,
                    ci_tone,
                }
            } else {
                RowBadges { number_tone: Tone::Dim, review: None, review_tone: Tone::Dim, ci, ci_tone }
            }
        },
    }
}

/// Room left for the title: the inner width less the prefix, the draft mark
/// and the age column, each taken away without going below zero.
pub open spec fn title_width_of(inner: int, prefix: int, draft: int, age: int) -> int {
    let a = if inner > prefix {
        inner - prefix
    } else {
        0
    };
    let b = if a > draft {
        a - draft
    } else {
        0
    };
    if b > age {
        b - age
    } else {
        0
    }
}

/// Room left for the title (see `title_width_of`).
pub fn title_width(inner: usize, prefix: usize, draft: usize, age: usize) -> (r: usize)
    ensures
        r == title_width_of(inner as int, prefix as int, draft as int, age as int),
{
    inner.saturating_sub(prefix).saturating_sub(draft).saturating_sub(age)
}

/// The title cut to `width` characters and padded with spaces to `width`.
pub open spec fn fitted_title(title: Seq<char>, width: nat) -> Seq<char> {
    if title.len() >= width {
        title.take(width as int)
    } else {
        title + Seq::new((width - title.len()) as nat, |i: int| ' ')
    }
}

/// The title as the list shows it (see `fitted_title`).
pub fn fit_title(title: &str, width: usize) -> (r: String)
    ensures
        r@ == fitted_title(title@, width as nat),
{
    let n = title.unicode_len();
    if n >= width {
        String::from_str(title.substring_char(0, width))
    } else {
        let mut out = String::from_str(title);
        let mut k: usize = n;
        while k < width
            invariant
                n <= k <= width,
                n == title@.len(),
                out@ == title@ + Seq::new((k - n) as nat, |i: int| ' '),
            decreases width - k,
        {
            out.append(" ");
            proof {
                reveal_strlit(" ");
                assert(out@ =~= title@ + Seq::new((k + 1 - n) as nat, |i: int| ' '));
            }
            k = k + 1;
        }
        out
    }
}

/// Title of the list box: the tab's name, then "loading…" while loading,
/// else the number of marked rows when some are marked, else shown/total
/// when a filter or search is active.
pub open spec fn list_title_of(label: Seq<char>, loading: bool, marked: nat, narrowed: bool, shown: nat, total: nat) -> Seq<char> {
    if loading {
        " "@ + label + " — loading… "@
    } else if marked > 0 {
        " "@ + label + " ("@ + decimal_text(marked) + " selected) "@
    } else if narrowed {
        " "@ + label + " ("@ + decimal_text(shown) + "/"@ + decimal_text(total) + ") "@
    } else {
        " "@ + label + " "@
    }
}

/// Title of the list box (see `list_title_of`).
pub fn list_title(label: &str, loading: bool, marked: usize, narrowed: bool, shown: usize, total: usize) -> (r: String)
    ensures
        r@ == list_title_of(label@, loading, marked as nat, narrowed, shown as nat, total as nat),
{
    let start = String::from_str(" ").concat(label);
    if loading {
        start.concat(" — loading… ")
    } else if marked > 0 {
        start.concat(" (").concat(decimal(marked).as_str()).concat(" selected) ")
    } else if narrowed {
        start.concat(" (").concat(decimal(shown).as_str()).concat("/").concat(decimal(total).as_str()).concat(") ")
    } else {
        start.concat(" ")
    }
}

/// The title of the active tab's list box, from the state: the tab's name,
/// and what `list_title` adds (the list is narrowed when the filter is not
/// `All` or there is search text).
pub fn body_title(state: &AppState) -> (r: String)
    requires
        state.active_tab < 5,
    ensures
        r@ == list_title_of(
            Tab::of_index(state.active_tab as int).label_text(),
            state.current().loading,
            state.current().selected_set@.len(),
            state.filter != FilterPreset::All || state.search_query@.len() != 0,
            state.current().visible_len(state.search_query@, state.filter) as nat,
            state.current().prs@.len(),
        ),
{
    let tab = state.active_tab_state();
    let shown = tab.visible_count(state.search_query.as_str(), state.filter);
    let narrowed = state.filter != FilterPreset::All || !state.search_query.as_str().is_empty();
    list_title(
        Tab::from(state.active_tab).label(),
        tab.loading,
        tab.selected_set.len(),
        narrowed,
        shown,
        tab.prs.len(),
    )
}

/// The row the list highlights: none for an empty list, else the cursor.
pub fn highlighted_row(state: &AppState) -> (r: Option<usize>)
    requires
        state.active_tab < 5,
    ensures
        r == if state.current().visible_len(state.search_query@, state.filter) == 0 {
            None
        } else {
            Some(state.current().selected)
        },
{
    let n = state.active_tab_state().visible_count(state.search_query.as_str(), state.filter);
    if n == 0 {
        None
    } else {
        Some(state.active_tab_state().selected)
    }
}

// ---------------------------------------------------------------------------
// Bars

/// The dot before a filter's name in the filter bar, and its tone.
pub fn filter_dot(p: FilterPreset) -> (r: (&'static str, Tone))
    ensures
        r.0@ == match p {
            FilterPreset::All => ""@,
            FilterPreset::Ready => "● "@,
            FilterPreset::NeedsReview => "● "@,
            FilterPreset::NeedsWork => "● "@,
            FilterPreset::Draft => "○ "@,
        },
        r.1 == match p {
            FilterPreset::All => Tone::Dim,
            FilterPreset::Ready => Tone::CiPass,
            FilterPreset::NeedsReview => Tone::CiPending,
            FilterPreset::NeedsWork => Tone::CiFail,
            FilterPreset::Draft => Tone::Dim,
        },
{
    match p {
        FilterPreset::All => ("", Tone::Dim),
        FilterPreset::Ready => ("● ", Tone::CiPass),
        FilterPreset::NeedsReview => ("● ", Tone::CiPending),
        FilterPreset::NeedsWork => ("● ", Tone::CiFail),
        FilterPreset::Draft => ("○ ", Tone::Dim),
    }
}

/// The tone of a filter's name: bright for the active filter.
pub fn filter_label_tone(p: FilterPreset, active: FilterPreset) -> (r: Tone)
    ensures
        r == if p == active {
            Tone::TabActive
        } else {
            Tone::Dim
        },
{
    if p == active {
        Tone::TabActive
    } else {
        Tone::Dim
    }
}

/// The tone of a tab's title: bright for the active tab.
pub fn tab_title_tone(i: usize, active: usize) -> (r: Tone)
    ensures
        r == if i == active {
            Tone::TabActive
        } else {
            Tone::TabInactive
        },
{
    if i == active {
        Tone::TabActive
    } else {
        Tone::TabInactive
    }
}

/// Which extra bar shows above the footer: the snooze keys in snooze mode,
/// else the search bar while searching or when there is search text.
#[derive(Clone, Copy, Debug, PartialEq, Eq, Structural)]
pub enum ExtraBar {
    Snooze,
    Search,
    NoBar,
}

/// The extra bar shown (see `ExtraBar`).
pub fn extra_bar(state: &AppState) -> (r: ExtraBar)
    ensures
        r == if state.snooze_mode {
            ExtraBar::Snooze
        } else if state.search_mode || state.search_query@.len() != 0 {
            ExtraBar::Search
        } else {
            ExtraBar::NoBar
        },
{
    if state.snooze_mode {
        ExtraBar::Snooze
    } else if state.search_mode || !state.search_query.as_str().is_empty() {
        ExtraBar::Search
    } else {
        ExtraBar::NoBar
    }
}

/// The search bar: a slash, the search text, and a block cursor while typing.
pub fn search_bar_text(state: &AppState) -> (r: String)
    ensures
        r@ == "/"@ + state.search_query@ + if state.search_mode {
            "█"@
        } else {
            ""@
        },
{
    let s = String::from_str("/").concat(state.search_query.as_str());
    if state.search_mode {
        s.concat("█")
    } else {
        s.concat("")
    }
}

/// The decimal text of a signed number.
pub open spec fn signed_decimal_text(i: int) -> Seq<char> {
    if i < 0 {
        "-"@ + decimal_text((-i) as nat)
    } else {
        decimal_text(i as nat)
    }
}

/// `i` written in decimal, with a leading minus when negative.
pub(crate) fn signed_decimal(i: i64) -> (r: String)
    ensures
        r@ == signed_decimal_text(i as int),
{
    if i < 0 {
        let m = (0 - (i as i128)) as u64;
        let r = String::from_str("-").concat(decimal_u64(m).as_str());
        proof {
            reveal_strlit("-");
        }
        r
    } else {
        decimal_u64(i as u64)
    }
}

/// The footer: the keys of the current mode, the sort when there is one, and
/// how long ago the tabs were refreshed at time `now`.
pub open spec fn footer_text_of(state: AppState, now: int) -> Seq<char> {
    let refresh = match state.last_refresh {
        Some(t) => "  ⟳ "@ + signed_decimal_text(now - t) + "s ago"@,
        None => ""@,
    };
    let sort_info = if state.sort.key != SortKey::Default {
        "  · sort: "@ + state.sort.key.label_text() + " "@ + if state.sort.dir == SortDir::Asc {
            "↑"@
        } else {
            "↓"@
        }
    } else {
        ""@
    };
    let marked = state.current().selected_set@.len();
    if state.snooze_mode {
        " 1=1h  4=4h  t=tomorrow  w=next week  Esc cancel"@
    } else if state.search_mode {
        " Esc cancel  Enter confirm"@
    } else if marked > 0 {
        " v toggle  V all  Esc clear  o open ("@ + decimal_text(marked) + " selected)  ? help"@ + refresh
    } else {
        " q quit  o open  d done  z snooze  / search  f filter  s sort"@ + sort_info + "  ? help"@ + refresh
    }
}

/// The footer at time `now` (see `footer_text_of`).
pub fn footer_text_at(state: &AppState, now: i64) -> (r: String)
    requires
        state.active_tab < 5,
        crate::clock::in_clock_range(now as int),
        state.last_refresh matches Some(t) ==> crate::clock::in_clock_range(t as int),
    ensures
        r@ == footer_text_of(*state, now as int),
{
    let refresh = match state.last_refresh {
        Some(t) => String::from_str("  ⟳ ").concat(signed_decimal(now - t).as_str()).concat("s ago"),
        None => String::new(),
    };
    let sort_info = if state.sort.key != SortKey::Default {
        let arrow = if state.sort.dir == SortDir::Asc {
            "↑"
        } else {
            "↓"
        };
        String::from_str("  · sort: ").concat(state.sort.key.label()).concat(" ").concat(arrow)
    } else {
        String::new()
    };
    let marked = state.active_tab_state().selected_set.len();
    proof {
        reveal_strlit("");
        assert(""@ =~= Seq::<char>::empty());
    }
    if state.snooze_mode {
        String::from_str(" 1=1h  4=4h  t=tomorrow  w=next week  Esc cancel")
    } else if state.search_mode {
        String::from_str(" Esc cancel  Enter confirm")
    } else if marked > 0 {
        String::from_str(" v toggle  V all  Esc clear  o open (").concat(decimal(marked).as_str()).concat(
            " selected)  ? help",
        ).concat(refresh.as_str())
    } else {
        String::from_str(" q quit  o open  d done  z snooze  / search  f filter  s sort").concat(
            sort_info.as_str(),
        ).concat("  ? help").concat(refresh.as_str())
    }
}

/// The footer now: reads the clock once.
pub fn footer_text(state: &AppState) -> (r: String)
    requires
        state.active_tab < 5,
        state.last_refresh matches Some(t) ==> crate::clock::in_clock_range(t as int),
    ensures
        exists|now: i64| r@ == footer_text_of(*state, now as int),
{
    let now = now_timestamp();
    footer_text_at(state, now)
}

// ---------------------------------------------------------------------------
// Layout

/// A rectangle of the terminal, in cells.
#[derive(Clone, Copy, Debug, PartialEq, Eq, Structural)]
pub struct Area {
    pub x: u16,
    pub y: u16,
    pub width: u16,
    pub height: u16,
}

/// A rectangle at `(x, y)`, its size cut so that it ends within the
/// coordinate range (`Rect::new`).
pub open spec fn area_at(x: u16, y: u16, width: u16, height: u16) -> Area {
    Area {
        x,
        y,
        width: if width > u16::MAX - x {
            (u16::MAX - x) as u16
        } else {
            width
        },
        height: if height > u16::MAX - y {
            (u16::MAX - y) as u16
        } else {
            height
        },
    }
}

/// `a - b`, or 0 when `b` is larger.
pub open spec fn minus(a: int, b: int) -> int {
    if a > b {
        a - b
    } else {
        0
    }
}

/// Width and height of a popup of at most `width` by `height` inside `area`,
/// leaving two columns each side and a row above and below.
pub open spec fn popup_size(area: Area, width: u16, height: u16) -> (int, int) {
    let w = if width <= minus(area.width as int, 4) {
        width as int
    } else {
        minus(area.width as int, 4)
    };
    let h = if height <= minus(area.height as int, 2) {
        height as int
    } else {
        minus(area.height as int, 2)
    };
    (w, h)
}

/// A popup centred in `area` (see `popup_size`); its position is where
/// its corner falls when centred, rounding down.
pub open spec fn centered_in(area: Area, width: u16, height: u16) -> Area {
    let (w, h) = popup_size(area, width, height);
    area_at(
        (area.x + (area.width - w) / 2) as u16,
        (area.y + (area.height - h) / 2) as u16,
        w as u16,
        h as u16,
    )
}

/// A popup centred in `area` (see `centered_in`). The corner must lie within
/// the coordinate range.
pub fn centered_rect(area: Area, width: u16, height: u16) -> (r: Area)
    requires
        area.x + (area.width - popup_size(area, width, height).0) / 2 <= u16::MAX,
        area.y + (area.height - popup_size(area, width, height).1) / 2 <= u16::MAX,
    ensures
        r == centered_in(area, width, height),
{
    let w = if width <= area.width.saturating_sub(4) {
        width
    } else {
        area.width.saturating_sub(4)
    };
    let h = if height <= area.height.saturating_sub(2) {
        height
    } else {
        area.height.saturating_sub(2)
    };
    let x = area.x + (area.width.saturating_sub(w)) / 2;
    let y = area.y + (area.height.saturating_sub(h)) / 2;
    let max_w = u16::MAX - x;
    let max_h = u16::MAX - y;
    Area { x, y, width: if w > max_w {
        max_w
    } else {
        w
    }, height: if h > max_h {
        max_h
    } else {
        h
    } }
}

} // verus!
