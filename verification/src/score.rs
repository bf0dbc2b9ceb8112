//! Priority score of a pull request, from 0 to 100.
use vstd::prelude::*;
use crate::clock::{elapsed_secs, now_timestamp, seconds_between};
use crate::gh::{CiStatus, PrDetails, PullRequest};
use crate::text::same_text;

verus! {

/// Points for how long ago the pull request was opened.
pub open spec fn age_points(secs: int) -> int {
    if secs > 7 * 86400 {
        25
    } else if secs > 3 * 86400 {
        15
    } else if secs > 86400 {
        8
    } else {
        0
    }
}

/// Points for recent activity.
pub open spec fn activity_points(secs: int) -> int {
    if secs < 3600 {
        5
    } else if secs < 86400 {
        3
    } else {
        0
    }
}

/// Points for the size of the change.
pub open spec fn size_points(lines: int) -> int {
    if lines > 1000 {
        15
    } else if lines > 500 {
        10
    } else if lines > 100 {
        5
    } else {
        0
    }
}

/// Points for the CI state.
pub open spec fn ci_points(ci: CiStatus) -> int {
    match ci {
        CiStatus::Pass => 20,
        CiStatus::Pending => 10,
        CiStatus::Fail | CiStatus::NoChecks => 0,
    }
}

/// Points for the review decision.
pub open spec fn decision_points(decision: Option<String>) -> int {
    match decision {
        Some(d) => if d@ == "APPROVED"@ {
            25
        } else if d@ == "CHANGES_REQUESTED"@ {
            15
        } else if d@ == "REVIEW_REQUIRED"@ {
            10
        } else {
            5
        },
        None => 5,
    }
}

/// Points that only the details can give.
pub open spec fn detail_points(d: PrDetails) -> int {
    size_points(d.additions + d.deletions) + ci_points(d.ci_status) + decision_points(d.review_decision)
}

/// The priority of `pr` at time `now`, knowing `details` if they were fetched.
pub open spec fn priority_score(pr: PullRequest, details: Option<PrDetails>, now: int) -> int {
    age_points(seconds_between(now, pr.created_at as int))
        + (if pr.is_draft {
        0int
    } else {
        10int
    }) + activity_points(seconds_between(now, pr.updated_at as int)) + match details {
        Some(d) => detail_points(d),
        None => 0,
    }
}

/// The details behind an optional reference.
pub open spec fn known_details(details: Option<&PrDetails>) -> Option<PrDetails> {
    match details {
        Some(d) => Some(*d),
        None => None,
    }
}

fn decision_value(decision: &Option<String>) -> (r: u32)
    ensures
        r == decision_points(*decision),
{
    match decision {
        Some(d) => {
            if same_text(d.as_str(), "APPROVED") {
                25
            } else if same_text(d.as_str(), "CHANGES_REQUESTED") {
                15
            } else if same_text(d.as_str(), "REVIEW_REQUIRED") {
                10
            } else {
                5
            }
        },
        None => 5,
    }
}

/// The priority of `pr` when the clock reads `now`.
pub fn priority_at(pr: &PullRequest, details: Option<&PrDetails>, now: i64) -> (r: u32)
    ensures
        r == priority_score(*pr, known_details(details), now as int),
        r <= 100,
{
    let mut score: u32 = 0;
    let age = elapsed_secs(now, pr.created_at);
    score = score + if age > 7 * 86400 {
        25
    } else if age > 3 * 86400 {
        15
    } else if age > 86400 {
        8
    } else {
        0
    };
    if !pr.is_draft {
        score = score + 10;
    }
    let activity = elapsed_secs(now, pr.updated_at);
    score = score + if activity < 3600 {
        5
    } else if activity < 86400 {
        3
    } else {
        0
    };
    match details {
        Some(d) => {
            let total: u64 = d.additions as u64 + d.deletions as u64;
            score = score + if total > 1000 {
                15
            } else if total > 500 {
                10
            } else if total > 100 {
                5
            } else {
                0
            };
            score = score + match d.ci_status {
                CiStatus::Pass => 20,
                CiStatus::Pending => 10,
                CiStatus::Fail | CiStatus::NoChecks => 0,
            };
            score = score + decision_value(&d.review_decision);
        },
        None => {},
    }
    score
}

/// The priority of `pr` now. The clock is read once; the score is the one of
/// `priority_at` for the time read.
pub fn compute_priority(pr: &PullRequest, details: Option<&PrDetails>) -> (r: u32)
    ensures
        exists|now: i64| r == priority_score(*pr, known_details(details), now as int),
        r <= 100,
{
    let now = now_timestamp();
    priority_at(pr, details, now)
}

/// No pull request scores above 100.
pub proof fn score_at_most_100(pr: PullRequest, details: Option<PrDetails>, now: int)
    ensures
        0 <= priority_score(pr, details, now) <= 100,
{
}

/// A pull request that is not a draft scores exactly 10 more than the same
/// pull request as a draft.
pub proof fn draft_scores_ten_less(pr: PullRequest, details: Option<PrDetails>, now: int)
    ensures
        priority_score(PullRequest { is_draft: false, ..pr }, details, now)
            == priority_score(PullRequest { is_draft: true, ..pr }, details, now) + 10,
{
}

/// Of two pull requests alike but for their opening time, the older one
/// (both opened no later than `now`) scores at least as much.
pub proof fn older_scores_no_lower(pr: PullRequest, older: i64, newer: i64, details: Option<PrDetails>, now: int)
    requires
        older <= newer <= now,
    ensures
        priority_score(PullRequest { created_at: older, ..pr }, details, now)
            >= priority_score(PullRequest { created_at: newer, ..pr }, details, now),
{
}

/// Passing CI scores 20 more than failing CI, other things equal.
pub proof fn ci_pass_beats_fail(pr: PullRequest, d: PrDetails, now: int)
    ensures
        priority_score(pr, Some(PrDetails { ci_status: CiStatus::Pass, ..d }), now)
            == priority_score(pr, Some(PrDetails { ci_status: CiStatus::Fail, ..d }), now) + 20,
{
}

/// An approved review decision scores more than any other decision, or none.
pub proof fn approval_scores_highest(pr: PullRequest, d: PrDetails, approved: String, other: Option<String>, now: int)
    requires
        approved@ == "APPROVED"@,
        other matches Some(o) ==> o@ != "APPROVED"@,
    ensures
        priority_score(pr, Some(PrDetails { review_decision: Some(approved), ..d }), now)
            > priority_score(pr, Some(PrDetails { review_decision: other, ..d }), now),
{
}

/// A larger change scores at least as much, other things equal.
pub proof fn larger_scores_no_lower(pr: PullRequest, d: PrDetails, small: u32, large: u32, now: int)
    requires
        small <= large,
    ensures
        priority_score(pr, Some(PrDetails { additions: large, ..d }), now)
            >= priority_score(pr, Some(PrDetails { additions: small, ..d }), now),
{
}

} // verus!
