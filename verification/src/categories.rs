//! Which pull requests each tab lists.
use vstd::prelude::*;
use crate::app::Tab;
use crate::gh::PullRequest;

verus! {

/// The `gh search prs` query of a tab: review requested from the user (for
/// the personal and team tabs), mentions, and assignment. The "Mine" tab
/// searches by author instead (`None`).
pub fn search_query(tab: Tab) -> (r: Option<&'static str>)
    ensures
        match tab {
            Tab::Personal => r matches Some(q) && q@ == "user-review-requested:@me"@,
            Tab::Team => r matches Some(q) && q@ == "review-requested:@me"@,
            Tab::Mentioned => r matches Some(q) && q@ == "mentions:@me"@,
            Tab::Assigned => r matches Some(q) && q@ == "assignee:@me"@,
            Tab::Mine => r is None,
        },
{
    match tab {
        Tab::Personal => Some("user-review-requested:@me"),
        Tab::Team => Some("review-requested:@me"),
        Tab::Mentioned => Some("mentions:@me"),
        Tab::Assigned => Some("assignee:@me"),
        Tab::Mine => None,
    }
}

/// Some pull request of `prs` has the number `n`.
pub open spec fn has_number(prs: Seq<PullRequest>, n: u64) -> bool {
    exists|j: int| 0 <= j < prs.len() && #[trigger] prs[j].number == n
}

/// The pull requests of `all` whose number is not one of `personal`, in order.
pub open spec fn team_requests(all: Seq<PullRequest>, personal: Seq<PullRequest>) -> Seq<PullRequest>
    decreases all.len(),
{
    if all.len() == 0 {
        Seq::empty()
    } else {
        let front = team_requests(all.drop_last(), personal);
        if has_number(personal, all.last().number) {
            front
        } else {
            front.push(all.last())
        }
    }
}

/// The team tab: review requests of the user's teams, that is all requests
/// less those made to the user personally (matched by number).
pub fn team_only(all: Vec<PullRequest>, personal: &Vec<PullRequest>) -> (r: Vec<PullRequest>)
    ensures
        r@ == team_requests(all@, personal@),
{
    let ghost s = all@;
    let mut input = all;
    let mut out: Vec<PullRequest> = Vec::new();
    let ghost mut i: int = 0;
    while input.len() > 0
        invariant
            0 <= i <= s.len(),
            input@ == s.skip(i),
            out@ == team_requests(s.take(i), personal@),
        decreases input@.len(),
    {
        let pr = input.remove(0);
        assert(pr == s[i]);
        let mut found = false;
        let mut j: usize = 0;
        while j < personal.len()
            invariant
                j <= personal@.len(),
                found == exists|k: int| 0 <= k < j && #[trigger] personal@[k].number == pr.number,
            decreases personal@.len() - j,
        {
            if personal[j].number == pr.number {
                found = true;
            }
            j = j + 1;
        }
        proof {
            assert(s.take(i + 1).drop_last() =~= s.take(i));
            assert(s.take(i + 1).last() == pr);
        }
        if !found {
            out.push(pr);
        }
        proof {
            assert(input@ =~= s.skip(i + 1));
            i = i + 1;
        }
    }
    assert(s.take(i) =~= s);
    out
}

} // verus!
