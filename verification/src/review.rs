//! The standing of each participant of a pull request.
use vstd::prelude::*;
use crate::gh::{PrDetails, Review};
use crate::text::{chars_lt, lemma_chars_lt_total, lemma_chars_lt_transitive, lemma_chars_lt_irreflexive,
    same_text, str_precedes};

verus! {

/// Where a participant stands.
#[derive(Clone, Copy, Debug, PartialEq, Eq, Structural)]
pub enum ReviewStatus {
    Approved,
    ChangesRequested,
    Pending,
}

/// One participant and where they stand.
#[derive(Clone, Debug)]
pub struct ReviewerEntry {
    pub login: String,
    pub status: ReviewStatus,
}

/// `requested` lists `login`.
pub open spec fn is_requested(requested: Seq<String>, login: Seq<char>) -> bool {
    exists|i: int| 0 <= i < requested.len() && requested[i]@ == login
}

/// What one review says of its author's standing, if it says anything:
/// an approval approves; a change request stands unless the participant was asked
/// again, then they are pending; a dismissal makes them pending; a comment
/// says nothing.
pub open spec fn review_effect(state: Seq<char>, login: Seq<char>, requested: Seq<String>) -> Option<ReviewStatus> {
    if state == "APPROVED"@ {
        Some(ReviewStatus::Approved)
    } else if state == "CHANGES_REQUESTED"@ {
        if is_requested(requested, login) {
            Some(ReviewStatus::Pending)
        } else {
            Some(ReviewStatus::ChangesRequested)
        }
    } else if state == "DISMISSED"@ {
        Some(ReviewStatus::Pending)
    } else {
        None
    }
}

/// Standing of each participant after the reviews, in order: a review that says
/// something overrides what came before; one that says nothing makes an unknown
/// participant pending. The author's own reviews do not count.
pub open spec fn standing_after_reviews(reviews: Seq<Review>, author: Seq<char>, requested: Seq<String>) -> Map<Seq<char>, ReviewStatus>
    decreases reviews.len(),
{
    if reviews.len() == 0 {
        Map::empty()
    } else {
        let m = standing_after_reviews(reviews.drop_last(), author, requested);
        let r = reviews.last();
        let login = r.author.login@;
        if login == author {
            m
        } else {
            match review_effect(r.state@, login, requested) {
                Some(s) => m.insert(login, s),
                None => if m.contains_key(login) {
                    m
                } else {
                    m.insert(login, ReviewStatus::Pending)
                },
            }
        }
    }
}

/// Adds each requested participant other than the author, not yet known, as pending.
pub open spec fn add_requested(m: Map<Seq<char>, ReviewStatus>, requested: Seq<String>, author: Seq<char>) -> Map<Seq<char>, ReviewStatus>
    decreases requested.len(),
{
    if requested.len() == 0 {
        m
    } else {
        let m2 = add_requested(m, requested.drop_last(), author);
        let l = requested.last()@;
        if l != author && !m2.contains_key(l) {
            m2.insert(l, ReviewStatus::Pending)
        } else {
            m2
        }
    }
}

/// The standing of every participant of a pull request by `author`.
pub open spec fn reviewer_standing(details: PrDetails, author: Seq<char>) -> Map<Seq<char>, ReviewStatus> {
    add_requested(
        standing_after_reviews(details.reviews@, author, details.requested_reviewers@),
        details.requested_reviewers@,
        author,
    )
}

/// The entries are in strictly increasing order of login.
pub open spec fn sorted_by_login(s: Seq<ReviewerEntry>) -> bool {
    forall|i: int, j: int| 0 <= i < j < s.len() ==> chars_lt(#[trigger] s[i].login@, #[trigger] s[j].login@)
}

/// The entries list exactly the participants of `m`, each with its standing.
pub open spec fn lists_standing(s: Seq<ReviewerEntry>, m: Map<Seq<char>, ReviewStatus>) -> bool {
    &&& forall|i: int| 0 <= i < s.len() ==> m.contains_key(#[trigger] s[i].login@) && m[s[i].login@] == s[i].status
    &&& forall|k: Seq<char>| #[trigger] m.contains_key(k) ==> exists|i: int| 0 <= i < s.len() && s[i].login@ == k
}

/// Index of the entry for `login`, if any.
fn find_login(acc: &Vec<ReviewerEntry>, login: &str) -> (r: Option<usize>)
    ensures
        match r {
            Some(j) => j < acc@.len() && acc@[j as int].login@ == login@,
            None => forall|i: int| 0 <= i < acc@.len() ==> acc@[i].login@ != login@,
        },
{
    let mut i: usize = 0;
    while i < acc.len()
        invariant
            i <= acc@.len(),
            forall|k: int| 0 <= k < i ==> acc@[k].login@ != login@,
        decreases acc@.len() - i,
    {
        if same_text(acc[i].login.as_str(), login) {
            return Some(i);
        }
        i = i + 1;
    }
    None
}

/// Inserts a participant not yet listed at its place in login order.
fn insert_sorted(acc: &mut Vec<ReviewerEntry>, entry: ReviewerEntry) -> (pos: usize)
    requires
        sorted_by_login(old(acc)@),
        forall|i: int| 0 <= i < old(acc)@.len() ==> old(acc)@[i].login@ != entry.login@,
    ensures
        pos <= old(acc)@.len(),
        final(acc)@ == old(acc)@.insert(pos as int, entry),
        sorted_by_login(final(acc)@),
{
    let ghost s = acc@;
    let mut j: usize = 0;
    while j < acc.len() && str_precedes(acc[j].login.as_str(), entry.login.as_str())
        invariant
            acc@ == s,
            j <= s.len(),
            forall|i: int| 0 <= i < j ==> chars_lt(#[trigger] s[i].login@, entry.login@),
        decreases s.len() - j,
    {
        j = j + 1;
    }
    proof {
        if j < s.len() {
            lemma_chars_lt_total(s[j as int].login@, entry.login@);
            assert(chars_lt(entry.login@, s[j as int].login@));
        }
    }
    acc.insert(j, entry);
    proof {
        let t = acc@;
        assert forall|a: int, b: int| 0 <= a < b < t.len() implies chars_lt(#[trigger] t[a].login@, #[trigger] t[b].login@) by {
            if b < j {
                assert(t[a] == s[a] && t[b] == s[b]);
            } else if b == j {
                assert(t[a] == s[a]);
            } else if a == j {
                assert(t[b] == s[b - 1]);
                if b - 1 > j {
                    lemma_chars_lt_transitive(entry.login@, s[j as int].login@, s[b - 1].login@);
                }
            } else if a < j {
                assert(t[a] == s[a] && t[b] == s[b - 1]);
                if a < b - 1 {
                } else {
                }
                lemma_chars_lt_transitive(s[a].login@, entry.login@, s[j as int].login@);
                if j < b - 1 {
                    lemma_chars_lt_transitive(s[a].login@, s[j as int].login@, s[b - 1].login@);
                }
            } else {
                assert(t[a] == s[a - 1] && t[b] == s[b - 1]);
            }
        }
    }
    j
}

/// Records `status` for `login`: replaces what was there, or adds the participant.
/// When `only_if_new`, a participant already listed keeps their standing.
fn record(acc: &mut Vec<ReviewerEntry>, login: &String, status: ReviewStatus, only_if_new: bool, Ghost(m): Ghost<Map<Seq<char>, ReviewStatus>>)
    requires
        sorted_by_login(old(acc)@),
        lists_standing(old(acc)@, m),
    ensures
        sorted_by_login(final(acc)@),
        lists_standing(
            final(acc)@,
            if only_if_new && m.contains_key(login@) {
                m
            } else {
                m.insert(login@, status)
            },
        ),
{
    let ghost s = acc@;
    match find_login(acc, login.as_str()) {
        Some(j) => {
            if !only_if_new {
                let entry = ReviewerEntry { login: acc[j].login.clone(), status };
                acc.set(j, entry);
                proof {
                    let m2 = m.insert(login@, status);
                    let t = acc@;
                    assert forall|a: int, b: int| 0 <= a < b < t.len() implies chars_lt(#[trigger] t[a].login@, #[trigger] t[b].login@) by {
                        assert(t[a].login@ == s[a].login@ && t[b].login@ == s[b].login@);
                    }
                    assert forall|k: Seq<char>| #[trigger] m2.contains_key(k) implies exists|i: int| 0 <= i < t.len() && t[i].login@ == k by {
                        if k != login@ {
                            let i = choose|i: int| 0 <= i < s.len() && s[i].login@ == k;
                            assert(t[i].login@ == k);
                        } else {
                            assert(t[j as int].login@ == k);
                        }
                    }
                    assert forall|i: int| 0 <= i < t.len() implies m2.contains_key(#[trigger] t[i].login@) && m2[t[i].login@] == t[i].status by {
                        if i != j {
                            assert(t[i] == s[i]);
                            if s[i].login@ == login@ {
                                lemma_chars_lt_irreflexive(login@);
                                if i < j {
                                    assert(chars_lt(s[i].login@, s[j as int].login@));
                                } else {
                                    assert(chars_lt(s[j as int].login@, s[i].login@));
                                }
                            }
                        }
                    }
                }
            } else {
                assert(m.contains_key(login@));
            }
        },
        None => {
            proof {
                if m.contains_key(login@) {
                    let i = choose|i: int| 0 <= i < s.len() && s[i].login@ == login@;
                    assert(false);
                }
            }
            let pos = insert_sorted(acc, ReviewerEntry { login: login.clone(), status });
            proof {
                let m2 = m.insert(login@, status);
                let t = acc@;
                assert forall|k: Seq<char>| #[trigger] m2.contains_key(k) implies exists|i: int| 0 <= i < t.len() && t[i].login@ == k by {
                    if k != login@ {
                        let i = choose|i: int| 0 <= i < s.len() && s[i].login@ == k;
                        if i < pos {
                            assert(t[i].login@ == k);
                        } else {
                            assert(t[i + 1].login@ == k);
                        }
                    } else {
                        assert(t[pos as int].login@ == k);
                    }
                }
                assert forall|i: int| 0 <= i < t.len() implies m2.contains_key(#[trigger] t[i].login@) && m2[t[i].login@] == t[i].status by {
                    if i < pos {
                        assert(t[i] == s[i]);
                    } else if i > pos {
                        assert(t[i] == s[i - 1]);
                    }
                }
            }
        },
    }
}

/// Whether `requested` lists `login`.
fn requested_contains(requested: &Vec<String>, login: &str) -> (r: bool)
    ensures
        r == is_requested(requested@, login@),
{
    let mut i: usize = 0;
    while i < requested.len()
        invariant
            i <= requested@.len(),
            forall|k: int| 0 <= k < i ==> requested@[k]@ != login@,
        decreases requested@.len() - i,
    {
        if same_text(requested[i].as_str(), login) {
            return true;
        }
        i = i + 1;
    }
    false
}

/// The participants of a pull request by `pr_author`, in increasing order of
/// login, each with their standing (see `reviewer_standing`).
pub fn analyze_reviewers(details: &PrDetails, pr_author: &str) -> (r: Vec<ReviewerEntry>)
    ensures
        sorted_by_login(r@),
        lists_standing(r@, reviewer_standing(*details, pr_author@)),
{
    let mut acc: Vec<ReviewerEntry> = Vec::new();
    let ghost author = pr_author@;
    let ghost requested = details.requested_reviewers@;
    let ghost reviews = details.reviews@;
    let mut i: usize = 0;
    while i < details.reviews.len()
        invariant
            i <= reviews.len(),
            reviews == details.reviews@,
            requested == details.requested_reviewers@,
            author == pr_author@,
            sorted_by_login(acc@),
            lists_standing(acc@, standing_after_reviews(reviews.take(i as int), author, requested)),
        decreases reviews.len() - i,
    {
        assert(reviews.take(i + 1).drop_last() =~= reviews.take(i as int));
        let ghost m = standing_after_reviews(reviews.take(i as int), author, requested);
        let r = &details.reviews[i];
        let login = &r.author.login;
        if !same_text(login.as_str(), pr_author) {
            let state = r.state.as_str();
            if same_text(state, "APPROVED") {
                record(&mut acc, login, ReviewStatus::Approved, false, Ghost(m));
            } else if same_text(state, "CHANGES_REQUESTED") {
                if requested_contains(&details.requested_reviewers, login.as_str()) {
                    record(&mut acc, login, ReviewStatus::Pending, false, Ghost(m));
                } else {
                    record(&mut acc, login, ReviewStatus::ChangesRequested, false, Ghost(m));
                }
            } else if same_text(state, "DISMISSED") {
                record(&mut acc, login, ReviewStatus::Pending, false, Ghost(m));
            } else {
                record(&mut acc, login, ReviewStatus::Pending, true, Ghost(m));
            }
        }
        i = i + 1;
    }
    assert(reviews.take(reviews.len() as int) =~= reviews);
    let ghost base = standing_after_reviews(reviews, author, requested);
    let mut k: usize = 0;
    while k < details.requested_reviewers.len()
        invariant
            k <= requested.len(),
            requested == details.requested_reviewers@,
            author == pr_author@,
            sorted_by_login(acc@),
            lists_standing(acc@, add_requested(base, requested.take(k as int), author)),
        decreases requested.len() - k,
    {
        assert(requested.take(k + 1).drop_last() =~= requested.take(k as int));
        let ghost m = add_requested(base, requested.take(k as int), author);
        let login = &details.requested_reviewers[k];
        if !same_text(login.as_str(), pr_author) {
            record(&mut acc, login, ReviewStatus::Pending, true, Ghost(m));
        }
        k = k + 1;
    }
    assert(requested.take(requested.len() as int) =~= requested);
    acc
}

/// Number of entries with the given standing.
pub open spec fn count_status(s: Seq<ReviewerEntry>, st: ReviewStatus) -> nat
    decreases s.len(),
{
    if s.len() == 0 {
        0
    } else {
        count_status(s.drop_last(), st) + if s.last().status == st {
            1nat
        } else {
            0nat
        }
    }
}

/// Number of participants who approved.
pub fn approved_count(entries: &[ReviewerEntry]) -> (r: usize)
    ensures
        r == count_status(entries@, ReviewStatus::Approved),
{
    let mut n: usize = 0;
    let mut i: usize = 0;
    while i < entries.len()
        invariant
            i <= entries@.len(),
            n == count_status(entries@.take(i as int), ReviewStatus::Approved),
            n <= i,
        decreases entries@.len() - i,
    {
        assert(entries@.take(i + 1).drop_last() =~= entries@.take(i as int));
        if entries[i].status == ReviewStatus::Approved {
            n = n + 1;
        }
        i = i + 1;
    }
    assert(entries@.take(entries@.len() as int) =~= entries@);
    n
}

/// Whether some participant's change request stands.
pub fn has_active_changes(entries: &[ReviewerEntry]) -> (r: bool)
    ensures
        r == exists|i: int| 0 <= i < entries@.len() && #[trigger] entries@[i].status == ReviewStatus::ChangesRequested,
{
    let mut i: usize = 0;
    while i < entries.len()
        invariant
            i <= entries@.len(),
            forall|k: int| 0 <= k < i ==> entries@[k].status != ReviewStatus::ChangesRequested,
        decreases entries@.len() - i,
    {
        if entries[i].status == ReviewStatus::ChangesRequested {
            return true;
        }
        i = i + 1;
    }
    false
}

} // verus!
