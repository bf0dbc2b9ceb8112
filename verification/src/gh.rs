//! Pull-request data as the GitHub CLI reports it, and the assembly of the
//! per-PR details from the fields of a `gh pr view` answer.
use vstd::prelude::*;
use crate::text::{to_uppercase, uppercase_text};

verus! {

/// A GitHub account.
#[derive(Clone, Debug)]
pub struct Author {
    pub login: String,
}

/// A repository, named `owner/name`.
#[derive(Clone, Debug)]
pub struct Repository {
    pub name_with_owner: String,
}

/// An open pull request. Times are seconds since the Unix epoch, UTC.
#[derive(Clone, Debug)]
pub struct PullRequest {
    pub number: u64,
    pub title: String,
    pub url: String,
    pub author: Author,
    pub repository: Repository,
    pub created_at: i64,
    pub updated_at: i64,
    pub is_draft: bool,
    pub comments_count: u32,
}

/// One submitted review. `state` is GitHub's review state in upper case.
#[derive(Clone, Debug)]
pub struct Review {
    pub state: String,
    pub author: Author,
    pub submitted_at: Option<i64>,
}

/// Aggregate state of the checks of a pull request.
#[derive(Clone, Copy, Debug, PartialEq, Eq, Structural)]
pub enum CiStatus {
    Pass,
    Fail,
    Pending,
    NoChecks,
}

/// One CI check.
#[derive(Clone, Debug)]
pub struct CheckRun {
    pub name: String,
    pub status: String,
    pub conclusion: String,
    pub details_url: String,
}

/// What `gh pr view` adds to a search hit.
#[derive(Clone, Debug)]
pub struct PrDetails {
    pub reviews: Vec<Review>,
    pub additions: u32,
    pub deletions: u32,
    pub review_decision: Option<String>,
    pub requested_reviewers: Vec<String>,
    pub checks: Vec<CheckRun>,
    pub ci_status: CiStatus,
}

/// A pull request is identified by its repository and its number.
pub type PrId = (String, u64);

/// The abstract identity of a pull request.
pub open spec fn id_view(id: PrId) -> (Seq<char>, u64) {
    (id.0@, id.1)
}

/// The identity of a pull request as a value.
pub open spec fn pr_key(pr: PullRequest) -> (Seq<char>, u64) {
    (pr.repository.name_with_owner@, pr.number)
}

impl PullRequest {
    /// The identity `(repository, number)` of this pull request.
    pub fn id(&self) -> (r: PrId)
        ensures
            id_view(r) == pr_key(*self),
    {
        (self.repository.name_with_owner.clone(), self.number)
    }
}

/// One entry of `reviewRequests`: a user has a `login`, a team a `slug`.
#[derive(Clone, Debug)]
pub struct ReviewRequest {
    pub login: Option<String>,
    pub slug: Option<String>,
}

/// The name under which a review request is listed: the login, else the slug.
pub open spec fn request_name(r: ReviewRequest) -> Option<Seq<char>> {
    match r.login {
        Some(l) => Some(l@),
        None => match r.slug {
            Some(s) => Some(s@),
            None => None,
        },
    }
}

/// The names of the requests that have one, in order.
pub open spec fn request_names(rs: Seq<ReviewRequest>) -> Seq<Seq<char>>
    decreases rs.len(),
{
    if rs.len() == 0 {
        Seq::empty()
    } else {
        let front = request_names(rs.drop_last());
        match request_name(rs.last()) {
            Some(n) => front.push(n),
            None => front,
        }
    }
}

/// A count of lines as `gh` reports it, read as a `u32` the way `as` does
/// (missing is 0, larger values keep their low 32 bits).
pub open spec fn line_count(v: Option<u64>) -> u32 {
    match v {
        Some(n) => (n % 0x1_0000_0000) as u32,
        None => 0,
    }
}

/// `d` holds the details made of the answer's fields: the line counts, the
/// review decision in upper case, the reviews, the names of the review
/// requests, and no checks.
pub open spec fn assembled(
    d: PrDetails,
    additions: Option<u64>,
    deletions: Option<u64>,
    review_decision: Option<String>,
    reviews: Seq<Review>,
    requests: Seq<ReviewRequest>,
) -> bool {
    &&& d.additions == line_count(additions)
    &&& d.deletions == line_count(deletions)
    &&& match review_decision {
        Some(x) => d.review_decision is Some && d.review_decision->0@ == uppercase_text(x@),
        None => d.review_decision is None,
    }
    &&& d.reviews@ == reviews
    &&& d.requested_reviewers@.map_values(|s: String| s@) == request_names(requests)
    &&& d.checks@.len() == 0
    &&& d.ci_status == CiStatus::NoChecks
}

/// Assembles the details of a pull request from the fields of the answer of
/// `gh pr view --json additions,deletions,reviewDecision,reviews,reviewRequests`:
/// `additions` and `deletions` where they are unsigned integers, the review
/// decision where it is a string, the reviews, and the review requests.
/// The CI state is not part of that answer; it is left `NoChecks` with no checks.
pub fn assemble_details(
    additions: Option<u64>,
    deletions: Option<u64>,
    review_decision: Option<String>,
    reviews: Vec<Review>,
    requests: Vec<ReviewRequest>,
) -> (r: PrDetails)
    ensures
        assembled(r, additions, deletions, review_decision, reviews@, requests@),
{
    let add = match additions {
        Some(n) => {
            let low = n % 0x1_0000_0000;
            low as u32
        },
        None => 0,
    };
    let del = match deletions {
        Some(n) => {
            let low = n % 0x1_0000_0000;
            low as u32
        },
        None => 0,
    };
    let decision = match review_decision {
        Some(d) => Some(to_uppercase(d.as_str())),
        None => None,
    };
    let mut names: Vec<String> = Vec::new();
    let mut i: usize = 0;
    while i < requests.len()
        invariant
            i <= requests@.len(),
            names@.map_values(|s: String| s@) == request_names(requests@.take(i as int)),
        decreases requests@.len() - i,
    {
        assert(requests@.take(i + 1).drop_last() =~= requests@.take(i as int));
        let req = &requests[i];
        match &req.login {
            Some(l) => {
                names.push(l.clone());
            },
            None => match &req.slug {
                Some(s) => {
                    names.push(s.clone());
                },
                None => {},
            },
        }
        assert(names@.map_values(|s: String| s@) =~= request_names(requests@.take(i + 1)));
        i = i + 1;
    }
    assert(requests@.take(requests@.len() as int) =~= requests@);
    PrDetails {
        reviews,
        additions: add,
        deletions: del,
        review_decision: decision,
        requested_reviewers: names,
        checks: Vec::new(),
        ci_status: CiStatus::NoChecks,
    }
}


/// One element of the `reviews` array of a `gh pr view` answer, read field by
/// field: `state` and `author.login` where they are strings, `submittedAt`
/// where it is a string, and whether `submittedAt` is absent or null.
#[derive(Clone, Debug)]
pub struct ReviewFields {
    pub state: Option<String>,
    pub login: Option<String>,
    pub submitted_at: Option<String>,
    pub submitted_null: bool,
}

/// The fields of a `gh pr view --json additions,deletions,reviewDecision,reviews,reviewRequests`
/// answer but the reviews: `additions` and `deletions` where they are
/// unsigned integers, `reviewDecision` where it is a string, and the
/// elements of `reviewRequests` where it is an array (a request's `login` and
/// `slug` where they are strings).
#[derive(Clone, Debug)]
pub struct DetailFields {
    pub additions: Option<u64>,
    pub deletions: Option<u64>,
    pub review_decision: Option<String>,
    pub requests: Option<Vec<ReviewRequest>>,
}

/// What `serde_json` reads of an answer text: `None` when the text is not
/// JSON, else its fields but the reviews; a function of the text alone.
pub uninterp spec fn details_fields(json: Seq<char>) -> Option<DetailFields>;

/// Trusted: `serde_json::from_str::<serde_json::Value>`, then `Value`'s
/// indexing by key and `as_u64`, `as_str`, `as_array` on the fields; the
/// result is named `details_fields`.
#[verifier::external_body]
fn parse_details_json(json: &str) -> (r: Option<DetailFields>)
    ensures
        r == details_fields(json@),
{
    let d: serde_json::Value = serde_json::from_str(json).ok()?;
    let text = |v: &serde_json::Value| v.as_str().map(String::from);
    let request = |v: &serde_json::Value| ReviewRequest { login: text(&v["login"]), slug: text(&v["slug"]) };
    Some(DetailFields {
        additions: d["additions"].as_u64(),
        deletions: d["deletions"].as_u64(),
        review_decision: text(&d["reviewDecision"]),
        requests: d["reviewRequests"].as_array().map(|a| a.iter().map(request).collect()),
    })
}

/// What `serde_json` reads of the `reviews` of an answer text: its elements
/// field by field when the text is JSON and `reviews` an array, else `None`;
/// a function of the text alone.
pub uninterp spec fn review_fields(json: Seq<char>) -> Option<Vec<ReviewFields>>;

/// Trusted: `serde_json::from_str::<serde_json::Value>`, then `Value`'s
/// indexing by key and `as_array`, `as_str`, `is_null` on the elements of
/// `reviews`; the result is named `review_fields`.
#[verifier::external_body]
fn parse_review_fields(json: &str) -> (r: Option<Vec<ReviewFields>>)
    ensures
        r == review_fields(json@),
{
    let d: serde_json::Value = serde_json::from_str(json).ok()?;
    let text = |v: &serde_json::Value| v.as_str().map(String::from);
    let review = |v: &serde_json::Value| ReviewFields {
        state: text(&v["state"]),
        login: text(&v["author"]["login"]),
        submitted_at: text(&v["submittedAt"]),
        submitted_null: v["submittedAt"].is_null(),
    };
    d["reviews"].as_array().map(|a| a.iter().map(review).collect())
}

/// The instant, in seconds since the epoch, that `chrono` reads from a date
/// and time text, if it reads one; a function of the text alone.
pub uninterp spec fn instant_of(text: Seq<char>) -> Option<i64>;

/// Trusted: `<chrono::DateTime<chrono::FixedOffset> as FromStr>::from_str`
/// (what chrono's deserializer of `DateTime<Utc>` uses), then `timestamp`;
/// the result is named `instant_of`.
#[verifier::external_body]
fn parse_instant(text: &str) -> (r: Option<i64>)
    ensures
        r == instant_of(text@),
{
    text.parse::<chrono::DateTime<chrono::FixedOffset>>().ok().map(|t| t.timestamp())
}

/// The submission time an element gives: none when `submittedAt` is absent
/// or null, the instant of its text when that reads as a date and time;
/// `None` when the element gives no valid time.
pub open spec fn submitted_of(f: ReviewFields) -> Option<Option<i64>> {
    if f.submitted_null {
        Some(None)
    } else {
        match f.submitted_at {
            Some(t) => match instant_of(t@) {
                Some(i) => Some(Some(i)),
                None => None,
            },
            None => None,
        }
    }
}

/// The review an element reads as: it needs a state, an author's login and
/// a valid (or no) submission time.
pub open spec fn review_of(f: ReviewFields) -> Option<Review> {
    match f.state {
        Some(st) => match f.login {
            Some(l) => match submitted_of(f) {
                Some(at) => Some(Review { state: st, author: Author { login: l }, submitted_at: at }),
                None => None,
            },
            None => None,
        },
        None => None,
    }
}

/// The reviews of the elements, when every element reads as a review.
pub open spec fn reviews_of(fs: Seq<ReviewFields>) -> Option<Seq<Review>>
    decreases fs.len(),
{
    if fs.len() == 0 {
        Some(Seq::empty())
    } else {
        match reviews_of(fs.drop_last()) {
            Some(front) => match review_of(fs.last()) {
                Some(r) => Some(front.push(r)),
                None => None,
            },
            None => None,
        }
    }
}

/// The reviews of an answer: all of them when `reviews` is an array whose
/// every element reads as a review, else none at all.
pub open spec fn answer_reviews(f: Option<Vec<ReviewFields>>) -> Seq<Review> {
    match f {
        Some(v) => match reviews_of(v@) {
            Some(rs) => rs,
            None => Seq::empty(),
        },
        None => Seq::empty(),
    }
}

/// The review requests of an answer, none when `reviewRequests` is no array.
pub open spec fn answer_requests(f: Option<Vec<ReviewRequest>>) -> Seq<ReviewRequest> {
    match f {
        Some(v) => v@,
        None => Seq::empty(),
    }
}

/// The details that the fields `f` and the review elements `rs` of an
/// answer give.
pub open spec fn details_of_fields(d: PrDetails, f: DetailFields, rs: Option<Vec<ReviewFields>>) -> bool {
    assembled(d, f.additions, f.deletions, f.review_decision, answer_reviews(rs), answer_requests(f.requests))
}

/// Reads the reviews of the elements: all of them, or `None` as soon as one
/// does not read as a review.
fn reviews_from_fields(fs: &Vec<ReviewFields>) -> (r: Option<Vec<Review>>)
    ensures
        match reviews_of(fs@) {
            Some(s) => r matches Some(v) && v@ == s,
            None => r is None,
        },
{
    let mut out: Vec<Review> = Vec::new();
    let mut ok = true;
    let mut i: usize = 0;
    while i < fs.len()
        invariant
            i <= fs@.len(),
            ok ==> reviews_of(fs@.take(i as int)) == Some(out@),
            !ok ==> reviews_of(fs@.take(i as int)) is None,
        decreases fs@.len() - i,
    {
        assert(fs@.take(i + 1).drop_last() =~= fs@.take(i as int));
        assert(fs@.take(i + 1).last() == fs@[i as int]);
        let f = &fs[i];
        let at: Option<Option<i64>> = if f.submitted_null {
            Some(None)
        } else {
            match &f.submitted_at {
                Some(t) => match parse_instant(t.as_str()) {
                    Some(x) => Some(Some(x)),
                    None => None,
                },
                None => None,
            }
        };
        assert(at == submitted_of(*f));
        if ok {
            match (&f.state, &f.login, at) {
                (Some(st), Some(l), Some(at)) => {
                    out.push(Review { state: st.clone(), author: Author { login: l.clone() }, submitted_at: at });
                },
                _ => {
                    ok = false;
                },
            }
        }
        i = i + 1;
    }
    assert(fs@.take(fs@.len() as int) =~= fs@);
    if ok {
        Some(out)
    } else {
        None
    }
}

/// The details of a pull request from the text of a `gh pr view` answer;
/// `None` when the text is not JSON.
pub fn details_from_json(json: &str) -> (r: Option<PrDetails>)
    ensures
        match details_fields(json@) {
            None => r is None,
            Some(f) => r matches Some(d) && details_of_fields(d, f, review_fields(json@)),
        },
{
    match parse_details_json(json) {
        None => None,
        Some(f) => {
            let fields = parse_review_fields(json);
            let reviews = match &fields {
                Some(v) => match reviews_from_fields(v) {
                    Some(rs) => rs,
                    None => Vec::new(),
                },
                None => Vec::new(),
            };
            let requests = match f.requests {
                Some(v) => v,
                None => Vec::new(),
            };
            Some(assemble_details(f.additions, f.deletions, f.review_decision, reviews, requests))
        },
    }
}

} // verus!

verus! {

impl Author {
    pub fn duplicate(&self) -> (r: Self)
        ensures
            r == *self,
    {
        Author { login: self.login.clone() }
    }
}

impl Review {
    pub fn duplicate(&self) -> (r: Self)
        ensures
            r == *self,
    {
        Review { state: self.state.clone(), author: self.author.duplicate(), submitted_at: self.submitted_at }
    }
}

impl CheckRun {
    pub fn duplicate(&self) -> (r: Self)
        ensures
            r == *self,
    {
        CheckRun {
            name: self.name.clone(),
            status: self.status.clone(),
            conclusion: self.conclusion.clone(),
            details_url: self.details_url.clone(),
        }
    }
}

/// Two details records hold the same data.
pub open spec fn same_details(a: PrDetails, b: PrDetails) -> bool {
    &&& a.reviews@ == b.reviews@
    &&& a.additions == b.additions
    &&& a.deletions == b.deletions
    &&& a.review_decision == b.review_decision
    &&& a.requested_reviewers@ == b.requested_reviewers@
    &&& a.checks@ == b.checks@
    &&& a.ci_status == b.ci_status
}

impl PrDetails {
    /// A copy holding the same data.
    pub fn duplicate(&self) -> (r: Self)
        ensures
            same_details(r, *self),
    {
        let mut reviews: Vec<Review> = Vec::new();
        let mut i: usize = 0;
        while i < self.reviews.len()
            invariant
                i <= self.reviews@.len(),
                reviews@ == self.reviews@.take(i as int),
            decreases self.reviews@.len() - i,
        {
            reviews.push(self.reviews[i].duplicate());
            assert(reviews@ =~= self.reviews@.take(i + 1));
            i = i + 1;
        }
        assert(self.reviews@.take(i as int) =~= self.reviews@);
        let mut requested: Vec<String> = Vec::new();
        let mut j: usize = 0;
        while j < self.requested_reviewers.len()
            invariant
                j <= self.requested_reviewers@.len(),
                requested@ == self.requested_reviewers@.take(j as int),
            decreases self.requested_reviewers@.len() - j,
        {
            requested.push(self.requested_reviewers[j].clone());
            assert(requested@ =~= self.requested_reviewers@.take(j + 1));
            j = j + 1;
        }
        assert(self.requested_reviewers@.take(j as int) =~= self.requested_reviewers@);
        let mut checks: Vec<CheckRun> = Vec::new();
        let mut k: usize = 0;
        while k < self.checks.len()
            invariant
                k <= self.checks@.len(),
                checks@ == self.checks@.take(k as int),
            decreases self.checks@.len() - k,
        {
            checks.push(self.checks[k].duplicate());
            assert(checks@ =~= self.checks@.take(k + 1));
            k = k + 1;
        }
        assert(self.checks@.take(k as int) =~= self.checks@);
        let decision = match &self.review_decision {
            Some(d) => Some(d.clone()),
            None => None,
        };
        PrDetails {
            reviews,
            additions: self.additions,
            deletions: self.deletions,
            review_decision: decision,
            requested_reviewers: requested,
            checks,
            ci_status: self.ci_status,
        }
    }
}

} // verus!
