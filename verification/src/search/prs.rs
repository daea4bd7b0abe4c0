//! The search for pull requests.
use vstd::prelude::*;
use vstd::string::*;

use crate::branches::{beyond, flow, BranchPlan};
use crate::github::json::Json;
use crate::github::prs::{direct_number, parse_direct_pr_number};
use crate::github::reachability::{answer_views, findings_follow_the_questions, probe, probed};
use crate::github::types::{
    BranchReachability, BranchReachabilityRequest, BranchReachabilityView, PullRequest, PullRequestState,
    PullRequestView, RequestView,
};
use crate::render::prs::finding_views;
use crate::search::issues::DEFAULT_DAYS;
use crate::search::online::query_text;
use crate::text::{
    decimal, decimal_text, holds, joined, least, opt_view, smaller, stands_in_the_middle, views,
};

verus! {

/// What to show while the branches of merged pull requests are asked about.
pub const CHECKING: &'static str = "Checking branch reachability...";

/// What to look for: the pull request with a number, or those that match a
/// query and are not too old.
#[derive(Debug, Clone, PartialEq, Eq)]
pub struct PrSearch {
    pub query: String,
    pub direct_pr_number: Option<u64>,
    /// How many days back, as the user gave it.
    pub given_days: Option<u32>,
}

/// What to ask GitHub for.
#[derive(Debug, Clone, Copy, PartialEq, Eq, Structural)]
pub enum PrTarget {
    /// The pull request with this number.
    Number(u64),
    /// The pull requests that match the query and are not older.
    Recent { days: u32 },
}

impl PrSearch {
    /// The search for `words`, `days` days back if the user gave a number.
    pub fn new(words: &[String], days: Option<u32>) -> (r: Self)
        ensures
            r.query@ == joined(views(words@), " "@),
            r.direct_pr_number == direct_number(joined(views(words@), " "@)),
            r.given_days == days,
    {
        let query = query_text(words);
        let direct_pr_number: Option<u64> = parse_direct_pr_number(query.as_str());
        PrSearch { query, direct_pr_number, given_days: days }
    }

    /// How many days back the search goes.
    pub open spec fn spec_days(self) -> u32 {
        match self.given_days {
            Some(given) => given,
            None => DEFAULT_DAYS,
        }
    }

    /// How many days back the search goes.
    pub fn days(&self) -> (r: u32)
        ensures
            r == self.spec_days(),
    {
        match self.given_days {
            Some(given) => given,
            None => DEFAULT_DAYS,
        }
    }

    /// What to ask GitHub for: the pull request that the query names by its
    /// number, or else those that match it.
    pub open spec fn wanted(self) -> PrTarget {
        match self.direct_pr_number {
            Some(number) => PrTarget::Number(number),
            None => PrTarget::Recent { days: self.spec_days() },
        }
    }

    /// What to ask GitHub for: the pull request that the query names by its
    /// number, or else those that match it.
    pub fn target(&self) -> (r: PrTarget)
        ensures
            r == self.wanted(),
    {
        match self.direct_pr_number {
            Some(number) => PrTarget::Number(number),
            None => PrTarget::Recent { days: self.days() },
        }
    }

    /// What to show while the search is made.
    pub open spec fn progress_text(self) -> Seq<char> {
        match self.direct_pr_number {
            Some(number) => "Fetching NixOS/nixpkgs PR #"@ + decimal(number as nat) + "..."@,
            None => "Searching NixOS/nixpkgs PRs for "@ + self.query@ + "..."@,
        }
    }

    /// What to show while the search is made.
    pub fn progress(&self) -> (r: String)
        ensures
            r@ == self.progress_text(),
    {
        let mut out = match self.direct_pr_number {
            Some(number) => {
                let mut out = "Fetching NixOS/nixpkgs PR #".to_owned();
                out.append(decimal_text(number as u128).as_str());
                out
            },
            None => {
                let mut out = "Searching NixOS/nixpkgs PRs for ".to_owned();
                out.append(self.query.as_str());
                out
            },
        };
        out.append("...");
        out
    }

    /// The number of days to report: that of a pull request looked up by its
    /// number plays no part.
    pub open spec fn days_that_count(self) -> Option<u32> {
        match self.direct_pr_number {
            Some(_) => None,
            None => Some(self.spec_days()),
        }
    }

    /// The number of days to report: that of a pull request looked up by its
    /// number plays no part.
    pub fn reported_days(&self) -> (r: Option<u32>)
        ensures
            r == self.days_that_count(),
    {
        match self.direct_pr_number {
            Some(_) => None,
            None => Some(self.days()),
        }
    }

    /// What to warn of: a number of days that plays no part.
    pub open spec fn warning_text(self) -> Option<Seq<char>> {
        match (self.direct_pr_number, self.given_days) {
            (Some(_), Some(_)) => Some("Ignoring --days for direct PR lookup."@),
            _ => None,
        }
    }

    /// What to warn of: a number of days that plays no part.
    pub fn warning(&self) -> (r: Option<String>)
        ensures
            opt_view(r) == self.warning_text(),
    {
        match (self.direct_pr_number, self.given_days) {
            (Some(_), Some(_)) => Some("Ignoring --days for direct PR lookup.".to_owned()),
            _ => None,
        }
    }

    /// What to show where nothing was found.
    pub open spec fn nothing_found_text(self) -> Seq<char> {
        match self.direct_pr_number {
            Some(number) => "No NixOS/nixpkgs PR found for #"@ + decimal(number as nat) + "."@,
            None => "No PRs found for '"@ + self.query@ + "' in the last "@ + decimal(self.spec_days() as nat)
                + " days."@,
        }
    }

    /// What to show where nothing was found.
    pub fn nothing_found(&self) -> (r: String)
        ensures
            r@ == self.nothing_found_text(),
    {
        match self.direct_pr_number {
            Some(number) => {
                let mut out = "No NixOS/nixpkgs PR found for #".to_owned();
                out.append(decimal_text(number as u128).as_str());
                out.append(".");
                out
            },
            None => {
                let mut out = "No PRs found for '".to_owned();
                out.append(self.query.as_str());
                out.append("' in the last ");
                out.append(decimal_text(self.days() as u128).as_str());
                out.append(" days.");
                out
            },
        }
    }
}

/// Whether some pull request was merged by a known commit, so that there are
/// branches to ask about.
pub fn any_landed(prs: &[PullRequest]) -> (r: bool)
    ensures
        r == exists|i: int| 0 <= i < prs@.len() && (#[trigger] prs@[i])@.landed() is Some,
{
    let mut i: usize = 0;
    while i < prs.len()
        invariant
            0 <= i <= prs@.len(),
            forall|j: int| 0 <= j < i ==> (#[trigger] prs@[j])@.landed() is None,
        decreases prs@.len() - i,
    {
        if prs[i].landed().is_some() {
            return true;
        }
        i += 1;
    }
    false
}

/// The branches to ask about, plan by plan.
pub open spec fn probe_lists(plans: Seq<BranchPlan>) -> Seq<Seq<Seq<char>>> {
    plans.map_values(|plan: BranchPlan| plan.probes())
}

/// The plan of each pull request, from the branch it goes to.
pub fn plans(prs: &[PullRequest]) -> (r: Vec<BranchPlan>)
    ensures
        r@.len() == prs@.len(),
        forall|i: int|
            0 <= i < prs@.len() ==> (#[trigger] r@[i]).probes() == flow(prs@[i]@.base_branch) && r@[i].summary()
                == beyond(prs@[i]@.base_branch),
{
    let mut plans: Vec<BranchPlan> = Vec::new();
    let mut i: usize = 0;
    while i < prs.len()
        invariant
            0 <= i <= prs@.len(),
            plans@.len() == i,
            forall|j: int|
                0 <= j < i ==> (#[trigger] plans@[j]).probes() == flow(prs@[j]@.base_branch)
                    && plans@[j].summary() == beyond(prs@[j]@.base_branch),
        decreases prs@.len() - i,
    {
        plans.push(BranchPlan::from_base_branch(prs[i].base_branch.as_str()));
        i += 1;
    }
    plans
}

/// The questions that one pull request raises: for one that was merged by a
/// known commit, whether each of `branches` holds this commit.
pub open spec fn own_questions(pr: PullRequestView, branches: Seq<Seq<char>>) -> Seq<RequestView> {
    match pr.landed() {
        Some(sha) => Seq::new(branches.len(), |b: int| RequestView { branch: branches[b], commit_sha: sha }),
        None => Seq::empty(),
    }
}

/// The questions that the first `n` of `prs` raise.
pub open spec fn questions(prs: Seq<PullRequestView>, branches: Seq<Seq<Seq<char>>>, n: int) -> Seq<RequestView>
    decreases n,
{
    if n <= 0 {
        Seq::empty()
    } else {
        questions(prs, branches, n - 1) + own_questions(prs[n - 1], branches[n - 1])
    }
}

/// For each question that the first `n` of `prs` raise, which of them raises
/// it.
pub open spec fn owners(prs: Seq<PullRequestView>, branches: Seq<Seq<Seq<char>>>, n: int) -> Seq<usize>
    decreases n,
{
    if n <= 0 {
        Seq::empty()
    } else {
        owners(prs, branches, n - 1) + Seq::new(
            own_questions(prs[n - 1], branches[n - 1]).len(),
            |q: int| (n - 1) as usize,
        )
    }
}

/// The questions that pull requests raise, and for each which of them raises
/// it.
pub struct Questions {
    pub pr_indexes: Vec<usize>,
    pub requests: Vec<BranchReachabilityRequest>,
}

/// The questions that `prs` raise, as far as there are plans.
pub fn reachability_questions(prs: &[PullRequest], plans: &[BranchPlan]) -> (r: Questions)
    ensures
        views(r.requests@) == all_questions(views(prs@), probe_lists(plans@)),
        r.pr_indexes@ == owners(
            views(prs@),
            probe_lists(plans@),
            least(prs@.len() as int, plans@.len() as int),
        ),
{
    let mut pr_indexes: Vec<usize> = Vec::new();
    let mut requests: Vec<BranchReachabilityRequest> = Vec::new();
    let ghost shown = views(prs@);
    let ghost branches = probe_lists(plans@);
    let count: usize = smaller(prs.len(), plans.len());
    let mut i: usize = 0;
    assert(views(requests@) =~= Seq::empty());
    while i < count
        invariant
            0 <= i <= count == least(prs@.len() as int, plans@.len() as int),
            shown == views(prs@),
            branches == probe_lists(plans@),
            views(requests@) == questions(shown, branches, i as int),
            pr_indexes@ == owners(shown, branches, i as int),
        decreases count - i,
    {
        let ghost raised = own_questions(shown[i as int], branches[i as int]);
        let ghost asked = views(requests@);
        let ghost indexes = pr_indexes@;
        if let Some(sha) = prs[i].landed() {
            let targets = plans[i].probe_targets();
            let mut t: usize = 0;
            assert(asked + raised.take(0) =~= asked);
            while t < targets.len()
                invariant
                    0 <= t <= targets@.len(),
                    raised == own_questions(shown[i as int], branches[i as int]),
                    shown[i as int].landed() == Some(sha@),
                    views(targets@) == branches[i as int],
                    views(requests@) == asked + raised.take(t as int),
                    pr_indexes@ == indexes + Seq::new(t as nat, |q: int| i),
                decreases targets@.len() - t,
            {
                let ghost before = views(requests@);
                pr_indexes.push(i);
                requests.push(BranchReachabilityRequest { branch: targets[t].clone(), commit_sha: sha.clone() });
                proof {
                    assert(branches[i as int][t as int] == targets@[t as int]@);
                    assert(views(requests@) =~= before.push(raised[t as int]));
                    assert(raised.take(t + 1) =~= raised.take(t as int).push(raised[t as int]));
                }
                t += 1;
            }
            assert(raised.take(raised.len() as int) =~= raised);
        }
        assert(views(requests@) =~= asked + raised);
        assert(pr_indexes@ =~= indexes + Seq::new(raised.len(), |q: int| i));
        i += 1;
    }
    Questions { pr_indexes, requests }
}

/// The findings among the first `n` whose question was raised by `owner`.
pub open spec fn share(
    owners: Seq<usize>,
    found: Seq<BranchReachabilityView>,
    owner: int,
    n: int,
) -> Seq<BranchReachabilityView>
    decreases n,
{
    if n <= 0 {
        Seq::empty()
    } else if owners[n - 1] == owner {
        share(owners, found, owner, n - 1).push(found[n - 1])
    } else {
        share(owners, found, owner, n - 1)
    }
}

/// Hands each of `count` owners the findings on its own questions, in order,
/// as far as there are owners and findings.
pub fn hand_out(count: usize, owners: &[usize], found: Vec<BranchReachability>) -> (r: Vec<Vec<BranchReachability>>)
    requires
        forall|q: int| 0 <= q < owners@.len() && q < found@.len() ==> owners@[q] < count,
    ensures
        finding_views(r@) == Seq::new(
            count as nat,
            |i: int| share(
                owners@,
                views(found@),
                i,
                least(owners@.len() as int, found@.len() as int),
            ),
        ),
{
    let ghost all = views(found@);
    let mut shares: Vec<Vec<BranchReachability>> = Vec::new();
    let mut i: usize = 0;
    while i < count
        invariant
            0 <= i <= count,
            shares@.len() == i,
            forall|j: int| 0 <= j < i ==> (#[trigger] shares@[j])@.len() == 0,
        decreases count - i,
    {
        shares.push(Vec::new());
        i += 1;
    }
    assert forall|j: int| 0 <= j < count implies views((#[trigger] shares@[j])@) == share(owners@, all, j, 0) by {
        assert(views(shares@[j]@) =~= Seq::empty());
    }
    let mut q: usize = 0;
    for finding in it: found
        invariant
            it.seq() == found@,
            all == views(found@),
            q == least(owners@.len() as int, it.index() as int),
            shares@.len() == count,
            forall|k: int| 0 <= k < owners@.len() && k < found@.len() ==> owners@[k] < count,
            forall|j: int| 0 <= j < count ==> views((#[trigger] shares@[j])@) == share(owners@, all, j, q as int),
    {
        if q < owners.len() {
            let owner: usize = owners[q];
            let ghost before = shares@;
            shares[owner].push(finding);
            proof {
                assert forall|j: int| 0 <= j < count implies views((#[trigger] shares@[j])@) == share(
                    owners@,
                    all,
                    j,
                    q + 1,
                ) by {
                    assert(views(before[j]@) == share(owners@, all, j, q as int));
                    if j == owner {
                        assert(views(shares@[j]@) =~= views(before[j]@).push(finding@));
                    }
                }
            }
            q += 1;
        }
    }
    assert(finding_views(shares@) =~= Seq::new(
        count as nat,
        |j: int| share(owners@, all, j, least(owners@.len() as int, found@.len() as int)),
    ));
    shares
}

/// Where the questions of `prs[i]` begin among all of them.
pub open spec fn first_question(prs: Seq<PullRequestView>, branches: Seq<Seq<Seq<char>>>, i: int) -> int {
    questions(prs, branches, i).len() as int
}

/// The findings on the questions of `prs[i]`, where all findings are in the
/// order of the questions.
pub open spec fn own_findings(
    prs: Seq<PullRequestView>,
    branches: Seq<Seq<Seq<char>>>,
    found: Seq<BranchReachabilityView>,
    i: int,
) -> Seq<BranchReachabilityView> {
    if i < branches.len() {
        found.subrange(first_question(prs, branches, i), first_question(prs, branches, i + 1))
    } else {
        Seq::empty()
    }
}

/// As many owners as questions, and each is one of the first `n`.
proof fn owners_fit(prs: Seq<PullRequestView>, branches: Seq<Seq<Seq<char>>>, n: int)
    requires
        n <= usize::MAX,
    ensures
        owners(prs, branches, n).len() == questions(prs, branches, n).len(),
        forall|q: int| 0 <= q < owners(prs, branches, n).len() ==> (#[trigger] owners(prs, branches, n)[q]) < n,
    decreases n,
{
    if n > 0 {
        owners_fit(prs, branches, n - 1);
    }
}

/// An owner with no question among the first `n` has no share in the findings
/// on them.
proof fn no_share(owners: Seq<usize>, found: Seq<BranchReachabilityView>, owner: int, n: int)
    requires
        forall|q: int| 0 <= q < n ==> owners[q] != owner,
    ensures
        share(owners, found, owner, n) == Seq::<BranchReachabilityView>::empty(),
    decreases n,
{
    if n > 0 {
        no_share(owners, found, owner, n - 1);
    }
}

/// Where the questions from `from` up to `n` are those of `owner`, its share
/// in the first `n` findings is what it had before and these.
proof fn run_of_shares(owners: Seq<usize>, found: Seq<BranchReachabilityView>, owner: int, from: int, n: int)
    requires
        0 <= from <= n <= found.len(),
        forall|q: int| from <= q < n ==> owners[q] == owner,
    ensures
        share(owners, found, owner, n) == share(owners, found, owner, from) + found.subrange(from, n),
    decreases n,
{
    if n > from {
        run_of_shares(owners, found, owner, from, n - 1);
        assert(found.subrange(from, n) =~= found.subrange(from, n - 1).push(found[n - 1]));
        assert(share(owners, found, owner, n) =~= share(owners, found, owner, from) + found.subrange(from, n));
    } else {
        assert(share(owners, found, owner, n) =~= share(owners, found, owner, from) + found.subrange(from, n));
    }
}

/// Where the questions from `from` up to `n` are not those of `owner`, they
/// leave its share as it was.
proof fn run_of_others(owners: Seq<usize>, found: Seq<BranchReachabilityView>, owner: int, from: int, n: int)
    requires
        0 <= from <= n,
        forall|q: int| from <= q < n ==> owners[q] != owner,
    ensures
        share(owners, found, owner, n) == share(owners, found, owner, from),
    decreases n,
{
    if n > from {
        run_of_others(owners, found, owner, from, n - 1);
    }
}

/// The owners of the questions of the first `n` begin with those of the first
/// `m`, and `m` itself owns what follows up to the next.
proof fn owners_in_runs(prs: Seq<PullRequestView>, branches: Seq<Seq<Seq<char>>>, m: int, n: int)
    requires
        0 <= m < n <= usize::MAX,
    ensures
        0 <= first_question(prs, branches, m) <= first_question(prs, branches, m + 1) <= first_question(
            prs,
            branches,
            n,
        ),
        forall|q: int|
            0 <= q < first_question(prs, branches, m) ==> (#[trigger] owners(prs, branches, n)[q]) != m,
        forall|q: int|
            first_question(prs, branches, m) <= q < first_question(prs, branches, m + 1) ==> (#[trigger] owners(
                prs,
                branches,
                n,
            )[q]) == m,
        forall|q: int|
            first_question(prs, branches, m + 1) <= q < first_question(prs, branches, n) ==> (
            #[trigger] owners(prs, branches, n)[q]) != m,
    decreases n,
{
    owners_fit(prs, branches, n);
    owners_fit(prs, branches, n - 1);
    owners_fit(prs, branches, m);
    if m < n - 1 {
        owners_in_runs(prs, branches, m, n - 1);
        assert forall|q: int| 0 <= q < first_question(prs, branches, n - 1) implies (#[trigger] owners(
            prs,
            branches,
            n,
        )[q]) == owners(prs, branches, n - 1)[q] by {}
    }
}

/// The share of each pull request is the stretch of findings on its own
/// questions.
proof fn share_is_own_findings(
    prs: Seq<PullRequestView>,
    branches: Seq<Seq<Seq<char>>>,
    found: Seq<BranchReachabilityView>,
    i: int,
    n: int,
)
    requires
        0 <= i < prs.len() <= usize::MAX,
        n == least(prs.len() as int, branches.len() as int),
        found.len() == questions(prs, branches, n).len(),
    ensures
        share(owners(prs, branches, n), found, i, found.len() as int) == own_findings(prs, branches, found, i),
{
    let all = owners(prs, branches, n);
    let end = found.len() as int;
    owners_fit(prs, branches, n);
    if i < n {
        owners_in_runs(prs, branches, i, n);
        let from = first_question(prs, branches, i);
        let to = first_question(prs, branches, i + 1);
        no_share(all, found, i, from);
        run_of_shares(all, found, i, from, to);
        run_of_others(all, found, i, to, end);
        assert(share(all, found, i, end) =~= found.subrange(from, to));
    } else {
        no_share(all, found, i, end);
    }
}

/// The questions that `prs` raise, as far as there are branches for them.
pub open spec fn all_questions(prs: Seq<PullRequestView>, branches: Seq<Seq<Seq<char>>>) -> Seq<RequestView> {
    questions(prs, branches, least(prs.len() as int, branches.len() as int))
}

/// All findings, in the order of the questions.
pub open spec fn all_findings(
    prs: Seq<PullRequestView>,
    branches: Seq<Seq<Seq<char>>>,
    answers: Seq<Result<Json, Seq<Seq<char>>>>,
) -> Seq<BranchReachabilityView> {
    let asked = all_questions(prs, branches);
    Seq::new(asked.len(), |k: int| probed(asked, answers, k))
}

/// The findings on each pull request, out of one answer for each request of
/// the plan.
pub fn probe_reachability_by_pr(
    prs: &[PullRequest],
    plans: &[BranchPlan],
    answers: &[Result<Json, Vec<String>>],
) -> (r: Vec<Vec<BranchReachability>>)
    requires
        answers@.len() == (questions(
            views(prs@),
            probe_lists(plans@),
            least(prs@.len() as int, plans@.len() as int),
        ).len() + 9) / 10,
    ensures
        finding_views(r@) == Seq::new(
            prs@.len(),
            |i: int| own_findings(
                views(prs@),
                probe_lists(plans@),
                all_findings(views(prs@), probe_lists(plans@), answer_views(answers@)),
                i,
            ),
        ),
{
    let ghost shown = views(prs@);
    let ghost branches = probe_lists(plans@);
    let ghost n = least(prs@.len() as int, plans@.len() as int);
    let count: usize = prs.len();
    let asked = reachability_questions(prs, plans);
    assert(views(asked.requests@).len() == asked.requests@.len());
    let found = probe(asked.requests.as_slice(), answers);
    let ghost all = all_findings(shown, branches, answer_views(answers@));
    proof {
        assert(views(found@) =~= all);
        assert(views(found@).len() == found@.len());
        owners_fit(shown, branches, n);
    }
    let shares = hand_out(count, asked.pr_indexes.as_slice(), found);
    proof {
        assert forall|i: int| 0 <= i < count implies (#[trigger] finding_views(shares@)[i]) == own_findings(
            shown,
            branches,
            all,
            i,
        ) by {
            share_is_own_findings(shown, branches, all, i, n);
        }
        assert(finding_views(shares@) =~= Seq::new(
            prs@.len(),
            |i: int| own_findings(shown, branches, all, i),
        ));
    }
    shares
}

/// The questions of the first `n` hold those of `prs[i]`, from where they
/// begin.
proof fn questions_in_runs(prs: Seq<PullRequestView>, branches: Seq<Seq<Seq<char>>>, i: int, n: int)
    requires
        0 <= i < n,
    ensures
        first_question(prs, branches, i) + own_questions(prs[i], branches[i]).len() == first_question(
            prs,
            branches,
            i + 1,
        ) <= first_question(prs, branches, n),
        questions(prs, branches, n).subrange(
            first_question(prs, branches, i),
            first_question(prs, branches, i + 1),
        ) == own_questions(prs[i], branches[i]),
    decreases n,
{
    let from = first_question(prs, branches, i);
    let to = first_question(prs, branches, i + 1);
    let all = questions(prs, branches, n);
    if i < n - 1 {
        questions_in_runs(prs, branches, i, n - 1);
        assert(all.subrange(from, to) =~= questions(prs, branches, n - 1).subrange(from, to));
    } else {
        assert(all.subrange(from, to) =~= own_questions(prs[i], branches[i]));
    }
}

/// Each pull request gets one finding on each of its own questions, in their
/// order, and no other, whatever came of the requests: what the answers say to
/// the question, which is about its own branch and its own commit.
pub proof fn each_gets_its_own_findings(
    prs: Seq<PullRequestView>,
    branches: Seq<Seq<Seq<char>>>,
    answers: Seq<Result<Json, Seq<Seq<char>>>>,
    i: int,
)
    requires
        0 <= i < prs.len(),
        0 <= i < branches.len(),
    ensures
        own_findings(prs, branches, all_findings(prs, branches, answers), i).len() == own_questions(
            prs[i],
            branches[i],
        ).len(),
        forall|k: int|
            0 <= k < own_questions(prs[i], branches[i]).len() ==> (#[trigger] own_findings(
                prs,
                branches,
                all_findings(prs, branches, answers),
                i,
            )[k]) == probed(
                all_questions(prs, branches),
                answers,
                first_question(prs, branches, i) + k,
            ),
        forall|k: int|
            0 <= k < own_questions(prs[i], branches[i]).len() ==> #[trigger] own_questions(prs[i], branches[i])[k]
                == all_questions(prs, branches)[first_question(prs, branches, i) + k],
        forall|k: int|
            0 <= k < own_questions(prs[i], branches[i]).len() ==> (#[trigger] own_findings(
                prs,
                branches,
                all_findings(prs, branches, answers),
                i,
            )[k]).branch == own_questions(prs[i], branches[i])[k].branch,
{
    let n = least(prs.len() as int, branches.len() as int);
    let asked = questions(prs, branches, n);
    let from = first_question(prs, branches, i);
    let to = first_question(prs, branches, i + 1);
    questions_in_runs(prs, branches, i, n);
    assert forall|k: int| 0 <= k < own_questions(prs[i], branches[i]).len() implies #[trigger] own_questions(
        prs[i],
        branches[i],
    )[k] == asked[from + k] by {
        assert(asked.subrange(from, to)[k] == asked[from + k]);
    }
    assert forall|k: int| 0 <= k < own_questions(prs[i], branches[i]).len() implies (#[trigger] own_findings(
        prs,
        branches,
        all_findings(prs, branches, answers),
        i,
    )[k]).branch == own_questions(prs[i], branches[i])[k].branch by {
        findings_follow_the_questions(asked, answers, from + k);
        assert(asked.subrange(from, to)[k] == asked[from + k]);
    }
}

/// What a search for pull requests brought, to be written as JSON.
#[derive(Debug, Clone, PartialEq, Eq)]
pub struct PrSearchJsonOutput {
    pub query: String,
    pub days: Option<u32>,
    pub direct_pr_number: Option<u64>,
    pub elapsed_ms: u128,
    pub results: Vec<PrJsonResult>,
}

/// A pull request, to be written as JSON.
#[derive(Debug, Clone, PartialEq, Eq)]
pub struct PrJsonResult {
    pub number: u64,
    pub title: String,
    pub url: String,
    pub state: &'static str,
    pub base_branch: String,
    pub merge_commit_sha: Option<String>,
    pub reachability: Vec<BranchReachabilityJson>,
}

/// What a pull request to be written stands for.
pub struct PrJsonView {
    pub number: u64,
    pub title: Seq<char>,
    pub url: Seq<char>,
    pub state: Seq<char>,
    pub base_branch: Seq<char>,
    pub merge_commit_sha: Option<Seq<char>>,
    pub reachability: Seq<ReachabilityJsonView>,
}

impl View for PrJsonResult {
    type V = PrJsonView;

    open spec fn view(&self) -> PrJsonView {
        PrJsonView {
            number: self.number,
            title: self.title@,
            url: self.url@,
            state: self.state@,
            base_branch: self.base_branch@,
            merge_commit_sha: opt_view(self.merge_commit_sha),
            reachability: views(self.reachability@),
        }
    }
}

/// A finding about a branch, to be written as JSON.
#[derive(Debug, Clone, PartialEq, Eq)]
pub struct BranchReachabilityJson {
    pub branch: String,
    pub status: &'static str,
    pub reason: Option<String>,
}

/// What a finding to be written stands for.
pub struct ReachabilityJsonView {
    pub branch: Seq<char>,
    pub status: Seq<char>,
    pub reason: Option<Seq<char>>,
}

impl View for BranchReachabilityJson {
    type V = ReachabilityJsonView;

    open spec fn view(&self) -> ReachabilityJsonView {
        ReachabilityJsonView { branch: self.branch@, status: self.status@, reason: opt_view(self.reason) }
    }
}

/// A finding, as it is written.
pub open spec fn finding_json(finding: BranchReachabilityView) -> ReachabilityJsonView {
    ReachabilityJsonView {
        branch: finding.branch,
        status: finding.status.name(),
        reason: finding.status.reason(),
    }
}

/// A reason is written for a branch without an answer, and for no other.
pub proof fn reason_is_written_where_unknown(finding: BranchReachabilityView)
    ensures
        finding_json(finding).reason is Some <==> finding.status is Unknown,
        finding_json(finding).reason is Some <==> finding_json(finding).status == "unknown"@,
{
    reveal_strlit("unknown");
    reveal_strlit("missing");
    reveal_strlit("contains");
    assert("unknown"@[0] == 'u');
    assert("missing"@[0] == 'm');
    assert("contains"@[0] == 'c');
}

/// Findings, as they are written.
pub open spec fn findings_json(found: Seq<BranchReachabilityView>) -> Seq<ReachabilityJsonView> {
    found.map_values(|finding: BranchReachabilityView| finding_json(finding))
}

/// A pull request with its findings, as it is written.
pub open spec fn pr_json(pr: PullRequestView, found: Seq<BranchReachabilityView>) -> PrJsonView {
    PrJsonView {
        number: pr.number,
        title: pr.title,
        url: pr.url,
        state: pr.state.name(),
        base_branch: pr.base_branch,
        merge_commit_sha: pr.merge_commit_sha,
        reachability: findings_json(found),
    }
}

/// A finding, to be written as JSON.
pub fn reachability_json(finding: &BranchReachability) -> (r: BranchReachabilityJson)
    ensures
        r@ == finding_json(finding@),
{
    let reason = match finding.status.reason() {
        Some(reason) => Some(reason.clone()),
        None => None,
    };
    BranchReachabilityJson { branch: finding.branch.clone(), status: finding.status.as_str(), reason }
}

fn all_reachability_json(found: &[BranchReachability]) -> (r: Vec<BranchReachabilityJson>)
    ensures
        views(r@) == findings_json(views(found@)),
{
    let mut out: Vec<BranchReachabilityJson> = Vec::new();
    let mut i: usize = 0;
    while i < found.len()
        invariant
            0 <= i <= found@.len(),
            out@.len() == i,
            forall|j: int| 0 <= j < i ==> (#[trigger] out@[j])@ == finding_json(found@[j]@),
        decreases found@.len() - i,
    {
        out.push(reachability_json(&found[i]));
        i += 1;
    }
    assert(views(out@) =~= findings_json(views(found@)));
    out
}

/// Pull requests as they are written, each with its findings, as far as there
/// are findings.
pub open spec fn all_json(prs: Seq<PullRequestView>, found: Seq<Seq<BranchReachabilityView>>) -> Seq<PrJsonView> {
    Seq::new(least(prs.len() as int, found.len() as int) as nat, |i: int| pr_json(prs[i], found[i]))
}

/// What the search brought, to be written as JSON: each pull request with its
/// findings, as far as there are findings.
pub fn print_json(
    query: String,
    direct_pr_number: Option<u64>,
    days: Option<u32>,
    elapsed_ms: u128,
    prs: &[PullRequest],
    reachability_by_pr: &[Vec<BranchReachability>],
) -> (r: PrSearchJsonOutput)
    ensures
        r.query@ == query@,
        r.days == days,
        r.direct_pr_number == direct_pr_number,
        r.elapsed_ms == elapsed_ms,
        views(r.results@) == all_json(views(prs@), finding_views(reachability_by_pr@)),
{
    let mut results: Vec<PrJsonResult> = Vec::new();
    let count: usize = smaller(prs.len(), reachability_by_pr.len());
    let mut i: usize = 0;
    while i < count
        invariant
            0 <= i <= count == least(prs@.len() as int, reachability_by_pr@.len() as int),
            results@.len() == i,
            forall|j: int|
                0 <= j < i ==> (#[trigger] results@[j])@ == pr_json(prs@[j]@, views(reachability_by_pr@[j]@)),
        decreases count - i,
    {
        let pr = &prs[i];
        let merge_commit_sha = match &pr.merge_commit_sha {
            Some(sha) => Some(sha.clone()),
            None => None,
        };
        results.push(
            PrJsonResult {
                number: pr.number,
                title: pr.title.clone(),
                url: pr.url.clone(),
                state: pr.state.as_str(),
                base_branch: pr.base_branch.clone(),
                merge_commit_sha,
                reachability: all_reachability_json(reachability_by_pr[i].as_slice()),
            },
        );
        i += 1;
    }
    assert(views(results@) =~= all_json(views(prs@), finding_views(reachability_by_pr@)));
    PrSearchJsonOutput { query, days, direct_pr_number, elapsed_ms, results }
}

/// Every branch of the plan of a merged pull request is asked about, with the
/// commit that merged it, in the order of the plan; there are as many questions
/// about the request as its plan has branches.
pub proof fn every_branch_is_asked_about(
    prs: Seq<PullRequestView>,
    plans: Seq<BranchPlan>,
    i: int,
    sha: Seq<char>,
)
    requires
        0 <= i < prs.len(),
        i < plans.len(),
        prs[i].state == PullRequestState::Merged,
        prs[i].merge_commit_sha == Some(sha),
    ensures
        first_question(prs, probe_lists(plans), i + 1) - first_question(prs, probe_lists(plans), i)
            == plans[i].probes().len(),
        first_question(prs, probe_lists(plans), i + 1) <= all_questions(prs, probe_lists(plans)).len(),
        forall|j: int|
            0 <= j < plans[i].probes().len() ==> {
                let asked = #[trigger] all_questions(prs, probe_lists(plans))[first_question(
                    prs,
                    probe_lists(plans),
                    i,
                ) + j];
                asked.branch == plans[i].probes()[j] && asked.commit_sha == sha
            },
{
    let branches = probe_lists(plans);
    let n = least(prs.len() as int, branches.len() as int);
    let asked = all_questions(prs, branches);
    let from = first_question(prs, branches, i);
    let to = first_question(prs, branches, i + 1);
    questions_in_runs(prs, branches, i, n);
    assert(branches[i] == plans[i].probes());
    assert forall|j: int| 0 <= j < plans[i].probes().len() implies {
        let one = #[trigger] asked[from + j];
        one.branch == plans[i].probes()[j] && one.commit_sha == sha
    } by {
        assert(asked.subrange(from, to)[j] == asked[from + j]);
    }
}

/// A pull request that was not merged, or not by a known commit, raises no
/// question.
pub proof fn others_are_not_asked_about(prs: Seq<PullRequestView>, plans: Seq<BranchPlan>, i: int)
    requires
        0 <= i < prs.len(),
        i < plans.len(),
        prs[i].state != PullRequestState::Merged || prs[i].merge_commit_sha is None,
    ensures
        first_question(prs, probe_lists(plans), i + 1) == first_question(prs, probe_lists(plans), i),
{
    questions_in_runs(
        prs,
        probe_lists(plans),
        i,
        least(prs.len() as int, probe_lists(plans).len() as int),
    );
}

/// The questions of the first pull request come first, those of the others
/// follow in their order, and there are no more; each is owned by the one that
/// raises it.
pub proof fn questions_come_in_order(prs: Seq<PullRequestView>, plans: Seq<BranchPlan>, i: int, q: int)
    requires
        0 <= i < prs.len() <= usize::MAX,
        i < plans.len(),
    ensures
        first_question(prs, probe_lists(plans), 0) == 0,
        first_question(prs, probe_lists(plans), least(prs.len() as int, plans.len() as int)) == all_questions(
            prs,
            probe_lists(plans),
        ).len(),
        owners(prs, probe_lists(plans), least(prs.len() as int, plans.len() as int)).len() == all_questions(
            prs,
            probe_lists(plans),
        ).len(),
        0 <= q < all_questions(prs, probe_lists(plans)).len() ==> (owners(
            prs,
            probe_lists(plans),
            least(prs.len() as int, plans.len() as int),
        )[q] == i <==> first_question(prs, probe_lists(plans), i) <= q < first_question(
            prs,
            probe_lists(plans),
            i + 1,
        )),
{
    let branches = probe_lists(plans);
    let n = least(prs.len() as int, plans.len() as int);
    owners_fit(prs, branches, n);
    owners_in_runs(prs, branches, i, n);
}

/// A finding goes to the one that owns its question, behind those that went
/// there before; and nothing else goes there.
pub proof fn finding_goes_to_its_owner(
    owners: Seq<usize>,
    found: Seq<BranchReachabilityView>,
    owner: int,
    n: int,
    q: int,
)
    requires
        0 <= q < n,
    ensures
        owners[q] == owner ==> share(owners, found, owner, q).len() < share(owners, found, owner, n).len()
            && share(owners, found, owner, n)[share(owners, found, owner, q).len() as int] == found[q],
        owners[q] != owner ==> share(owners, found, owner, q + 1) == share(owners, found, owner, q),
        owners[q] == owner ==> share(owners, found, owner, q + 1).len() == share(owners, found, owner, q).len() + 1,
        share(owners, found, owner, 0).len() == 0,
    decreases n,
{
    if q < n - 1 {
        finding_goes_to_its_owner(owners, found, owner, n - 1, q);
    }
}

/// What is written of a pull request is what it is, with one entry for each
/// finding, in order, that names the branch.
pub proof fn json_holds_the_request(pr: PullRequestView, found: Seq<BranchReachabilityView>)
    ensures
        pr_json(pr, found).number == pr.number,
        pr_json(pr, found).title == pr.title,
        pr_json(pr, found).url == pr.url,
        pr_json(pr, found).base_branch == pr.base_branch,
        pr_json(pr, found).merge_commit_sha == pr.merge_commit_sha,
        pr_json(pr, found).state == pr.state.name(),
        pr_json(pr, found).reachability.len() == found.len(),
        forall|k: int|
            0 <= k < found.len() ==> (#[trigger] pr_json(pr, found).reachability[k]).branch == found[k].branch
                && pr_json(pr, found).reachability[k].status == found[k].status.name()
                && pr_json(pr, found).reachability[k].reason == found[k].status.reason(),
{
}

/// A search goes back as many days as the user says, and as a search for
/// issues does where they say nothing.
pub proof fn given_days_count(search: PrSearch, days: u32)
    ensures
        search.given_days == Some(days) ==> search.spec_days() == days,
        search.given_days is None ==> search.spec_days() == 15,
{
}

/// A search for one pull request asks for that one, and says so; days play no
/// part in it, and the user is warned where they gave some. Any other search
/// asks for as many days as it reports, and names the query.
pub proof fn number_decides(search: PrSearch)
    ensures
        match search.direct_pr_number {
            Some(number) => {
                &&& search.wanted() == PrTarget::Number(number)
                &&& search.days_that_count() is None
                &&& search.warning_text() is Some <==> search.given_days is Some
                &&& holds(search.progress_text(), "#"@ + decimal(number as nat))
                &&& holds(search.nothing_found_text(), "#"@ + decimal(number as nat))
            },
            None => {
                &&& search.wanted() is Recent
                &&& search.days_that_count() == Some(search.wanted()->days)
                &&& search.given_days matches Some(days) ==> search.wanted()->days == days
                &&& search.warning_text() is None
                &&& holds(search.progress_text(), search.query@)
                &&& holds(search.nothing_found_text(), search.query@)
                &&& holds(
                    search.nothing_found_text(),
                    "in the last "@ + decimal(search.wanted()->days as nat) + " days."@,
                )
            },
        },
{
    match search.direct_pr_number {
        Some(number) => {
            reveal_strlit("Fetching NixOS/nixpkgs PR #");
            reveal_strlit("No NixOS/nixpkgs PR found for #");
            reveal_strlit("#");
            let named = "#"@ + decimal(number as nat);
            let a = search.progress_text();
            let b = search.nothing_found_text();
            let there = "Fetching NixOS/nixpkgs PR #"@.len() as int - 1;
            let here = "No NixOS/nixpkgs PR found for #"@.len() as int - 1;
            assert(a.subrange(there, there + named.len()) =~= named);
            assert(b.subrange(here, here + named.len()) =~= named);
        },
        None => {
            reveal_strlit("' in the last ");
            reveal_strlit("in the last ");
            let lead = "No PRs found for '"@ + search.query@;
            let days = decimal(search.spec_days() as nat);
            let tail = "in the last "@ + days + " days."@;
            let all = search.nothing_found_text();
            stands_in_the_middle("Searching NixOS/nixpkgs PRs for "@, search.query@, "..."@);
            stands_in_the_middle("No PRs found for '"@, search.query@, "' in the last "@ + days + " days."@);
            assert(lead + ("' in the last "@ + days + " days."@) =~= all);
            let at = lead.len() as int + 2;
            assert(all.subrange(at, at + tail.len()) =~= tail);
        },
    }
}

/// Every pull request that has findings is written, in order, with its own.
pub proof fn each_request_is_written(
    prs: Seq<PullRequestView>,
    found: Seq<Seq<BranchReachabilityView>>,
    i: int,
)
    requires
        0 <= i < prs.len(),
        i < found.len(),
    ensures
        all_json(prs, found).len() <= prs.len() && all_json(prs, found).len() <= found.len(),
        i < all_json(prs, found).len(),
        all_json(prs, found)[i].number == prs[i].number,
        all_json(prs, found)[i].title == prs[i].title,
        all_json(prs, found)[i].reachability.len() == found[i].len(),
        forall|k: int|
            0 <= k < found[i].len() ==> (#[trigger] all_json(prs, found)[i].reachability[k]).branch
                == found[i][k].branch,
{
}

} // verus!
