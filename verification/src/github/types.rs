//! Pull requests, and the branches that hold their commits.
use vstd::prelude::*;
use vstd::string::*;

use crate::text::opt_view;

verus! {

/// A pull request of nixpkgs.
#[derive(Debug, Clone, PartialEq, Eq)]
pub struct PullRequest {
    pub number: u64,
    pub title: String,
    pub url: String,
    pub state: PullRequestState,
    pub base_branch: String,
    pub merge_commit_sha: Option<String>,
}

/// What a pull request stands for.
pub struct PullRequestView {
    pub number: u64,
    pub title: Seq<char>,
    pub url: Seq<char>,
    pub state: PullRequestState,
    pub base_branch: Seq<char>,
    pub merge_commit_sha: Option<Seq<char>>,
}

impl View for PullRequest {
    type V = PullRequestView;

    open spec fn view(&self) -> PullRequestView {
        PullRequestView {
            number: self.number,
            title: self.title@,
            url: self.url@,
            state: self.state,
            base_branch: self.base_branch@,
            merge_commit_sha: opt_view(self.merge_commit_sha),
        }
    }
}

/// How far a pull request has come.
#[derive(Debug, Clone, Copy, PartialEq, Eq, Structural)]
pub enum PullRequestState {
    Open,
    Closed,
    Merged,
}

impl PullRequestState {
    /// The name of the state.
    pub open spec fn name(self) -> Seq<char> {
        match self {
            PullRequestState::Open => "open"@,
            PullRequestState::Closed => "closed"@,
            PullRequestState::Merged => "merged"@,
        }
    }

    /// The name of the state.
    pub fn as_str(self) -> (r: &'static str)
        ensures
            r@ == self.name(),
    {
        match self {
            PullRequestState::Open => "open",
            PullRequestState::Closed => "closed",
            PullRequestState::Merged => "merged",
        }
    }
}

impl PullRequestView {
    /// The commit that merged the request, if it was merged by a known one.
    pub open spec fn landed(self) -> Option<Seq<char>> {
        if self.state == PullRequestState::Merged {
            self.merge_commit_sha
        } else {
            None
        }
    }
}

impl PullRequest {
    /// The commit that merged the request, if it was merged by a known one.
    pub fn landed(&self) -> (r: Option<&String>)
        ensures
            r is Some <==> self@.landed() is Some,
            r matches Some(sha) ==> Some(sha@) == self@.landed(),
    {
        match (self.state, &self.merge_commit_sha) {
            (PullRequestState::Merged, Some(sha)) => Some(sha),
            _ => None,
        }
    }
}

/// Whether a branch holds a commit.
#[derive(Debug, Clone, PartialEq, Eq)]
pub struct BranchReachability {
    pub branch: String,
    pub status: BranchReachabilityStatus,
}

/// What a finding about a branch stands for.
pub struct BranchReachabilityView {
    pub branch: Seq<char>,
    pub status: StatusView,
}

impl View for BranchReachability {
    type V = BranchReachabilityView;

    open spec fn view(&self) -> BranchReachabilityView {
        BranchReachabilityView { branch: self.branch@, status: self.status@ }
    }
}

/// The question whether a branch holds a commit.
#[derive(Debug, Clone, PartialEq, Eq)]
pub struct BranchReachabilityRequest {
    pub branch: String,
    pub commit_sha: String,
}

/// What a question about a branch stands for.
pub struct RequestView {
    pub branch: Seq<char>,
    pub commit_sha: Seq<char>,
}

impl View for BranchReachabilityRequest {
    type V = RequestView;

    open spec fn view(&self) -> RequestView {
        RequestView { branch: self.branch@, commit_sha: self.commit_sha@ }
    }
}

/// The answer to the question whether a branch holds a commit.
#[derive(Debug, Clone, PartialEq, Eq)]
pub enum BranchReachabilityStatus {
    Contains,
    Missing,
    /// No answer, for the reason given.
    Unknown(String),
}

/// What an answer stands for.
pub enum StatusView {
    Contains,
    Missing,
    Unknown(Seq<char>),
}

impl View for BranchReachabilityStatus {
    type V = StatusView;

    open spec fn view(&self) -> StatusView {
        match self {
            BranchReachabilityStatus::Contains => StatusView::Contains,
            BranchReachabilityStatus::Missing => StatusView::Missing,
            BranchReachabilityStatus::Unknown(reason) => StatusView::Unknown(reason@),
        }
    }
}

impl StatusView {
    /// The name of the answer.
    pub open spec fn name(self) -> Seq<char> {
        match self {
            StatusView::Contains => "contains"@,
            StatusView::Missing => "missing"@,
            StatusView::Unknown(_) => "unknown"@,
        }
    }

    /// Why there is no answer, where there is none.
    pub open spec fn reason(self) -> Option<Seq<char>> {
        match self {
            StatusView::Unknown(reason) => Some(reason),
            _ => None,
        }
    }
}

impl BranchReachabilityStatus {
    /// The name of the answer.
    pub fn as_str(&self) -> (r: &'static str)
        ensures
            r@ == self@.name(),
    {
        match self {
            BranchReachabilityStatus::Contains => "contains",
            BranchReachabilityStatus::Missing => "missing",
            BranchReachabilityStatus::Unknown(_) => "unknown",
        }
    }

    /// Why there is no answer, where there is none.
    pub fn reason(&self) -> (r: Option<&String>)
        ensures
            r is Some <==> self@.reason() is Some,
            r matches Some(reason) ==> Some(reason@) == self@.reason(),
    {
        match self {
            BranchReachabilityStatus::Unknown(reason) => Some(reason),
            _ => None,
        }
    }
}

/// A name belongs to one answer, and to one state; only what is unknown has a
/// reason, and it is the one given.
pub proof fn names_tell_apart(status: StatusView, state: PullRequestState)
    ensures
        status.name() == "contains"@ <==> status is Contains,
        status.name() == "missing"@ <==> status is Missing,
        status.name() == "unknown"@ <==> status is Unknown,
        state.name() == "open"@ <==> state == PullRequestState::Open,
        state.name() == "closed"@ <==> state == PullRequestState::Closed,
        state.name() == "merged"@ <==> state == PullRequestState::Merged,
        status.reason() is Some <==> status is Unknown,
        status.reason() matches Some(reason) ==> status == StatusView::Unknown(reason),
{
    reveal_strlit("contains");
    reveal_strlit("missing");
    reveal_strlit("unknown");
    reveal_strlit("open");
    reveal_strlit("closed");
    reveal_strlit("merged");
    assert("contains"@[0] == 'c' && "missing"@[0] == 'm' && "unknown"@[0] == 'u');
    assert("open"@[0] == 'o' && "closed"@[0] == 'c' && "merged"@[0] == 'm');
}

/// The commit of a request counts if and only if the request was merged.
pub proof fn only_merged_requests_land(pr: PullRequestView)
    ensures
        pr.state == PullRequestState::Merged ==> pr.landed() == pr.merge_commit_sha,
        pr.landed() is Some ==> pr.state == PullRequestState::Merged,
{
}

} // verus!
