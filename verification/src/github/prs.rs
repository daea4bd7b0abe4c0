//! Searching the pull requests of nixpkgs, and looking them up by number.
use vstd::prelude::*;
use vstd::string::*;

use crate::github::date::{
    date_before, days_add_up, days_before, has_date_before, no_day_goes_back_by_nothing, rfc3339,
};
use crate::github::json::{insert_number, insert_text, member_keys, no_variables, number_members, text_members};
use crate::github::transport::GraphqlRequest;
use crate::github::types::{PullRequest, PullRequestState, PullRequestView};
use crate::text::{
    all_digits, decimal, decimal_reads_back, decimal_value, is_whitespace, joined, opt_view, parse_digits, same,
    strip_prefix, trim, trimmed, trimmed_is_trimmed, upper_case, views,
};

verus! {

/// How many pull requests a search returns at most.
pub const SEARCH_LIMIT: u64 = 100;

/// The search for pull requests, in GraphQL.
pub const SEARCH_PULL_REQUESTS_QUERY: &'static str = "
query($query: String!, $first: Int!) {
  search(type: ISSUE, query: $query, first: $first) {
    nodes {
      ... on PullRequest {
        number
        title
        url
        state
        merged
        baseRefName
        mergeCommit {
          oid
        }
      }
    }
  }
}
";

/// The look-up of one pull request, in GraphQL.
pub const PULL_REQUEST_QUERY: &'static str = "
query($number: Int!) {
  repository(owner: \"NixOS\", name: \"nixpkgs\") {
    pullRequest(number: $number) {
      number
      title
      url
      state
      merged
      baseRefName
      mergeCommit {
        oid
      }
    }
  }
}
";

/// A pull request as GitHub describes it.
#[derive(Debug, Clone, PartialEq, Eq)]
pub struct PullRequestNode {
    pub number: u64,
    pub title: String,
    pub url: String,
    pub state: String,
    pub merged: bool,
    pub base_ref_name: String,
    pub merge_commit: Option<MergeCommitNode>,
}

/// A commit as GitHub describes it.
#[derive(Debug, Clone, PartialEq, Eq)]
pub struct MergeCommitNode {
    pub oid: String,
}

impl View for MergeCommitNode {
    type V = Seq<char>;

    open spec fn view(&self) -> Seq<char> {
        self.oid@
    }
}

/// A state that no pull request has.
#[derive(Debug, Clone, PartialEq, Eq)]
pub struct UnknownPullRequestState {
    pub state: String,
}

impl UnknownPullRequestState {
    /// What to tell the user.
    pub fn message(&self) -> (r: String)
        ensures
            r@ == "unknown GitHub pull request state "@ + self.state@,
    {
        let mut out = "unknown GitHub pull request state ".to_owned();
        out.append(self.state.as_str());
        out
    }
}

/// The state of a request that GitHub calls `state`, and says to be merged or
/// not: a merged one is merged, whatever it is called.
pub open spec fn state_called(merged: bool, state: Seq<char>) -> Option<PullRequestState> {
    if merged {
        Some(PullRequestState::Merged)
    } else if state == "OPEN"@ || state == "open"@ {
        Some(PullRequestState::Open)
    } else if state == "CLOSED"@ || state == "closed"@ {
        Some(PullRequestState::Closed)
    } else {
        None
    }
}

/// Reads a state.
pub fn parse_state(merged: bool, state: &str) -> (r: Result<PullRequestState, UnknownPullRequestState>)
    ensures
        match r {
            Ok(known) => state_called(merged, state@) == Some(known),
            Err(error) => state_called(merged, state@) is None && error.state@ == state@,
        },
{
    if merged {
        return Ok(PullRequestState::Merged);
    }
    if same(state, "OPEN") || same(state, "open") {
        Ok(PullRequestState::Open)
    } else if same(state, "CLOSED") || same(state, "closed") {
        Ok(PullRequestState::Closed)
    } else {
        Err(UnknownPullRequestState { state: state.to_owned() })
    }
}

impl PullRequestNode {
    /// The pull request that this describes, if its state is known.
    pub open spec fn pull_request(self) -> Option<PullRequestView> {
        match state_called(self.merged, self.state@) {
            Some(state) => Some(
                PullRequestView {
                    number: self.number,
                    title: self.title@,
                    url: self.url@,
                    state,
                    base_branch: self.base_ref_name@,
                    merge_commit_sha: opt_view(self.merge_commit),
                },
            ),
            None => None,
        }
    }

    /// Reads the description of a pull request.
    pub fn try_into_pull_request(self) -> (r: Result<PullRequest, UnknownPullRequestState>)
        ensures
            match r {
                Ok(pr) => self.pull_request() == Some(pr@),
                Err(error) => self.pull_request() is None && error.state@ == self.state@,
            },
    {
        let state = match parse_state(self.merged, self.state.as_str()) {
            Ok(state) => state,
            Err(error) => {
                return Err(error);
            },
        };
        let merge_commit_sha = match self.merge_commit {
            Some(commit) => Some(commit.oid),
            None => None,
        };
        Ok(
            PullRequest {
                number: self.number,
                title: self.title,
                url: self.url,
                state,
                base_branch: self.base_ref_name,
                merge_commit_sha,
            },
        )
    }
}

/// What to search for: pull requests about `query` that are younger than `date`,
/// the newest first.
pub open spec fn pr_terms(query: Seq<char>, date: Seq<char>) -> Seq<char> {
    "repo:NixOS/nixpkgs "@ + query + " type:pr created:>"@ + date + " sort:created-desc"@
}

/// The request for the pull requests about `query` that are younger than `date`.
pub fn request_since(query: &str, date: &str) -> (r: GraphqlRequest)
    ensures
        r.query@ == SEARCH_PULL_REQUESTS_QUERY@,
        text_members(r.variables) == map!["query"@ => pr_terms(query@, date@)],
        number_members(r.variables) == map!["first"@ => SEARCH_LIMIT],
        member_keys(r.variables) == set!["query"@, "first"@],
{
    let mut terms = "repo:NixOS/nixpkgs ".to_owned();
    terms.append(query);
    terms.append(" type:pr created:>");
    terms.append(date);
    terms.append(" sort:created-desc");
    let mut variables = no_variables();
    insert_text(&mut variables, "query".to_owned(), terms);
    insert_number(&mut variables, "first".to_owned(), SEARCH_LIMIT);
    proof {
        reveal_strlit("query");
        reveal_strlit("first");
        assert("query"@[0] != "first"@[0]);
        assert(text_members(variables) =~= map!["query"@ => pr_terms(query@, date@)]);
        assert(number_members(variables) =~= map!["first"@ => SEARCH_LIMIT]);
        assert(member_keys(variables) =~= set!["query"@, "first"@]);
    }
    GraphqlRequest { query: SEARCH_PULL_REQUESTS_QUERY, variables }
}

/// What to search for: pull requests about `query` of the last `days` days, at the
/// second `now`.
pub open spec fn recent_terms(query: Seq<char>, days: u32, now: i64) -> Seq<char> {
    pr_terms(query, date_before(now, days))
}

/// The request for the pull requests about `query` of the last `days` days, at the
/// second `now`.
pub fn search_request(query: &str, days: u32, now: i64) -> (r: GraphqlRequest)
    requires
        has_date_before(now, days),
    ensures
        r.query@ == SEARCH_PULL_REQUESTS_QUERY@,
        text_members(r.variables) == map!["query"@ => recent_terms(query@, days, now)],
        number_members(r.variables) == map!["first"@ => SEARCH_LIMIT],
        member_keys(r.variables) == set!["query"@, "first"@],
{
    let date = days_before(now, days);
    request_since(query, date.as_str())
}

/// The request for the pull request `number`.
pub fn lookup_request(number: u64) -> (r: GraphqlRequest)
    ensures
        r.query@ == PULL_REQUEST_QUERY@,
        (text_members(r.variables) == Map::<Seq<char>, Seq<char>>::empty()),
        number_members(r.variables) == map!["number"@ => number],
        member_keys(r.variables) == set!["number"@],
{
    let mut variables = no_variables();
    insert_number(&mut variables, "number".to_owned(), number);
    proof {
        assert(text_members(variables) =~= Map::<Seq<char>, Seq<char>>::empty());
        assert(number_members(variables) =~= map!["number"@ => number]);
        assert(member_keys(variables) =~= set!["number"@]);
    }
    GraphqlRequest { query: PULL_REQUEST_QUERY, variables }
}

/// The pull requests that `nodes` describe, in order, without the empty
/// places; or the first state that is unknown.
pub open spec fn read_pull_requests(nodes: Seq<Option<PullRequestNode>>) -> Result<
    Seq<PullRequestView>,
    Seq<char>,
>
    decreases nodes.len(),
{
    if nodes.len() == 0 {
        Ok(Seq::empty())
    } else {
        match (read_pull_requests(nodes.drop_last()), nodes.last()) {
            (Err(state), _) => Err(state),
            (Ok(read), None) => Ok(read),
            (Ok(read), Some(node)) => match node.pull_request() {
                Some(pr) => Ok(read.push(pr)),
                None => Err(node.state@),
            },
        }
    }
}

/// An unknown state makes the whole list unreadable, whatever follows it.
proof fn unknown_state_stays(nodes: Seq<Option<PullRequestNode>>, n: int)
    requires
        0 <= n <= nodes.len(),
        read_pull_requests(nodes.take(n)) is Err,
    ensures
        read_pull_requests(nodes) == read_pull_requests(nodes.take(n)),
    decreases nodes.len(),
{
    if n == nodes.len() {
        assert(nodes.take(n) =~= nodes);
    } else {
        assert(nodes.drop_last().take(n) =~= nodes.take(n));
        unknown_state_stays(nodes.drop_last(), n);
    }
}

/// Reads what a search returned.
pub fn collect_pull_requests(nodes: Vec<Option<PullRequestNode>>) -> (r: Result<
    Vec<PullRequest>,
    UnknownPullRequestState,
>)
    ensures
        match r {
            Ok(prs) => read_pull_requests(nodes@) == Ok::<Seq<PullRequestView>, Seq<char>>(views(prs@)),
            Err(error) => read_pull_requests(nodes@) == Err::<Seq<PullRequestView>, Seq<char>>(error.state@),
        },
{
    let ghost all = nodes@;
    let mut prs: Vec<PullRequest> = Vec::new();
    assert(views(prs@) =~= Seq::empty());
    for node in it: nodes
        invariant
            it.seq() == all,
            read_pull_requests(all.take(it.index() as int)) == Ok::<Seq<PullRequestView>, Seq<char>>(
                views(prs@),
            ),
    {
        let ghost done = it.index() as int;
        proof {
            assert(all.take(done + 1).drop_last() =~= all.take(done));
            assert(all.take(done + 1).last() == node);
        }
        if let Some(described) = node {
            match described.try_into_pull_request() {
                Ok(pr) => {
                    let ghost before = views(prs@);
                    prs.push(pr);
                    assert(views(prs@) =~= before.push(pr@));
                },
                Err(error) => {
                    proof {
                        unknown_state_stays(all, done + 1);
                    }
                    return Err(error);
                },
            }
        }
    }
    assert(all.take(all.len() as int) =~= all);
    Ok(prs)
}

/// Reads what a look-up returned: nothing, or a pull request.
pub fn looked_up(node: Option<PullRequestNode>) -> (r: Result<Option<PullRequest>, UnknownPullRequestState>)
    ensures
        r is Ok <==> (node matches Some(described) ==> described.pull_request() is Some),
        r matches Ok(pr) ==> (pr is None <==> node is None),
        r matches Ok(Some(pr)) ==> node->0.pull_request() == Some(pr@),
        r matches Err(error) ==> error.state@ == node->0.state@,
{
    match node {
        None => Ok(None),
        Some(described) => match described.try_into_pull_request() {
            Ok(pr) => Ok(Some(pr)),
            Err(error) => Err(error),
        },
    }
}

/// `query` without whitespace around it, and without a hash sign in front.
pub open spec fn without_hash(query: Seq<char>) -> Seq<char> {
    let trimmed_query = trimmed(query);
    if trimmed_query.len() > 0 && trimmed_query[0] == '#' {
        trimmed_query.skip(1)
    } else {
        trimmed_query
    }
}

/// The number of the pull request that `query` names, if it names one: a row
/// of digits, with or without a hash sign in front.
pub open spec fn direct_number(query: Seq<char>) -> Option<u64> {
    let number = without_hash(query);
    if number.len() > 0 && all_digits(number) && decimal_value(number) <= u64::MAX {
        Some(decimal_value(number) as u64)
    } else {
        None
    }
}

/// The number of the pull request that `query` names, if it names one.
pub fn parse_direct_pr_number(query: &str) -> (r: Option<u64>)
    ensures
        r == direct_number(query@),
{
    let query = trim(query);
    proof {
        reveal_strlit("#");
        let head = query@.take(1);
        assert(query@.len() > 0 && query@[0] == '#' ==> head =~= "#"@);
        assert(query@.len() > 0 && head == "#"@ ==> head[0] == '#');
    }
    match strip_prefix(query.as_str(), "#") {
        Some(number) => parse_digits(number.as_str()),
        None => parse_digits(query.as_str()),
    }
}

/// The number of a pull request, as it is written, names that request, with
/// or without a hash sign in front.
pub proof fn number_names_its_request(n: u64)
    ensures
        direct_number(decimal(n as nat)) == Some(n),
        direct_number(seq!['#'] + decimal(n as nat)) == Some(n),
{
    let d = decimal(n as nat);
    decimal_reads_back(n as nat);
    assert(!is_whitespace(d[0]));
    assert(!is_whitespace(d.last()));
    let h = seq!['#'] + d;
    assert(h.last() == d.last());
    assert(h[0] == '#');
    assert(h.skip(1) =~= d);
}

/// The state of a pull request that is not merged is read from its name, in
/// small letters and in capitals.
pub proof fn state_is_read_in_either_case(state: PullRequestState)
    requires
        state != PullRequestState::Merged,
    ensures
        state_called(false, state.name()) == Some(state),
        state_called(false, upper_case(state.name())) == Some(state),
{
    reveal_strlit("open");
    reveal_strlit("OPEN");
    reveal_strlit("closed");
    reveal_strlit("CLOSED");
    assert(upper_case("open"@) =~= "OPEN"@);
    assert(upper_case("closed"@) =~= "CLOSED"@);
    assert("open"@.len() == 4 && "OPEN"@.len() == 4);
    assert("closed"@.len() == 6 && "CLOSED"@.len() == 6);
}

/// A text that is read as a state is the name of this state, in small letters
/// or in capitals.
pub proof fn state_has_the_name_it_is_read_from(text: Seq<char>)
    ensures
        state_called(true, text) == Some(PullRequestState::Merged),
        state_called(false, text) != Some(PullRequestState::Merged),
        state_called(false, text) matches Some(state) ==> text == state.name() || text == upper_case(state.name()),
{
    reveal_strlit("open");
    reveal_strlit("OPEN");
    reveal_strlit("closed");
    reveal_strlit("CLOSED");
    assert(upper_case("open"@) =~= "OPEN"@);
    assert(upper_case("closed"@) =~= "CLOSED"@);
}

/// A pull request is what its description says, and can be read if it is
/// merged or its state can be read. Its commit is the one described, merged or
/// not.
pub proof fn request_is_as_described(node: PullRequestNode)
    ensures
        node.pull_request() is Some <==> node.merged || state_called(false, node.state@) is Some,
        node.pull_request() matches Some(pr) ==> pr.number == node.number && pr.title == node.title@ && pr.url
            == node.url@ && pr.base_branch == node.base_ref_name@ && (pr.state == PullRequestState::Merged
            <==> node.merged) && (node.merge_commit matches Some(commit) ==> pr.merge_commit_sha == Some(
            commit.oid@,
        )) && (node.merge_commit is None ==> pr.merge_commit_sha is None),
{
}

/// Two lists are read one after the other: what the first holds comes first,
/// and what cannot be read in it counts first.
pub proof fn lists_are_read_one_after_another(a: Seq<Option<PullRequestNode>>, b: Seq<Option<PullRequestNode>>)
    ensures
        read_pull_requests(a + b) == match (read_pull_requests(a), read_pull_requests(b)) {
            (Ok(some), Ok(more)) => Ok::<Seq<PullRequestView>, Seq<char>>(some + more),
            (Ok(_), Err(state)) => Err(state),
            (Err(state), _) => Err(state),
        },
    decreases b.len(),
{
    if b.len() == 0 {
        assert(a + b =~= a);
        if let Ok(some) = read_pull_requests(a) {
            assert(some + Seq::<PullRequestView>::empty() =~= some);
        }
    } else {
        lists_are_read_one_after_another(a, b.drop_last());
        assert((a + b).drop_last() =~= a + b.drop_last());
        assert((a + b).last() == b.last());
        if let (Ok(some), Ok(more), Some(node)) = (read_pull_requests(a), read_pull_requests(b.drop_last()), b.last()) {
            if let Some(read) = node.pull_request() {
                assert(some + more.push(read) =~= (some + more).push(read));
            }
        }
    }
}

/// An empty place holds nothing, and a description what it describes, or a
/// state that is unknown.
pub proof fn each_place_is_read_by_itself(node: PullRequestNode)
    ensures
        read_pull_requests(Seq::empty()) == Ok::<Seq<PullRequestView>, Seq<char>>(Seq::empty()),
        read_pull_requests(seq![None]) == Ok::<Seq<PullRequestView>, Seq<char>>(Seq::empty()),
        read_pull_requests(seq![Some(node)]) == match node.pull_request() {
            Some(read) => Ok::<Seq<PullRequestView>, Seq<char>>(seq![read]),
            None => Err(node.state@),
        },
{
    reveal_with_fuel(read_pull_requests, 2);
    assert(seq![None::<PullRequestNode>].drop_last() =~= Seq::empty());
    assert(seq![Some(node)].drop_last() =~= Seq::empty());
    if let Some(read) = node.pull_request() {
        assert(Seq::<PullRequestView>::empty().push(read) =~= seq![read]);
    }
}

/// The terms of a search are words with a space between each two: the
/// repository, the query as it was given, the kind, the date as it was given,
/// and the order.
pub proof fn terms_hold_query_and_date(query: Seq<char>, date: Seq<char>)
    ensures
        pr_terms(query, date) == joined(
            seq!["repo:NixOS/nixpkgs"@, query, "type:pr"@, "created:>"@ + date, "sort:created-desc"@],
            " "@,
        ),
{
    reveal_strlit("repo:NixOS/nixpkgs ");
    reveal_strlit("repo:NixOS/nixpkgs");
    reveal_strlit(" ");
    reveal_strlit(" type:pr created:>");
    reveal_strlit("type:pr");
    reveal_strlit("created:>");
    reveal_strlit(" sort:created-desc");
    reveal_strlit("sort:created-desc");
    let dated = "created:>"@ + date;
    let words = seq!["repo:NixOS/nixpkgs"@, query, "type:pr"@, dated, "sort:created-desc"@];
    reveal_with_fuel(joined, 6);
    let w4 = words.drop_last();
    let w3 = w4.drop_last();
    let w2 = w3.drop_last();
    let w1 = w2.drop_last();
    assert(w4 =~= seq!["repo:NixOS/nixpkgs"@, query, "type:pr"@, dated]);
    assert(w3 =~= seq!["repo:NixOS/nixpkgs"@, query, "type:pr"@]);
    assert(w2 =~= seq!["repo:NixOS/nixpkgs"@, query]);
    assert(w1 =~= seq!["repo:NixOS/nixpkgs"@]);
    assert(joined(w1, " "@) == "repo:NixOS/nixpkgs"@);
    assert(joined(w2, " "@) == "repo:NixOS/nixpkgs"@ + " "@ + query);
    assert(joined(w3, " "@) == "repo:NixOS/nixpkgs"@ + " "@ + query + " "@ + "type:pr"@);
    assert(joined(w4, " "@) == "repo:NixOS/nixpkgs"@ + " "@ + query + " "@ + "type:pr"@ + " "@ + dated);
    assert(pr_terms(query, date) =~= joined(words, " "@));
}

/// A query names a pull request if and only if it is a row of digits, with one
/// hash sign in front or none, and whitespace around it or none; the number is
/// the one that the digits denote.
pub proof fn only_numbers_name_requests(query: Seq<char>)
    ensures
        direct_number(query) == direct_number(trimmed(query)),
        direct_number(query) matches Some(n) ==> exists|row: Seq<char>|
            #[trigger] all_digits(row) && row.len() > 0 && decimal_value(row) == n && (trimmed(query) == row
                || trimmed(query) == seq!['#'] + row),
        forall|row: Seq<char>| #[trigger]
            all_digits(row) && row.len() > 0 && decimal_value(row) <= u64::MAX && (trimmed(query) == row || trimmed(
                query,
            ) == seq!['#'] + row) ==> direct_number(query) == Some(decimal_value(row) as u64),
{
    trimmed_is_trimmed(query);
    let text = trimmed(query);
    let row = without_hash(query);
    if text.len() > 0 && text[0] == '#' {
        assert(text =~= seq!['#'] + row);
    }
    if direct_number(query) is Some {
        assert(all_digits(row));
    }
    assert forall|given: Seq<char>| #[trigger]
        all_digits(given) && given.len() > 0 && decimal_value(given) <= u64::MAX && (text == given || text
            == seq!['#'] + given) implies direct_number(query) == Some(decimal_value(given) as u64) by {
        if text == given {
            assert(given[0] != '#');
            assert(row == given);
        } else {
            assert(text[0] == '#');
            assert(text.skip(1) =~= given);
        }
    }
}

/// A search for the last days asks for what is younger than the second that
/// many days ago: a day more is the same as the second a day earlier.
pub proof fn recent_is_counted_in_days(query: Seq<char>, days: u32, now: i64)
    requires
        has_date_before(now, days),
    ensures
        recent_terms(query, 0, now) == pr_terms(query, rfc3339(now)),
        recent_terms(query, days, now) == recent_terms(query, 0, (now - days * 24 * 60 * 60) as i64),
{
    days_add_up(now, days, 0);
    no_day_goes_back_by_nothing(now);
    no_day_goes_back_by_nothing((now - days * 86400) as i64);
    assert(days * 24 * 60 * 60 == days * 86400) by (nonlinear_arith);
}

} // verus!
