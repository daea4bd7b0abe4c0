//! Searching the issues of nixpkgs.
use vstd::prelude::*;
use vstd::string::*;

use crate::github::date::{
    date_before, days_add_up, days_before, has_date_before, no_day_goes_back_by_nothing, rfc3339,
};
use crate::github::json::{insert_number, insert_text, member_keys, no_variables, number_members, text_members};
use crate::github::transport::GraphqlRequest;
use crate::text::{joined, same, upper_case, views};

verus! {

/// How many issues a search returns at most.
pub const SEARCH_LIMIT: u64 = 100;

/// The search for issues, in GraphQL.
pub const SEARCH_ISSUES_QUERY: &'static str = "
query($query: String!, $first: Int!) {
  search(type: ISSUE, query: $query, first: $first) {
    nodes {
      ... on Issue {
        number
        title
        url
        state
      }
    }
  }
}
";

/// An issue of nixpkgs.
#[derive(Debug, Clone, PartialEq, Eq)]
pub struct Issue {
    pub number: u64,
    pub title: String,
    pub url: String,
    pub state: IssueState,
}

/// What an issue stands for.
pub struct IssueView {
    pub number: u64,
    pub title: Seq<char>,
    pub url: Seq<char>,
    pub state: IssueState,
}

impl View for Issue {
    type V = IssueView;

    open spec fn view(&self) -> IssueView {
        IssueView { number: self.number, title: self.title@, url: self.url@, state: self.state }
    }
}

/// Whether an issue is settled.
#[derive(Debug, Clone, Copy, PartialEq, Eq, Structural)]
pub enum IssueState {
    Open,
    Closed,
}

impl IssueState {
    /// The name of the state.
    pub open spec fn name(self) -> Seq<char> {
        match self {
            IssueState::Open => "open"@,
            IssueState::Closed => "closed"@,
        }
    }

    /// The name of the state.
    pub fn as_str(self) -> (r: &'static str)
        ensures
            r@ == self.name(),
    {
        match self {
            IssueState::Open => "open",
            IssueState::Closed => "closed",
        }
    }
}

/// An issue as GitHub describes it.
#[derive(Debug, Clone, PartialEq, Eq)]
pub struct IssueNode {
    pub number: u64,
    pub title: String,
    pub url: String,
    pub state: String,
}

/// A state that no issue has.
#[derive(Debug, Clone, PartialEq, Eq)]
pub struct UnknownIssueState {
    pub state: String,
}

impl UnknownIssueState {
    /// What to tell the user.
    pub fn message(&self) -> (r: String)
        ensures
            r@ == "unknown GitHub issue state "@ + self.state@,
    {
        let mut out = "unknown GitHub issue state ".to_owned();
        out.append(self.state.as_str());
        out
    }
}

/// The state that GitHub calls `state`, if it is one.
pub open spec fn state_called(state: Seq<char>) -> Option<IssueState> {
    if state == "OPEN"@ || state == "open"@ {
        Some(IssueState::Open)
    } else if state == "CLOSED"@ || state == "closed"@ {
        Some(IssueState::Closed)
    } else {
        None
    }
}

/// Reads a state.
pub fn parse_state(state: &str) -> (r: Result<IssueState, UnknownIssueState>)
    ensures
        match r {
            Ok(known) => state_called(state@) == Some(known),
            Err(error) => state_called(state@) is None && error.state@ == state@,
        },
{
    if same(state, "OPEN") || same(state, "open") {
        Ok(IssueState::Open)
    } else if same(state, "CLOSED") || same(state, "closed") {
        Ok(IssueState::Closed)
    } else {
        Err(UnknownIssueState { state: state.to_owned() })
    }
}

impl IssueNode {
    /// The issue that this describes, if its state is known.
    pub open spec fn issue(self) -> Option<IssueView> {
        match state_called(self.state@) {
            Some(state) => Some(IssueView { number: self.number, title: self.title@, url: self.url@, state }),
            None => None,
        }
    }

    /// Reads the description of an issue.
    pub fn try_into_issue(self) -> (r: Result<Issue, UnknownIssueState>)
        ensures
            match r {
                Ok(issue) => self.issue() == Some(issue@),
                Err(error) => self.issue() is None && error.state@ == self.state@,
            },
    {
        match parse_state(self.state.as_str()) {
            Ok(state) => Ok(Issue { number: self.number, title: self.title, url: self.url, state }),
            Err(error) => Err(error),
        }
    }
}

/// What to search for: issues about `query` that are younger than `date`,
/// the newest first.
pub open spec fn issue_terms(query: Seq<char>, date: Seq<char>) -> Seq<char> {
    "repo:NixOS/nixpkgs "@ + query + " type:issue created:>"@ + date + " sort:created-desc"@
}

/// The request for the issues about `query` that are younger than `date`.
pub fn request_since(query: &str, date: &str) -> (r: GraphqlRequest)
    ensures
        r.query@ == SEARCH_ISSUES_QUERY@,
        text_members(r.variables) == map!["query"@ => issue_terms(query@, date@)],
        number_members(r.variables) == map!["first"@ => SEARCH_LIMIT],
        member_keys(r.variables) == set!["query"@, "first"@],
{
    let mut terms = "repo:NixOS/nixpkgs ".to_owned();
    terms.append(query);
    terms.append(" type:issue created:>");
    terms.append(date);
    terms.append(" sort:created-desc");
    let mut variables = no_variables();
    insert_text(&mut variables, "query".to_owned(), terms);
    insert_number(&mut variables, "first".to_owned(), SEARCH_LIMIT);
    proof {
        reveal_strlit("query");
        reveal_strlit("first");
        assert("query"@[0] != "first"@[0]);
        assert(text_members(variables) =~= map!["query"@ => issue_terms(query@, date@)]);
        assert(number_members(variables) =~= map!["first"@ => SEARCH_LIMIT]);
        assert(member_keys(variables) =~= set!["query"@, "first"@]);
    }
    GraphqlRequest { query: SEARCH_ISSUES_QUERY, variables }
}

/// What to search for: issues about `query` of the last `days` days, at the
/// second `now`.
pub open spec fn recent_terms(query: Seq<char>, days: u32, now: i64) -> Seq<char> {
    issue_terms(query, date_before(now, days))
}

/// The request for the issues about `query` of the last `days` days, at the
/// second `now`.
pub fn search_request(query: &str, days: u32, now: i64) -> (r: GraphqlRequest)
    requires
        has_date_before(now, days),
    ensures
        r.query@ == SEARCH_ISSUES_QUERY@,
        text_members(r.variables) == map!["query"@ => recent_terms(query@, days, now)],
        number_members(r.variables) == map!["first"@ => SEARCH_LIMIT],
        member_keys(r.variables) == set!["query"@, "first"@],
{
    let date = days_before(now, days);
    request_since(query, date.as_str())
}

/// The issues that `nodes` describe, in order, without the empty places; or
/// the first state that is unknown.
pub open spec fn read_issues(nodes: Seq<Option<IssueNode>>) -> Result<Seq<IssueView>, Seq<char>>
    decreases nodes.len(),
{
    if nodes.len() == 0 {
        Ok(Seq::empty())
    } else {
        match (read_issues(nodes.drop_last()), nodes.last()) {
            (Err(state), _) => Err(state),
            (Ok(read), None) => Ok(read),
            (Ok(read), Some(node)) => match node.issue() {
                Some(issue) => Ok(read.push(issue)),
                None => Err(node.state@),
            },
        }
    }
}

/// An unknown state makes the whole list unreadable, whatever follows it.
proof fn unknown_state_stays(nodes: Seq<Option<IssueNode>>, n: int)
    requires
        0 <= n <= nodes.len(),
        read_issues(nodes.take(n)) is Err,
    ensures
        read_issues(nodes) == read_issues(nodes.take(n)),
    decreases nodes.len(),
{
    if n == nodes.len() {
        assert(nodes.take(n) =~= nodes);
    } else {
        assert(nodes.drop_last().take(n) =~= nodes.take(n));
        unknown_state_stays(nodes.drop_last(), n);
    }
}

/// Reads what a search returned.
pub fn collect_issues(nodes: Vec<Option<IssueNode>>) -> (r: Result<Vec<Issue>, UnknownIssueState>)
    ensures
        match r {
            Ok(issues) => read_issues(nodes@) == Ok::<Seq<IssueView>, Seq<char>>(views(issues@)),
            Err(error) => read_issues(nodes@) == Err::<Seq<IssueView>, Seq<char>>(error.state@),
        },
{
    let ghost all = nodes@;
    let mut issues: Vec<Issue> = Vec::new();
    assert(views(issues@) =~= Seq::empty());
    for node in it: nodes
        invariant
            it.seq() == all,
            read_issues(all.take(it.index() as int)) == Ok::<Seq<IssueView>, Seq<char>>(views(issues@)),
    {
        let ghost done = it.index() as int;
        proof {
            assert(all.take(done + 1).drop_last() =~= all.take(done));
            assert(all.take(done + 1).last() == node);
        }
        if let Some(described) = node {
            match described.try_into_issue() {
                Ok(issue) => {
                    let ghost before = views(issues@);
                    issues.push(issue);
                    assert(views(issues@) =~= before.push(issue@));
                },
                Err(error) => {
                    proof {
                        unknown_state_stays(all, done + 1);
                    }
                    return Err(error);
                },
            }
        }
    }
    assert(all.take(all.len() as int) =~= all);
    Ok(issues)
}

/// The state of an issue is read from its name, in small letters and in
/// capitals.
pub proof fn state_is_read_in_either_case(state: IssueState)
    ensures
        state_called(state.name()) == Some(state),
        state_called(upper_case(state.name())) == Some(state),
{
    reveal_strlit("open");
    reveal_strlit("OPEN");
    reveal_strlit("closed");
    reveal_strlit("CLOSED");
    assert(upper_case("open"@) =~= "OPEN"@);
    assert(upper_case("closed"@) =~= "CLOSED"@);
    assert("open"@.len() == 4 && "OPEN"@.len() == 4);
    assert("closed"@.len() == 6 && "CLOSED"@.len() == 6);
}

/// A text that is read as a state is the name of this state, in small letters
/// or in capitals.
pub proof fn state_has_the_name_it_is_read_from(text: Seq<char>)
    ensures
        state_called(text) matches Some(state) ==> text == state.name() || text == upper_case(state.name()),
{
    reveal_strlit("open");
    reveal_strlit("OPEN");
    reveal_strlit("closed");
    reveal_strlit("CLOSED");
    assert(upper_case("open"@) =~= "OPEN"@);
    assert(upper_case("closed"@) =~= "CLOSED"@);
}

/// An issue is what its description says, and can be read if its state can.
pub proof fn issue_is_as_described(node: IssueNode)
    ensures
        node.issue() is Some <==> state_called(node.state@) is Some,
        node.issue() matches Some(issue) ==> issue.number == node.number && issue.title == node.title@
            && issue.url == node.url@ && state_called(node.state@) == Some(issue.state),
{
}

/// Two lists are read one after the other: what the first holds comes first,
/// and what cannot be read in it counts first.
pub proof fn lists_are_read_one_after_another(a: Seq<Option<IssueNode>>, b: Seq<Option<IssueNode>>)
    ensures
        read_issues(a + b) == match (read_issues(a), read_issues(b)) {
            (Ok(some), Ok(more)) => Ok::<Seq<IssueView>, Seq<char>>(some + more),
            (Ok(_), Err(state)) => Err(state),
            (Err(state), _) => Err(state),
        },
    decreases b.len(),
{
    if b.len() == 0 {
        assert(a + b =~= a);
        if let Ok(some) = read_issues(a) {
            assert(some + Seq::<IssueView>::empty() =~= some);
        }
    } else {
        lists_are_read_one_after_another(a, b.drop_last());
        assert((a + b).drop_last() =~= a + b.drop_last());
        assert((a + b).last() == b.last());
        if let (Ok(some), Ok(more), Some(node)) = (read_issues(a), read_issues(b.drop_last()), b.last()) {
            if let Some(read) = node.issue() {
                assert(some + more.push(read) =~= (some + more).push(read));
            }
        }
    }
}

/// An empty place holds nothing, and a description what it describes, or a
/// state that is unknown.
pub proof fn each_place_is_read_by_itself(node: IssueNode)
    ensures
        read_issues(Seq::empty()) == Ok::<Seq<IssueView>, Seq<char>>(Seq::empty()),
        read_issues(seq![None]) == Ok::<Seq<IssueView>, Seq<char>>(Seq::empty()),
        read_issues(seq![Some(node)]) == match node.issue() {
            Some(read) => Ok::<Seq<IssueView>, Seq<char>>(seq![read]),
            None => Err(node.state@),
        },
{
    reveal_with_fuel(read_issues, 2);
    assert(seq![None::<IssueNode>].drop_last() =~= Seq::empty());
    assert(seq![Some(node)].drop_last() =~= Seq::empty());
    if let Some(read) = node.issue() {
        assert(Seq::<IssueView>::empty().push(read) =~= seq![read]);
    }
}

/// The terms of a search are words with a space between each two: the
/// repository, the query as it was given, the kind, the date as it was given,
/// and the order.
pub proof fn terms_hold_query_and_date(query: Seq<char>, date: Seq<char>)
    ensures
        issue_terms(query, date) == joined(
            seq!["repo:NixOS/nixpkgs"@, query, "type:issue"@, "created:>"@ + date, "sort:created-desc"@],
            " "@,
        ),
{
    reveal_strlit("repo:NixOS/nixpkgs ");
    reveal_strlit("repo:NixOS/nixpkgs");
    reveal_strlit(" ");
    reveal_strlit(" type:issue created:>");
    reveal_strlit("type:issue");
    reveal_strlit("created:>");
    reveal_strlit(" sort:created-desc");
    reveal_strlit("sort:created-desc");
    let dated = "created:>"@ + date;
    let words = seq!["repo:NixOS/nixpkgs"@, query, "type:issue"@, dated, "sort:created-desc"@];
    reveal_with_fuel(joined, 6);
    let w4 = words.drop_last();
    let w3 = w4.drop_last();
    let w2 = w3.drop_last();
    let w1 = w2.drop_last();
    assert(w4 =~= seq!["repo:NixOS/nixpkgs"@, query, "type:issue"@, dated]);
    assert(w3 =~= seq!["repo:NixOS/nixpkgs"@, query, "type:issue"@]);
    assert(w2 =~= seq!["repo:NixOS/nixpkgs"@, query]);
    assert(w1 =~= seq!["repo:NixOS/nixpkgs"@]);
    assert(joined(w1, " "@) == "repo:NixOS/nixpkgs"@);
    assert(joined(w2, " "@) == "repo:NixOS/nixpkgs"@ + " "@ + query);
    assert(joined(w3, " "@) == "repo:NixOS/nixpkgs"@ + " "@ + query + " "@ + "type:issue"@);
    assert(joined(w4, " "@) == "repo:NixOS/nixpkgs"@ + " "@ + query + " "@ + "type:issue"@ + " "@ + dated);
    assert(issue_terms(query, date) =~= joined(words, " "@));
}

/// A search for the last days asks for what is younger than the second that
/// many days ago: a day more is the same as the second a day earlier.
pub proof fn recent_is_counted_in_days(query: Seq<char>, days: u32, now: i64)
    requires
        has_date_before(now, days),
    ensures
        recent_terms(query, 0, now) == issue_terms(query, rfc3339(now)),
        recent_terms(query, days, now) == recent_terms(query, 0, (now - days * 24 * 60 * 60) as i64),
{
    days_add_up(now, days, 0);
    no_day_goes_back_by_nothing(now);
    no_day_goes_back_by_nothing((now - days * 86400) as i64);
    assert(days * 24 * 60 * 60 == days * 86400) by (nonlinear_arith);
}

} // verus!
