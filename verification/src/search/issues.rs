//! The search for issues.
use vstd::prelude::*;
use vstd::string::*;

use crate::github::issues::{Issue, IssueView};
use crate::text::{decimal, decimal_text, holds, joined, stands_in_the_middle, views};
use crate::search::online::query_text;

verus! {

/// How many days back a search goes, unless the user says otherwise.
pub const DEFAULT_DAYS: u32 = 15;

/// What to search for, and how many days back.
#[derive(Debug, Clone, PartialEq, Eq)]
pub struct IssueSearch {
    pub query: String,
    pub days: u32,
}

/// How many days back a search goes, where the user gave `days`.
pub open spec fn days_back(days: Option<u32>) -> u32 {
    match days {
        Some(given) => given,
        None => DEFAULT_DAYS,
    }
}

impl IssueSearch {
    /// The search for `words`, `days` days back if the user gave a number.
    pub fn new(words: &[String], days: Option<u32>) -> (r: Self)
        ensures
            r.query@ == joined(views(words@), " "@),
            r.days == days_back(days),
    {
        let days: u32 = match days {
            Some(given) => given,
            None => DEFAULT_DAYS,
        };
        IssueSearch { query: query_text(words), days }
    }

    /// What to show while the search is made.
    pub open spec fn progress_text(self) -> Seq<char> {
        "Searching NixOS/nixpkgs issues for "@ + self.query@ + "..."@
    }

    /// What to show where nothing was found.
    pub open spec fn nothing_found_text(self) -> Seq<char> {
        "No issues found for '"@ + self.query@ + "' in the last "@ + decimal(self.days as nat) + " days."@
    }

    /// What to show while the search is made.
    pub fn progress(&self) -> (r: String)
        ensures
            r@ == self.progress_text(),
    {
        let mut out = "Searching NixOS/nixpkgs issues for ".to_owned();
        out.append(self.query.as_str());
        out.append("...");
        out
    }

    /// What to show where nothing was found.
    pub fn nothing_found(&self) -> (r: String)
        ensures
            r@ == self.nothing_found_text(),
    {
        let mut out = "No issues found for '".to_owned();
        out.append(self.query.as_str());
        out.append("' in the last ");
        out.append(decimal_text(self.days as u128).as_str());
        out.append(" days.");
        out
    }
}

/// What a search for issues brought, to be written as JSON.
#[derive(Debug, Clone, PartialEq, Eq)]
pub struct IssueSearchJsonOutput {
    pub query: String,
    pub days: u32,
    pub elapsed_ms: u128,
    pub results: Vec<IssueJsonResult>,
}

/// An issue, to be written as JSON.
#[derive(Debug, Clone, PartialEq, Eq)]
pub struct IssueJsonResult {
    pub number: u64,
    pub title: String,
    pub url: String,
    pub state: &'static str,
}

/// What an issue to be written stands for.
pub struct IssueJsonView {
    pub number: u64,
    pub title: Seq<char>,
    pub url: Seq<char>,
    pub state: Seq<char>,
}

impl View for IssueJsonResult {
    type V = IssueJsonView;

    open spec fn view(&self) -> IssueJsonView {
        IssueJsonView { number: self.number, title: self.title@, url: self.url@, state: self.state@ }
    }
}

/// An issue, as it is written.
pub open spec fn issue_json(issue: IssueView) -> IssueJsonView {
    IssueJsonView { number: issue.number, title: issue.title, url: issue.url, state: issue.state.name() }
}

/// Issues as they are written.
pub open spec fn issues_json(issues: Seq<IssueView>) -> Seq<IssueJsonView> {
    issues.map_values(|issue: IssueView| issue_json(issue))
}

/// What a search for issues brought, to be written as JSON.
pub fn print_json(query: String, days: u32, elapsed_ms: u128, issues: &[Issue]) -> (r: IssueSearchJsonOutput)
    ensures
        r.query@ == query@,
        r.days == days,
        r.elapsed_ms == elapsed_ms,
        views(r.results@) == issues_json(views(issues@)),
{
    let ghost all = issues_json(views(issues@));
    let mut results: Vec<IssueJsonResult> = Vec::new();
    let mut i: usize = 0;
    while i < issues.len()
        invariant
            0 <= i <= issues@.len(),
            results@.len() == i,
            all == issues_json(views(issues@)),
            forall|j: int| 0 <= j < i ==> (#[trigger] results@[j])@ == all[j],
        decreases issues@.len() - i,
    {
        results.push(
            IssueJsonResult {
                number: issues[i].number,
                title: issues[i].title.clone(),
                url: issues[i].url.clone(),
                state: issues[i].state.as_str(),
            },
        );
        i += 1;
    }
    assert(views(results@) =~= all);
    IssueSearchJsonOutput { query, days, elapsed_ms, results }
}

/// What is written of an issue is what it is.
pub proof fn json_holds_the_issue(issue: IssueView)
    ensures
        issue_json(issue).number == issue.number,
        issue_json(issue).title == issue.title,
        issue_json(issue).url == issue.url,
        issue_json(issue).state == issue.state.name(),
{
}

/// Every issue is written, in order.
pub proof fn each_issue_is_written(issues: Seq<IssueView>)
    ensures
        issues_json(issues).len() == issues.len(),
        forall|i: int|
            0 <= i < issues.len() ==> (#[trigger] issues_json(issues)[i]).number == issues[i].number && issues_json(
                issues,
            )[i].title == issues[i].title && issues_json(issues)[i].url == issues[i].url && issues_json(issues)[i].state
                == issues[i].state.name(),
{
}

/// A search goes back as many days as the user says, and half a month where
/// they say nothing.
pub proof fn given_days_count(days: u32)
    ensures
        days_back(Some(days)) == days,
        days_back(None) == 15,
{
}

/// What is shown of a search names the query, and where nothing was found the
/// days that it went back.
pub proof fn search_is_named(search: IssueSearch)
    ensures
        holds(search.progress_text(), search.query@),
        holds(search.nothing_found_text(), search.query@),
        holds(search.nothing_found_text(), "in the last "@ + decimal(search.days as nat) + " days."@),
{
    reveal_strlit("' in the last ");
    reveal_strlit("in the last ");
    let lead = "No issues found for '"@ + search.query@;
    let days = decimal(search.days as nat);
    let tail = "in the last "@ + days + " days."@;
    let all = search.nothing_found_text();
    stands_in_the_middle("Searching NixOS/nixpkgs issues for "@, search.query@, "..."@);
    stands_in_the_middle("No issues found for '"@, search.query@, "' in the last "@ + days + " days."@);
    assert(lead + ("' in the last "@ + days + " days."@) =~= all);
    let at = lead.len() as int + 2;
    assert(all.subrange(at, at + tail.len()) =~= tail);
}

} // verus!
