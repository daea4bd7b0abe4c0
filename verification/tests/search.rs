use nh::branches::BranchPlan;
use nh::github::issues::{Issue, IssueState};
use nh::github::json::Json;
use nh::github::types::{BranchReachability, BranchReachabilityStatus, PullRequest, PullRequestState};
use nh::render::line::{Color, Line, Span};
use nh::search::backend::{check_response, search_target, SearchStage};
use nh::search::offline::{
    fair_split, indent, DatabaseAnswer, DatabaseStage, FileRecord, OfflineSearch, OptionRecord,
};
use nh::search::online::{heading, query_text, shown_documents, Options, Packages};
use nh::search::prs::{
    any_landed, hand_out, plans, print_json, probe_reachability_by_pr, reachability_json,
    reachability_questions, PrSearch, PrTarget,
};
use nh::search::shown::{shown, Shown};
use nh::search::{issues, prs};

#[test]
fn issue_json_uses_plain_urls() {
    let issue = Issue {
        number: 43,
        title: "bug report".to_string(),
        url: "https://github.com/NixOS/nixpkgs/issues/43".to_string(),
        state: IssueState::Open,
    };

    let output = issues::print_json("bug".to_string(), 15, 1, &[issue]);

    assert_eq!(output.results[0].url, "https://github.com/NixOS/nixpkgs/issues/43");
    assert_eq!(output.query, "bug");
    assert_eq!(output.days, 15);
    assert_eq!(output.elapsed_ms, 1);
    assert_eq!(output.results[0].number, 43);
    assert_eq!(output.results[0].title, "bug report");
    assert_eq!(output.results[0].state, "open");
}

#[test]
fn an_issue_search_goes_back_some_days() {
    let words = ["gnome".to_string(), "crash".to_string()];
    let search = issues::IssueSearch::new(&words, None);
    assert_eq!(search.days, 15);
    assert_eq!(search.progress(), "Searching NixOS/nixpkgs issues for gnome crash...");
    let search = issues::IssueSearch::new(&words, Some(3));
    assert_eq!(search.nothing_found(), "No issues found for 'gnome crash' in the last 3 days.");
}

#[test]
fn fair_split_balances_even_budget() {
    assert_eq!(fair_split(10, 10, 6), (3, 3));
}

#[test]
fn fair_split_gives_unused_package_budget_to_options() {
    assert_eq!(fair_split(10, 1, 6), (5, 1));
}

#[test]
fn fair_split_gives_unused_option_budget_to_packages() {
    assert_eq!(fair_split(1, 10, 6), (1, 5));
}

#[test]
fn fair_split_preserves_current_odd_limit_preference() {
    assert_eq!(fair_split(10, 10, 1), (0, 1));
}

#[test]
fn fair_split_handles_zero_budget() {
    assert_eq!(fair_split(10, 10, 0), (0, 0));
}

#[test]
fn a_split_leaves_no_place_empty() {
    for (options, packages, limit) in [(0, 0, 5), (2, 3, 9), (7, 0, 4), (0, 7, 4), (5, 5, usize::MAX)] {
        let (some, others) = fair_split(options, packages, limit);
        assert_eq!(some + others, limit.min(options + packages));
    }
}

fn option(name: &str, summary: Option<&str>) -> OptionRecord {
    OptionRecord { name: name.to_string(), summary: summary.map(str::to_string) }
}

fn file(path: &str, packages: &[&str]) -> FileRecord {
    FileRecord { path: path.to_string(), packages: packages.iter().map(|name| name.to_string()).collect() }
}

fn offline_search() -> OfflineSearch {
    let mut search = OfflineSearch::new();
    let options = vec![option("a.enable", Some("First\nline")), option("b.enable", None)];
    assert_eq!(search.add("o.db", DatabaseAnswer::Options(options)), Ok(()));
    let files = vec![file("/bin/hello", &["hello", "hello-wayland"]), file("/bin/none", &[])];
    assert_eq!(search.add("p.db", DatabaseAnswer::Packages(files)), Ok(()));
    search
}

#[test]
fn an_index_is_not_searched() {
    let mut search = offline_search();
    let error = search.add("i.db", DatabaseAnswer::Index).unwrap_err();
    assert_eq!(
        error.message(),
        "Invalid database format for i.db: expected `options` or `packages`, got `index`."
    );
    assert_eq!(search, offline_search());
}

#[test]
fn offline_results_are_cut_and_written() {
    let findings = offline_search().finish(3);
    let output = findings.into_output("q".to_string(), vec!["o.db".to_string()], 7);
    assert_eq!(output.options.len(), 1);
    assert_eq!(output.options[0].db_path, "o.db");
    assert_eq!(output.options[0].name, "a.enable");
    assert_eq!(output.packages.len(), 2);
    assert_eq!(output.packages[1].path, "/bin/none");
    assert_eq!(output.query, "q");
    assert_eq!(output.elapsed_ms, 7);
}

#[test]
fn database_failures_name_the_database() {
    assert_eq!(DatabaseStage::Open.message("x.db"), "opening SPAM database: x.db");
    assert_eq!(DatabaseStage::QueryOptions.message("x.db"), "querying options database: x.db");
    assert_eq!(DatabaseStage::QueryPackages.message("x.db"), "querying packages database: x.db");
}

fn text(text: &str) -> Line {
    Line::text(text)
}

fn blue(text: &str) -> Line {
    Line::painted(Color::Blue, text)
}

#[test]
fn offline_results_are_shown() {
    let lines = offline_search().finish(10).print(2, 7, 80);
    assert_eq!(
        lines,
        vec![
            text("Searching 2 offline database(s)..."),
            text("Took 7ms"),
            text(""),
            text(""),
            blue("a.enable"),
            text("  Source: o.db"),
            text("  First line"),
            text(""),
            blue("b.enable"),
            text("  Source: o.db"),
            text(""),
            blue("/bin/hello"),
            text("  Source: p.db"),
            text("  Packages: hello, hello-wayland"),
            text(""),
            blue("/bin/none"),
            text("  Source: p.db"),
        ]
    );
}

#[test]
fn long_texts_are_broken_into_lines() {
    let mut search = OfflineSearch::new();
    let files = vec![file("/f", &["alpha", "beta", "gamma"])];
    search.add("p", DatabaseAnswer::Packages(files)).unwrap();
    let lines = search.finish(1).print(1, 0, 8);
    assert_eq!(
        lines[6..],
        [text("  Packages: alpha,"), text("            beta,"), text("            gamma")]
    );
}

#[test]
fn lines_are_indented() {
    let mut lines = vec![text("head")];
    indent(&mut lines, &["a".to_string(), "b".to_string()], "> ", "  ");
    assert_eq!(lines, vec![text("head"), text("> a"), text("  b")]);
}

#[test]
fn nothing_may_be_found_offline() {
    let lines = OfflineSearch::new().finish(10).print(0, 1, 80);
    assert_eq!(lines.len(), 4);
    assert_eq!(lines[3], text("No results found."));
    let cut = offline_search().finish(0);
    assert!(cut.found);
    assert_eq!(cut.print(1, 1, 80).len(), 3);
}

#[test]
fn online_searches_say_what_they_do() {
    assert_eq!(query_text(&["a".to_string(), "b".to_string()]), "a b");
    let packages = Packages { platforms: true };
    assert_eq!(
        packages.print_querying("unstable"),
        "Querying search.nixos.org, with channel unstable..."
    );
    assert_eq!(packages.contexts().at(SearchStage::Build), "building search query");
    assert_eq!(packages.contexts().at(SearchStage::Execute), "querying the elasticsearch API");
    let options = Options { scope: "nixos".to_string() };
    assert_eq!(
        options.print_querying("25.11"),
        "Querying options on search.nixos.org, with channel 25.11..."
    );
    assert_eq!(options.contexts().at(SearchStage::Build), "building option search query");
    assert_eq!(options.contexts().at(SearchStage::Parse), "parsing option search document");
    assert_eq!(
        options.contexts().at(SearchStage::Read),
        "parsing response into the elasticsearch format"
    );
    let output = options.print_json("q".to_string(), "c".to_string(), 5, vec![1u8]);
    assert_eq!(output.scope, "nixos");
    assert_eq!(output.results, vec![1]);
    let output = packages.print_json("q".to_string(), "c".to_string(), 5, vec![1u8, 2]);
    assert_eq!(output.results, vec![1, 2]);
    assert_eq!(
        heading(12),
        vec![text("Took 12ms"), text("Most relevant results at the end"), text("")]
    );
}

#[test]
fn online_searches_go_to_the_index_of_the_channel() {
    let target = search_target("44\n", "unstable", "4.2.0");
    assert_eq!(target.url, "https://search.nixos.org/backend/latest-44-unstable/_search");
    assert_eq!(target.user_agent, "nh/4.2.0");
    assert_eq!(check_response(true, "200 OK", "c"), Ok(()));
    let refused = check_response(false, "404 Not Found", "c").unwrap_err();
    assert_eq!(refused.message(), "search.nixos.org returned HTTP 404 Not Found for channel 'c'");
    assert_eq!(
        refused.advice(),
        "Error: search.nixos.org returned HTTP 404 Not Found for channel 'c'. This usually means the \
         channel does not exist, is not indexed, or the request was malformed."
    );
}

fn pr(state: PullRequestState, merge_commit_sha: Option<&str>) -> PullRequest {
    PullRequest {
        number: 42,
        title: "package: 1.0 -> 1.1".to_string(),
        url: "https://github.com/NixOS/nixpkgs/pull/42".to_string(),
        state,
        base_branch: "master".to_string(),
        merge_commit_sha: merge_commit_sha.map(str::to_string),
    }
}

#[test]
fn json_uses_null_days_for_direct_lookup() {
    let prs = [pr(PullRequestState::Open, None)];
    let reachability = vec![Vec::new()];
    let search = PrSearch::new(&["#42".to_string()], None);

    let output = print_json(
        search.query.clone(),
        search.direct_pr_number,
        search.reported_days(),
        1,
        &prs,
        &reachability,
    );

    assert_eq!(output.query, "#42");
    assert_eq!(output.days, None);
    assert_eq!(output.direct_pr_number, Some(42));
    assert_eq!(output.results[0].state, "open");
}

fn unknown(branch: &str, reason: &str) -> BranchReachability {
    BranchReachability {
        branch: branch.to_string(),
        status: BranchReachabilityStatus::Unknown(reason.to_string()),
    }
}

fn holds(branch: &str) -> BranchReachability {
    BranchReachability { branch: branch.to_string(), status: BranchReachabilityStatus::Contains }
}

fn lacks(branch: &str) -> BranchReachability {
    BranchReachability { branch: branch.to_string(), status: BranchReachabilityStatus::Missing }
}

#[test]
fn unknown_reachability_json_includes_reason() {
    let value = reachability_json(&unknown("master", "comparison unavailable"));

    assert_eq!(value.branch, "master");
    assert_eq!(value.status, "unknown");
    assert_eq!(value.reason, Some("comparison unavailable".to_string()));
    assert_eq!(reachability_json(&holds("master")).reason, None);
    assert_eq!(reachability_json(&lacks("master")).status, "missing");
}

#[test]
fn json_holds_the_findings_of_each_pull_request() {
    let prs = [pr(PullRequestState::Merged, Some("abc")), pr(PullRequestState::Closed, None)];
    let output = print_json(
        "q".to_string(),
        None,
        Some(15),
        1,
        &prs,
        &[vec![holds("master")], Vec::new()],
    );
    assert_eq!(output.days, Some(15));
    assert_eq!(output.results.len(), 2);
    assert_eq!(output.results[0].merge_commit_sha, Some("abc".to_string()));
    assert_eq!(output.results[0].reachability[0].status, "contains");
    assert!(output.results[1].reachability.is_empty());
    assert_eq!(output.results[1].base_branch, "master");
}

#[test]
fn a_pull_request_search_goes_back_some_days() {
    let search = PrSearch::new(&["hello".to_string(), "world".to_string()], Some(3));
    assert_eq!(search.direct_pr_number, None);
    assert_eq!(search.days(), 3);
    assert_eq!(search.reported_days(), Some(3));
    assert_eq!(search.progress(), "Searching NixOS/nixpkgs PRs for hello world...");
    assert_eq!(search.warning(), None);
    assert_eq!(search.nothing_found(), "No PRs found for 'hello world' in the last 3 days.");
    assert_eq!(PrSearch::new(&["x".to_string()], None).days(), 15);
}

#[test]
fn a_pull_request_is_looked_up_at_any_age() {
    let search = PrSearch::new(&["42".to_string()], Some(3));
    assert_eq!(search.direct_pr_number, Some(42));
    assert_eq!(search.reported_days(), None);
    assert_eq!(search.progress(), "Fetching NixOS/nixpkgs PR #42...");
    assert_eq!(search.warning(), Some("Ignoring --days for direct PR lookup.".to_string()));
    assert_eq!(search.nothing_found(), "No NixOS/nixpkgs PR found for #42.");
    assert_eq!(PrSearch::new(&["42".to_string()], None).warning(), None);
    assert_eq!(prs::CHECKING, "Checking branch reachability...");
}

#[test]
fn results_are_shown_as_asked() {
    assert_eq!(shown(true, 0), Shown::Json);
    assert_eq!(shown(true, 2), Shown::Json);
    assert_eq!(shown(false, 0), Shown::Nothing);
    assert_eq!(shown(false, 2), Shown::Lines);
    assert_eq!(shown_documents(true), Shown::Json);
    assert_eq!(shown_documents(false), Shown::Lines);
}

#[test]
fn a_number_is_looked_up_and_words_are_searched() {
    assert_eq!(PrSearch::new(&["#42".to_string()], Some(3)).target(), PrTarget::Number(42));
    assert_eq!(PrSearch::new(&["x".to_string()], Some(3)).target(), PrTarget::Recent { days: 3 });
    assert_eq!(PrSearch::new(&["x".to_string()], None).target(), PrTarget::Recent { days: 15 });
}

fn small_plan(branch: &str) -> PullRequest {
    let mut request = pr(PullRequestState::Merged, Some("abc"));
    request.base_branch = branch.to_string();
    request
}

#[test]
fn only_merged_requests_raise_questions() {
    let all = [
        pr(PullRequestState::Closed, Some("x")),
        pr(PullRequestState::Merged, None),
        small_plan("nixos-unstable-small"),
        pr(PullRequestState::Open, None),
        small_plan("nixos-unstable"),
    ];
    assert!(any_landed(&all));
    assert!(!any_landed(&all[..2]));
    let plans = plans(&all);
    assert_eq!(plans[2], BranchPlan::from_base_branch("nixos-unstable-small"));
    let asked = reachability_questions(&all, &plans);
    assert_eq!(asked.pr_indexes, vec![2, 2, 4]);
    let branches: Vec<&str> = asked.requests.iter().map(|request| request.branch.as_str()).collect();
    assert_eq!(branches, vec!["nixos-unstable-small", "nixos-unstable", "nixos-unstable"]);
    assert!(asked.requests.iter().all(|request| request.commit_sha == "abc"));
    assert_eq!(reachability_questions(&all, &plans[..2]).requests.len(), 0);
}

#[test]
fn findings_go_to_the_requests_that_asked() {
    let all = [small_plan("nixos-unstable"), pr(PullRequestState::Open, None), small_plan("nixos-unstable-small")];
    let plans = plans(&all);
    let status = Json::Object(vec![("status".to_string(), Json::Text("AHEAD".to_string()))]);
    let compare = Json::Object(vec![("compare".to_string(), status)]);
    let repository = Json::Object(vec![("branch1".to_string(), compare)]);
    let answer = Json::Object(vec![("repository".to_string(), repository)]);

    let found = probe_reachability_by_pr(&all, &plans, &[Ok(answer)]);

    assert_eq!(
        found,
        vec![
            vec![unknown("nixos-unstable", "comparison unavailable")],
            vec![],
            vec![lacks("nixos-unstable-small"), unknown("nixos-unstable", "comparison unavailable")],
        ]
    );
}

#[test]
fn findings_are_handed_out_in_order() {
    let found = vec![holds("a"), holds("b"), holds("c"), holds("d")];
    assert_eq!(
        hand_out(3, &[2, 0, 2], found),
        vec![vec![holds("b")], vec![], vec![holds("a"), holds("c")]]
    );
}

#[test]
fn lines_are_made_of_spans() {
    let mut line = Line::text("a");
    line.push_painted(Color::Red, "b");
    line.push_link("c", "https://c");
    assert_eq!(
        line.spans,
        vec![
            Span::Plain("a".to_string()),
            Span::Colored(Color::Red, "b".to_string()),
            Span::Link { text: "c".to_string(), url: "https://c".to_string() },
        ]
    );
}
