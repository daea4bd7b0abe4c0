use nh::files::{FileStep, ReadOutcome};
use nh::github::auth::{
    advance, read_token_file, token, token_store_path, write_failure, write_token_file, StoreEnv, TokenError,
    TokenEvent, TokenStep, TOKEN_FILE, TOKEN_FILE_ENV,
};
use nh::github::date::{FIRST_SECOND, LAST_SECOND};
use nh::github::issues::{collect_issues, IssueNode, IssueState};
use nh::github::json::Json;
use nh::github::prs::{
    collect_pull_requests, lookup_request, looked_up, parse_direct_pr_number, MergeCommitNode, PullRequestNode,
};
use nh::github::reachability::{
    compare_branches, compare_query, compare_status_to_reachability, error_chain, probe, probe_chunk, probe_plan,
};
use nh::github::transport::{
    after_attempt, check_status, take_data, truncate_body, user_agent, QueryError, SendStep,
};
use nh::github::types::{
    BranchReachability, BranchReachabilityRequest, BranchReachabilityStatus, PullRequestState,
};
use nh::github::{issues, prs};

fn no_env() -> StoreEnv {
    StoreEnv { token_file: None, state_home: None, home: None }
}

fn ready(step: TokenStep) -> String {
    match step {
        TokenStep::Ready { token } => token,
        _ => panic!("there is no token yet"),
    }
}

fn failed(step: TokenStep) -> TokenError {
    match step {
        TokenStep::Failed { error } => error,
        _ => panic!("nothing failed yet"),
    }
}

#[test]
fn gh_token_wins_over_token_file() {
    let env = StoreEnv { token_file: Some(b"/tmp/x/github-token".to_vec()), ..no_env() };

    assert_eq!("from-env", ready(token(&Some("  from-env  ".to_string()), &env)));
}

#[test]
fn token_file_env_overrides_default_path() {
    let env = StoreEnv {
        token_file: Some(b"/tmp/x/github-token".to_vec()),
        state_home: Some(b"/tmp/state".to_vec()),
        home: None,
    };
    let step = token(&None, &env);
    match &step {
        TokenStep::ReadStore { path } => assert_eq!(path, b"/tmp/x/github-token"),
        _ => panic!("the file is not read"),
    }

    let step = advance(step, TokenEvent::Read(ReadOutcome::Contents("  from-file  ".to_string())));

    assert_eq!("from-file", ready(step));
}

#[test]
fn empty_token_file_env_errors() {
    let env = StoreEnv { token_file: Some(Vec::new()), ..no_env() };

    let error = token_store_path(&env).unwrap_err();

    assert!(error.message("").contains(TOKEN_FILE_ENV));
    assert_eq!(error.message(""), "NH_GITHUB_TOKEN_FILE is set but empty");
}

#[test]
fn default_token_path_uses_xdg_state_home() {
    let env = StoreEnv { state_home: Some(b"/tmp/x".to_vec()), ..no_env() };

    assert_eq!(Ok(format!("/tmp/x/nh/{TOKEN_FILE}").into_bytes()), token_store_path(&env));
}

#[test]
fn default_token_path_falls_back_to_local_state() {
    let env = StoreEnv { home: Some(b"/tmp/x".to_vec()), ..no_env() };

    assert_eq!(Ok(format!("/tmp/x/.local/state/nh/{TOKEN_FILE}").into_bytes()), token_store_path(&env));
}

#[test]
fn write_token_file_creates_private_file() {
    let path = b"/tmp/x/state/github-token";

    let steps = write_token_file(path, Some(b"/tmp/x/state"), "ghp_test").unwrap();

    assert_eq!(
        steps,
        vec![
            FileStep::CreateDir { path: b"/tmp/x/state".to_vec(), mode: 0o700 },
            FileStep::OpenTemporary { dir: b"/tmp/x/state".to_vec() },
            FileStep::SetMode { mode: 0o600 },
            FileStep::Write { contents: b"ghp_test".to_vec() },
            FileStep::Sync,
            FileStep::Persist { path: path.to_vec() },
        ]
    );
    for step in &steps {
        if let FileStep::CreateDir { mode, .. } | FileStep::SetMode { mode } = step {
            assert_eq!(0, mode & 0o077);
        }
    }
}

#[test]
fn an_empty_variable_is_no_token() {
    let env = StoreEnv { home: Some(b"/h".to_vec()), ..no_env() };
    assert!(matches!(token(&Some(" \n".to_string()), &env), TokenStep::ReadStore { .. }));
}

#[test]
fn without_a_place_there_is_no_token() {
    let error = failed(token(&None, &no_env()));
    assert_eq!(error, TokenError::NoStorePath);
    assert_eq!(
        error.message(""),
        "could not determine GitHub token store path; set GH_TOKEN or NH_GITHUB_TOKEN_FILE"
    );
    let env = StoreEnv { state_home: Some(Vec::new()), home: Some(b"/h".to_vec()), ..no_env() };
    assert_eq!(failed(token(&None, &env)).message(""), "XDG_STATE_HOME is set but empty");
    let env = StoreEnv { home: Some(Vec::new()), ..no_env() };
    assert_eq!(failed(token(&None, &env)).message(""), "HOME is set but empty");
}

#[test]
fn a_user_is_asked_for_a_token_once() {
    let env = StoreEnv { home: Some(b"/h".to_vec()), ..no_env() };
    let step = advance(token(&None, &env), TokenEvent::Read(ReadOutcome::NotFound));
    let step = advance(step, TokenEvent::Terminal(true));
    assert!(matches!(step, TokenStep::Prompt { .. }));
    let step = advance(step, TokenEvent::Typed(" ghp_1 ".to_string()));
    match &step {
        TokenStep::Save { path, token } => {
            assert_eq!(path, b"/h/.local/state/nh/github-token");
            assert_eq!(token, "ghp_1");
        }
        _ => panic!("the token is not kept"),
    }
    let step = advance(step, TokenEvent::Saved);
    assert_eq!(ready(step), "ghp_1");
}

#[test]
fn a_kept_token_is_found_again() {
    let step = TokenStep::ReadStore { path: b"/t".to_vec() };
    assert_eq!(ready(advance(step, TokenEvent::Read(ReadOutcome::Contents("ghp_1".to_string())))), "ghp_1");
}

#[test]
fn a_search_for_a_token_can_fail() {
    let read = || TokenStep::ReadStore { path: b"/t".to_vec() };
    let error = failed(advance(read(), TokenEvent::Read(ReadOutcome::Failed)));
    assert_eq!(error, TokenError::Unreadable { path: b"/t".to_vec() });
    assert_eq!(error.message("/t"), "failed to read /t");

    let step = advance(read(), TokenEvent::Read(ReadOutcome::Contents("\n".to_string())));
    let error = failed(advance(step, TokenEvent::Terminal(false)));
    assert_eq!(error, TokenError::NotFound { path: b"/t".to_vec() });
    assert_eq!(error.message("/t"), "GitHub token not found; set GH_TOKEN or write a token to /t");

    let prompt = TokenStep::Prompt { path: b"/t".to_vec() };
    let error = failed(advance(prompt, TokenEvent::Typed("  ".to_string())));
    assert_eq!(error, TokenError::EmptyToken);
    assert_eq!(error.message(""), "empty GitHub token");

    let error = write_token_file(b"/", None, "t").unwrap_err();
    assert_eq!(error, TokenError::NoParent { path: b"/".to_vec() });
    assert_eq!(error.message("/"), "Invalid token path /: no parent directory found");
}

#[test]
fn an_event_out_of_turn_changes_nothing() {
    let step = advance(TokenStep::Prompt { path: b"/t".to_vec() }, TokenEvent::Saved);
    assert!(matches!(step, TokenStep::Prompt { .. }));
}

#[test]
fn token_files_are_trimmed() {
    let contents = ReadOutcome::Contents("\u{a0} t\n".to_string());
    assert_eq!(read_token_file(b"/t", &contents), Ok(Some("t".to_string())));
    assert_eq!(read_token_file(b"/t", &ReadOutcome::NotFound), Ok(None));
}

#[test]
fn each_step_of_keeping_a_token_can_fail() {
    let steps = write_token_file(b"/d/t", Some(b"/d"), "t").unwrap();
    let messages: Vec<String> = steps.iter().map(|step| write_failure(step, "/d")).collect();
    assert_eq!(
        messages,
        vec![
            "failed to create directory /d",
            "failed to create temporary token file",
            "failed to set secure permissions on temporary file",
            "failed to write secret to temporary file",
            "failed to sync token file to disk",
            "failed to atomically save token to /d",
        ]
    );
}

fn issue_node(state: &str) -> IssueNode {
    IssueNode {
        number: 43,
        title: "bug report".to_string(),
        url: "https://github.com/NixOS/nixpkgs/issues/43".to_string(),
        state: state.to_string(),
    }
}

#[test]
fn parses_open_issue() {
    let issue = issue_node("OPEN").try_into_issue().unwrap();

    assert_eq!(43, issue.number);
    assert_eq!(IssueState::Open, issue.state);
}

#[test]
fn rejects_unknown_issue_state() {
    let error = issue_node("LOCKED").try_into_issue();

    assert!(error.is_err());
    assert_eq!(error.unwrap_err().message(), "unknown GitHub issue state LOCKED");
}

#[test]
fn issues_are_read_in_order_without_gaps() {
    let issues = collect_issues(vec![Some(issue_node("closed")), None, Some(issue_node("open"))]).unwrap();
    let states: Vec<&str> = issues.iter().map(|issue| issue.state.as_str()).collect();
    assert_eq!(states, vec!["closed", "open"]);
    let error = collect_issues(vec![Some(issue_node("OPEN")), Some(issue_node("X")), Some(issue_node("Y"))]);
    assert_eq!(error.unwrap_err().state, "X");
}

#[test]
fn issues_are_searched_from_a_date_on() {
    let request = issues::search_request("gnome crash", 1, 1700000000);
    assert_eq!(request.query, issues::SEARCH_ISSUES_QUERY);
    assert_eq!(
        request.variables.get("query").and_then(|value| value.as_str()),
        Some("repo:NixOS/nixpkgs gnome crash type:issue created:>2023-11-13T22:13:20Z sort:created-desc")
    );
    assert_eq!(request.variables.get("first").and_then(|value| value.as_u64()), Some(100));
    assert_eq!(request.variables.len(), 2);
}

#[test]
fn requests_name_the_date_they_are_given() {
    let terms = |request: nh::github::transport::GraphqlRequest| {
        request.variables.get("query").and_then(|value| value.as_str()).unwrap().to_string()
    };
    assert_eq!(
        terms(issues::request_since("a", "D")),
        "repo:NixOS/nixpkgs a type:issue created:>D sort:created-desc"
    );
    assert_eq!(
        terms(prs::request_since("a", "D")),
        "repo:NixOS/nixpkgs a type:pr created:>D sort:created-desc"
    );
}

#[test]
fn pull_requests_are_searched_from_a_date_on() {
    let request = prs::search_request("hello", 0, 0);
    assert_eq!(
        request.variables.get("query").and_then(|value| value.as_str()),
        Some("repo:NixOS/nixpkgs hello type:pr created:>1970-01-01T00:00:00Z sort:created-desc")
    );
    assert_eq!(request.variables.get("first").and_then(|value| value.as_u64()), Some(100));
}

#[test]
fn the_first_and_the_last_second_have_dates() {
    let terms = |now: i64| {
        let request = issues::search_request("q", 0, now);
        request.variables.get("query").and_then(|value| value.as_str()).unwrap().to_string()
    };
    assert!(terms(LAST_SECOND).contains("created:>+262142-12-31T23:59:59Z "));
    assert!(terms(FIRST_SECOND).contains("created:>-262143-01-01T00:00:00Z "));
    assert!(chrono::DateTime::from_timestamp(LAST_SECOND + 1, 0).is_none());
    assert!(chrono::DateTime::from_timestamp(FIRST_SECOND - 1, 0).is_none());
    assert!(terms(951782400).contains("created:>2000-02-29T00:00:00Z "));
}

#[test]
fn a_pull_request_is_looked_up_by_its_number() {
    let request = lookup_request(42);
    assert!(request.query.contains("pullRequest(number: $number)"));
    assert_eq!(request.variables.get("number").and_then(|value| value.as_u64()), Some(42));
    assert_eq!(request.variables.len(), 1);
}

#[test]
fn parses_direct_pr_numbers() {
    assert_eq!(Some(123), parse_direct_pr_number("123"));
    assert_eq!(Some(123), parse_direct_pr_number("#123"));
    assert_eq!(None, parse_direct_pr_number("foo 123"));
    assert_eq!(None, parse_direct_pr_number("#"));
}

#[test]
fn numbers_must_fit() {
    assert_eq!(Some(u64::MAX), parse_direct_pr_number(" #18446744073709551615\n"));
    assert_eq!(None, parse_direct_pr_number("18446744073709551616"));
    assert_eq!(Some(7), parse_direct_pr_number("0000000000000000000000007"));
    assert_eq!(None, parse_direct_pr_number("##1"));
    assert_eq!(None, parse_direct_pr_number("+1"));
    assert_eq!(None, parse_direct_pr_number(""));
}

fn pr_node(state: &str, merged: bool, oid: Option<&str>) -> PullRequestNode {
    PullRequestNode {
        number: 42,
        title: "hello: 1.0 -> 1.1".to_string(),
        url: "https://github.com/NixOS/nixpkgs/pull/42".to_string(),
        state: state.to_string(),
        merged,
        base_ref_name: "master".to_string(),
        merge_commit: oid.map(|oid| MergeCommitNode { oid: oid.to_string() }),
    }
}

#[test]
fn parses_merged_pull_request() {
    let pr = pr_node("CLOSED", true, Some("abc123")).try_into_pull_request().unwrap();

    assert_eq!(42, pr.number);
    assert_eq!(PullRequestState::Merged, pr.state);
    assert_eq!(Some("abc123"), pr.merge_commit_sha.as_deref());
}

#[test]
fn rejects_unknown_pull_request_state() {
    let error = pr_node("DRAFT", false, None).try_into_pull_request();

    assert!(error.is_err());
    assert_eq!(error.unwrap_err().message(), "unknown GitHub pull request state DRAFT");
}

#[test]
fn pull_requests_are_read_in_order_without_gaps() {
    let nodes = vec![None, Some(pr_node("open", false, None)), Some(pr_node("closed", false, None))];
    let states: Vec<&str> =
        collect_pull_requests(nodes).unwrap().iter().map(|pr| pr.state.as_str()).collect();
    assert_eq!(states, vec!["open", "closed"]);
    let error = collect_pull_requests(vec![Some(pr_node("A", false, None)), Some(pr_node("B", false, None))]);
    assert_eq!(error.unwrap_err().state, "A");
    assert_eq!(looked_up(None), Ok(None));
    assert_eq!(looked_up(Some(pr_node("OPEN", false, None))).unwrap().unwrap().number, 42);
    assert!(looked_up(Some(pr_node("A", false, None))).is_err());
}

#[test]
fn graphql_compare_mapping_tracks_when_branch_contains_commit() {
    assert_eq!(BranchReachabilityStatus::Contains, compare_status_to_reachability("BEHIND"));
    assert_eq!(BranchReachabilityStatus::Contains, compare_status_to_reachability("IDENTICAL"));
    assert_eq!(BranchReachabilityStatus::Missing, compare_status_to_reachability("AHEAD"));
    assert_eq!(BranchReachabilityStatus::Missing, compare_status_to_reachability("DIVERGED"));
}

fn request(branch: &str, commit_sha: &str) -> BranchReachabilityRequest {
    BranchReachabilityRequest { branch: branch.to_string(), commit_sha: commit_sha.to_string() }
}

#[test]
fn compare_query_aliases_branch_checks() {
    let requests = vec![request("master", "abc123")];

    let (query, variables) = compare_query(&requests);

    assert!(query.contains("branch0: ref(qualifiedName: $branch0)"));
    assert!(query.contains("compare(headRef: $commit0)"));
    assert_eq!(variables.get("branch0"), Some(&serde_json::Value::from("master")));
    assert_eq!(variables.get("commit0"), Some(&serde_json::Value::from("abc123")));
}

#[test]
fn a_query_asks_all_questions() {
    let (query, variables) = compare_query(&[request("a", "1"), request("b", "2")]);
    assert_eq!(
        query,
        "query($branch0: String!, $commit0: String!, $branch1: String!, $commit1: String!) { \
         repository(owner: \"NixOS\", name: \"nixpkgs\") { branch0: ref(qualifiedName: $branch0) { \
         compare(headRef: $commit0) { status } }\nbranch1: ref(qualifiedName: $branch1) { \
         compare(headRef: $commit1) { status } } } }"
    );
    assert_eq!(variables.len(), 4);
    assert_eq!(query, compare_query(&[request("c", "3"), request("d", "4")]).0);
    assert_eq!(variables.get("branch1"), Some(&serde_json::Value::from("b")));
    assert_eq!(variables.get("commit1"), Some(&serde_json::Value::from("2")));
}

#[test]
fn unknown_reason_includes_error_chain() {
    let causes = ["failed to send request".to_string(), "transport timed out".to_string()];

    assert_eq!(error_chain(&causes), "failed to send request: transport timed out");
}

#[test]
fn an_unknown_status_is_named() {
    assert_eq!(
        compare_status_to_reachability("SIDEWAYS"),
        BranchReachabilityStatus::Unknown("unknown comparison status SIDEWAYS".to_string())
    );
}

fn object(members: Vec<(&str, Json)>) -> Json {
    Json::Object(members.into_iter().map(|(name, value)| (name.to_string(), value)).collect())
}

fn comparison(status: &str) -> Json {
    object(vec![("compare", object(vec![("status", Json::Text(status.to_string()))]))])
}

fn finding(branch: &str, status: BranchReachabilityStatus) -> BranchReachability {
    BranchReachability { branch: branch.to_string(), status }
}

fn unknown(reason: &str) -> BranchReachabilityStatus {
    BranchReachabilityStatus::Unknown(reason.to_string())
}

#[test]
fn answers_are_read_by_their_aliases() {
    let requests = [request("a", "1"), request("b", "2"), request("c", "3")];
    let data = object(vec![(
        "repository",
        object(vec![("branch1", comparison("AHEAD")), ("branch0", comparison("BEHIND")), ("branch2", Json::Other)]),
    )]);
    assert_eq!(
        compare_branches(&requests, &data).unwrap(),
        vec![
            finding("a", BranchReachabilityStatus::Contains),
            finding("b", BranchReachabilityStatus::Missing),
            finding("c", unknown("comparison unavailable")),
        ]
    );
    let error = compare_branches(&requests, &object(vec![])).unwrap_err();
    assert_eq!(error.message(), "GitHub GraphQL response missing repository");
    assert_eq!(compare_branches(&[], &Json::Other), Ok(vec![]));
}

#[test]
fn a_failed_request_leaves_its_branches_unknown() {
    let requests = [request("a", "1"), request("b", "2")];
    let causes = vec!["outer".to_string(), "inner".to_string()];
    assert_eq!(
        probe_chunk(&requests, &Err(causes)),
        vec![finding("a", unknown("outer: inner")), finding("b", unknown("outer: inner"))]
    );
    assert_eq!(
        probe_chunk(&requests[..1], &Ok(Json::Other)),
        vec![finding("a", unknown("GitHub GraphQL response missing repository"))]
    );
}

#[test]
fn questions_are_asked_in_groups() {
    assert!(probe_plan(0).is_empty());
    assert_eq!(probe_plan(1), vec![vec![(0, 1)]]);
    assert_eq!(probe_plan(25), vec![vec![(0, 10), (10, 20), (20, 25)]]);
    assert_eq!(
        probe_plan(52),
        vec![vec![(0, 10), (10, 20), (20, 30), (30, 40)], vec![(40, 50), (50, 52)]]
    );
}

#[test]
fn findings_keep_the_order_of_the_questions() {
    let names: Vec<String> = (0..12).map(|number| format!("b{number}")).collect();
    let requests: Vec<BranchReachabilityRequest> = names.iter().map(|name| request(name, "1")).collect();
    let answers = vec![
        Err(vec!["lost".to_string()]),
        Ok(object(vec![("repository", object(vec![("branch1", comparison("IDENTICAL"))]))])),
    ];
    let found = probe(&requests, &answers);
    let branches: Vec<&str> = found.iter().map(|finding| finding.branch.as_str()).collect();
    assert_eq!(branches, names);
    assert_eq!(found[9].status, unknown("lost"));
    assert_eq!(found[10].status, unknown("comparison unavailable"));
    assert_eq!(found[11].status, BranchReachabilityStatus::Contains);
}

#[test]
fn errors_outweigh_data() {
    let refused = take_data(Some(vec!["a".to_string(), "b".to_string()]), Some(1)).unwrap_err();
    assert_eq!(refused.message(), "GitHub GraphQL request failed: a; b");
    assert_eq!(take_data(Some(vec![]), Some(1)), Ok(1));
    assert_eq!(take_data(None, Some(1)), Ok(1));
    let missing = take_data::<u8>(None, None).unwrap_err();
    assert_eq!(missing, QueryError::MissingData);
    assert_eq!(missing.message(), "GitHub GraphQL response missing data");
}

#[test]
fn a_bad_status_is_shown_with_the_answer() {
    assert_eq!(check_status(true, "200 OK", "{}"), Ok(()));
    let error = check_status(false, "502 Bad Gateway", " oops \n").unwrap_err();
    assert_eq!(error.message(), "GitHub GraphQL request failed (502 Bad Gateway): oops");
}

#[test]
fn long_answers_are_cut() {
    let long = "\u{e9}".repeat(513);
    assert_eq!(truncate_body(&long), format!("{}...", "\u{e9}".repeat(512)));
    let short = "x".repeat(512);
    assert_eq!(truncate_body(&format!(" {short} ")), short);
}

#[test]
fn a_request_is_sent_three_times_at_most() {
    assert_eq!(after_attempt(1, true), SendStep::Answered);
    assert_eq!(after_attempt(1, false), SendStep::RetryAfter(200));
    assert_eq!(after_attempt(2, false), SendStep::RetryAfter(400));
    assert_eq!(after_attempt(3, false), SendStep::GiveUp);
    assert_eq!(
        QueryError::NotSent.message(),
        "failed to send GitHub GraphQL request after 3 attempts"
    );
    assert_eq!(QueryError::Unreadable.message(), "failed to read GitHub GraphQL response");
    assert_eq!(QueryError::Malformed.message(), "failed to parse GitHub GraphQL response");
    assert_eq!(user_agent("4.2.0"), "nh-search/4.2.0");
}
