use nh::branches::BranchPlan;
use nh::github::types::{BranchReachability, BranchReachabilityStatus, PullRequest, PullRequestState};
use nh::render::line::{Color, Line, Span};
use nh::render::prs::{colored_status, format_unknown_check, print, print_branch_reachability};

fn finding(branch: &str, status: BranchReachabilityStatus) -> BranchReachability {
    BranchReachability { branch: branch.to_string(), status }
}

fn unknown(reason: &str) -> BranchReachabilityStatus {
    BranchReachabilityStatus::Unknown(reason.to_string())
}

fn plain(text: &str) -> Span {
    Span::Plain(text.to_string())
}

fn paint(color: Color, text: &str) -> Span {
    Span::Colored(color, text.to_string())
}

fn names(branches: &[&str]) -> Vec<String> {
    branches.iter().map(|name| name.to_string()).collect()
}

fn spans(lines: Vec<Line>) -> Vec<Vec<Span>> {
    lines.into_iter().map(|line| line.spans).collect()
}

#[test]
fn states_have_colors() {
    assert_eq!(colored_status(PullRequestState::Open).spans, vec![paint(Color::Blue, "open")]);
    assert_eq!(colored_status(PullRequestState::Closed).spans, vec![paint(Color::Red, "closed")]);
    assert_eq!(colored_status(PullRequestState::Merged).spans, vec![paint(Color::Green, "merged")]);
}

#[test]
fn reached_branches_are_listed() {
    let found = [
        finding("master", BranchReachabilityStatus::Contains),
        finding("a", BranchReachabilityStatus::Contains),
        finding("b", BranchReachabilityStatus::Missing),
        finding("c", BranchReachabilityStatus::Contains),
        finding("d", unknown("lost")),
    ];
    let lines = print_branch_reachability(&found, &names(&["c", "b", "a", "d", "x"]));
    assert_eq!(
        spans(lines),
        vec![
            vec![
                plain("   \u{2514}\u{2500} Reachable in: "),
                paint(Color::Green, "c"),
                plain(", "),
                paint(Color::Green, "a"),
            ],
            vec![
                plain("   \u{2514}\u{2500} Unknown checks: "),
                paint(Color::Yellow, "d"),
                plain(" (lost)"),
            ],
        ]
    );
}

#[test]
fn nothing_reached_is_none_or_unknown() {
    let head = "   \u{2514}\u{2500} Reachable in: ";
    let found = [finding("a", BranchReachabilityStatus::Missing)];
    assert_eq!(
        spans(print_branch_reachability(&found, &names(&["a"]))),
        vec![vec![plain(head), paint(Color::Yellow, "None")]]
    );
    let found = [finding("a", unknown("x")), finding("b", unknown("y"))];
    assert_eq!(
        spans(print_branch_reachability(&found, &names(&["a", "b"]))),
        vec![
            vec![plain(head), paint(Color::Yellow, "Unknown")],
            vec![
                plain("   \u{2514}\u{2500} Unknown checks: "),
                paint(Color::Yellow, "a"),
                plain(" (x)"),
                plain(", "),
                paint(Color::Yellow, "b"),
                plain(" (y)"),
            ],
        ]
    );
}

#[test]
fn the_last_finding_about_a_branch_counts() {
    let found = [
        finding("a", BranchReachabilityStatus::Missing),
        finding("a", BranchReachabilityStatus::Contains),
    ];
    let lines = print_branch_reachability(&found, &names(&["a"]));
    assert_eq!(lines[0].spans[1], paint(Color::Green, "a"));
}

#[test]
fn reasons_are_one_short_line() {
    let check = |reason: &str| format_unknown_check(&finding("a", unknown(reason))).spans;
    assert_eq!(check("first\r\nsecond"), vec![paint(Color::Yellow, "a"), plain(" (first)")]);
    assert_eq!(check(""), vec![paint(Color::Yellow, "a"), plain(" (unknown error)")]);
    assert_eq!(check("\nx"), vec![paint(Color::Yellow, "a"), plain(" ()")]);
    let long = "x".repeat(97);
    let cut = format!(" ({}...)", "x".repeat(96));
    assert_eq!(check(&long), vec![paint(Color::Yellow, "a"), plain(&cut)]);
    let contained = format_unknown_check(&finding("a", BranchReachabilityStatus::Contains));
    assert_eq!(contained.spans, vec![paint(Color::Yellow, "a")]);
}

#[test]
fn requests_are_shown_with_their_branches() {
    let request = |state: PullRequestState, sha: Option<&str>| PullRequest {
        number: 42,
        title: "hello".to_string(),
        url: "https://x/42".to_string(),
        state,
        base_branch: "nixos-unstable-small".to_string(),
        merge_commit_sha: sha.map(str::to_string),
    };
    let all = [request(PullRequestState::Merged, Some("abc")), request(PullRequestState::Open, None)];
    let plan = BranchPlan::from_base_branch("nixos-unstable-small");
    let found = vec![
        vec![
            finding("nixos-unstable-small", BranchReachabilityStatus::Contains),
            finding("nixos-unstable", BranchReachabilityStatus::Missing),
        ],
        vec![],
    ];
    let title = |color: Color, state: &str| {
        vec![
            paint(Color::Blue, "hello"),
            plain(" ("),
            paint(color, state),
            plain(") "),
            Span::Link { text: "#42".to_string(), url: "https://x/42".to_string() },
        ]
    };
    let plans = [plan.clone(), plan];
    assert_eq!(
        spans(print(&all, &plans, &found)),
        vec![
            title(Color::Green, "merged"),
            vec![plain("   \u{2514}\u{2500} Reachable in: "), paint(Color::Yellow, "None")],
            title(Color::Blue, "open"),
        ]
    );
    assert_eq!(print(&all, &plans[..1], &found).len(), 2);
    assert!(print(&all, &plans, &[]).is_empty());
}
