//! Pull requests, as they are shown.
use vstd::prelude::*;
use vstd::string::*;

use crate::branches::BranchPlan;
use crate::github::types::{
    BranchReachability, BranchReachabilityStatus, BranchReachabilityView, PullRequest, PullRequestState,
    PullRequestView, StatusView,
};
use crate::render::line::{colored, plain, Color, Line, SpanView};
use crate::text::{
    decimal, decimal_text, first_line, holds, line_one, same, shorten, shortened, shortened_keeps_the_beginning,
    stands_in_the_middle, views,
};

verus! {

/// The color of a state.
pub open spec fn state_color(state: PullRequestState) -> Color {
    match state {
        PullRequestState::Open => Color::Blue,
        PullRequestState::Closed => Color::Red,
        PullRequestState::Merged => Color::Green,
    }
}

/// The name of a state, in its color.
pub fn colored_status(state: PullRequestState) -> (r: Line)
    ensures
        r@ == colored(state_color(state), state.name()),
{
    match state {
        PullRequestState::Open => Line::painted(Color::Blue, "open"),
        PullRequestState::Closed => Line::painted(Color::Red, "closed"),
        PullRequestState::Merged => Line::painted(Color::Green, "merged"),
    }
}

/// The last finding about `branch`, if there is one.
pub open spec fn finding_about(found: Seq<BranchReachabilityView>, branch: Seq<char>) -> Option<
    BranchReachabilityView,
>
    decreases found.len(),
{
    if found.len() == 0 {
        None
    } else if found.last().branch == branch {
        Some(found.last())
    } else {
        finding_about(found.drop_last(), branch)
    }
}

fn find<'a>(found: &'a [BranchReachability], branch: &str) -> (r: Option<&'a BranchReachability>)
    ensures
        r is Some <==> finding_about(views(found@), branch@) is Some,
        r matches Some(finding) ==> finding_about(views(found@), branch@) == Some(finding@),
{
    let mut i: usize = found.len();
    let ghost all = views(found@);
    assert(all.take(i as int) =~= all);
    while i > 0
        invariant
            0 <= i <= found@.len(),
            all == views(found@),
            finding_about(all, branch@) == finding_about(all.take(i as int), branch@),
        decreases i,
    {
        proof {
            assert(all.take(i as int).last() == found@[i - 1]@);
            assert(all.take(i as int).drop_last() =~= all.take(i - 1));
        }
        if same(found[i - 1].branch.as_str(), branch) {
            return Some(&found[i - 1]);
        }
        i -= 1;
    }
    None
}

/// The findings about `targets`, in their order.
pub open spec fn findings_about(found: Seq<BranchReachabilityView>, targets: Seq<Seq<char>>) -> Seq<
    BranchReachabilityView,
>
    decreases targets.len(),
{
    if targets.len() == 0 {
        Seq::empty()
    } else {
        let before = findings_about(found, targets.drop_last());
        match finding_about(found, targets.last()) {
            Some(finding) => before.push(finding),
            None => before,
        }
    }
}

/// The branches among the findings that hold the commit.
pub open spec fn reached(found: Seq<BranchReachabilityView>) -> Seq<BranchReachabilityView> {
    found.filter(|finding: BranchReachabilityView| finding.status is Contains)
}

/// The findings that are no answer.
pub open spec fn unknown(found: Seq<BranchReachabilityView>) -> Seq<BranchReachabilityView> {
    found.filter(|finding: BranchReachabilityView| finding.status is Unknown)
}

/// Why there is no answer, on a line of its own, and not too long.
pub open spec fn short_reason(reason: Seq<char>) -> Seq<char> {
    if reason.len() == 0 {
        "unknown error"@
    } else {
        shortened(first_line(reason), 96)
    }
}

/// A branch without an answer, as it is shown: its name, and why there is no
/// answer.
pub open spec fn unknown_check(finding: BranchReachabilityView) -> Seq<SpanView> {
    match finding.status {
        StatusView::Unknown(reason) => seq![
            SpanView::Colored(Color::Yellow, finding.branch),
            SpanView::Plain(" ("@ + short_reason(reason) + ")"@),
        ],
        _ => seq![SpanView::Colored(Color::Yellow, finding.branch)],
    }
}

/// A branch without an answer, as it is shown.
pub fn format_unknown_check(finding: &BranchReachability) -> (r: Line)
    ensures
        r@ == unknown_check(finding@),
{
    let mut line = Line::painted(Color::Yellow, finding.branch.as_str());
    if let BranchReachabilityStatus::Unknown(reason) = &finding.status {
        let short = match line_one(reason.as_str()) {
            Some(first) => shorten(first.as_str(), 96),
            None => {
                proof {
                    reveal_strlit("unknown error");
                }
                shorten("unknown error", 96)
            },
        };
        let mut rest = " (".to_owned();
        rest.append(short.as_str());
        rest.append(")");
        line.push_text(rest.as_str());
    }
    assert(line@ =~= unknown_check(finding@));
    line
}

/// Several pieces of a line, with a comma between each two.
pub open spec fn enumerated(parts: Seq<Seq<SpanView>>) -> Seq<SpanView>
    decreases parts.len(),
{
    if parts.len() == 0 {
        Seq::empty()
    } else if parts.len() == 1 {
        parts[0]
    } else {
        enumerated(parts.drop_last()) + plain(", "@) + parts.last()
    }
}

/// Adds `parts` at the end of a line, with a comma between each two.
fn push_enumeration(line: &mut Line, parts: Vec<Line>)
    ensures
        final(line)@ == old(line)@ + enumerated(views(parts@)),
{
    let ghost all = views(parts@);
    let ghost start = line@;
    assert(start + enumerated(all.take(0)) =~= start);
    let mut first: bool = true;
    for part in it: parts
        invariant
            it.seq() == parts@,
            all == views(parts@),
            first == (it.index() == 0),
            line@ == start + enumerated(all.take(it.index() as int)),
    {
        let ghost i = it.index() as int;
        let ghost before = line@;
        proof {
            assert(all.take(i + 1).drop_last() =~= all.take(i));
            assert(all.take(i + 1).last() == part@);
            assert(all.take(1) =~= seq![all[0]]);
        }
        if !first {
            line.push_text(", ");
        }
        first = false;
        let ghost middle = line@;
        let mut spans = part.spans;
        line.spans.append(&mut spans);
        assert(line@ =~= middle + part@);
        assert(line@ =~= start + enumerated(all.take(i + 1)));
    }
    assert(all.take(all.len() as int) =~= all);
}

/// What is shown of the branches that a change has reached: those that hold
/// it, and those without an answer.
pub open spec fn reachability_lines(found: Seq<BranchReachabilityView>, targets: Seq<Seq<char>>) -> Seq<
    Seq<SpanView>,
> {
    let about = findings_about(found, targets);
    let held = reached(about);
    let open = unknown(about);
    let answer = if held.len() > 0 {
        enumerated(held.map_values(|finding: BranchReachabilityView| colored(Color::Green, finding.branch)))
    } else if open.len() > 0 {
        colored(Color::Yellow, "Unknown"@)
    } else {
        colored(Color::Yellow, "None"@)
    };
    let first = plain("   \u{2514}\u{2500} Reachable in: "@) + answer;
    if open.len() > 0 {
        seq![
            first,
            plain("   \u{2514}\u{2500} Unknown checks: "@) + enumerated(
                open.map_values(|finding: BranchReachabilityView| unknown_check(finding)),
            ),
        ]
    } else {
        seq![first]
    }
}

proof fn filter_push(s: Seq<BranchReachabilityView>, p: spec_fn(BranchReachabilityView) -> bool, x: BranchReachabilityView)
    ensures
        s.push(x).filter(p) == if p(x) {
            s.filter(p).push(x)
        } else {
            s.filter(p)
        },
{
    reveal(Seq::filter);
    assert(s.push(x).drop_last() =~= s);
}

/// What is shown of the branches that a change has reached.
pub fn print_branch_reachability(found: &[BranchReachability], summary_targets: &[String]) -> (r: Vec<Line>)
    ensures
        views(r@) == reachability_lines(views(found@), views(summary_targets@)),
{
    let ghost all = views(found@);
    let ghost targets = views(summary_targets@);
    let ghost green = |finding: BranchReachabilityView| colored(Color::Green, finding.branch);
    let ghost check = |finding: BranchReachabilityView| unknown_check(finding);
    let ghost holds = |finding: BranchReachabilityView| finding.status is Contains;
    let ghost opens = |finding: BranchReachabilityView| finding.status is Unknown;
    let mut held: Vec<Line> = Vec::new();
    let mut open: Vec<Line> = Vec::new();
    let mut i: usize = 0;
    proof {
        reveal(Seq::filter);
        assert(targets.take(0) =~= Seq::empty());
        assert(views(held@) =~= reached(Seq::empty()).map_values(green));
        assert(views(open@) =~= unknown(Seq::empty()).map_values(check));
    }
    while i < summary_targets.len()
        invariant
            0 <= i <= summary_targets@.len(),
            all == views(found@),
            targets == views(summary_targets@),
            green == (|finding: BranchReachabilityView| colored(Color::Green, finding.branch)),
            check == (|finding: BranchReachabilityView| unknown_check(finding)),
            holds == (|finding: BranchReachabilityView| finding.status is Contains),
            opens == (|finding: BranchReachabilityView| finding.status is Unknown),
            views(held@) == reached(findings_about(all, targets.take(i as int))).map_values(green),
            views(open@) == unknown(findings_about(all, targets.take(i as int))).map_values(check),
        decreases summary_targets@.len() - i,
    {
        let ghost before = findings_about(all, targets.take(i as int));
        let ghost held_before = views(held@);
        let ghost open_before = views(open@);
        proof {
            assert(targets.take(i + 1).drop_last() =~= targets.take(i as int));
            assert(targets.take(i + 1).last() == summary_targets@[i as int]@);
        }
        if let Some(finding) = find(found, summary_targets[i].as_str()) {
            proof {
                filter_push(before, holds, finding@);
                filter_push(before, opens, finding@);
            }
            match &finding.status {
                BranchReachabilityStatus::Contains => {
                    held.push(Line::painted(Color::Green, finding.branch.as_str()));
                    assert(views(held@) =~= held_before.push(green(finding@)));
                    assert(views(held@) =~= before.filter(holds).push(finding@).map_values(green));
                },
                BranchReachabilityStatus::Missing => {},
                BranchReachabilityStatus::Unknown(_) => {
                    open.push(format_unknown_check(finding));
                    assert(views(open@) =~= open_before.push(check(finding@)));
                    assert(views(open@) =~= before.filter(opens).push(finding@).map_values(check));
                },
            }
        }
        i += 1;
    }
    proof {
        assert(targets.take(i as int) =~= targets);
        assert(views(held@).len() == held@.len());
        assert(views(open@).len() == open@.len());
    }
    let mut lines: Vec<Line> = Vec::new();
    let mut first = Line::text("   \u{2514}\u{2500} Reachable in: ");
    if held.len() > 0 {
        push_enumeration(&mut first, held);
    } else if open.len() > 0 {
        first.push_painted(Color::Yellow, "Unknown");
        assert(first@ =~= plain("   \u{2514}\u{2500} Reachable in: "@) + colored(Color::Yellow, "Unknown"@));
    } else {
        first.push_painted(Color::Yellow, "None");
        assert(first@ =~= plain("   \u{2514}\u{2500} Reachable in: "@) + colored(Color::Yellow, "None"@));
    }
    lines.push(first);
    if open.len() > 0 {
        let mut second = Line::text("   \u{2514}\u{2500} Unknown checks: ");
        push_enumeration(&mut second, open);
        lines.push(second);
    }
    assert(views(lines@) =~= reachability_lines(all, targets));
    lines
}

/// The line that shows a pull request: its title, its state and its number.
pub open spec fn title_line(pr: PullRequestView) -> Seq<SpanView> {
    seq![
        SpanView::Colored(Color::Blue, pr.title),
        SpanView::Plain(" ("@),
        SpanView::Colored(state_color(pr.state), pr.state.name()),
        SpanView::Plain(") "@),
        SpanView::Link { text: "#"@ + decimal(pr.number as nat), url: pr.url },
    ]
}

/// The lines that show a pull request: for one that was merged by a known
/// commit, with the branches that this commit has reached.
pub open spec fn pr_lines(
    pr: PullRequestView,
    targets: Seq<Seq<char>>,
    found: Seq<BranchReachabilityView>,
) -> Seq<Seq<SpanView>> {
    if pr.landed() is Some {
        seq![title_line(pr)] + reachability_lines(found, targets)
    } else {
        seq![title_line(pr)]
    }
}

/// The lines that show the first `n` of `prs`.
pub open spec fn all_lines(
    prs: Seq<PullRequestView>,
    targets: Seq<Seq<Seq<char>>>,
    found: Seq<Seq<BranchReachabilityView>>,
    n: int,
) -> Seq<Seq<SpanView>>
    decreases n,
{
    if n <= 0 {
        Seq::empty()
    } else {
        all_lines(prs, targets, found, n - 1) + pr_lines(prs[n - 1], targets[n - 1], found[n - 1])
    }
}

/// The branches to report on, plan by plan.
pub open spec fn summaries(plans: Seq<BranchPlan>) -> Seq<Seq<Seq<char>>> {
    plans.map_values(|plan: BranchPlan| plan.summary())
}

/// What the findings stand for, request by request.
pub open spec fn finding_views(found: Seq<Vec<BranchReachability>>) -> Seq<Seq<BranchReachabilityView>> {
    found.map_values(|findings: Vec<BranchReachability>| views(findings@))
}

/// The least of three numbers.
pub open spec fn shortest(a: nat, b: nat, c: nat) -> nat {
    if a <= b && a <= c {
        a
    } else if b <= c {
        b
    } else {
        c
    }
}

fn print_title(pr: &PullRequest) -> (r: Line)
    ensures
        r@ == title_line(pr@),
{
    let mut line = Line::painted(Color::Blue, pr.title.as_str());
    line.push_text(" (");
    let mut status = colored_status(pr.state);
    let ghost before = line@;
    let ghost state = status@;
    line.spans.append(&mut status.spans);
    assert(line@ =~= before + state);
    line.push_text(") ");
    let mut number = "#".to_owned();
    number.append(decimal_text(pr.number as u128).as_str());
    line.push_link(number.as_str(), pr.url.as_str());
    assert(line@ =~= title_line(pr@));
    line
}

/// The lines that show `prs`, each with its plan and its findings, as far as
/// there are plans and findings.
pub fn print(prs: &[PullRequest], plans: &[BranchPlan], reachability_by_pr: &[Vec<BranchReachability>]) -> (r:
    Vec<Line>)
    ensures
        views(r@) == all_lines(
            views(prs@),
            summaries(plans@),
            finding_views(reachability_by_pr@),
            shortest(prs@.len(), plans@.len(), reachability_by_pr@.len()) as int,
        ),
{
    let mut lines: Vec<Line> = Vec::new();
    let ghost shown = views(prs@);
    let ghost targets = summaries(plans@);
    let ghost found = finding_views(reachability_by_pr@);
    let mut i: usize = 0;
    assert(views(lines@) =~= Seq::empty());
    while i < prs.len() && i < plans.len() && i < reachability_by_pr.len()
        invariant
            0 <= i <= shortest(prs@.len(), plans@.len(), reachability_by_pr@.len()),
            shown == views(prs@),
            targets == summaries(plans@),
            found == finding_views(reachability_by_pr@),
            views(lines@) == all_lines(shown, targets, found, i as int),
        decreases prs@.len() - i,
    {
        let ghost before = views(lines@);
        lines.push(print_title(&prs[i]));
        assert(views(lines@) =~= before.push(title_line(shown[i as int])));
        if prs[i].landed().is_some() {
            let mut more = print_branch_reachability(
                reachability_by_pr[i].as_slice(),
                plans[i].summary_targets(),
            );
            let ghost middle = views(lines@);
            let ghost tail = views(more@);
            lines.append(&mut more);
            assert(views(lines@) =~= middle + tail);
        }
        assert(views(lines@) =~= before + pr_lines(shown[i as int], targets[i as int], found[i as int]));
        i += 1;
    }
    lines
}

/// What counts of a branch is the last finding about it; there is one if and
/// only if some finding is about the branch.
pub proof fn last_finding_counts(found: Seq<BranchReachabilityView>, branch: Seq<char>)
    ensures
        finding_about(found, branch) is Some <==> exists|i: int|
            0 <= i < found.len() && (#[trigger] found[i]).branch == branch,
        finding_about(found, branch) matches Some(finding) ==> exists|i: int|
            0 <= i < found.len() && #[trigger] found[i] == finding && finding.branch == branch && forall|j: int|
                i < j < found.len() ==> (#[trigger] found[j]).branch != branch,
    decreases found.len(),
{
    if found.len() > 0 {
        let last = found.len() - 1;
        let before = found.drop_last();
        if found[last].branch == branch {
            assert(found.last() == found[last]);
        } else {
            last_finding_counts(before, branch);
            if exists|i: int| 0 <= i < found.len() && (#[trigger] found[i]).branch == branch {
                let i = choose|i: int| 0 <= i < found.len() && (#[trigger] found[i]).branch == branch;
                assert(before[i] == found[i]);
            }
            if let Some(finding) = finding_about(before, branch) {
                let i = choose|i: int|
                    0 <= i < before.len() && #[trigger] before[i] == finding && finding.branch == branch
                        && forall|j: int| i < j < before.len() ==> (#[trigger] before[j]).branch != branch;
                assert(found[i] == finding);
                assert forall|j: int| i < j < found.len() implies (#[trigger] found[j]).branch != branch by {
                    if j < last {
                        assert(before[j] == found[j]);
                    }
                }
            }
        }
    }
}

/// The findings to report on are those about the targets, and no others.
proof fn findings_are_about_targets(
    found: Seq<BranchReachabilityView>,
    targets: Seq<Seq<char>>,
    finding: BranchReachabilityView,
)
    ensures
        findings_about(found, targets).contains(finding) <==> exists|t: int|
            0 <= t < targets.len() && finding_about(found, #[trigger] targets[t]) == Some(finding),
    decreases targets.len(),
{
    if targets.len() > 0 {
        let before = targets.drop_last();
        let last = targets.len() - 1;
        let some = findings_about(found, before);
        let all = findings_about(found, targets);
        findings_are_about_targets(found, before, finding);
        if all.contains(finding) {
            let k = choose|k: int| 0 <= k < all.len() && all[k] == finding;
            if k < some.len() {
                assert(some[k] == finding);
                let t = choose|t: int|
                    0 <= t < before.len() && finding_about(found, #[trigger] before[t]) == Some(finding);
                assert(targets[t] == before[t]);
            } else {
                assert(finding_about(found, targets[last]) == Some(finding));
            }
        }
        if exists|t: int| 0 <= t < targets.len() && finding_about(found, #[trigger] targets[t]) == Some(finding) {
            let t = choose|t: int|
                0 <= t < targets.len() && finding_about(found, #[trigger] targets[t]) == Some(finding);
            if t < last {
                assert(before[t] == targets[t]);
                let k = choose|k: int| 0 <= k < some.len() && some[k] == finding;
                assert(all[k] == finding);
            } else {
                assert(all[some.len() as int] == finding);
            }
        }
    }
}

/// What is left by a filter is what was there and passes.
proof fn filter_keeps(s: Seq<BranchReachabilityView>, p: spec_fn(BranchReachabilityView) -> bool, x: BranchReachabilityView)
    ensures
        s.filter(p).contains(x) <==> s.contains(x) && p(x),
    decreases s.len(),
{
    reveal(Seq::filter);
    if s.len() > 0 {
        let before = s.drop_last();
        filter_keeps(before, p, x);
        filter_push(before, p, s.last());
        assert(before.push(s.last()) =~= s);
        let some = before.filter(p);
        if s.contains(x) {
            let i = choose|i: int| 0 <= i < s.len() && s[i] == x;
            if i < before.len() {
                assert(before[i] == x);
            }
        }
        if before.contains(x) {
            let i = choose|i: int| 0 <= i < before.len() && before[i] == x;
            assert(s[i] == x);
        }
        assert(s.contains(s.last())) by {
            assert(s[s.len() - 1] == s.last());
        }
        if some.contains(x) {
            let i = choose|i: int| 0 <= i < some.len() && some[i] == x;
            assert(some.push(s.last())[i] == x);
        }
        if p(s.last()) {
            assert(some.push(s.last())[some.len() as int] == s.last());
            if some.push(s.last()).contains(x) {
                let i = choose|i: int| 0 <= i < some.push(s.last()).len() && some.push(s.last())[i] == x;
                if i < some.len() {
                    assert(some[i] == x);
                }
            }
        }
    }
}

/// A piece of an enumeration is a piece of one of its parts, or a comma; and
/// the pieces of all parts are there.
proof fn enumeration_holds_its_parts(parts: Seq<Seq<SpanView>>, span: SpanView)
    requires
        span != SpanView::Plain(", "@),
    ensures
        enumerated(parts).contains(span) <==> exists|i: int|
            0 <= i < parts.len() && (#[trigger] parts[i]).contains(span),
    decreases parts.len(),
{
    if parts.len() == 0 {
    } else if parts.len() == 1 {
        assert(parts[0] == enumerated(parts));
    } else {
        let before = parts.drop_last();
        let last = parts.len() - 1;
        let head = enumerated(before);
        let all = enumerated(parts);
        enumeration_holds_its_parts(before, span);
        assert(all == head + plain(", "@) + parts[last]);
        if all.contains(span) {
            let k = choose|k: int| 0 <= k < all.len() && all[k] == span;
            if k < head.len() {
                assert(head[k] == span);
                let i = choose|i: int| 0 <= i < before.len() && (#[trigger] before[i]).contains(span);
                assert(parts[i] == before[i]);
            } else if k == head.len() {
                assert(all[k] == plain(", "@)[0]);
            } else {
                assert(parts[last][k - head.len() - 1] == span);
            }
        }
        if exists|i: int| 0 <= i < parts.len() && (#[trigger] parts[i]).contains(span) {
            let i = choose|i: int| 0 <= i < parts.len() && (#[trigger] parts[i]).contains(span);
            if i < last {
                assert(before[i] == parts[i]);
                let k = choose|k: int| 0 <= k < head.len() && head[k] == span;
                assert(all[k] == span);
            } else {
                let k = choose|k: int| 0 <= k < parts[last].len() && parts[last][k] == span;
                assert(all[head.len() + 1 + k] == span);
            }
        }
    }
}

/// A branch is shown as reached if and only if it is to be reported on and
/// what counts of it says that it holds the commit.
pub proof fn reached_branches_are_shown(
    found: Seq<BranchReachabilityView>,
    targets: Seq<Seq<char>>,
    branch: Seq<char>,
)
    ensures
        reachability_lines(found, targets).len() >= 1,
        reachability_lines(found, targets)[0].contains(SpanView::Colored(Color::Green, branch)) <==> targets.contains(
            branch,
        ) && (finding_about(found, branch) matches Some(finding) && finding.status is Contains),
{
    let about = findings_about(found, targets);
    let is_held = |finding: BranchReachabilityView| finding.status is Contains;
    let held = reached(about);
    let green = |finding: BranchReachabilityView| colored(Color::Green, finding.branch);
    let parts = held.map_values(green);
    let span = SpanView::Colored(Color::Green, branch);
    let line = reachability_lines(found, targets)[0];
    let lead = plain("   \u{2514}\u{2500} Reachable in: "@);
    enumeration_holds_its_parts(parts, span);
    if held.len() > 0 {
        assert(line =~= lead + enumerated(parts));
        if line.contains(span) {
            let k = choose|k: int| 0 <= k < line.len() && line[k] == span;
            assert(k > 0);
            assert(enumerated(parts)[k - 1] == span);
            let i = choose|i: int| 0 <= i < parts.len() && (#[trigger] parts[i]).contains(span);
            assert(held[i].branch == branch);
            filter_keeps(about, is_held, held[i]);
            assert(held.contains(held[i]));
            findings_are_about_targets(found, targets, held[i]);
            let t = choose|t: int|
                0 <= t < targets.len() && finding_about(found, #[trigger] targets[t]) == Some(held[i]);
            last_finding_counts(found, targets[t]);
            assert(targets[t] == branch);
        }
    } else {
        assert(line.len() == 2);
        assert(line[0] != span && line[1] != span);
    }
    if targets.contains(branch) {
        if let Some(finding) = finding_about(found, branch) {
            if finding.status is Contains {
                let t = choose|t: int| 0 <= t < targets.len() && targets[t] == branch;
                assert(finding_about(found, targets[t]) == Some(finding));
                findings_are_about_targets(found, targets, finding);
                filter_keeps(about, is_held, finding);
                let i = choose|i: int| 0 <= i < held.len() && held[i] == finding;
                last_finding_counts(found, branch);
                assert(parts[i] == colored(Color::Green, branch));
                assert(parts[i][0] == span);
                assert(parts[i].contains(span));
                assert(enumerated(parts).contains(span));
                let k = choose|k: int| 0 <= k < enumerated(parts).len() && enumerated(parts)[k] == span;
                assert(line == lead + enumerated(parts));
                assert(line[k + 1] == span);
            }
        }
    }
}

/// There is a second line if and only if something is unknown of a branch to
/// be reported on; it names each such branch.
pub proof fn unknown_branches_are_shown(
    found: Seq<BranchReachabilityView>,
    targets: Seq<Seq<char>>,
    branch: Seq<char>,
)
    requires
        targets.contains(branch),
        finding_about(found, branch) matches Some(finding) && finding.status is Unknown,
    ensures
        reachability_lines(found, targets).len() == 2,
        reachability_lines(found, targets)[1].contains(SpanView::Colored(Color::Yellow, branch)),
{
    let finding = finding_about(found, branch)->0;
    let about = findings_about(found, targets);
    let is_open = |one: BranchReachabilityView| one.status is Unknown;
    let open = unknown(about);
    let check = |one: BranchReachabilityView| unknown_check(one);
    let parts = open.map_values(check);
    let span = SpanView::Colored(Color::Yellow, branch);
    let t = choose|t: int| 0 <= t < targets.len() && targets[t] == branch;
    assert(finding_about(found, targets[t]) == Some(finding));
    findings_are_about_targets(found, targets, finding);
    filter_keeps(about, is_open, finding);
    last_finding_counts(found, branch);
    let i = choose|i: int| 0 <= i < open.len() && open[i] == finding;
    assert(parts[i] == unknown_check(finding));
    assert(parts[i][0] == span);
    assert(parts[i].contains(span));
    enumeration_holds_its_parts(parts, span);
    let k = choose|k: int| 0 <= k < enumerated(parts).len() && enumerated(parts)[k] == span;
    let line = reachability_lines(found, targets)[1];
    assert(line == plain("   \u{2514}\u{2500} Unknown checks: "@) + enumerated(parts));
    assert(line[k + 1] == span);
}

/// Where no branch to be reported on holds the commit, the first line says so:
/// that this is unknown, if something is, and that there is none otherwise.
pub proof fn nothing_reached_is_said(found: Seq<BranchReachabilityView>, targets: Seq<Seq<char>>)
    requires
        forall|t: int|
            0 <= t < targets.len() ==> !(finding_about(found, #[trigger] targets[t]) matches Some(finding)
                && finding.status is Contains),
    ensures
        reachability_lines(found, targets)[0].last() == SpanView::Colored(
            Color::Yellow,
            if exists|t: int|
                0 <= t < targets.len() && (finding_about(found, #[trigger] targets[t]) matches Some(finding)
                    && finding.status is Unknown) {
                "Unknown"@
            } else {
                "None"@
            },
        ),
        reachability_lines(found, targets).len() == if exists|t: int|
            0 <= t < targets.len() && (finding_about(found, #[trigger] targets[t]) matches Some(finding)
                && finding.status is Unknown) {
            2nat
        } else {
            1nat
        },
{
    let about = findings_about(found, targets);
    let is_held = |one: BranchReachabilityView| one.status is Contains;
    let is_open = |one: BranchReachabilityView| one.status is Unknown;
    let held = reached(about);
    let open = unknown(about);
    if held.len() > 0 {
        assert(held.contains(held[0]));
        filter_keeps(about, is_held, held[0]);
        findings_are_about_targets(found, targets, held[0]);
    }
    if open.len() > 0 {
        assert(open.contains(open[0]));
        filter_keeps(about, is_open, open[0]);
        findings_are_about_targets(found, targets, open[0]);
        let t = choose|t: int|
            0 <= t < targets.len() && finding_about(found, #[trigger] targets[t]) == Some(open[0]);
        assert(finding_about(found, targets[t]) matches Some(finding) && finding.status is Unknown);
    }
    if exists|t: int|
        0 <= t < targets.len() && (finding_about(found, #[trigger] targets[t]) matches Some(finding)
            && finding.status is Unknown) {
        let t = choose|t: int|
            0 <= t < targets.len() && (finding_about(found, #[trigger] targets[t]) matches Some(finding)
                && finding.status is Unknown);
        let finding = finding_about(found, targets[t])->0;
        findings_are_about_targets(found, targets, finding);
        filter_keeps(about, is_open, finding);
    }
}

/// A branch without an answer is shown by its name and the first line of the
/// reason, cut where it is long.
pub proof fn unknown_check_gives_the_reason(branch: Seq<char>, reason: Seq<char>)
    requires
        reason.len() > 0,
        first_line(reason).len() <= 96,
    ensures
        ({
            let shown = unknown_check(
                BranchReachabilityView { branch, status: StatusView::Unknown(reason) },
            );
            shown.len() == 2 && shown[0] == SpanView::Colored(Color::Yellow, branch) && (
            shown[1] matches SpanView::Plain(text) && holds(text, first_line(reason)))
        }),
{
    let line = first_line(reason);
    let text = " ("@ + line + ")"@;
    let at = " ("@.len() as int;
    assert(text.subrange(at, at + line.len()) =~= line);
    assert(holds(text, line));
}

/// Every pull request is shown, by its title, its state and its number, which
/// leads to its page; a merged one with the lines on its branches right behind.
pub proof fn every_request_is_shown(
    prs: Seq<PullRequestView>,
    targets: Seq<Seq<Seq<char>>>,
    found: Seq<Seq<BranchReachabilityView>>,
    n: int,
    i: int,
)
    requires
        0 <= i < n,
    ensures
        all_lines(prs, targets, found, i).len() < all_lines(prs, targets, found, n).len(),
        ({
            let line = all_lines(prs, targets, found, n)[all_lines(prs, targets, found, i).len() as int];
            &&& line.contains(SpanView::Colored(Color::Blue, prs[i].title))
            &&& line.contains(SpanView::Colored(state_color(prs[i].state), prs[i].state.name()))
            &&& line.contains(SpanView::Link { text: "#"@ + decimal(prs[i].number as nat), url: prs[i].url })
        }),
        all_lines(prs, targets, found, i + 1).len() - all_lines(prs, targets, found, i).len() == if prs[i].state
            == PullRequestState::Merged && prs[i].merge_commit_sha is Some {
            1 + reachability_lines(found[i], targets[i]).len()
        } else {
            1
        },
        prs[i].state == PullRequestState::Merged && prs[i].merge_commit_sha is Some ==> forall|k: int|
            0 <= k < reachability_lines(found[i], targets[i]).len() ==> all_lines(prs, targets, found, n)[all_lines(
                prs,
                targets,
                found,
                i,
            ).len() + 1 + k] == #[trigger] reachability_lines(found[i], targets[i])[k],
    decreases n,
{
    let before = all_lines(prs, targets, found, i);
    let upto = all_lines(prs, targets, found, i + 1);
    let own = pr_lines(prs[i], targets[i], found[i]);
    let all = all_lines(prs, targets, found, n);
    if i < n - 1 {
        every_request_is_shown(prs, targets, found, n - 1, i);
        let some = all_lines(prs, targets, found, n - 1);
        assert(all[before.len() as int] == some[before.len() as int]);
        lines_begin_alike(prs, targets, found, i + 1, n - 1);
        assert forall|k: int|
            prs[i].landed() is Some && 0 <= k < reachability_lines(found[i], targets[i]).len() implies all[before.len()
            + 1 + k] == #[trigger] reachability_lines(found[i], targets[i])[k] by {
            assert(some[before.len() + 1 + k] == all[before.len() + 1 + k]);
        }
    } else {
        let line = all[before.len() as int];
        assert(line == own[0]);
        assert(line[0] == SpanView::Colored(Color::Blue, prs[i].title));
        assert(line[2] == SpanView::Colored(state_color(prs[i].state), prs[i].state.name()));
        assert(line.contains(line[2]));
        assert(line[4] == SpanView::Link { text: "#"@ + decimal(prs[i].number as nat), url: prs[i].url });
        assert forall|k: int|
            prs[i].landed() is Some && 0 <= k < reachability_lines(found[i], targets[i]).len() implies all[before.len()
            + 1 + k] == #[trigger] reachability_lines(found[i], targets[i])[k] by {
            assert(own[k + 1] == reachability_lines(found[i], targets[i])[k]);
        }
    }
}

/// What is shown of the first pull requests stays where it is when there are
/// more.
proof fn lines_begin_alike(
    prs: Seq<PullRequestView>,
    targets: Seq<Seq<Seq<char>>>,
    found: Seq<Seq<BranchReachabilityView>>,
    m: int,
    n: int,
)
    requires
        0 <= m <= n,
    ensures
        all_lines(prs, targets, found, m).len() <= all_lines(prs, targets, found, n).len(),
    decreases n,
{
    if m < n {
        lines_begin_alike(prs, targets, found, m, n - 1);
    }
}

/// Each further branch to report on goes behind the others: one that holds the
/// commit at the end of the first line, and one without an answer at the end of
/// the second. Any other branch changes nothing.
pub proof fn branches_come_in_order(
    found: Seq<BranchReachabilityView>,
    targets: Seq<Seq<char>>,
    branch: Seq<char>,
)
    ensures
        ({
            let before = reachability_lines(found, targets);
            let lines = reachability_lines(found, targets.push(branch));
            match finding_about(found, branch) {
                Some(finding) => match finding.status {
                    StatusView::Contains => {
                        &&& lines.len() == before.len()
                        &&& lines[0].last() == SpanView::Colored(Color::Green, branch)
                        &&& (exists|t: int|
                            0 <= t < targets.len() && (finding_about(found, #[trigger] targets[t]) matches Some(other)
                                && other.status is Contains)) ==> lines[0] == before[0] + seq![
                            SpanView::Plain(", "@),
                            SpanView::Colored(Color::Green, branch),
                        ]
                        &&& lines.len() == 2 ==> lines[1] == before[1]
                    },
                    StatusView::Unknown(_) => {
                        &&& lines.len() == 2
                        &&& before.len() == 2 ==> lines[0] == before[0] && lines[1] == before[1] + seq![
                            SpanView::Plain(", "@),
                        ] + unknown_check(finding)
                    },
                    StatusView::Missing => lines == before,
                },
                None => lines == before,
            }
        }),
{
    let more = targets.push(branch);
    let green = |finding: BranchReachabilityView| colored(Color::Green, finding.branch);
    let check = |finding: BranchReachabilityView| unknown_check(finding);
    let is_held = |finding: BranchReachabilityView| finding.status is Contains;
    let is_open = |finding: BranchReachabilityView| finding.status is Unknown;
    let some = findings_about(found, targets);
    let all = findings_about(found, more);
    let lines = reachability_lines(found, more);
    let before = reachability_lines(found, targets);
    assert(more.drop_last() =~= targets);
    assert(more.last() == branch);
    if let Some(finding) = finding_about(found, branch) {
        last_finding_counts(found, branch);
        filter_push(some, is_held, finding);
        filter_push(some, is_open, finding);
        assert(all == some.push(finding));
        let held = reached(some);
        let open = unknown(some);
        match finding.status {
            StatusView::Contains => {
                assert(reached(all) == held.push(finding));
                assert(unknown(all) == open);
                let parts = held.map_values(green);
                let longer = held.push(finding).map_values(green);
                assert(longer =~= parts.push(colored(Color::Green, branch)));
                assert(longer.drop_last() =~= parts);
                assert(longer.last() == colored(Color::Green, branch));
                if held.len() > 0 {
                    assert(enumerated(longer) == enumerated(parts) + plain(", "@) + colored(Color::Green, branch));
                    assert(lines[0] =~= before[0] + seq![
                        SpanView::Plain(", "@),
                        SpanView::Colored(Color::Green, branch),
                    ]);
                } else {
                    assert(enumerated(longer) == colored(Color::Green, branch));
                    if exists|t: int|
                        0 <= t < targets.len() && (finding_about(found, #[trigger] targets[t]) matches Some(other)
                            && other.status is Contains) {
                        let t = choose|t: int|
                            0 <= t < targets.len() && (finding_about(found, #[trigger] targets[t]) matches Some(other)
                                && other.status is Contains);
                        let other = finding_about(found, targets[t])->0;
                        findings_are_about_targets(found, targets, other);
                        filter_keeps(some, is_held, other);
                    }
                }
            },
            StatusView::Unknown(_) => {
                assert(reached(all) == held);
                assert(unknown(all) == open.push(finding));
                let parts = open.map_values(check);
                let longer = open.push(finding).map_values(check);
                assert(longer =~= parts.push(unknown_check(finding)));
                assert(longer.drop_last() =~= parts);
                if open.len() > 0 {
                    assert(enumerated(longer) == enumerated(parts) + plain(", "@) + unknown_check(finding));
                    assert(lines[1] =~= before[1] + seq![SpanView::Plain(", "@)] + unknown_check(finding));
                }
            },
            StatusView::Missing => {},
        }
    }
}

/// Without branches to report on, the one line says that there are none.
pub proof fn no_branch_is_said(found: Seq<BranchReachabilityView>)
    ensures
        reachability_lines(found, Seq::empty()).len() == 1,
        reachability_lines(found, Seq::empty())[0].last() == SpanView::Colored(Color::Yellow, "None"@),
{
    reveal(Seq::filter);
}

/// A branch without an answer is shown with nothing but its name where nothing
/// is open, and with a reason in brackets otherwise: the first line of what was
/// given, to its 96th character, and a stand-in where nothing was given.
pub proof fn reasons_are_short(branch: Seq<char>, status: StatusView)
    ensures
        ({
            let shown = unknown_check(BranchReachabilityView { branch, status });
            &&& shown[0] == SpanView::Colored(Color::Yellow, branch)
            &&& !(status is Unknown) ==> shown.len() == 1
            &&& status matches StatusView::Unknown(reason) ==> shown.len() == 2 && (shown[1] matches SpanView::Plain(
                text,
            ) && {
                &&& text.len() <= 96 + 3 + 3
                &&& text.len() >= 3 && text[0] == ' ' && text[1] == '(' && text.last() == ')'
                &&& reason.len() == 0 ==> holds(text, "unknown error"@)
                &&& reason.len() > 0 ==> forall|i: int|
                    0 <= i < first_line(reason).len() && i < 96 ==> text[i + 2] == #[trigger] first_line(reason)[i]
                &&& reason.len() > 0 && first_line(reason).len() <= 96 ==> text.len() == first_line(reason).len() + 3
            })
        }),
{
    reveal_strlit(" (");
    reveal_strlit(")");
    reveal_strlit("unknown error");
    if let StatusView::Unknown(reason) = status {
        shortened_keeps_the_beginning(first_line(reason), 96);
        let inner = short_reason(reason);
        stands_in_the_middle(" ("@, inner, ")"@);
        let text = " ("@ + inner + ")"@;
        assert forall|i: int| reason.len() > 0 && 0 <= i < first_line(reason).len() && i < 96 implies text[i + 2]
            == #[trigger] first_line(reason)[i] by {
            assert(shortened(first_line(reason), 96)[i] == first_line(reason)[i]);
            assert(text[i + 2] == inner[i]);
        }
    }
}

/// As many pull requests are shown as there are plans and findings for, and
/// each with the branches of its own plan and with its own findings.
pub proof fn each_request_has_its_plan(
    plans: Seq<BranchPlan>,
    found: Seq<Vec<BranchReachability>>,
    a: nat,
    b: nat,
    c: nat,
)
    ensures
        summaries(plans).len() == plans.len(),
        forall|i: int| 0 <= i < plans.len() ==> #[trigger] summaries(plans)[i] == plans[i].summary(),
        finding_views(found).len() == found.len(),
        forall|i: int, j: int|
            0 <= i < found.len() && 0 <= j < found[i]@.len() ==> #[trigger] finding_views(found)[i][j] == found[i]@[j]@,
        shortest(a, b, c) <= a && shortest(a, b, c) <= b && shortest(a, b, c) <= c,
        shortest(a, b, c) == a || shortest(a, b, c) == b || shortest(a, b, c) == c,
{
}

/// No two states are shown in the same color; what is merged is shown in the
/// color of the branches that hold it.
pub proof fn states_have_their_colors(a: PullRequestState, b: PullRequestState)
    ensures
        state_color(a) == state_color(b) ==> a == b,
        state_color(a) == Color::Green <==> a == PullRequestState::Merged,
        state_color(a) == Color::Red <==> a == PullRequestState::Closed,
{
}

} // verus!
