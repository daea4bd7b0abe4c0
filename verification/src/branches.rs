//! How a change flows from one nixpkgs branch to the next.
use vstd::prelude::*;
use vstd::string::*;

use crate::text::{
    chars_of, decimal, decimal_reads_back, decimal_value, digit_value, digits, has_prefix, has_suffix, is_digit, same,
    strip_prefix, strip_suffix, views,
};

verus! {

/// Whether `v` is a version number: digits and dots, at least one of them.
pub open spec fn version_number(v: Seq<char>) -> bool {
    v.len() > 0 && forall|i: int| 0 <= i < v.len() ==> (#[trigger] v[i] == '.' || is_digit(v[i]))
}

/// Whether two characters denote a number: two digits, or a plus sign and a
/// digit.
pub open spec fn is_number_pair(a: char, b: char) -> bool {
    (is_digit(a) || a == '+') && is_digit(b)
}

/// The number that two characters denote.
pub open spec fn pair_value(a: char, b: char) -> nat {
    if a == '+' {
        digit_value(b)
    } else {
        digit_value(a) * 10 + digit_value(b)
    }
}

/// Whether `v` is a release: two numbers of two characters with a dot between.
pub open spec fn is_release(v: Seq<char>) -> bool {
    v.len() == 5 && v[2] == '.' && is_number_pair(v[0], v[1]) && is_number_pair(v[3], v[4])
}

/// The branches that take over what was merged to branch `b`, in order.
pub open spec fn next_names(b: Seq<char>) -> Seq<Seq<char>> {
    if b == "staging"@ {
        seq!["staging-next"@]
    } else if b == "staging-next"@ || b == "staging-nixos"@ {
        seq!["master"@]
    } else if b == "master"@ {
        seq!["nixpkgs-unstable"@, "nixos-unstable-small"@]
    } else if has_prefix(b, "staging-next-"@) && version_number(b.skip("staging-next-"@.len() as int)) {
        seq!["release-"@ + b.skip("staging-next-"@.len() as int)]
    } else if has_prefix(b, "release-"@) && version_number(b.skip("release-"@.len() as int)) {
        let version = b.skip("release-"@.len() as int);
        seq!["nixpkgs-"@ + version + "-darwin"@, "nixos-"@ + version + "-small"@]
    } else if has_prefix(b, "nixos-"@) && has_suffix(b.skip("nixos-"@.len() as int), "-small"@) {
        seq![b.take(b.len() - "-small"@.len())]
    } else if has_prefix(b, "staging-"@) && is_release(b.skip("staging-"@.len() as int)) {
        let version = b.skip("staging-"@.len() as int);
        if pair_value(version[0], version[1]) <= 20 {
            seq!["release-"@ + version]
        } else {
            seq!["staging-next-"@ + version]
        }
    } else {
        seq![]
    }
}

/// Whether `version` is made of digits and dots, and not empty.
pub fn is_version_number(version: &str) -> (r: bool)
    ensures
        r == version_number(version@),
{
    let chars = chars_of(version);
    let mut i: usize = 0;
    while i < chars.len()
        invariant
            0 <= i <= chars@.len(),
            chars@ == version@,
            forall|j: int| 0 <= j < i ==> (#[trigger] version@[j] == '.' || is_digit(version@[j])),
        decreases chars@.len() - i,
    {
        let c = chars[i];
        if c != '.' && (c < '0' || '9' < c) {
            assert(version@[i as int] == c);
            return false;
        }
        i += 1;
    }
    chars.len() > 0
}

/// The number that a pair of characters denotes, if it denotes one.
fn number_pair(a: char, b: char) -> (r: Option<u8>)
    ensures
        r is Some <==> is_number_pair(a, b),
        r matches Some(n) ==> n == pair_value(a, b),
{
    if b < '0' || '9' < b {
        return None;
    }
    let low: u8 = b as u8 - '0' as u8;
    if a == '+' {
        return Some(low);
    }
    if a < '0' || '9' < a {
        return None;
    }
    let high: u8 = a as u8 - '0' as u8;
    Some(high * 10 + low)
}

/// The major number of a release such as `25.11`; nothing where `version` is
/// not a release.
pub fn release_major(version: &str) -> (r: Option<u8>)
    ensures
        r is Some <==> is_release(version@),
        r matches Some(major) ==> major == pair_value(version@[0], version@[1]),
{
    let chars = chars_of(version);
    if chars.len() != 5 || chars[2] != '.' {
        return None;
    }
    if number_pair(chars[3], chars[4]).is_none() {
        return None;
    }
    number_pair(chars[0], chars[1])
}

/// `a`, `b` and `c` as one text.
fn cat(a: &str, b: &str, c: &str) -> (r: String)
    ensures
        r@ == a@ + b@ + c@,
{
    let mut out = a.to_owned();
    out.append(b);
    out.append(c);
    out
}

/// The branches that take over what was merged to `branch`.
pub fn next_branches(branch: &str) -> (r: Vec<String>)
    ensures
        views(r@) == next_names(branch@),
{
    let mut next: Vec<String> = Vec::new();
    proof {
        reveal_strlit("");
    }
    if same(branch, "staging") {
        next.push("staging-next".to_owned());
        assert(views(next@) =~= next_names(branch@));
        return next;
    }
    if same(branch, "staging-next") || same(branch, "staging-nixos") {
        next.push("master".to_owned());
        assert(views(next@) =~= next_names(branch@));
        return next;
    }
    if same(branch, "master") {
        next.push("nixpkgs-unstable".to_owned());
        next.push("nixos-unstable-small".to_owned());
        assert(views(next@) =~= next_names(branch@));
        return next;
    }
    if let Some(version) = strip_prefix(branch, "staging-next-") {
        if is_version_number(version.as_str()) {
            next.push(cat("release-", version.as_str(), ""));
            assert("release-"@ + version@ + ""@ =~= "release-"@ + version@);
            assert(views(next@) =~= next_names(branch@));
            return next;
        }
    }
    if let Some(version) = strip_prefix(branch, "release-") {
        if is_version_number(version.as_str()) {
            next.push(cat("nixpkgs-", version.as_str(), "-darwin"));
            next.push(cat("nixos-", version.as_str(), "-small"));
            assert(views(next@) =~= next_names(branch@));
            return next;
        }
    }
    if let Some(rest) = strip_prefix(branch, "nixos-") {
        if let Some(channel) = strip_suffix(rest.as_str(), "-small") {
            next.push(cat("nixos-", channel.as_str(), ""));
            proof {
                let cut = branch@.len() - "-small"@.len();
                assert("nixos-"@ =~= branch@.take("nixos-"@.len() as int));
                assert("nixos-"@ + channel@ + ""@ =~= branch@.take(cut));
            }
            assert(views(next@) =~= next_names(branch@));
            return next;
        }
    }
    if let Some(version) = strip_prefix(branch, "staging-") {
        if let Some(major) = release_major(version.as_str()) {
            let prefix = if major <= 20 {
                "release-"
            } else {
                "staging-next-"
            };
            next.push(cat(prefix, version.as_str(), ""));
            assert(prefix@ + version@ + ""@ =~= prefix@ + version@);
            assert(views(next@) =~= next_names(branch@));
            return next;
        }
    }
    assert(views(next@) =~= next_names(branch@));
    next
}

/// How far `b` is from the end of the flow, at most.
pub open spec fn rank(b: Seq<char>) -> nat {
    if has_prefix(b, "nixos-"@) {
        b.len()
    } else if has_prefix(b, "release-"@) || has_prefix(b, "staging-next-"@) {
        b.len() + 10
    } else if b == "staging"@ {
        b.len() + 30
    } else if b == "master"@ || has_prefix(b, "staging-"@) {
        b.len() + 20
    } else {
        0
    }
}

/// A text that begins with `p` has the letters of `p` in front.
proof fn prefix_letters(s: Seq<char>, p: Seq<char>)
    ensures
        has_prefix(s, p) <==> p.len() <= s.len() && forall|i: int|
            0 <= i < p.len() ==> #[trigger] s[i] == p[i],
{
    if has_prefix(s, p) {
        assert forall|i: int| 0 <= i < p.len() implies #[trigger] s[i] == p[i] by {
            assert(s.take(p.len() as int)[i] == s[i]);
        }
    } else if p.len() <= s.len() && forall|i: int| 0 <= i < p.len() ==> #[trigger] s[i] == p[i] {
        assert(s.take(p.len() as int) =~= p);
    }
}

/// Which names `s` begins with, letter by letter.
proof fn prefixes(s: Seq<char>)
    ensures
        "nixos-"@.len() == 6,
        "nixpkgs-"@.len() == 8,
        "release-"@.len() == 8,
        "staging-"@.len() == 8,
        "staging-next-"@.len() == 13,
        "staging"@.len() == 7,
        "staging-next"@.len() == 12,
        "staging-nixos"@.len() == 13,
        "master"@.len() == 6,
        "-small"@.len() == 6,
        "-darwin"@.len() == 7,
        "nixpkgs-unstable"@.len() == 16,
        "nixos-unstable-small"@.len() == 20,
        has_prefix(s, "nixos-"@) ==> s.len() >= 6 && s[0] == 'n' && s[1] == 'i' && s[2] == 'x' && s[3] == 'o',
        has_prefix(s, "nixpkgs-"@) ==> s.len() >= 8 && s[0] == 'n' && s[1] == 'i' && s[2] == 'x' && s[3] == 'p',
        has_prefix(s, "release-"@) ==> s.len() >= 8 && s[0] == 'r',
        has_prefix(s, "staging-"@) ==> s.len() >= 8 && s[0] == 's',
        has_prefix(s, "staging-next-"@) ==> has_prefix(s, "staging-"@) && s[9] == 'e' && s[10] == 'x',
        s == "staging"@ ==> s[0] == 's',
        s == "staging-next"@ ==> s[0] == 's' && has_prefix(s, "staging-"@),
        s == "staging-nixos"@ ==> s[0] == 's' && s[9] == 'i' && has_prefix(s, "staging-"@),
        s == "master"@ ==> s[0] == 'm',
        s == "nixpkgs-unstable"@ ==> has_prefix(s, "nixpkgs-"@),
        s == "nixos-unstable-small"@ ==> has_prefix(s, "nixos-"@),
{
    reveal_strlit("nixos-");
    reveal_strlit("nixpkgs-");
    reveal_strlit("release-");
    reveal_strlit("staging-");
    reveal_strlit("staging-next-");
    reveal_strlit("staging");
    reveal_strlit("staging-next");
    reveal_strlit("staging-nixos");
    reveal_strlit("master");
    reveal_strlit("-small");
    reveal_strlit("-darwin");
    reveal_strlit("nixpkgs-unstable");
    reveal_strlit("nixos-unstable-small");
    prefix_letters(s, "nixos-"@);
    prefix_letters(s, "nixpkgs-"@);
    prefix_letters(s, "release-"@);
    prefix_letters(s, "staging-"@);
    prefix_letters(s, "staging-next-"@);
}

/// A text put behind `p` begins with `p`.
proof fn prefix_of_sum(p: Seq<char>, rest: Seq<char>)
    ensures
        has_prefix(p + rest, p),
        (p + rest).skip(p.len() as int) == rest,
{
    assert((p + rest).take(p.len() as int) =~= p);
    assert((p + rest).skip(p.len() as int) =~= rest);
}

/// A change never flows back: each branch that follows `b` is nearer to the
/// end of the flow.
pub proof fn flow_goes_forward(b: Seq<char>)
    ensures
        forall|i: int| 0 <= i < next_names(b).len() ==> rank(#[trigger] next_names(b)[i]) < rank(b),
{
    let next = next_names(b);
    prefixes(b);
    assert forall|i: int| 0 <= i < next.len() implies rank(#[trigger] next[i]) < rank(b) by {
        let n = next[i];
        prefixes(n);
        let newer = b.skip(13);
        let version = b.skip(8);
        assert(b.len() == 13 ==> version[2] == b[10]);
        prefix_of_sum("release-"@, newer);
        prefix_of_sum("release-"@, version);
        prefix_of_sum("staging-next-"@, version);
        prefix_of_sum("nixpkgs-"@, version + "-darwin"@);
        prefix_of_sum("nixos-"@, version + "-small"@);
        assert("nixpkgs-"@ + (version + "-darwin"@) =~= "nixpkgs-"@ + version + "-darwin"@);
        assert("nixos-"@ + (version + "-small"@) =~= "nixos-"@ + version + "-small"@);
        if has_prefix(b, "nixos-"@) && has_suffix(b.skip(6), "-small"@) {
            prefix_letters(b, "nixos-"@);
            prefix_letters(b.take(b.len() - 6), "nixos-"@);
        }
    }
}

/// The branch `b` and all that its changes reach, each branch followed by
/// what its own changes reach.
pub open spec fn flow(b: Seq<char>) -> Seq<Seq<char>>
    decreases rank(b), next_names(b).len() + 1,
{
    seq![b] + flow_from(b, 0)
}

/// What the branches from the `i`-th on that follow `b` reach.
pub open spec fn flow_from(b: Seq<char>, i: nat) -> Seq<Seq<char>>
    decreases rank(b), next_names(b).len() - i,
{
    if i >= next_names(b).len() {
        Seq::empty()
    } else {
        proof {
            flow_goes_forward(b);
        }
        flow(next_names(b)[i as int]) + flow_from(b, i + 1)
    }
}

/// The list `seen` with `b` behind it, and what its changes reach, where they
/// are not in the list yet.
pub open spec fn collected(b: Seq<char>, seen: Seq<Seq<char>>) -> Seq<Seq<char>>
    decreases rank(b), next_names(b).len() + 1,
{
    if seen.contains(b) {
        seen
    } else {
        collected_from(b, 0, seen.push(b))
    }
}

/// As `collected`, for the branches from the `i`-th on that follow `b`.
pub open spec fn collected_from(b: Seq<char>, i: nat, seen: Seq<Seq<char>>) -> Seq<Seq<char>>
    decreases rank(b), next_names(b).len() - i,
{
    if i >= next_names(b).len() {
        seen
    } else {
        proof {
            flow_goes_forward(b);
        }
        collected_from(b, i + 1, collected(next_names(b)[i as int], seen))
    }
}

/// Whether `branch` is one of `names`.
fn listed(branch: &str, names: &Vec<String>) -> (r: bool)
    ensures
        r == views(names@).contains(branch@),
{
    let mut i: usize = 0;
    while i < names.len()
        invariant
            0 <= i <= names@.len(),
            forall|j: int| 0 <= j < i ==> names@[j]@ != branch@,
        decreases names@.len() - i,
    {
        if same(names[i].as_str(), branch) {
            assert(views(names@)[i as int] == branch@);
            return true;
        }
        i += 1;
    }
    false
}

/// Appends `branch` and what its changes reach to `branches`, each once.
pub fn collect_branches(branch: &str, branches: &mut Vec<String>)
    ensures
        views(final(branches)@) == collected(branch@, views(old(branches)@)),
    decreases rank(branch@), 1int,
{
    if listed(branch, branches) {
        return;
    }
    let ghost seen = views(branches@);
    branches.push(branch.to_owned());
    assert(views(branches@) =~= seen.push(branch@));
    let next = next_branches(branch);
    let mut i: usize = 0;
    while i < next.len()
        invariant
            0 <= i <= next@.len(),
            views(next@) == next_names(branch@),
            collected(branch@, seen) == collected_from(branch@, i as nat, views(branches@)),
        decreases next@.len() - i,
    {
        proof {
            flow_goes_forward(branch@);
            assert(views(next@)[i as int] == next@[i as int]@);
        }
        collect_branches(next[i].as_str(), branches);
        i += 1;
    }
}

/// Every name but `b`.
pub open spec fn other_than(b: Seq<char>) -> spec_fn(Seq<char>) -> bool {
    |name: Seq<char>| name != b
}

/// The branches that a change merged to `b` moves on to.
pub open spec fn beyond(b: Seq<char>) -> Seq<Seq<char>> {
    flow(b).filter(other_than(b))
}

/// The branches to ask about for a change, by the branch it was merged to.
#[derive(Debug, Clone, PartialEq, Eq)]
pub struct BranchPlan {
    probe_targets: Vec<String>,
    summary_targets: Vec<String>,
}

impl BranchPlan {
    /// The branches to ask about.
    pub closed spec fn probes(&self) -> Seq<Seq<char>> {
        views(self.probe_targets@)
    }

    /// The branches to report on.
    pub closed spec fn summary(&self) -> Seq<Seq<char>> {
        views(self.summary_targets@)
    }

    /// The plan for a change that was merged to `branch`: ask about the whole
    /// flow, report on all of it but the branch itself.
    pub fn from_base_branch(branch: &str) -> (r: Self)
        ensures
            r.probes() == flow(branch@),
            r.summary() == beyond(branch@),
    {
        let mut probe_targets: Vec<String> = Vec::new();
        assert(views(probe_targets@) =~= Seq::empty());
        collect_branches(branch, &mut probe_targets);
        proof {
            collected_is_flow(branch@);
        }
        let ghost other = other_than(branch@);
        let ghost all = views(probe_targets@);
        let mut summary_targets: Vec<String> = Vec::new();
        let mut i: usize = 0;
        proof {
            reveal(Seq::filter);
            assert(all.take(0) =~= Seq::empty());
            assert(views(summary_targets@) =~= Seq::empty());
        }
        while i < probe_targets.len()
            invariant
                0 <= i <= probe_targets@.len(),
                all == views(probe_targets@),
                other == other_than(branch@),
                views(summary_targets@) == all.take(i as int).filter(other),
            decreases probe_targets@.len() - i,
        {
            proof {
                reveal(Seq::filter);
                assert(all.take(i + 1).drop_last() =~= all.take(i as int));
                assert(all.take(i + 1).last() == probe_targets@[i as int]@);
            }
            let ghost before = views(summary_targets@);
            if !same(probe_targets[i].as_str(), branch) {
                summary_targets.push(probe_targets[i].clone());
                assert(views(summary_targets@) =~= before.push(probe_targets@[i as int]@));
            }
            i += 1;
        }
        proof {
            assert(all.take(i as int) =~= all);
        }
        BranchPlan { probe_targets, summary_targets }
    }

    /// The branches to ask about.
    pub fn probe_targets(&self) -> (r: &[String])
        ensures
            views(r@) == self.probes(),
    {
        self.probe_targets.as_slice()
    }

    /// The branches to report on.
    pub fn summary_targets(&self) -> (r: &[String])
        ensures
            views(r@) == self.summary(),
    {
        self.summary_targets.as_slice()
    }
}

/// Where two branches follow `b`, the first is a `nixpkgs` channel, which
/// nothing follows, and the second is a `nixos` channel.
proof fn two_follow(b: Seq<char>)
    ensures
        next_names(b).len() <= 2,
        next_names(b).len() == 2 ==> next_names(next_names(b)[0]).len() == 0 && !has_prefix(
            next_names(b)[0],
            "nixos-"@,
        ) && has_prefix(next_names(b)[1], "nixos-"@),
{
    let next = next_names(b);
    prefixes(b);
    if next.len() == 2 {
        prefixes(next[0]);
        prefixes(next[1]);
        let version = b.skip(8);
        prefix_of_sum("nixpkgs-"@, version + "-darwin"@);
        prefix_of_sum("nixos-"@, version + "-small"@);
        assert("nixpkgs-"@ + (version + "-darwin"@) =~= "nixpkgs-"@ + version + "-darwin"@);
        assert("nixos-"@ + (version + "-small"@) =~= "nixos-"@ + version + "-small"@);
        assert(has_prefix(next[0], "nixpkgs-"@));
    }
}

/// Whether no name of `a` is in `b`.
spec fn apart(a: Seq<Seq<char>>, b: Seq<Seq<char>>) -> bool {
    forall|i: int| 0 <= i < a.len() ==> !b.contains(#[trigger] a[i])
}

/// What the branches from the `i`-th on that follow `b` reach is nearer to
/// the end of the flow than `b`.
proof fn flow_from_is_lower(b: Seq<char>, i: nat)
    ensures
        forall|j: int| 0 <= j < flow_from(b, i).len() ==> rank(#[trigger] flow_from(b, i)[j]) < rank(b),
    decreases rank(b), next_names(b).len() - i,
{
    if i < next_names(b).len() {
        flow_goes_forward(b);
        let n = next_names(b)[i as int];
        assert(rank(n) < rank(b));
        flow_from_is_lower(n, 0);
        flow_from_is_lower(b, i + 1);
        let head = flow(n);
        let tail = flow_from(b, i + 1);
        assert forall|j: int| 0 <= j < flow_from(b, i).len() implies rank(#[trigger] flow_from(b, i)[j])
            < rank(b) by {
            if j < head.len() {
                assert(flow_from(b, i)[j] == head[j]);
                if j > 0 {
                    assert(head[j] == flow_from(n, 0)[j - 1]);
                }
            } else {
                assert(flow_from(b, i)[j] == tail[j - head.len()]);
            }
        }
    }
}

/// A `nixos` channel is followed by `nixos` channels alone.
proof fn nixos_flow(b: Seq<char>)
    requires
        has_prefix(b, "nixos-"@),
    ensures
        forall|j: int| 0 <= j < flow(b).len() ==> has_prefix(#[trigger] flow(b)[j], "nixos-"@),
    decreases rank(b),
{
    prefixes(b);
    if next_names(b).len() > 0 {
        flow_goes_forward(b);
        let n = next_names(b)[0];
        prefix_letters(b, "nixos-"@);
        prefix_letters(n, "nixos-"@);
        assert(b.skip(6).len() >= 6);
        nixos_flow(n);
        assert(flow_from(b, 1) == Seq::<Seq<char>>::empty());
        assert forall|j: int| 0 <= j < flow(b).len() implies has_prefix(#[trigger] flow(b)[j], "nixos-"@) by {
            if j > 0 {
                assert(flow(b)[j] == flow(n)[j - 1]);
            }
        }
    } else {
        assert(flow_from(b, 0) == Seq::<Seq<char>>::empty());
    }
}

/// No branch is twice in what the branches from the `i`-th on reach.
proof fn flow_from_unique(b: Seq<char>, i: nat)
    ensures
        flow_from(b, i).no_duplicates(),
    decreases rank(b), next_names(b).len() - i,
{
    if i < next_names(b).len() {
        flow_goes_forward(b);
        two_follow(b);
        let n = next_names(b)[i as int];
        assert(rank(n) < rank(b));
        flow_from_unique(n, 0);
        flow_from_is_lower(n, 0);
        flow_from_unique(b, i + 1);
        let head = flow(n);
        let tail = flow_from(b, i + 1);
        assert(head.no_duplicates()) by {
            assert forall|j: int, k: int|
                0 <= j < head.len() && 0 <= k < head.len() && j != k implies head[j] != head[k] by {
                if j > 0 {
                    assert(head[j] == flow_from(n, 0)[j - 1]);
                }
                if k > 0 {
                    assert(head[k] == flow_from(n, 0)[k - 1]);
                }
            }
        }
        assert(apart(head, tail)) by {
            if i + 1 < next_names(b).len() {
                let m = next_names(b)[1];
                assert(i == 0);
                assert(flow_from(n, 0) == Seq::<Seq<char>>::empty());
                assert(head =~= seq![n]);
                nixos_flow(m);
                assert(flow_from(b, 2) == Seq::<Seq<char>>::empty());
                assert(tail =~= flow(m));
            } else {
                assert(tail == Seq::<Seq<char>>::empty());
            }
        }
        assert forall|j: int, k: int|
            0 <= j < (head + tail).len() && 0 <= k < (head + tail).len() && j != k implies (head + tail)[j] != (
        head + tail)[k] by {
            if j < head.len() && k >= head.len() {
                assert(!tail.contains(head[j]));
                assert((head + tail)[k] == tail[k - head.len()]);
            }
            if k < head.len() && j >= head.len() {
                assert(!tail.contains(head[k]));
                assert((head + tail)[j] == tail[j - head.len()]);
            }
        }
    }
}

/// A plan names no branch twice.
pub proof fn flow_names_each_branch_once(b: Seq<char>)
    ensures
        flow(b).no_duplicates(),
        flow(b)[0] == b,
{
    flow_from_unique(b, 0);
    flow_from_is_lower(b, 0);
    let all = flow(b);
    assert forall|j: int, k: int| 0 <= j < all.len() && 0 <= k < all.len() && j != k implies all[j] != all[k] by {
        if j > 0 {
            assert(all[j] == flow_from(b, 0)[j - 1]);
        }
        if k > 0 {
            assert(all[k] == flow_from(b, 0)[k - 1]);
        }
    }
}

/// Where nothing that `b` reaches was seen, all of it is appended.
proof fn collected_apart(b: Seq<char>, seen: Seq<Seq<char>>)
    requires
        apart(flow(b), seen),
    ensures
        collected(b, seen) == seen + flow(b),
    decreases rank(b), next_names(b).len() + 1,
{
    assert(flow(b)[0] == b);
    flow_from_is_lower(b, 0);
    let rest = flow_from(b, 0);
    assert forall|j: int| 0 <= j < rest.len() implies !seen.push(b).contains(#[trigger] rest[j]) by {
        assert(rest[j] == flow(b)[j + 1]);
        assert(!seen.contains(flow(b)[j + 1]));
        if seen.push(b).contains(rest[j]) {
            let k = choose|k: int| 0 <= k < seen.push(b).len() && seen.push(b)[k] == rest[j];
            if k < seen.len() {
                assert(seen[k] == rest[j]);
            }
        }
    }
    collected_from_apart(b, 0, seen.push(b));
    assert(seen.push(b) + rest =~= seen + flow(b));
}

proof fn collected_from_apart(b: Seq<char>, i: nat, seen: Seq<Seq<char>>)
    requires
        apart(flow_from(b, i), seen),
    ensures
        collected_from(b, i, seen) == seen + flow_from(b, i),
    decreases rank(b), next_names(b).len() - i,
{
    if i >= next_names(b).len() {
        assert(seen + flow_from(b, i) =~= seen);
    } else {
        flow_goes_forward(b);
        let n = next_names(b)[i as int];
        let head = flow(n);
        let tail = flow_from(b, i + 1);
        let all = flow_from(b, i);
        assert(apart(head, seen)) by {
            assert forall|j: int| 0 <= j < head.len() implies !seen.contains(#[trigger] head[j]) by {
                assert(all[j] == head[j]);
            }
        }
        collected_apart(n, seen);
        flow_from_unique(b, i);
        assert(apart(tail, seen + head)) by {
            assert forall|j: int| 0 <= j < tail.len() implies !(seen + head).contains(#[trigger] tail[j]) by {
                assert(all[head.len() + j] == tail[j]);
                if (seen + head).contains(tail[j]) {
                    let k = choose|k: int| 0 <= k < (seen + head).len() && (seen + head)[k] == tail[j];
                    if k < seen.len() {
                        assert(seen[k] == tail[j]);
                    } else {
                        assert(all[k - seen.len()] == tail[j]);
                    }
                }
            }
        }
        collected_from_apart(b, i + 1, seen + head);
        assert(seen + head + tail =~= seen + all);
    }
}

/// Starting from nothing, what is collected is the flow.
proof fn collected_is_flow(b: Seq<char>)
    ensures
        collected(b, Seq::empty()) == flow(b),
{
    collected_apart(b, Seq::empty());
    assert(Seq::empty() + flow(b) =~= flow(b));
}

/// A plan leaves out nothing: whatever follows a branch in it is in it too.
pub proof fn flow_is_complete(b: Seq<char>, j: int, i: int)
    requires
        0 <= j < flow(b).len(),
        0 <= i < next_names(flow(b)[j]).len(),
    ensures
        flow(b).contains(next_names(flow(b)[j])[i]),
    decreases rank(b), next_names(b).len() + 1,
{
    let target = next_names(flow(b)[j])[i];
    if j == 0 {
        flow_from_has_child(b, 0, i);
    } else {
        assert(flow(b)[j] == flow_from(b, 0)[j - 1]);
        flow_from_is_complete(b, 0, j - 1, i);
    }
    let k = choose|k: int| 0 <= k < flow_from(b, 0).len() && flow_from(b, 0)[k] == target;
    assert(flow(b)[k + 1] == target);
}

proof fn flow_from_has_child(b: Seq<char>, from: nat, i: int)
    requires
        from <= i < next_names(b).len(),
    ensures
        flow_from(b, from).contains(next_names(b)[i]),
    decreases next_names(b).len() - from,
{
    let n = next_names(b)[from as int];
    let head = flow(n);
    let tail = flow_from(b, from + 1);
    if i == from {
        assert(head[0] == n);
        assert(flow_from(b, from)[0] == n);
    } else {
        flow_from_has_child(b, from + 1, i);
        let k = choose|k: int| 0 <= k < tail.len() && tail[k] == next_names(b)[i];
        assert(flow_from(b, from)[head.len() + k] == tail[k]);
    }
}

proof fn flow_from_is_complete(b: Seq<char>, from: nat, j: int, i: int)
    requires
        0 <= j < flow_from(b, from).len(),
        0 <= i < next_names(flow_from(b, from)[j]).len(),
    ensures
        flow_from(b, from).contains(next_names(flow_from(b, from)[j])[i]),
    decreases rank(b), next_names(b).len() - from,
{
    flow_goes_forward(b);
    let n = next_names(b)[from as int];
    let head = flow(n);
    let tail = flow_from(b, from + 1);
    let all = flow_from(b, from);
    let target = next_names(all[j])[i];
    if j < head.len() {
        assert(all[j] == head[j]);
        flow_is_complete(n, j, i);
        let k = choose|k: int| 0 <= k < head.len() && head[k] == target;
        assert(all[k] == target);
    } else {
        assert(all[j] == tail[j - head.len()]);
        flow_from_is_complete(b, from + 1, j - head.len(), i);
        let k = choose|k: int| 0 <= k < tail.len() && tail[k] == target;
        assert(all[head.len() + k] == target);
    }
}

/// A plan holds nothing else: each branch in it but the first follows one that
/// stands before it.
pub proof fn flow_holds_what_follows(b: Seq<char>, i: int)
    requires
        0 < i < flow(b).len(),
    ensures
        exists|j: int| 0 <= j < i && next_names(#[trigger] flow(b)[j]).contains(flow(b)[i]),
    decreases rank(b), next_names(b).len() + 1,
{
    let rest = flow_from(b, 0);
    let name = flow(b)[i];
    assert(name == rest[i - 1]);
    flow_from_holds_what_follows(b, 0, i - 1);
    if next_names(b).contains(name) {
        assert(flow(b)[0] == b);
    } else {
        let j = choose|j: int| 0 <= j < i - 1 && next_names(#[trigger] rest[j]).contains(rest[i - 1]);
        assert(flow(b)[j + 1] == rest[j]);
    }
}

proof fn flow_from_holds_what_follows(b: Seq<char>, from: nat, i: int)
    requires
        0 <= i < flow_from(b, from).len(),
    ensures
        next_names(b).contains(flow_from(b, from)[i]) || exists|j: int|
            0 <= j < i && next_names(#[trigger] flow_from(b, from)[j]).contains(flow_from(b, from)[i]),
    decreases rank(b), next_names(b).len() - from,
{
    flow_goes_forward(b);
    let n = next_names(b)[from as int];
    let head = flow(n);
    let tail = flow_from(b, from + 1);
    let all = flow_from(b, from);
    if i == 0 {
        assert(all[0] == head[0]);
        assert(next_names(b).contains(n));
    } else if i < head.len() {
        assert(all[i] == head[i]);
        flow_holds_what_follows(n, i);
        let j = choose|j: int| 0 <= j < i && next_names(#[trigger] head[j]).contains(head[i]);
        assert(all[j] == head[j]);
    } else {
        assert(all[i] == tail[i - head.len()]);
        flow_from_holds_what_follows(b, from + 1, i - head.len());
        if !next_names(b).contains(all[i]) {
            let j = choose|j: int|
                0 <= j < i - head.len() && next_names(#[trigger] tail[j]).contains(tail[i - head.len()]);
            assert(all[head.len() + j] == tail[j]);
        }
    }
}

/// The branches to report on are the branches to ask about, without the
/// first, which is the one the change was merged to.
pub proof fn summary_is_rest_of_probes(b: Seq<char>)
    ensures
        beyond(b) == flow(b).drop_first(),
{
    flow_names_each_branch_once(b);
    let other = other_than(b);
    let rest = flow(b).drop_first();
    filter_keeps_all(rest, b);
    assert(flow(b) =~= seq![b] + rest);
    Seq::filter_distributes_over_add(seq![b], rest, other);
    assert(seq![b].filter(other) =~= Seq::empty()) by {
        reveal(Seq::filter);
        assert(seq![b].drop_last() =~= Seq::<Seq<char>>::empty());
        assert(Seq::<Seq<char>>::empty().filter(other) =~= Seq::empty());
        assert(!other(seq![b].last()));
    }
    assert(Seq::empty() + rest =~= rest);
}

proof fn filter_keeps_all(s: Seq<Seq<char>>, b: Seq<char>)
    requires
        forall|i: int| 0 <= i < s.len() ==> #[trigger] s[i] != b,
    ensures
        s.filter(other_than(b)) == s,
    decreases s.len(),
{
    reveal(Seq::filter);
    if s.len() > 0 {
        filter_keeps_all(s.drop_last(), b);
        assert(s.drop_last().push(s.last()) =~= s);
    }
}

/// A change to a branch that one other branch follows reaches what the other
/// reaches.
proof fn one_follows(b: Seq<char>, n: Seq<char>)
    requires
        next_names(b) == seq![n],
    ensures
        flow(b) == seq![b] + flow(n),
{
    assert(flow_from(b, 1) == Seq::<Seq<char>>::empty());
    assert(flow_from(b, 0) =~= flow(n));
}

/// A change to a branch that two others follow reaches what they reach.
proof fn two_others_follow(b: Seq<char>, m: Seq<char>, n: Seq<char>)
    requires
        next_names(b) == seq![m, n],
    ensures
        flow(b) == seq![b] + flow(m) + flow(n),
{
    assert(flow_from(b, 2) == Seq::<Seq<char>>::empty());
    assert(flow_from(b, 1) =~= flow(n));
    assert(flow_from(b, 0) =~= flow(m) + flow(n));
    assert(flow(b) =~= seq![b] + flow(m) + flow(n));
}

/// A branch that nothing follows is all that a change to it reaches.
proof fn none_follow(b: Seq<char>)
    requires
        next_names(b).len() == 0,
    ensures
        flow(b) == seq![b],
{
    assert(flow_from(b, 0) == Seq::<Seq<char>>::empty());
    assert(flow(b) =~= seq![b]);
}

proof fn unstable_flow()
    ensures
        next_names("nixos-unstable-small"@) == seq!["nixos-unstable"@],
        next_names("nixos-unstable"@).len() == 0,
        next_names("nixpkgs-unstable"@).len() == 0,
{
    reveal_strlit("nixos-unstable");
    reveal_strlit("nixos-unstable-small");
    reveal_strlit("nixpkgs-unstable");
    reveal_strlit("-small");
    let small = "nixos-unstable-small"@;
    let done = "nixos-unstable"@;
    let packages = "nixpkgs-unstable"@;
    prefixes(small);
    prefixes(done);
    prefixes(packages);
    prefix_letters(small, "nixos-"@);
    prefix_letters(done, "nixos-"@);
    prefix_letters(packages, "nixpkgs-"@);
    reveal_strlit("nixos-");
    assert(small.skip(6).skip(8) =~= "-small"@);
    assert(has_suffix(small.skip(6), "-small"@));
    assert(small.take(14) =~= done);
    assert(done.skip(6).skip(2)[0] == 's');
    assert(!has_suffix(done.skip(6), "-small"@));
}

/// Every change to a development branch goes to `master`, and ends in the two
/// channels that are made of it: the channel of packages, and that of NixOS,
/// which comes last and behind its small one.
pub proof fn development_ends_in_unstable(b: Seq<char>)
    requires
        b == "staging"@ || b == "staging-next"@ || b == "staging-nixos"@ || b == "master"@,
    ensures
        flow(b).contains("master"@),
        flow(b).contains("nixpkgs-unstable"@),
        flow(b).len() >= 2 && flow(b)[flow(b).len() - 2] == "nixos-unstable-small"@,
        flow(b).last() == "nixos-unstable"@,
        b == "staging-next"@ || b == "staging-nixos"@ ==> next_names(b) == seq!["master"@],
        b == "staging"@ ==> next_names(b) == seq!["staging-next"@],
        flow(b).len() == (if b == "master"@ {
            4nat
        } else if b == "staging"@ {
            6nat
        } else {
            5nat
        }),
{
    unstable_flow();
    reveal_strlit("staging");
    reveal_strlit("staging-next");
    reveal_strlit("staging-nixos");
    reveal_strlit("master");
    let m = "master"@;
    let next = "staging-next"@;
    assert("staging"@[0] == 's');
    assert("staging-nixos"@[0] == 's');
    assert(next[0] == 's');
    assert(m[0] == 'm');
    assert("staging-nixos"@.len() == 13 && next.len() == 12 && "staging"@.len() == 7);
    none_follow("nixos-unstable"@);
    none_follow("nixpkgs-unstable"@);
    one_follows("nixos-unstable-small"@, "nixos-unstable"@);
    two_others_follow(m, "nixpkgs-unstable"@, "nixos-unstable-small"@);
    let tail = flow(m);
    assert(tail =~= seq![m, "nixpkgs-unstable"@, "nixos-unstable-small"@, "nixos-unstable"@]);
    assert(tail[0] == m && tail[1] == "nixpkgs-unstable"@);
    one_follows(next, m);
    assert(flow(next)[1] == m && flow(next)[2] == "nixpkgs-unstable"@);
    if b == "staging-nixos"@ {
        one_follows(b, m);
        assert(flow(b)[1] == m && flow(b)[2] == "nixpkgs-unstable"@);
    } else if b == "staging"@ {
        one_follows(b, next);
        assert(flow(b)[2] == m && flow(b)[3] == "nixpkgs-unstable"@);
    }
}

/// What follows the branches of a release, for every version.
proof fn release_steps(v: Seq<char>)
    requires
        version_number(v),
    ensures
        next_names("staging-next-"@ + v) == seq!["release-"@ + v],
        next_names("release-"@ + v) == seq!["nixpkgs-"@ + v + "-darwin"@, "nixos-"@ + v + "-small"@],
        next_names("nixos-"@ + v + "-small"@) == seq!["nixos-"@ + v],
        next_names("nixos-"@ + v).len() == 0,
        next_names("nixpkgs-"@ + v + "-darwin"@).len() == 0,
{
    let next = "staging-next-"@ + v;
    let release = "release-"@ + v;
    let small = "nixos-"@ + v + "-small"@;
    let done = "nixos-"@ + v;
    let packages = "nixpkgs-"@ + v + "-darwin"@;
    prefixes(next);
    prefixes(release);
    prefixes(small);
    prefixes(done);
    prefixes(packages);
    prefix_of_sum("staging-next-"@, v);
    prefix_of_sum("release-"@, v);
    prefix_of_sum("nixos-"@, v);
    prefix_of_sum("nixos-"@, v + "-small"@);
    prefix_of_sum("nixpkgs-"@, v + "-darwin"@);
    assert("nixos-"@ + (v + "-small"@) =~= small);
    assert("nixpkgs-"@ + (v + "-darwin"@) =~= packages);
    assert((v + "-small"@).skip(v.len() as int) =~= "-small"@);
    assert(has_suffix(small.skip(6), "-small"@));
    assert(small.take(small.len() - 6) =~= done);
    reveal_strlit("-small");
    if has_suffix(done.skip(6), "-small"@) {
        assert(v.skip(v.len() - 6)[5] == 'l');
        assert(v[v.len() - 1] == 'l');
    }
}

/// A change to a branch of a release reaches the channel of that release, by
/// way of its small one, whatever the version.
pub proof fn release_ends_in_its_channel(v: Seq<char>)
    requires
        version_number(v),
    ensures
        flow("release-"@ + v) == seq![
            "release-"@ + v,
            "nixpkgs-"@ + v + "-darwin"@,
            "nixos-"@ + v + "-small"@,
            "nixos-"@ + v,
        ],
        flow("staging-next-"@ + v) == seq!["staging-next-"@ + v] + flow("release-"@ + v),
{
    release_steps(v);
    none_follow("nixos-"@ + v);
    none_follow("nixpkgs-"@ + v + "-darwin"@);
    one_follows("nixos-"@ + v + "-small"@, "nixos-"@ + v);
    two_others_follow("release-"@ + v, "nixpkgs-"@ + v + "-darwin"@, "nixos-"@ + v + "-small"@);
    one_follows("staging-next-"@ + v, "release-"@ + v);
    assert(flow("release-"@ + v) =~= seq![
        "release-"@ + v,
        "nixpkgs-"@ + v + "-darwin"@,
        "nixos-"@ + v + "-small"@,
        "nixos-"@ + v,
    ]);
}

/// A change to the staging branch of a release goes to the release: up to
/// version 20 at once, and from version 21 on by way of `staging-next`.
pub proof fn staging_ends_in_its_release(a: char, b: char, c: char, d: char)
    requires
        is_digit(a) && is_digit(b) && is_digit(c) && is_digit(d),
    ensures
        decimal_value(seq![a, b]) <= 20 ==> flow("staging-"@ + seq![a, b, '.', c, d]) == seq![
            "staging-"@ + seq![a, b, '.', c, d],
        ] + flow("release-"@ + seq![a, b, '.', c, d]),
        decimal_value(seq![a, b]) > 20 ==> flow("staging-"@ + seq![a, b, '.', c, d]) == seq![
            "staging-"@ + seq![a, b, '.', c, d],
        ] + flow("staging-next-"@ + seq![a, b, '.', c, d]),
{
    let v = seq![a, b, '.', c, d];
    let name = "staging-"@ + v;
    prefixes(name);
    prefix_of_sum("staging-"@, v);
    assert(name.len() == 13);
    assert(name[10] == v[2]);
    assert(seq![a, b].drop_last() =~= seq![a]);
    assert(seq![a].drop_last() =~= Seq::<char>::empty());
    reveal_with_fuel(decimal_value, 3);
    assert(decimal_value(seq![a, b]) == pair_value(a, b));
    if pair_value(a, b) <= 20 {
        one_follows(name, "release-"@ + v);
    } else {
        one_follows(name, "staging-next-"@ + v);
    }
}

/// A small channel goes to the channel of the same name, whatever it is.
pub proof fn small_channel_goes_to_its_channel(channel: Seq<char>)
    ensures
        next_names("nixos-"@ + channel + "-small"@) == seq!["nixos-"@ + channel],
{
    let small = "nixos-"@ + channel + "-small"@;
    prefixes(small);
    prefix_of_sum("nixos-"@, channel + "-small"@);
    assert("nixos-"@ + (channel + "-small"@) =~= small);
    assert((channel + "-small"@).skip(channel.len() as int) =~= "-small"@);
    assert(small.take(small.len() - 6) =~= "nixos-"@ + channel);
}

/// Every two numbers with a dot between them are a version.
pub proof fn numbers_make_a_version(major: nat, minor: nat)
    ensures
        version_number(decimal(major) + seq!['.'] + decimal(minor)),
        version_number(decimal(major)),
{
    decimal_reads_back(major);
    decimal_reads_back(minor);
}

/// A version has nothing in it but digits and dots, and a release is a version
/// of two numbers of two digits; a plus sign may stand for a leading zero.
pub proof fn versions_are_numbers(v: Seq<char>)
    ensures
        version_number(v) <==> v.len() > 0 && forall|i: int|
            0 <= i < v.len() ==> digits().contains(#[trigger] v[i]) || v[i] == '.',
        is_release(v) && v[0] == '0' ==> is_release(v.update(0, '+')),
        is_release(v) && v[3] == '0' ==> is_release(v.update(3, '+')),
        is_release(v) ==> v.len() == 5 && v[2] == '.',
        is_release(v) && !v.contains('+') ==> version_number(v) && pair_value(v[0], v[1]) == decimal_value(
            seq![v[0], v[1]],
        ),
        is_release(v) && v[0] == '+' ==> is_release(v.update(0, '0')) && pair_value(v[0], v[1]) == pair_value(
            '0',
            v[1],
        ),
        is_release(v) && v[3] == '+' ==> is_release(v.update(3, '0')),
        is_release(v) ==> v[1] != '+' && v[4] != '+',
{
    if version_number(v) {
        assert forall|i: int| 0 <= i < v.len() implies digits().contains(#[trigger] v[i]) || v[i] == '.' by {
            if v[i] != '.' {
                assert(digits()[v[i] as int - '0' as int] == v[i]);
            }
        }
    }
    if is_release(v) {
        assert(v.contains(v[0]) && v.contains(v[3]));
        let pair = seq![v[0], v[1]];
        assert(pair.drop_last() =~= seq![v[0]]);
        assert(seq![v[0]].drop_last() =~= Seq::<char>::empty());
        reveal_with_fuel(decimal_value, 3);
        assert forall|i: int| 0 <= i < v.len() && !v.contains('+') implies #[trigger] v[i] == '.' || is_digit(
            v[i],
        ) by {
            assert(v.contains(v[i]));
        }
    }
}

/// Whether something is made of `b`: it is a development branch, a branch of
/// a release, or a small channel.
pub open spec fn is_on_the_way(b: Seq<char>) -> bool {
    ||| b == "staging"@ || b == "staging-next"@ || b == "staging-nixos"@ || b == "master"@
    ||| exists|v: Seq<char>| #[trigger] version_number(v) && (b == "release-"@ + v || b == "staging-next-"@ + v)
    ||| exists|v: Seq<char>| #[trigger] is_release(v) && b == "staging-"@ + v
    ||| exists|channel: Seq<char>| b == #[trigger] ("nixos-"@ + channel) + "-small"@
}

/// Nothing follows a branch that is not on the way to a channel.
pub proof fn other_branches_lead_nowhere(b: Seq<char>)
    requires
        !is_on_the_way(b),
    ensures
        next_names(b).len() == 0,
        flow(b) == seq![b],
{
    prefixes(b);
    if has_prefix(b, "staging-next-"@) {
        let v = b.skip(13);
        assert(b =~= b.take(13) + v);
        assert(!version_number(v));
    }
    if has_prefix(b, "release-"@) {
        let v = b.skip(8);
        assert(b =~= b.take(8) + v);
        assert(!version_number(v));
    }
    if has_prefix(b, "staging-"@) {
        let v = b.skip(8);
        assert(b =~= b.take(8) + v);
        assert(!is_release(v));
    }
    if has_prefix(b, "nixos-"@) && has_suffix(b.skip(6), "-small"@) {
        let rest = b.skip(6);
        let channel = rest.take(rest.len() - 6);
        assert(rest =~= channel + "-small"@) by {
            assert(rest.skip(rest.len() - 6) == "-small"@);
            assert(rest =~= channel + rest.skip(rest.len() - 6));
        }
        assert(b =~= b.take(6) + rest);
        assert(b =~= "nixos-"@ + channel + "-small"@);
    }
    none_follow(b);
}

} // verus!
