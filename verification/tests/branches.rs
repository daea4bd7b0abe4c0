use nh::branches::{collect_branches, is_version_number, next_branches, release_major, BranchPlan};

fn expect_next(branch: &str, expected: &[&str]) {
    let actual = next_branches(branch);
    let expected: Vec<String> = expected.iter().map(|name| name.to_string()).collect();
    assert_eq!(expected, actual);
}

#[test]
fn branch_flow() {
    expect_next("staging", &["staging-next"]);
    expect_next("staging-next", &["master"]);
    expect_next("master", &["nixpkgs-unstable", "nixos-unstable-small"]);
    expect_next("nixos-unstable-small", &["nixos-unstable"]);
    expect_next("release-25.11", &["nixpkgs-25.11-darwin", "nixos-25.11-small"]);
    expect_next("staging-20.09", &["release-20.09"]);
    expect_next("staging-25.11", &["staging-next-25.11"]);
}

#[test]
fn plan_collects_probe_targets_from_base_branch() {
    let plan = BranchPlan::from_base_branch("release-25.11");

    assert_eq!(
        &["release-25.11", "nixpkgs-25.11-darwin", "nixos-25.11-small", "nixos-25.11"],
        plan.probe_targets()
    );
}

#[test]
fn plan_separates_probe_targets_from_summary_targets() {
    let plan = BranchPlan::from_base_branch("release-25.11");

    assert_eq!(
        &["release-25.11", "nixpkgs-25.11-darwin", "nixos-25.11-small", "nixos-25.11"],
        plan.probe_targets()
    );
    assert_eq!(&["nixpkgs-25.11-darwin", "nixos-25.11-small", "nixos-25.11"], plan.summary_targets());
}

#[test]
fn last_branches_lead_nowhere() {
    expect_next("nixos-unstable", &[]);
    expect_next("nixpkgs-unstable", &[]);
    expect_next("nixos-25.11", &[]);
    expect_next("nixpkgs-25.11-darwin", &[]);
    expect_next("some-feature", &[]);
    expect_next("", &[]);
}

#[test]
fn releases_flow_by_their_age() {
    expect_next("nixos-25.11-small", &["nixos-25.11"]);
    expect_next("staging-next-25.11", &["release-25.11"]);
    expect_next("staging-next-19.03", &["release-19.03"]);
    expect_next("staging-nothing", &[]);
}

#[test]
fn a_change_to_staging_passes_all_branches() {
    let plan = BranchPlan::from_base_branch("staging");
    assert_eq!(
        &[
            "staging",
            "staging-next",
            "master",
            "nixpkgs-unstable",
            "nixos-unstable-small",
            "nixos-unstable",
        ],
        plan.probe_targets()
    );
    assert_eq!(plan.probe_targets().len(), plan.summary_targets().len() + 1);
}

#[test]
fn each_branch_of_a_plan_follows_an_earlier_one() {
    let plan = BranchPlan::from_base_branch("staging-25.11");
    let names = plan.probe_targets();
    assert_eq!(names.len(), 6);
    for (index, name) in names.iter().enumerate().skip(1) {
        assert!(names[..index].iter().any(|earlier| next_branches(earlier).contains(name)));
    }
}

#[test]
fn an_unknown_branch_is_its_own_plan() {
    let plan = BranchPlan::from_base_branch("haskell-updates");
    assert_eq!(&["haskell-updates"], plan.probe_targets());
    assert!(plan.summary_targets().is_empty());
}

#[test]
fn a_branch_is_collected_once() {
    let mut branches = vec!["master".to_string()];
    collect_branches("staging-next", &mut branches);
    assert_eq!(vec!["master".to_string(), "staging-next".to_string()], branches);
}

#[test]
fn version_numbers_are_digits_and_dots() {
    assert!(is_version_number("25.11"));
    assert!(is_version_number("."));
    assert!(!is_version_number(""));
    assert!(!is_version_number("25.11-small"));
}

#[test]
fn release_versions_have_two_pairs() {
    assert_eq!(Some(25), release_major("25.11"));
    assert_eq!(Some(9), release_major("09.03"));
    assert_eq!(Some(5), release_major("+5.11"));
    assert_eq!(None, release_major("25-11"));
    assert_eq!(None, release_major("125.1"));
    assert_eq!(None, release_major("2a.11"));
    assert_eq!(None, release_major("25.1x"));
    assert_eq!(None, release_major("25.1"));
}
