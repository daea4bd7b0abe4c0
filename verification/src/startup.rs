//! What is decided before a command runs: how to gain privileges, and whether
//! to profile the run.
use vstd::prelude::*;
use vstd::slice::*;
use vstd::string::*;

use crate::text::{holds, opt_view, stands_in_the_middle};

verus! {

/// How to gain privileges, as the user asks for it.
#[derive(Debug, Clone, PartialEq, Eq)]
pub enum ElevationStrategyArg {
    Auto,
    Never,
    Passwordless,
    /// By the program at a path.
    Program(Vec<u8>),
}

/// How to gain privileges.
#[derive(Debug, Clone, PartialEq, Eq)]
pub enum ElevationStrategy {
    Auto,
    Never,
    Passwordless,
    /// By the program at a path, if there is one.
    Prefer(Vec<u8>),
}

/// What a way to gain privileges stands for.
pub enum StrategyView {
    Auto,
    Never,
    Passwordless,
    Program(Seq<u8>),
}

impl View for ElevationStrategyArg {
    type V = StrategyView;

    open spec fn view(&self) -> StrategyView {
        match self {
            ElevationStrategyArg::Auto => StrategyView::Auto,
            ElevationStrategyArg::Never => StrategyView::Never,
            ElevationStrategyArg::Passwordless => StrategyView::Passwordless,
            ElevationStrategyArg::Program(path) => StrategyView::Program(path@),
        }
    }
}

impl View for ElevationStrategy {
    type V = StrategyView;

    open spec fn view(&self) -> StrategyView {
        match self {
            ElevationStrategy::Auto => StrategyView::Auto,
            ElevationStrategy::Never => StrategyView::Never,
            ElevationStrategy::Passwordless => StrategyView::Passwordless,
            ElevationStrategy::Prefer(path) => StrategyView::Program(path@),
        }
    }
}

/// What to warn of where the old variable is used.
pub const DEPRECATED: &'static str = "NH_ELEVATION_PROGRAM is deprecated, use NH_ELEVATION_STRATEGY instead. Falling back to NH_ELEVATION_PROGRAM for backward compatibility. Accepted values: none, passwordless, program:<path>";

/// What to show while privileges are gained.
pub const ACQUIRING: &'static str = "Acquiring sudo privileges for unattended execution...";

/// What to warn of where the profiler is missing.
pub const NO_PROFILER: &'static str = "perf not found. Install linux-perf to generate flamegraphs, and run 'echo 0 | sudo tee /proc/sys/kernel/perf_event_paranoid' if needed.";

/// The value of the old variable, if it is to be used: without a strategy,
/// and only if the variable holds something.
pub open spec fn value_in_use(given: Option<StrategyView>, variable: Option<Seq<char>>) -> Option<Seq<char>> {
    match (given, variable) {
        (None, Some(value)) if value.len() > 0 => Some(value),
        _ => None,
    }
}

/// The value of the old variable, if it is to be used: without a strategy,
/// and only if the variable holds something.
pub fn legacy_value(given: &Option<ElevationStrategyArg>, variable: Option<String>) -> (r: Option<String>)
    ensures
        opt_view(r) == value_in_use(opt_view(*given), opt_view(variable)),
{
    match (given, variable) {
        (None, Some(value)) => {
            if value.as_str().is_empty() {
                None
            } else {
                Some(value)
            }
        },
        _ => None,
    }
}

/// What to warn of where the value of the old variable cannot be read.
pub open spec fn unreadable_value(value: Seq<char>, reason: Seq<char>) -> Seq<char> {
    "Failed to parse NH_ELEVATION_PROGRAM value '"@ + value + "': "@ + reason + ". Falling back to none."@
}

/// The strategy that the old variable gives, where its value can be read;
/// otherwise none, and a warning.
pub fn legacy_strategy(value: &str, read: Result<ElevationStrategyArg, String>) -> (r: (
    Option<ElevationStrategyArg>,
    Option<String>,
))
    ensures
        match read {
            Ok(strategy) => opt_view(r.0) == Some(strategy@) && r.1 is None,
            Err(reason) => r.0 is None && opt_view(r.1) == Some(unreadable_value(value@, reason@)),
        },
{
    match read {
        Ok(strategy) => (Some(strategy), None),
        Err(reason) => {
            let mut warning = "Failed to parse NH_ELEVATION_PROGRAM value '".to_owned();
            warning.append(value);
            warning.append("': ");
            warning.append(reason.as_str());
            warning.append(". Falling back to none.");
            (None, Some(warning))
        },
    }
}

/// How to gain privileges: as asked for, or any way where nothing is asked
/// for.
pub open spec fn strategy_for(given: Option<StrategyView>) -> StrategyView {
    match given {
        Some(strategy) => strategy,
        None => StrategyView::Auto,
    }
}

/// How to gain privileges: as asked for, or any way where nothing is asked
/// for.
pub fn elevation(given: &Option<ElevationStrategyArg>) -> (r: ElevationStrategy)
    ensures
        r@ == strategy_for(opt_view(*given)),
{
    match given {
        None => ElevationStrategy::Auto,
        Some(ElevationStrategyArg::Auto) => ElevationStrategy::Auto,
        Some(ElevationStrategyArg::Never) => ElevationStrategy::Never,
        Some(ElevationStrategyArg::Passwordless) => ElevationStrategy::Passwordless,
        Some(ElevationStrategyArg::Program(path)) => ElevationStrategy::Prefer(slice_to_vec(path.as_slice())),
    }
}

/// Whether to gain privileges at once and run again with them.
pub fn usurps(usurp: bool, elevation: &ElevationStrategy) -> (r: bool)
    ensures
        r == (usurp && elevation@ !is Never),
{
    match elevation {
        ElevationStrategy::Never => false,
        _ => usurp,
    }
}

/// The exit code to pass on: that of the run with privileges, and a failure
/// where it has none.
pub open spec fn passed_on(success: bool, code: Option<i32>) -> int {
    match (success, code) {
        (true, _) => 0,
        (false, Some(code)) => code as int,
        (false, None) => 1,
    }
}

/// The exit code to pass on: that of the run with privileges, and a failure
/// where it has none.
pub fn exit_code(success: bool, code: Option<i32>) -> (r: i32)
    ensures
        r == passed_on(success, code),
{
    if success {
        return 0;
    }
    match code {
        Some(code) => code,
        None => 1,
    }
}

/// Whether to profile the run.
#[derive(Debug, Clone, Copy, PartialEq, Eq, Structural)]
pub enum Profiling {
    /// Not asked for.
    Off,
    /// Asked for, but there is no profiler: warn of that.
    Unavailable,
    On,
}

/// Whether to profile the run: if it is asked for, and there is a profiler.
pub open spec fn profiled(flamegraph: bool, profiler_found: bool) -> Profiling {
    if !flamegraph {
        Profiling::Off
    } else if profiler_found {
        Profiling::On
    } else {
        Profiling::Unavailable
    }
}

/// Whether to profile the run: if it is asked for, and there is a profiler.
pub fn profiling(flamegraph: bool, profiler_found: bool) -> (r: Profiling)
    ensures
        r == profiled(flamegraph, profiler_found),
{
    if !flamegraph {
        Profiling::Off
    } else if profiler_found {
        Profiling::On
    } else {
        Profiling::Unavailable
    }
}

/// What is told of a value that cannot be read holds the value in quotes, and
/// the reason.
pub proof fn unreadable_value_is_told(value: Seq<char>, reason: Seq<char>)
    ensures
        holds(unreadable_value(value, reason), "'"@ + value + "'"@),
        holds(unreadable_value(value, reason), reason),
{
    let lead = "Failed to parse NH_ELEVATION_PROGRAM value '"@;
    let tail = ". Falling back to none."@;
    reveal_strlit("Failed to parse NH_ELEVATION_PROGRAM value '");
    reveal_strlit("': ");
    reveal_strlit("'");
    let all = unreadable_value(value, reason);
    let named = "'"@ + value + "'"@;
    let at = lead.len() as int - 1;
    assert(all.subrange(at, at + named.len()) =~= named);
    stands_in_the_middle(lead + value + "': "@, reason, tail);
}

/// A strategy that is asked for is the one that is used, and the old variable
/// plays no part then; otherwise its value counts as it is, unless it is empty.
pub proof fn given_strategy_is_used(strategy: StrategyView, value: Seq<char>)
    ensures
        strategy_for(Some(strategy)) == strategy,
        strategy_for(None) == StrategyView::Auto,
        value_in_use(Some(strategy), Some(value)) is None,
        value_in_use(None, None) is None,
        value.len() > 0 ==> value_in_use(None, Some(value)) == Some(value),
        value.len() == 0 ==> value_in_use(None, Some(value)) == value_in_use(None, None),
{
}

/// Success is passed on as success, and a failure as what it was; without a
/// code it is still a failure. A run is profiled if and only if this is asked
/// for and possible, and nothing is missed where it is not asked for.
pub proof fn outcome_is_passed_on(code: i32, asked: bool, found: bool, any: Option<i32>)
    ensures
        passed_on(true, any) == 0,
        passed_on(false, Some(code)) == code,
        passed_on(false, None) == 1,
        profiled(asked, found) == Profiling::On <==> asked && found,
        profiled(asked, found) == Profiling::Off <==> !asked,
{
}

} // verus!
