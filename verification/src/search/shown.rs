//! In which form what was found is shown.
use vstd::prelude::*;

verus! {

/// In which form what was found is shown.
#[derive(Debug, Clone, Copy, PartialEq, Eq, Structural)]
pub enum Shown {
    /// As JSON, also where nothing was found.
    Json,
    /// By a line that says that nothing was found.
    Nothing,
    /// By its lines.
    Lines,
}

/// How `found` results are shown, with JSON asked for or not.
pub open spec fn form_of(json: bool, found: nat) -> Shown {
    if json {
        Shown::Json
    } else if found == 0 {
        Shown::Nothing
    } else {
        Shown::Lines
    }
}

/// How `found` results are shown, with JSON asked for or not.
pub fn shown(json: bool, found: usize) -> (r: Shown)
    ensures
        r == form_of(json, found as nat),
{
    if json {
        Shown::Json
    } else if found == 0 {
        Shown::Nothing
    } else {
        Shown::Lines
    }
}

/// What is asked for as JSON is shown as JSON and nothing else is; lines are
/// shown if and only if there is something to show.
pub proof fn form_is_as_asked(json: bool, found: nat)
    ensures
        form_of(json, found) == Shown::Json <==> json,
        form_of(false, found) == Shown::Lines <==> found > 0,
        form_of(false, found) == Shown::Nothing <==> found == 0,
{
}

} // verus!
