use nh::flamegraph::{advance, record, FlameEvent, FlameStep};
use nh::startup::{
    elevation, exit_code, legacy_strategy, legacy_value, profiling, usurps, ElevationStrategy,
    ElevationStrategyArg, Profiling,
};

#[test]
fn the_old_variable_counts_only_without_a_strategy() {
    let value = Some("none".to_string());
    assert_eq!(legacy_value(&None, value.clone()), value);
    assert_eq!(legacy_value(&Some(ElevationStrategyArg::Auto), value), None);
    assert_eq!(legacy_value(&None, Some(String::new())), None);
    assert_eq!(legacy_value(&None, None), None);
}

#[test]
fn an_unreadable_old_value_is_warned_of() {
    assert_eq!(
        legacy_strategy("none", Ok(ElevationStrategyArg::Never)),
        (Some(ElevationStrategyArg::Never), None)
    );
    assert_eq!(
        legacy_strategy("x", Err("no such program".to_string())),
        (
            None,
            Some(
                "Failed to parse NH_ELEVATION_PROGRAM value 'x': no such program. Falling back to none."
                    .to_string()
            )
        )
    );
}

#[test]
fn strategies_are_taken_over() {
    assert_eq!(elevation(&None), ElevationStrategy::Auto);
    assert_eq!(elevation(&Some(ElevationStrategyArg::Auto)), ElevationStrategy::Auto);
    assert_eq!(elevation(&Some(ElevationStrategyArg::Never)), ElevationStrategy::Never);
    assert_eq!(elevation(&Some(ElevationStrategyArg::Passwordless)), ElevationStrategy::Passwordless);
    assert_eq!(
        elevation(&Some(ElevationStrategyArg::Program(b"/bin/doas".to_vec()))),
        ElevationStrategy::Prefer(b"/bin/doas".to_vec())
    );
}

#[test]
fn privileges_are_not_usurped_where_there_are_none() {
    assert!(usurps(true, &ElevationStrategy::Auto));
    assert!(!usurps(true, &ElevationStrategy::Never));
    assert!(!usurps(false, &ElevationStrategy::Passwordless));
}

#[test]
fn exit_codes_are_passed_on() {
    assert_eq!(exit_code(true, Some(0)), 0);
    assert_eq!(exit_code(false, Some(130)), 130);
    assert_eq!(exit_code(false, None), 1);
}

#[test]
fn profiling_needs_a_profiler() {
    assert_eq!(profiling(false, true), Profiling::Off);
    assert_eq!(profiling(true, false), Profiling::Unavailable);
    assert_eq!(profiling(true, true), Profiling::On);
}

fn ended(success: bool) -> FlameEvent {
    FlameEvent::Ended { success, status: "exit status: 1".to_string() }
}

fn failed(text: &str) -> FlameStep {
    FlameStep::Failed(text.to_string())
}

fn first_flame_step() -> FlameStep {
    record(b"/bin/nh".to_vec(), vec![b"os".to_vec(), b"switch".to_vec()])
}

#[test]
fn a_run_is_recorded_folded_and_drawn() {
    let step = first_flame_step();
    let words: Vec<Vec<u8>> =
        ["record", "-o", "/tmp/nh-perf.data", "--call-graph", "dwarf", "/bin/nh", "os", "switch"]
            .iter()
            .map(|word| word.as_bytes().to_vec())
            .collect();
    assert_eq!(step, FlameStep::Record(words));
    let step = advance(step, ended(true));
    let words: Vec<Vec<u8>> =
        ["script", "-i", "/tmp/nh-perf.data"].iter().map(|word| word.as_bytes().to_vec()).collect();
    assert_eq!(step, FlameStep::Script(words));
    let step = advance(step, ended(true));
    assert_eq!(step, FlameStep::Fold);
    let step = advance(step, FlameEvent::Finished);
    assert_eq!(step, FlameStep::Draw);
    let step = advance(step, FlameEvent::Finished);
    assert_eq!(step, FlameStep::Saved("Flamegraph saved to flamegraph.svg".to_string()));
}

#[test]
fn profiling_stops_at_the_first_failure() {
    let step = first_flame_step();
    assert_eq!(
        advance(step.clone(), ended(false)),
        failed("perf record failed (exit status exit status: 1)")
    );
    assert_eq!(advance(step.clone(), FlameEvent::NotRun), failed("Failed to run perf record"));
    let step = advance(step, ended(true));
    assert_eq!(
        advance(step.clone(), ended(false)),
        failed("perf script failed (exit status exit status: 1)")
    );
    assert_eq!(advance(step, FlameEvent::NotRun), failed("Failed to run perf script"));
    assert_eq!(
        advance(FlameStep::Fold, FlameEvent::NotCreated),
        failed("Failed to create folded stacks file")
    );
    assert_eq!(advance(FlameStep::Fold, FlameEvent::Broken), failed("Failed to collapse perf output"));
    assert_eq!(advance(FlameStep::Draw, FlameEvent::NotOpened), failed("Failed to open folded stacks"));
    assert_eq!(
        advance(FlameStep::Draw, FlameEvent::NotCreated),
        failed("Failed to create flamegraph output file")
    );
    assert_eq!(advance(FlameStep::Draw, FlameEvent::Broken), failed("Failed to generate flamegraph"));
    assert_eq!(advance(failed("x"), FlameEvent::Finished), failed("x"));
}
