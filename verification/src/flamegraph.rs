//! Profiling a run, and drawing the profile.
use vstd::prelude::*;
use vstd::slice::*;
use vstd::string::*;
use vstd::utf8::*;

use crate::text::{ends_with_its_end, holds, stands_in_the_middle, views};

verus! {

/// The profiler.
pub const PERF: &'static str = "perf";

/// Where the drawing goes.
pub const OUTPUT_SVG: &'static str = "flamegraph.svg";

/// Where the profiler puts what it recorded.
pub const PERF_DATA: &'static str = "/tmp/nh-perf.data";

/// Where the folded stacks go.
pub const FOLDED_STACKS: &'static str = "/tmp/nh-folded.txt";

/// What to do next for a drawing of a run.
#[derive(Debug, Clone, PartialEq, Eq)]
pub enum FlameStep {
    /// Run the profiler with these arguments.
    Record(Vec<Vec<u8>>),
    /// Run the profiler with these arguments, and keep its output.
    Script(Vec<Vec<u8>>),
    /// Fold the stacks in the output.
    Fold,
    /// Draw the folded stacks.
    Draw,
    /// Nothing more: tell the user where the drawing is.
    Saved(String),
    /// Nothing more: tell the user what went wrong.
    Failed(String),
}

/// What a step stands for.
pub enum FlameStepView {
    Record(Seq<Seq<u8>>),
    Script(Seq<Seq<u8>>),
    Fold,
    Draw,
    Saved(Seq<char>),
    Failed(Seq<char>),
}

impl View for FlameStep {
    type V = FlameStepView;

    open spec fn view(&self) -> FlameStepView {
        match self {
            FlameStep::Record(args) => FlameStepView::Record(views(args@)),
            FlameStep::Script(args) => FlameStepView::Script(views(args@)),
            FlameStep::Fold => FlameStepView::Fold,
            FlameStep::Draw => FlameStepView::Draw,
            FlameStep::Saved(text) => FlameStepView::Saved(text@),
            FlameStep::Failed(text) => FlameStepView::Failed(text@),
        }
    }
}

/// What came of a step.
#[derive(Debug, Clone, PartialEq, Eq)]
pub enum FlameEvent {
    /// A command that could not be run.
    NotRun,
    /// A command that ended, with a status.
    Ended { success: bool, status: String },
    /// A file to read that could not be opened.
    NotOpened,
    /// A file to write that could not be created.
    NotCreated,
    /// Work on files that could not be finished.
    Broken,
    /// Work on files that was finished.
    Finished,
}

/// What to tell the user of a command that failed.
pub open spec fn command_failure(command: Seq<char>, status: Seq<char>) -> Seq<char> {
    command + " failed (exit status "@ + status + ")"@
}

/// The arguments that make the profiler read its record.
pub open spec fn script_args() -> Seq<Seq<u8>> {
    seq![encode_utf8("script"@), encode_utf8("-i"@), encode_utf8(PERF_DATA@)]
}

/// The arguments that make the profiler record a run of `exe` with `args`.
pub open spec fn record_args(exe: Seq<u8>, args: Seq<Seq<u8>>) -> Seq<Seq<u8>> {
    seq![
        encode_utf8("record"@),
        encode_utf8("-o"@),
        encode_utf8(PERF_DATA@),
        encode_utf8("--call-graph"@),
        encode_utf8("dwarf"@),
        exe,
    ] + args
}

/// The first step for a drawing of a run of `exe` with `args`.
pub fn record(exe: Vec<u8>, args: Vec<Vec<u8>>) -> (r: FlameStep)
    ensures
        r@ == FlameStepView::Record(record_args(exe@, views(args@))),
{
    let mut all: Vec<Vec<u8>> = Vec::new();
    all.push(slice_to_vec("record".as_bytes()));
    all.push(slice_to_vec("-o".as_bytes()));
    all.push(slice_to_vec(PERF_DATA.as_bytes()));
    all.push(slice_to_vec("--call-graph".as_bytes()));
    all.push(slice_to_vec("dwarf".as_bytes()));
    all.push(exe);
    let ghost head = views(all@);
    let ghost tail = views(args@);
    let mut args = args;
    all.append(&mut args);
    assert(views(all@) =~= head + tail);
    assert(views(all@) =~= record_args(exe@, tail));
    FlameStep::Record(all)
}

/// The step after `step`, where `event` came of it. The steps are made one
/// after another, and the first that does not work out ends them.
pub open spec fn next(step: FlameStepView, event: FlameEvent) -> FlameStepView {
    match (step, event) {
        (FlameStepView::Record(_), FlameEvent::Ended { success: true, status: _ }) => FlameStepView::Script(
            script_args(),
        ),
        (FlameStepView::Record(_), FlameEvent::Ended { success: false, status }) => FlameStepView::Failed(
            command_failure("perf record"@, status@),
        ),
        (FlameStepView::Record(_), _) => FlameStepView::Failed("Failed to run perf record"@),
        (FlameStepView::Script(_), FlameEvent::Ended { success: true, status: _ }) => FlameStepView::Fold,
        (FlameStepView::Script(_), FlameEvent::Ended { success: false, status }) => FlameStepView::Failed(
            command_failure("perf script"@, status@),
        ),
        (FlameStepView::Script(_), _) => FlameStepView::Failed("Failed to run perf script"@),
        (FlameStepView::Fold, FlameEvent::Finished) => FlameStepView::Draw,
        (FlameStepView::Fold, FlameEvent::NotCreated) => FlameStepView::Failed(
            "Failed to create folded stacks file"@,
        ),
        (FlameStepView::Fold, _) => FlameStepView::Failed("Failed to collapse perf output"@),
        (FlameStepView::Draw, FlameEvent::Finished) => FlameStepView::Saved(
            "Flamegraph saved to "@ + OUTPUT_SVG@,
        ),
        (FlameStepView::Draw, FlameEvent::NotOpened) => FlameStepView::Failed(
            "Failed to open folded stacks"@,
        ),
        (FlameStepView::Draw, FlameEvent::NotCreated) => FlameStepView::Failed(
            "Failed to create flamegraph output file"@,
        ),
        (FlameStepView::Draw, _) => FlameStepView::Failed("Failed to generate flamegraph"@),
        (FlameStepView::Saved(_), _) => step,
        (FlameStepView::Failed(_), _) => step,
    }
}

fn failed(text: &str) -> (r: FlameStep)
    ensures
        r@ == FlameStepView::Failed(text@),
{
    FlameStep::Failed(text.to_owned())
}

fn failed_command(command: &str, status: &str) -> (r: FlameStep)
    ensures
        r@ == FlameStepView::Failed(command_failure(command@, status@)),
{
    let mut text = command.to_owned();
    text.append(" failed (exit status ");
    text.append(status);
    text.append(")");
    FlameStep::Failed(text)
}

fn script() -> (r: FlameStep)
    ensures
        r@ == FlameStepView::Script(script_args()),
{
    let mut args: Vec<Vec<u8>> = Vec::new();
    args.push(slice_to_vec("script".as_bytes()));
    args.push(slice_to_vec("-i".as_bytes()));
    args.push(slice_to_vec(PERF_DATA.as_bytes()));
    assert(views(args@) =~= script_args());
    FlameStep::Script(args)
}

/// The step after `step`, where `event` came of it.
pub fn advance(step: FlameStep, event: FlameEvent) -> (r: FlameStep)
    ensures
        r@ == next(step@, event),
{
    match (step, event) {
        (FlameStep::Record(_), FlameEvent::Ended { success, status }) => if success {
            script()
        } else {
            failed_command("perf record", status.as_str())
        },
        (FlameStep::Record(_), _) => failed("Failed to run perf record"),
        (FlameStep::Script(_), FlameEvent::Ended { success, status }) => if success {
            FlameStep::Fold
        } else {
            failed_command("perf script", status.as_str())
        },
        (FlameStep::Script(_), _) => failed("Failed to run perf script"),
        (FlameStep::Fold, FlameEvent::Finished) => FlameStep::Draw,
        (FlameStep::Fold, FlameEvent::NotCreated) => failed("Failed to create folded stacks file"),
        (FlameStep::Fold, _) => failed("Failed to collapse perf output"),
        (FlameStep::Draw, FlameEvent::Finished) => {
            let mut text = "Flamegraph saved to ".to_owned();
            text.append(OUTPUT_SVG);
            FlameStep::Saved(text)
        },
        (FlameStep::Draw, FlameEvent::NotOpened) => failed("Failed to open folded stacks"),
        (FlameStep::Draw, FlameEvent::NotCreated) => failed("Failed to create flamegraph output file"),
        (FlameStep::Draw, _) => failed("Failed to generate flamegraph"),
        (FlameStep::Saved(text), _) => FlameStep::Saved(text),
        (FlameStep::Failed(text), _) => FlameStep::Failed(text),
    }
}

/// The step after several, where `events` came of them in turn.
pub open spec fn after(step: FlameStepView, events: Seq<FlameEvent>) -> FlameStepView
    decreases events.len(),
{
    if events.len() == 0 {
        step
    } else {
        next(after(step, events.drop_last()), events.last())
    }
}

/// A command that ended well.
pub open spec fn ended_well(event: FlameEvent) -> bool {
    event matches FlameEvent::Ended { success, status: _ } && success
}

/// Only after both commands ended well, and the folding and the drawing were
/// finished, is the user told that there is a drawing.
pub proof fn saved_only_after_success(args: Seq<Seq<u8>>, events: Seq<FlameEvent>)
    ensures
        after(FlameStepView::Record(args), events) is Saved ==> events.len() >= 4 && ended_well(events[0])
            && ended_well(events[1]) && events[2] is Finished && events[3] is Finished,
{
    steps_in_order(args, events);
}

proof fn steps_in_order(args: Seq<Seq<u8>>, events: Seq<FlameEvent>)
    ensures
        after(FlameStepView::Record(args), events) is Record ==> events.len() == 0,
        after(FlameStepView::Record(args), events) is Script ==> events.len() == 1 && ended_well(events[0]),
        after(FlameStepView::Record(args), events) is Fold ==> events.len() == 2 && ended_well(events[0])
            && ended_well(events[1]),
        after(FlameStepView::Record(args), events) is Draw ==> events.len() == 3 && ended_well(events[0])
            && ended_well(events[1]) && events[2] is Finished,
        after(FlameStepView::Record(args), events) is Saved ==> events.len() >= 4 && ended_well(events[0])
            && ended_well(events[1]) && events[2] is Finished && events[3] is Finished,
    decreases events.len(),
{
    if events.len() > 0 {
        steps_in_order(args, events.drop_last());
    }
}

/// Where both commands end well, and the folding and the drawing are finished,
/// there is a drawing, and the user is told where; any other event ends the
/// work with a failure.
pub proof fn success_leads_to_a_drawing(args: Seq<Seq<u8>>, first: FlameEvent, second: FlameEvent)
    requires
        ended_well(first),
        ended_well(second),
    ensures
        after(
            FlameStepView::Record(args),
            seq![first, second, FlameEvent::Finished, FlameEvent::Finished],
        ) matches FlameStepView::Saved(text) && holds(text, "flamegraph.svg"@),
{
    let all = seq![first, second, FlameEvent::Finished, FlameEvent::Finished];
    reveal_with_fuel(after, 5);
    assert(all.drop_last() =~= seq![first, second, FlameEvent::Finished]);
    assert(seq![first, second, FlameEvent::Finished].drop_last() =~= seq![first, second]);
    assert(seq![first, second].drop_last() =~= seq![first]);
    assert(seq![first].drop_last() =~= Seq::empty());
    ends_with_its_end("Flamegraph saved to "@, OUTPUT_SVG@);
}

/// The first step that does not work out ends the work, and nothing goes on
/// after the end.
pub proof fn failure_ends_the_work(step: FlameStepView, event: FlameEvent)
    ensures
        (step is Record || step is Script) && !ended_well(event) ==> next(step, event) is Failed,
        (step is Fold || step is Draw) && !(event is Finished) ==> next(step, event) is Failed,
        step is Saved || step is Failed ==> next(step, event) == step,
{
}

/// What the user is told of a command that failed holds its status, and says
/// which of the two it was.
pub proof fn status_is_told(args: Seq<Seq<u8>>, status: String)
    ensures
        next(FlameStepView::Record(args), FlameEvent::Ended { success: false, status }) matches FlameStepView::Failed(
            text,
        ) && holds(text, status@) && text.take("perf record"@.len() as int) == "perf record"@,
        next(FlameStepView::Script(args), FlameEvent::Ended { success: false, status }) matches FlameStepView::Failed(
            text,
        ) && holds(text, status@) && text.take("perf script"@.len() as int) == "perf script"@,
{
    let middle = " failed (exit status "@;
    stands_in_the_middle("perf record"@ + middle, status@, ")"@);
    stands_in_the_middle("perf script"@ + middle, status@, ")"@);
    assert(command_failure("perf record"@, status@).take("perf record"@.len() as int) =~= "perf record"@);
    assert(command_failure("perf script"@, status@).take("perf script"@.len() as int) =~= "perf script"@);
}

/// The run that is recorded is that of the program with all of its arguments,
/// in order, behind what the profiler needs, which is the same for every run.
pub proof fn whole_run_is_recorded(exe: Seq<u8>, args: Seq<Seq<u8>>, other: Seq<u8>)
    ensures
        record_args(exe, args).len() >= 1 + args.len(),
        record_args(exe, args).skip(record_args(exe, args).len() - args.len()) == args,
        record_args(exe, args)[record_args(exe, args).len() - args.len() - 1] == exe,
        record_args(exe, args).take(record_args(exe, args).len() - args.len() - 1) == record_args(
            other,
            Seq::empty(),
        ).drop_last(),
{
    let all = record_args(exe, args);
    assert(all.skip(all.len() - args.len()) =~= args);
    assert(all.take(all.len() - args.len() - 1) =~= record_args(other, Seq::empty()).drop_last());
}

/// The profiler reads the record from where it put it.
pub proof fn record_is_read_where_it_was_put(exe: Seq<u8>, args: Seq<Seq<u8>>)
    ensures
        record_args(exe, args)[0] == encode_utf8("record"@),
        record_args(exe, args)[1] == encode_utf8("-o"@),
        script_args()[0] == encode_utf8("script"@),
        script_args()[1] == encode_utf8("-i"@),
        script_args().len() == 3,
        script_args()[2] == record_args(exe, args)[2],
{
}

} // verus!
