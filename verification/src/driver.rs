//! The decisions of the experiment driver.
//!
//! The driver runs the trials of one depth in a fixed order. Each stage of a
//! trial is performed by the caller inside a boundary that reports a fault as
//! an event instead of letting it spread. From the stage and the event this
//! module decides whether the trial goes on, how it ended, and which trial
//! comes next.

use crate::probe::{kept, lemma_kept_none_available};
use crate::trial::{PayloadKind, Phase, Strategy, Trial};
use crate::usage::{analyze_stack, usage_of, StackUsage};
use vstd::prelude::*;

verus! {

/// A part of a trial that is performed inside a fault boundary of its own.
#[derive(Clone, Copy, Debug, PartialEq, Eq, Structural)]
pub enum Stage {
    /// Building the chain; only boxed trials have this stage.
    Build,
    /// The tracked recursion itself.
    Evaluate,
}

/// What the fault boundary saw of a stage.
#[derive(Clone, Copy, Debug, PartialEq, Eq, Structural)]
pub enum Event {
    /// The stage ran to its end.
    Completed,
    /// The stage ran out of stack.
    Faulted,
}

/// How a trial ended.
#[derive(Clone, Copy, Debug, PartialEq, Eq, Structural)]
pub enum Verdict {
    /// Every stage completed; the samples stand.
    Measured,
    /// The stack ran out in the given phase.
    Overflow(Phase),
}

/// What follows a stage within its trial.
#[derive(Clone, Copy, Debug, PartialEq, Eq, Structural)]
pub enum Step {
    Run(Stage),
    Finish(Verdict),
}

/// The number of trials that are run for one depth.
pub const TRIAL_COUNT: usize = 8;

/// The trials of one depth in the order in which they are run: the pure
/// integer recursions from the narrowest payload to the widest, the boxed
/// ones likewise, then the text payload under either strategy.
pub open spec fn trial_order() -> Seq<Trial> {
    seq![
        Trial { kind: PayloadKind::Narrow, strategy: Strategy::Pure },
        Trial { kind: PayloadKind::Wide, strategy: Strategy::Pure },
        Trial { kind: PayloadKind::ExtraWide, strategy: Strategy::Pure },
        Trial { kind: PayloadKind::Narrow, strategy: Strategy::Boxed },
        Trial { kind: PayloadKind::Wide, strategy: Strategy::Boxed },
        Trial { kind: PayloadKind::ExtraWide, strategy: Strategy::Boxed },
        Trial { kind: PayloadKind::Text, strategy: Strategy::Pure },
        Trial { kind: PayloadKind::Text, strategy: Strategy::Boxed },
    ]
}

/// The stage that a trial opens with.
pub open spec fn opening(strategy: Strategy) -> Stage {
    match strategy {
        Strategy::Pure => Stage::Evaluate,
        Strategy::Boxed => Stage::Build,
    }
}

/// The phase that a stage belongs to.
pub open spec fn phase_of(stage: Stage) -> Phase {
    match stage {
        Stage::Build => Phase::Construction,
        Stage::Evaluate => Phase::Evaluation,
    }
}

/// What follows `stage` once the boundary has reported `event`: a fault ends
/// the trial with the phase it struck in, a completed build leads on to the
/// evaluation, and a completed evaluation ends the trial as measured.
pub open spec fn followed(stage: Stage, event: Event) -> Step {
    match event {
        Event::Faulted => Step::Finish(Verdict::Overflow(phase_of(stage))),
        Event::Completed => match stage {
            Stage::Build => Step::Run(Stage::Evaluate),
            Stage::Evaluate => Step::Finish(Verdict::Measured),
        },
    }
}

/// A place in the run of one depth: a trial, by its index in the order, and
/// the stage of it that is to be performed.
#[derive(Clone, Copy, Debug, PartialEq, Eq, Structural)]
pub struct Position {
    pub trial: usize,
    pub stage: Stage,
}

impl Position {
    /// The position names a trial of the order and a stage that the trial has.
    pub open spec fn valid(self) -> bool {
        &&& self.trial < TRIAL_COUNT
        &&& self.stage == Stage::Build ==> trial_order()[self.trial as int].strategy
            == Strategy::Boxed
    }
}

/// What the driver does next.
#[derive(Clone, Copy, Debug, PartialEq, Eq, Structural)]
pub enum Turn {
    /// Perform the stage at this position inside a fault boundary.
    Perform(Position),
    /// Every trial has been run.
    Rest,
}

/// What an event leads to: the verdict of the trial if the event ended it,
/// and the driver's next turn.
#[derive(Clone, Copy, Debug, PartialEq, Eq, Structural)]
pub struct Decision {
    pub settled: Option<Verdict>,
    pub next: Turn,
}

/// The turn that opens the trial at `index`, or `Rest` past the last trial.
pub open spec fn turn_from(index: int) -> Turn {
    if 0 <= index < TRIAL_COUNT {
        Turn::Perform(
            Position { trial: index as usize, stage: opening(trial_order()[index].strategy) },
        )
    } else {
        Turn::Rest
    }
}

/// The decision that `event` leads to at position `at`.
///
/// While the trial goes on, the position moves to its next stage. Once the
/// trial has ended, in whichever way, the run moves to the trial after it.
pub open spec fn decided(at: Position, event: Event) -> Decision {
    if at.trial >= TRIAL_COUNT {
        Decision { settled: None, next: Turn::Rest }
    } else {
        match followed(at.stage, event) {
            Step::Run(stage) => Decision {
                settled: None,
                next: Turn::Perform(Position { trial: at.trial, stage }),
            },
            Step::Finish(verdict) => Decision {
                settled: Some(verdict),
                next: turn_from(at.trial + 1),
            },
        }
    }
}

/// The trial at `index` of the order.
pub fn trial_at(index: usize) -> (trial: Option<Trial>)
    ensures
        trial == if index < TRIAL_COUNT {
            Some(trial_order()[index as int])
        } else {
            None::<Trial>
        },
{
    if index == 0 {
        Some(Trial { kind: PayloadKind::Narrow, strategy: Strategy::Pure })
    } else if index == 1 {
        Some(Trial { kind: PayloadKind::Wide, strategy: Strategy::Pure })
    } else if index == 2 {
        Some(Trial { kind: PayloadKind::ExtraWide, strategy: Strategy::Pure })
    } else if index == 3 {
        Some(Trial { kind: PayloadKind::Narrow, strategy: Strategy::Boxed })
    } else if index == 4 {
        Some(Trial { kind: PayloadKind::Wide, strategy: Strategy::Boxed })
    } else if index == 5 {
        Some(Trial { kind: PayloadKind::ExtraWide, strategy: Strategy::Boxed })
    } else if index == 6 {
        Some(Trial { kind: PayloadKind::Text, strategy: Strategy::Pure })
    } else if index == 7 {
        Some(Trial { kind: PayloadKind::Text, strategy: Strategy::Boxed })
    } else {
        None
    }
}

/// The trials of one depth in the order in which they are run.
pub fn trials() -> (order: Vec<Trial>)
    ensures
        order@ == trial_order(),
{
    let mut order: Vec<Trial> = Vec::new();
    let mut index: usize = 0;
    while index < TRIAL_COUNT
        invariant
            index <= TRIAL_COUNT,
            order@ == trial_order().subrange(0, index as int),
        decreases TRIAL_COUNT - index,
    {
        match trial_at(index) {
            Some(trial) => {
                order.push(trial);
            },
            None => {},
        }
        proof {
            assert(order@ =~= trial_order().subrange(0, index + 1));
        }
        index = index + 1;
    }
    proof {
        assert(order@ =~= trial_order());
    }
    order
}

/// The stage that a trial under `strategy` opens with.
pub fn first_stage(strategy: Strategy) -> (stage: Stage)
    ensures
        stage == opening(strategy),
{
    match strategy {
        Strategy::Pure => Stage::Evaluate,
        Strategy::Boxed => Stage::Build,
    }
}

/// What follows `stage` within its trial once `event` has come back.
pub fn follow(stage: Stage, event: Event) -> (step: Step)
    ensures
        step == followed(stage, event),
{
    match event {
        Event::Faulted => match stage {
            Stage::Build => Step::Finish(Verdict::Overflow(Phase::Construction)),
            Stage::Evaluate => Step::Finish(Verdict::Overflow(Phase::Evaluation)),
        },
        Event::Completed => match stage {
            Stage::Build => Step::Run(Stage::Evaluate),
            Stage::Evaluate => Step::Finish(Verdict::Measured),
        },
    }
}

/// The turn that opens the trial at `index`.
fn open_trial(index: usize) -> (turn: Turn)
    ensures
        turn == turn_from(index as int),
{
    match trial_at(index) {
        Some(trial) => Turn::Perform(Position { trial: index, stage: first_stage(trial.strategy) }),
        None => Turn::Rest,
    }
}

/// The driver's first turn: the opening stage of the first trial.
pub fn begin() -> (turn: Turn)
    ensures
        turn == turn_from(0),
{
    open_trial(0)
}

/// Decides what `event`, reported for the stage at `at`, leads to.
pub fn decide(at: Position, event: Event) -> (decision: Decision)
    ensures
        decision == decided(at, event),
{
    if at.trial >= TRIAL_COUNT {
        return Decision { settled: None, next: Turn::Rest };
    }
    match follow(at.stage, event) {
        Step::Run(stage) => Decision {
            settled: None,
            next: Turn::Perform(Position { trial: at.trial, stage }),
        },
        Step::Finish(verdict) => Decision {
            settled: Some(verdict),
            next: open_trial(at.trial + 1),
        },
    }
}

/// What a trial hands over to be reported.
#[derive(Debug, PartialEq, Eq)]
pub enum TrialOutcome {
    /// The trial ran to its end and collected these samples.
    Success(Vec<usize>),
    /// The stack ran out in the given phase.
    Overflow(Phase),
}

/// The outcome of a trial that ended with `verdict` after collecting
/// `samples`: the samples of a measured trial stand, those of an overflowed
/// trial are dropped.
pub open spec fn concluded(verdict: Verdict, samples: Vec<usize>) -> TrialOutcome {
    match verdict {
        Verdict::Measured => TrialOutcome::Success(samples),
        Verdict::Overflow(phase) => TrialOutcome::Overflow(phase),
    }
}

/// Turns the verdict of a trial and the samples it collected into its outcome.
pub fn conclude(verdict: Verdict, samples: Vec<usize>) -> (outcome: TrialOutcome)
    ensures
        outcome == concluded(verdict, samples),
{
    match verdict {
        Verdict::Measured => TrialOutcome::Success(samples),
        Verdict::Overflow(phase) => TrialOutcome::Overflow(phase),
    }
}

/// What is reported of a trial.
#[derive(Clone, Copy, Debug, PartialEq, Eq, Structural)]
pub enum Report {
    /// The stack that the walk consumed.
    Usage(StackUsage),
    /// The trial ran to its end but left fewer than two samples, as it does
    /// where the probe is unavailable.
    InsufficientData,
    /// The stack ran out in the given phase.
    Overflow(Phase),
}

/// The report that an outcome calls for.
pub open spec fn report_of(outcome: TrialOutcome) -> Report {
    match outcome {
        TrialOutcome::Success(samples) => match usage_of(samples@) {
            Some(usage) => Report::Usage(usage),
            None => Report::InsufficientData,
        },
        TrialOutcome::Overflow(phase) => Report::Overflow(phase),
    }
}

/// Reduces the outcome of a trial to what is reported of it. An overflow is
/// reported with its phase, and is never taken for a want of samples.
pub fn summarize(outcome: &TrialOutcome) -> (report: Report)
    ensures
        report == report_of(*outcome),
        report is Overflow <==> outcome is Overflow,
        report is InsufficientData <==> (outcome matches TrialOutcome::Success(samples)
            && samples@.len() < 2),
{
    match outcome {
        TrialOutcome::Success(samples) => match analyze_stack(samples.as_slice()) {
            Some(usage) => Report::Usage(usage),
            None => Report::InsufficientData,
        },
        TrialOutcome::Overflow(phase) => Report::Overflow(*phase),
    }
}

/// The words in which an overflow is reported. A pure trial has a single
/// phase and names none; a boxed trial says in which phase the stack ran out.
pub open spec fn notice_view(strategy: Strategy, phase: Phase) -> Seq<char> {
    match strategy {
        Strategy::Pure => "stack overflow!"@,
        Strategy::Boxed => match phase {
            Phase::Construction => "overflow while creating!"@,
            Phase::Evaluation => "overflow while evaluating!"@,
        },
    }
}

/// The words in which an overflow of a trial under `strategy` is reported.
pub fn overflow_notice(strategy: Strategy, phase: Phase) -> (notice: String)
    ensures
        notice@ == notice_view(strategy, phase),
{
    let words: &'static str = match strategy {
        Strategy::Pure => "stack overflow!",
        Strategy::Boxed => match phase {
            Phase::Construction => "overflow while creating!",
            Phase::Evaluation => "overflow while evaluating!",
        },
    };
    words.to_owned()
}

/// Where the probe was unavailable at every level, a trial that ran to its
/// end is reported as wanting data, and not as an overflow.
pub proof fn lemma_silent_probe_wants_data(samples: Vec<usize>, readings: Seq<Option<usize>>)
    requires
        samples@ == kept(readings),
        forall|i: int| 0 <= i < readings.len() ==> readings[i] is None,
    ensures
        report_of(concluded(Verdict::Measured, samples)) == Report::InsufficientData,
{
    lemma_kept_none_available(readings);
}

/// The driver's turn after it has started at `turn` and the boundary has
/// reported `events`, one after another.
pub open spec fn turn_after(turn: Turn, events: Seq<Event>) -> Turn
    decreases events.len(),
{
    if events.len() == 0 {
        turn
    } else {
        match turn {
            Turn::Rest => Turn::Rest,
            Turn::Perform(at) => turn_after(decided(at, events.first()).next, events.drop_first()),
        }
    }
}

/// The trials that were settled, each with its verdict, while the driver
/// started at `turn` and the boundary reported `events`.
pub open spec fn settled_after(turn: Turn, events: Seq<Event>) -> Seq<(usize, Verdict)>
    decreases events.len(),
{
    if events.len() == 0 {
        Seq::empty()
    } else {
        match turn {
            Turn::Rest => Seq::empty(),
            Turn::Perform(at) => {
                let decision = decided(at, events.first());
                let later = settled_after(decision.next, events.drop_first());
                match decision.settled {
                    Some(verdict) => seq![(at.trial, verdict)] + later,
                    None => later,
                }
            },
        }
    }
}

/// A fault ends the trial it struck and nothing else: the trial is settled as
/// an overflow in the phase of the faulted stage, and the driver turns to
/// the trial that comes next in the order, as it does after a trial that was
/// measured.
pub proof fn lemma_fault_is_contained(at: Position)
    requires
        at.valid(),
    ensures
        decided(at, Event::Faulted).settled == Some(Verdict::Overflow(phase_of(at.stage))),
        decided(at, Event::Faulted).next == turn_from(at.trial + 1),
        decided(at, Event::Faulted).next == decided(
            Position { trial: at.trial, stage: Stage::Evaluate },
            Event::Completed,
        ).next,
{
}

/// Whatever the boundary reports, no trial is skipped and none is run twice:
/// a run that starts at a valid position and comes to rest has settled every
/// trial from that position on exactly once, in the order of the trials.
/// A trial is settled as overflowed during construction only if it is boxed.
pub proof fn lemma_run_settles_each_trial(at: Position, events: Seq<Event>)
    requires
        at.valid(),
        turn_after(Turn::Perform(at), events) == Turn::Rest,
    ensures
        ({
            let settled = settled_after(Turn::Perform(at), events);
            &&& settled.len() == TRIAL_COUNT - at.trial
            &&& forall|k: int| 0 <= k < settled.len() ==> (#[trigger] settled[k]).0 == at.trial + k
            &&& forall|k: int|
                0 <= k < settled.len() && (#[trigger] settled[k]).1 == Verdict::Overflow(
                    Phase::Construction,
                ) ==> trial_order()[at.trial + k].strategy == Strategy::Boxed
        }),
    decreases events.len(),
{
    let settled = settled_after(Turn::Perform(at), events);
    let decision = decided(at, events.first());
    let later = settled_after(decision.next, events.drop_first());
    match decision.next {
        Turn::Perform(next) => {
            assert(next.valid());
            lemma_run_settles_each_trial(next, events.drop_first());
            if let Some(verdict) = decision.settled {
                assert(settled == seq![(at.trial, verdict)] + later);
                assert forall|k: int| 0 < k < settled.len() implies settled[k] == later[k - 1] by {}
            }
        },
        Turn::Rest => {
            lemma_rest_stays(events.drop_first());
            assert(later =~= Seq::<(usize, Verdict)>::empty());
            assert(settled =~= seq![(at.trial, decision.settled->0)]);
        },
    }
}

/// The run of one depth ends: every trial takes at most two events, so after
/// two events for each trial that was still to run the driver is at rest.
pub proof fn lemma_run_comes_to_rest(at: Position, events: Seq<Event>)
    requires
        at.valid(),
        events.len() >= 2 * (TRIAL_COUNT - at.trial),
    ensures
        turn_after(Turn::Perform(at), events) == Turn::Rest,
    decreases events.len(),
{
    let decision = decided(at, events.first());
    let rest = events.drop_first();
    assert(turn_after(Turn::Perform(at), events) == turn_after(decision.next, rest));
    match followed(at.stage, events.first()) {
        Step::Run(stage) => {
            let next = Position { trial: at.trial, stage };
            let second = decided(next, rest.first());
            assert(turn_after(Turn::Perform(next), rest) == turn_after(
                second.next,
                rest.drop_first(),
            ));
            match second.next {
                Turn::Perform(third) => {
                    lemma_run_comes_to_rest(third, rest.drop_first());
                },
                Turn::Rest => {
                    lemma_rest_stays(rest.drop_first());
                },
            }
        },
        Step::Finish(_) => {
            match decision.next {
                Turn::Perform(next) => {
                    lemma_run_comes_to_rest(next, rest);
                },
                Turn::Rest => {
                    lemma_rest_stays(rest);
                },
            }
        },
    }
}

/// Once at rest, the driver stays at rest.
pub proof fn lemma_rest_stays(events: Seq<Event>)
    ensures
        turn_after(Turn::Rest, events) == Turn::Rest,
        settled_after(Turn::Rest, events).len() == 0,
{
}

} // verus!
