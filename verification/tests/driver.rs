use stack_usage::driver::{
    begin, conclude, decide, first_stage, follow, overflow_notice, summarize, trial_at, trials,
    Decision, Event, Position, Report, Stage, Step, TrialOutcome, Turn, Verdict, TRIAL_COUNT,
};
use stack_usage::trial::{
    build_chain, evaluate_chain, evaluate_pure, Chain, PayloadKind, Phase, Strategy, Trial,
};
use stack_usage::{BoxedFact, StackUsage};

fn probe_answers() -> bool {
    stacker::remaining_stack().is_some()
}

/// Runs the trials of depth `n`, performing each stage for real unless
/// `faulty` names its position, in which case the stage is skipped and a fault
/// is reported in its place.
fn run_case(n: u64, faulty: &[Position]) -> Vec<(usize, TrialOutcome, String)> {
    let order = trials();
    let mut done = Vec::new();
    let mut chain: Option<Chain> = None;
    let mut samples: Vec<usize> = Vec::new();
    let mut text = String::new();
    let mut turn = begin();
    let mut turns = 0;
    while let Turn::Perform(at) = turn {
        turns += 1;
        assert!(turns <= 2 * TRIAL_COUNT);
        let trial = order[at.trial];
        let event = if faulty.contains(&at) {
            Event::Faulted
        } else {
            match at.stage {
                Stage::Build => chain = Some(build_chain(trial.kind, n)),
                Stage::Evaluate => match &chain {
                    Some(built) => evaluate_chain(built, &mut samples, &mut text),
                    None => evaluate_pure(trial.kind, n, &mut samples, &mut text),
                },
            }
            Event::Completed
        };
        let decision = decide(at, event);
        if let Some(verdict) = decision.settled {
            let outcome = conclude(verdict, std::mem::take(&mut samples));
            done.push((at.trial, outcome, std::mem::take(&mut text)));
            chain = None;
        }
        turn = decision.next;
    }
    done
}

#[test]
fn trials_run_in_the_fixed_order() {
    let order = trials();
    assert_eq!(order.len(), TRIAL_COUNT);
    assert_eq!(TRIAL_COUNT, 8);
    let expected = [
        (PayloadKind::Narrow, Strategy::Pure),
        (PayloadKind::Wide, Strategy::Pure),
        (PayloadKind::ExtraWide, Strategy::Pure),
        (PayloadKind::Narrow, Strategy::Boxed),
        (PayloadKind::Wide, Strategy::Boxed),
        (PayloadKind::ExtraWide, Strategy::Boxed),
        (PayloadKind::Text, Strategy::Pure),
        (PayloadKind::Text, Strategy::Boxed),
    ];
    for (index, (kind, strategy)) in expected.iter().enumerate() {
        assert_eq!(order[index], Trial { kind: *kind, strategy: *strategy });
        assert_eq!(trial_at(index), Some(order[index]));
    }
    assert_eq!(trial_at(8), None);
    assert_eq!(trial_at(usize::MAX), None);
}

#[test]
fn every_combination_of_kind_and_strategy_is_a_trial_once() {
    let order = trials();
    for kind in [PayloadKind::Narrow, PayloadKind::Wide, PayloadKind::ExtraWide, PayloadKind::Text] {
        for strategy in [Strategy::Pure, Strategy::Boxed] {
            let wanted = Trial { kind, strategy };
            assert_eq!(order.iter().filter(|trial| **trial == wanted).count(), 1);
        }
    }
}

#[test]
fn trials_are_reported_under_their_names() {
    let names: Vec<String> = trials().iter().map(|trial| trial.label()).collect();
    assert_eq!(
        names,
        vec![
            "simple(u8)",
            "simple(u64)",
            "simple(u128)",
            "boxed(u8)",
            "boxed(u64)",
            "boxed(u128)",
            "string(pure)",
            "string(boxed)",
        ]
    );
}

#[test]
fn pure_trial_opens_with_the_evaluation_and_boxed_with_the_build() {
    assert_eq!(first_stage(Strategy::Pure), Stage::Evaluate);
    assert_eq!(first_stage(Strategy::Boxed), Stage::Build);
    assert_eq!(begin(), Turn::Perform(Position { trial: 0, stage: Stage::Evaluate }));
}

#[test]
fn each_stage_and_event_has_its_step() {
    assert_eq!(follow(Stage::Build, Event::Completed), Step::Run(Stage::Evaluate));
    assert_eq!(
        follow(Stage::Build, Event::Faulted),
        Step::Finish(Verdict::Overflow(Phase::Construction))
    );
    assert_eq!(follow(Stage::Evaluate, Event::Completed), Step::Finish(Verdict::Measured));
    assert_eq!(
        follow(Stage::Evaluate, Event::Faulted),
        Step::Finish(Verdict::Overflow(Phase::Evaluation))
    );
}

#[test]
fn completed_build_leads_to_the_evaluation_of_the_same_trial() {
    let decision = decide(Position { trial: 4, stage: Stage::Build }, Event::Completed);
    assert_eq!(
        decision,
        Decision {
            settled: None,
            next: Turn::Perform(Position { trial: 4, stage: Stage::Evaluate }),
        }
    );
}

#[test]
fn overflow_in_a_pure_evaluation_is_reported_and_the_next_trial_runs() {
    let decision = decide(Position { trial: 1, stage: Stage::Evaluate }, Event::Faulted);
    assert_eq!(decision.settled, Some(Verdict::Overflow(Phase::Evaluation)));
    assert_eq!(decision.next, Turn::Perform(Position { trial: 2, stage: Stage::Evaluate }));
    let outcome = conclude(Verdict::Overflow(Phase::Evaluation), vec![900, 800]);
    assert_eq!(outcome, TrialOutcome::Overflow(Phase::Evaluation));
    assert_eq!(summarize(&outcome), Report::Overflow(Phase::Evaluation));
}

#[test]
fn overflow_in_a_build_is_reported_and_the_next_trial_runs() {
    let decision = decide(Position { trial: 5, stage: Stage::Build }, Event::Faulted);
    assert_eq!(decision.settled, Some(Verdict::Overflow(Phase::Construction)));
    assert_eq!(decision.next, Turn::Perform(Position { trial: 6, stage: Stage::Evaluate }));
    let outcome = conclude(Verdict::Overflow(Phase::Construction), Vec::new());
    assert_eq!(summarize(&outcome), Report::Overflow(Phase::Construction));
}

#[test]
fn last_trial_is_followed_by_rest_however_it_ends() {
    let last = Position { trial: 7, stage: Stage::Evaluate };
    assert_eq!(decide(last, Event::Completed).next, Turn::Rest);
    assert_eq!(decide(last, Event::Faulted).next, Turn::Rest);
    assert_eq!(decide(Position { trial: 7, stage: Stage::Build }, Event::Faulted).next, Turn::Rest);
}

#[test]
fn position_past_the_last_trial_leads_to_rest() {
    for trial in [8usize, 9, 1000, usize::MAX] {
        for stage in [Stage::Build, Stage::Evaluate] {
            for event in [Event::Completed, Event::Faulted] {
                assert_eq!(
                    decide(Position { trial, stage }, event),
                    Decision { settled: None, next: Turn::Rest }
                );
            }
        }
    }
}

#[test]
fn measured_trial_keeps_its_samples() {
    let outcome = conclude(Verdict::Measured, vec![1000, 900, 950]);
    assert_eq!(outcome, TrialOutcome::Success(vec![1000, 900, 950]));
    assert_eq!(
        summarize(&outcome),
        Report::Usage(StackUsage { total_used: 100, samples: 3 })
    );
}

#[test]
fn trial_without_enough_samples_is_told_apart_from_an_overflow() {
    let silent = summarize(&conclude(Verdict::Measured, Vec::new()));
    let single = summarize(&conclude(Verdict::Measured, vec![4096]));
    assert_eq!(silent, Report::InsufficientData);
    assert_eq!(single, Report::InsufficientData);
    for phase in [Phase::Construction, Phase::Evaluation] {
        let overflow = summarize(&conclude(Verdict::Overflow(phase), Vec::new()));
        assert_eq!(overflow, Report::Overflow(phase));
        assert_ne!(overflow, silent);
    }
}

#[test]
fn run_without_faults_measures_every_trial() {
    let n = 20;
    let done = run_case(n, &[]);
    assert_eq!(done.len(), TRIAL_COUNT);
    for (index, (trial, outcome, text)) in done.iter().enumerate() {
        assert_eq!(*trial, index);
        match outcome {
            TrialOutcome::Success(samples) => {
                assert_eq!(samples.len(), if probe_answers() { 21 } else { 0 });
                if probe_answers() {
                    match summarize(outcome) {
                        Report::Usage(usage) => {
                            assert_eq!(usage.samples, 21);
                            assert_eq!(
                                usage.total_used,
                                samples[0] - samples.iter().min().unwrap()
                            );
                        }
                        other => panic!("expected a usage, got {:?}", other),
                    }
                } else {
                    assert_eq!(summarize(outcome), Report::InsufficientData);
                }
            }
            TrialOutcome::Overflow(phase) => panic!("trial {} overflowed in {:?}", index, phase),
        }
        if index >= 6 {
            assert_eq!(text, "20-19-18-17-16-15-14-13-12-11-10-9-8-7-6-5-4-3-2-1-0-");
        } else {
            assert_eq!(text, "");
        }
    }
}

#[test]
fn run_in_which_every_stage_faults_still_settles_every_trial() {
    let mut faulty = Vec::new();
    for trial in 0..TRIAL_COUNT {
        faulty.push(Position { trial, stage: Stage::Build });
        faulty.push(Position { trial, stage: Stage::Evaluate });
    }
    let done = run_case(5, &faulty);
    let order = trials();
    assert_eq!(done.len(), TRIAL_COUNT);
    for (index, (trial, outcome, _)) in done.iter().enumerate() {
        assert_eq!(*trial, index);
        let phase = match order[index].strategy {
            Strategy::Pure => Phase::Evaluation,
            Strategy::Boxed => Phase::Construction,
        };
        assert_eq!(*outcome, TrialOutcome::Overflow(phase));
    }
}

#[test]
fn fault_in_one_trial_leaves_the_other_trials_as_they_were() {
    let n = 12;
    let clean = run_case(n, &[]);
    let struck = [
        Position { trial: 0, stage: Stage::Evaluate },
        Position { trial: 3, stage: Stage::Build },
        Position { trial: 5, stage: Stage::Evaluate },
        Position { trial: 6, stage: Stage::Evaluate },
    ];
    for fault in struck {
        let faulted = run_case(n, &[fault]);
        assert_eq!(faulted.len(), clean.len());
        for index in 0..TRIAL_COUNT {
            let (trial, outcome, text) = &faulted[index];
            assert_eq!(*trial, index);
            if index == fault.trial {
                let phase = match fault.stage {
                    Stage::Build => Phase::Construction,
                    Stage::Evaluate => Phase::Evaluation,
                };
                assert_eq!(*outcome, TrialOutcome::Overflow(phase));
                assert_eq!(summarize(outcome), Report::Overflow(phase));
            } else {
                let (_, clean_outcome, clean_text) = &clean[index];
                assert_eq!(text, clean_text);
                match (outcome, clean_outcome) {
                    (TrialOutcome::Success(got), TrialOutcome::Success(wanted)) => {
                        assert_eq!(got.len(), wanted.len());
                        assert_eq!(got.len(), if probe_answers() { 13 } else { 0 });
                    }
                    _ => panic!("trial {} was disturbed by a fault in trial {}", index, fault.trial),
                }
            }
        }
    }
}

#[test]
fn narrow_kind_keeps_the_low_byte_of_the_depth() {
    for (n, depth) in [(0u64, 0usize), (255, 255), (256, 0), (260, 4), (1000, 232)] {
        let mut samples: Vec<usize> = Vec::new();
        let mut text = String::new();
        evaluate_pure(PayloadKind::Narrow, n, &mut samples, &mut text);
        assert_eq!(samples.len(), if probe_answers() { depth + 1 } else { 0 });
        assert_eq!(text, "");
        match build_chain(PayloadKind::Narrow, n) {
            Chain::Narrow(chain) => {
                let head = match &chain {
                    BoxedFact::Next(payload, _) => *payload,
                    BoxedFact::Done(payload) => *payload,
                };
                assert_eq!(head as usize, depth);
                let mut boxed: Vec<usize> = Vec::new();
                evaluate_chain(&Chain::Narrow(chain), &mut boxed, &mut text);
                assert_eq!(boxed.len(), samples.len());
            }
            _ => panic!("a narrow chain was asked for"),
        }
    }
}

#[test]
fn chain_is_built_for_the_kind_that_was_asked_for() {
    assert!(matches!(build_chain(PayloadKind::Narrow, 3), Chain::Narrow(BoxedFact::Next(3, _))));
    assert!(matches!(build_chain(PayloadKind::Wide, 3), Chain::Wide(BoxedFact::Next(3, _))));
    assert!(matches!(
        build_chain(PayloadKind::ExtraWide, 3),
        Chain::ExtraWide(BoxedFact::Next(3, _))
    ));
    assert!(matches!(build_chain(PayloadKind::Wide, 0), Chain::Wide(BoxedFact::Done(0))));
    let mut samples: Vec<usize> = Vec::new();
    let mut text = String::new();
    evaluate_chain(&build_chain(PayloadKind::Text, 3), &mut samples, &mut text);
    assert_eq!(text, "3-2-1-0-");
    assert_eq!(samples.len(), if probe_answers() { 4 } else { 0 });
}

#[test]
fn pure_evaluation_writes_text_for_the_text_kind_alone() {
    for kind in [PayloadKind::Narrow, PayloadKind::Wide, PayloadKind::ExtraWide] {
        let mut samples: Vec<usize> = Vec::new();
        let mut text = String::from("kept");
        evaluate_pure(kind, 6, &mut samples, &mut text);
        assert_eq!(text, "kept");
        assert_eq!(samples.len(), if probe_answers() { 7 } else { 0 });
    }
    let mut samples: Vec<usize> = Vec::new();
    let mut text = String::from("kept");
    evaluate_pure(PayloadKind::Text, 6, &mut samples, &mut text);
    assert_eq!(text, "kept6-5-4-3-2-1-0-");
    assert_eq!(samples.len(), if probe_answers() { 7 } else { 0 });
}

#[test]
fn chain_of_any_kind_is_released_without_recursion() {
    for kind in [PayloadKind::Wide, PayloadKind::ExtraWide, PayloadKind::Text] {
        assert_eq!(build_chain(kind, 600_000).release(), 600_001);
        assert_eq!(build_chain(kind, 0).release(), 1);
    }
    assert_eq!(build_chain(PayloadKind::Narrow, 600_000).release(), 600_000 % 256 + 1);
    assert_eq!(build_chain(PayloadKind::Narrow, 0).release(), 1);
}

#[test]
fn overflow_is_reported_in_the_words_of_its_strategy_and_phase() {
    assert_eq!(overflow_notice(Strategy::Pure, Phase::Evaluation), "stack overflow!");
    assert_eq!(overflow_notice(Strategy::Pure, Phase::Construction), "stack overflow!");
    assert_eq!(overflow_notice(Strategy::Boxed, Phase::Construction), "overflow while creating!");
    assert_eq!(overflow_notice(Strategy::Boxed, Phase::Evaluation), "overflow while evaluating!");
}
