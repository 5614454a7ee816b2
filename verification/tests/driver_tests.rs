use magnetite::driver::{entry, phase_action, Phase, PhaseAction};

#[test]
fn successful_run_visits_every_stage_in_order() {
    let order = [
        Phase::Idle,
        Phase::Ingesting,
        Phase::Assembling,
        Phase::Partitioning,
        Phase::Solving,
        Phase::Recovering,
        Phase::Writing,
        Phase::Plotting,
        Phase::Done,
    ];
    let mut phase = Phase::Idle;
    for expected in order.iter().skip(1) {
        phase = entry(&phase, true, false);
        assert_eq!(phase, *expected);
    }
}

#[test]
fn skipping_the_plot_finishes_after_writing() {
    assert_eq!(entry(&Phase::Writing, true, true), Phase::Done);
    assert_eq!(entry(&Phase::Writing, true, false), Phase::Plotting);
}

#[test]
fn any_failure_is_terminal() {
    for phase in [
        Phase::Idle,
        Phase::Ingesting,
        Phase::Assembling,
        Phase::Partitioning,
        Phase::Solving,
        Phase::Recovering,
        Phase::Writing,
        Phase::Plotting,
    ] {
        assert_eq!(entry(&phase, false, false), Phase::Failed);
    }
    assert_eq!(entry(&Phase::Failed, true, false), Phase::Failed);
    assert_eq!(entry(&Phase::Done, false, false), Phase::Done);
}

#[test]
fn each_phase_names_its_work() {
    assert_eq!(phase_action(&Phase::Ingesting), PhaseAction::ParseInputs);
    assert_eq!(phase_action(&Phase::Assembling), PhaseAction::BuildSystem);
    assert_eq!(phase_action(&Phase::Partitioning), PhaseAction::ReduceSystem);
    assert_eq!(phase_action(&Phase::Solving), PhaseAction::RunConjugateGradient);
    assert_eq!(phase_action(&Phase::Recovering), PhaseAction::RecoverResults);
    assert_eq!(phase_action(&Phase::Writing), PhaseAction::WriteCsv);
    assert_eq!(phase_action(&Phase::Plotting), PhaseAction::RunPlot);
    assert_eq!(phase_action(&Phase::Done), PhaseAction::Stop);
}
