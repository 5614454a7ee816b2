//! The pipeline driver: a state machine over the stages of one run.
//!
//! The run is sequential and non-retrying: every stage hands its outcome to
//! `entry`, which names the next stage; the first failure moves the machine
//! to `Failed` and it never leaves.  The shell around the library performs
//! each stage's outside work (reading files, meshing, floating-point
//! arithmetic, writing output, plotting) and reports back only whether the
//! stage succeeded.

use vstd::prelude::*;

verus! {

/// The stages of one run, in order.  `Idle` is the start; `Done` and
/// `Failed` are terminal.
#[derive(Debug, Clone, Copy, PartialEq, Eq, Structural)]
pub enum Phase {
    Idle,
    Ingesting,
    Assembling,
    Partitioning,
    Solving,
    Recovering,
    Writing,
    Plotting,
    Done,
    Failed,
}

/// What the shell must do while the machine sits in a phase.
#[derive(Debug, Clone, Copy, PartialEq, Eq, Structural)]
pub enum PhaseAction {
    ParseInputs,
    BuildSystem,
    ReduceSystem,
    RunConjugateGradient,
    RecoverResults,
    WriteCsv,
    RunPlot,
    Stop,
}

/// The successor of a phase whose work ended with the given outcome: the
/// next stage in order on success, `Failed` on any failure, with the plot
/// stage skipped when asked to; `Done` and `Failed` are absorbing.
pub open spec fn spec_next_phase(phase: Phase, succeeded: bool, skip_plot: bool) -> Phase {
    match phase {
        Phase::Done => Phase::Done,
        Phase::Failed => Phase::Failed,
        _ if !succeeded => Phase::Failed,
        Phase::Idle => Phase::Ingesting,
        Phase::Ingesting => Phase::Assembling,
        Phase::Assembling => Phase::Partitioning,
        Phase::Partitioning => Phase::Solving,
        Phase::Solving => Phase::Recovering,
        Phase::Recovering => Phase::Writing,
        Phase::Writing => if skip_plot { Phase::Done } else { Phase::Plotting },
        Phase::Plotting => Phase::Done,
    }
}

/// The work each phase asks of the shell.
pub open spec fn spec_phase_action(phase: Phase) -> PhaseAction {
    match phase {
        Phase::Idle => PhaseAction::Stop,
        Phase::Ingesting => PhaseAction::ParseInputs,
        Phase::Assembling => PhaseAction::BuildSystem,
        Phase::Partitioning => PhaseAction::ReduceSystem,
        Phase::Solving => PhaseAction::RunConjugateGradient,
        Phase::Recovering => PhaseAction::RecoverResults,
        Phase::Writing => PhaseAction::WriteCsv,
        Phase::Plotting => PhaseAction::RunPlot,
        Phase::Done => PhaseAction::Stop,
        Phase::Failed => PhaseAction::Stop,
    }
}

/// Advances the run: from the phase whose work just ended, with its
/// outcome, to the next phase.
pub fn entry(phase: &Phase, succeeded: bool, skip_plot: bool) -> (next: Phase)
    ensures
        next == spec_next_phase(*phase, succeeded, skip_plot),
{
    match phase {
        Phase::Done => Phase::Done,
        Phase::Failed => Phase::Failed,
        _ if !succeeded => Phase::Failed,
        Phase::Idle => Phase::Ingesting,
        Phase::Ingesting => Phase::Assembling,
        Phase::Assembling => Phase::Partitioning,
        Phase::Partitioning => Phase::Solving,
        Phase::Solving => Phase::Recovering,
        Phase::Recovering => Phase::Writing,
        Phase::Writing => if skip_plot { Phase::Done } else { Phase::Plotting },
        Phase::Plotting => Phase::Done,
    }
}

/// The work a phase asks of the shell.
pub fn phase_action(phase: &Phase) -> (action: PhaseAction)
    ensures
        action == spec_phase_action(*phase),
{
    match phase {
        Phase::Idle => PhaseAction::Stop,
        Phase::Ingesting => PhaseAction::ParseInputs,
        Phase::Assembling => PhaseAction::BuildSystem,
        Phase::Partitioning => PhaseAction::ReduceSystem,
        Phase::Solving => PhaseAction::RunConjugateGradient,
        Phase::Recovering => PhaseAction::RecoverResults,
        Phase::Writing => PhaseAction::WriteCsv,
        Phase::Plotting => PhaseAction::RunPlot,
        Phase::Done => PhaseAction::Stop,
        Phase::Failed => PhaseAction::Stop,
    }
}

/// A failure is terminal: no outcome ever leaves `Failed`, and `Done` is
/// likewise never left.
pub proof fn lemma_terminal_phases(succeeded: bool, skip_plot: bool)
    ensures
        spec_next_phase(Phase::Failed, succeeded, skip_plot) == Phase::Failed,
        spec_next_phase(Phase::Done, succeeded, skip_plot) == Phase::Done,
{
}

/// A failed stage always moves the run to `Failed`, whatever the stage.
pub proof fn lemma_fail_fast(phase: Phase, skip_plot: bool)
    requires
        phase != Phase::Done,
    ensures
        spec_next_phase(phase, false, skip_plot) == Phase::Failed,
{
}

} // verus!
