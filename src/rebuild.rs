use vstd::prelude::*;
use vstd::string::StringExecFns;

use crate::task::SuggestedRebuild;

verus! {

/// The two invocations of the build tool for one task: a normal build, then a
/// forced rebuild of the same target.
#[derive(PartialEq, Eq, Structural, Clone, Copy, Debug)]
pub enum Phase {
    Build,
    Rebuild,
}

/// The result of rebuilding one task. A failure names the phase that failed and
/// carries what the build tool printed.
pub enum Outcome {
    Success,
    Failure { phase: Phase, captured_output: Vec<u8> },
}

/// What to do next while rebuilding a task: run a phase of the build tool, or stop
/// with an outcome.
pub enum Step {
    Run(Phase),
    Done(Outcome),
}

/// The phase that follows `phase` when it ended as `succeeded` says: only a normal
/// build that succeeded is followed, by the forced rebuild.
pub open spec fn next_phase(phase: Phase, succeeded: bool) -> Option<Phase> {
    if phase == Phase::Build && succeeded {
        Some(Phase::Rebuild)
    } else {
        None
    }
}

/// The phases that rebuilding a task runs, where `results` are the exit statuses
/// of the phases in turn, starting at `phase`.
pub open spec fn phases_run(phase: Phase, results: Seq<bool>) -> Seq<Phase>
    decreases results.len(),
{
    if results.len() == 0 {
        seq![phase]
    } else {
        match next_phase(phase, results[0]) {
            Some(p) => seq![phase] + phases_run(p, results.drop_first()),
            None => seq![phase],
        }
    }
}

/// The first phase to run for a task: the normal build.
pub fn first_step() -> (r: Step)
    ensures
        r == Step::Run(Phase::Build),
{
    Step::Run(Phase::Build)
}

/// Decides what follows a phase that ended, given whether the build tool succeeded
/// and what it printed. A failed normal build ends the task without a rebuild; a
/// failed rebuild ends it too; a rebuild that succeeded ends it with success.
pub fn after_phase(phase: Phase, succeeded: bool, captured_output: Vec<u8>) -> (r: Step)
    ensures
        next_phase(phase, succeeded) matches Some(p) ==> r == Step::Run(p),
        next_phase(phase, succeeded) is None && succeeded ==> r == Step::Done(Outcome::Success),
        !succeeded ==> r == Step::Done(Outcome::Failure { phase, captured_output }),
{
    if !succeeded {
        Step::Done(Outcome::Failure { phase, captured_output })
    } else {
        match phase {
            Phase::Build => Step::Run(Phase::Rebuild),
            Phase::Rebuild => Step::Done(Outcome::Success),
        }
    }
}

/// The target that the build tool is given for a task: `<derivation>^<output>`.
pub open spec fn target_of(task: SuggestedRebuild) -> Seq<char> {
    task.drv_path@ + seq!['^'] + task.output@
}

/// The arguments of the build tool for one phase of a task.
pub open spec fn args_of(task: SuggestedRebuild, phase: Phase) -> Seq<Seq<char>> {
    match phase {
        Phase::Build => seq!["build"@, target_of(task), "--no-link"@],
        Phase::Rebuild => seq!["build"@, target_of(task), "--rebuild"@, "--no-link"@],
    }
}

/// Builds `<derivation>^<output>` for a task.
pub fn build_target(task: &SuggestedRebuild) -> (r: String)
    ensures
        r@ == target_of(*task),
{
    let mut target = task.drv_path.clone();
    target.append("^");
    target.append(task.output.as_str());
    proof {
        reveal_strlit("^");
    }
    target
}

/// The arguments to hand the build tool for `phase` of `task`: the normal build
/// without `--rebuild`, the second phase with it, both without a result link.
pub fn build_args(task: &SuggestedRebuild, phase: Phase) -> (r: Vec<String>)
    ensures
        r@.map_values(|a: String| a@) == args_of(*task, phase),
{
    let mut args: Vec<String> = Vec::new();
    args.push("build".to_owned());
    args.push(build_target(task));
    if phase == Phase::Rebuild {
        args.push("--rebuild".to_owned());
    }
    args.push("--no-link".to_owned());
    assert(args@.map_values(|a: String| a@) =~= args_of(*task, phase));
    args
}

impl Phase {
    /// Why a task failed when this phase failed.
    pub fn failure_reason(&self) -> (r: &'static str)
        ensures
            *self == Phase::Build ==> r@ == "initial build failed"@,
            *self == Phase::Rebuild ==> r@ == "rebuild failed"@,
    {
        match self {
            Phase::Build => "initial build failed",
            Phase::Rebuild => "rebuild failed",
        }
    }
}

/// The line reported for a task once it is done: `Rebuilt <target>`, or
/// `Failed to build <target>: <reason>`.
pub fn outcome_message(task: &SuggestedRebuild, outcome: &Outcome) -> (r: String)
    ensures
        outcome is Success ==> r@ == "Rebuilt "@ + target_of(*task),
        outcome matches Outcome::Failure { phase: Phase::Build, .. } ==> r@ == "Failed to build "@
            + target_of(*task) + ": "@ + "initial build failed"@,
        outcome matches Outcome::Failure { phase: Phase::Rebuild, .. } ==> r@
            == "Failed to build "@ + target_of(*task) + ": "@ + "rebuild failed"@,
{
    let target = build_target(task);
    match outcome {
        Outcome::Success => {
            let mut line = "Rebuilt ".to_owned();
            line.append(target.as_str());
            line
        },
        Outcome::Failure { phase, .. } => {
            let mut line = "Failed to build ".to_owned();
            line.append(target.as_str());
            line.append(": ");
            line.append(phase.failure_reason());
            line
        },
    }
}

/// The forced rebuild never comes first, never runs twice, and runs only right after
/// a normal build that succeeded: whatever the phases report, at most two phases run,
/// the first is the normal build, and a failed normal build is the last phase.
pub proof fn lemma_phase_order(results: Seq<bool>)
    ensures
        phases_run(Phase::Build, results).len() <= 2,
        phases_run(Phase::Build, results)[0] == Phase::Build,
        forall|i: int|
            0 <= i < phases_run(Phase::Build, results).len() && #[trigger] phases_run(
                Phase::Build,
                results,
            )[i] == Phase::Rebuild ==> i == 1 && results[0],
        results.len() > 0 && !results[0] ==> phases_run(Phase::Build, results).len() == 1,
{
    let runs = phases_run(Phase::Build, results);
    if results.len() > 0 && results[0] {
        let rest = results.drop_first();
        let tail = phases_run(Phase::Rebuild, rest);
        if rest.len() > 0 {
            assert(tail == seq![Phase::Rebuild]);
        }
        assert(runs == seq![Phase::Build] + tail);
        assert(runs =~= seq![Phase::Build, Phase::Rebuild]);
    }
}

} // verus!
