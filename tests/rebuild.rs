use nix_hash_collection::rebuild::{
    after_phase, build_args, build_target, first_step, outcome_message, Outcome, Phase, Step,
};
use nix_hash_collection::task::SuggestedRebuild;

fn task() -> SuggestedRebuild {
    SuggestedRebuild::new("/nix/store/abc-hello.drv".to_string(), "/nix/store/def-hello".to_string(), "out".to_string())
}

#[test]
fn starts_with_normal_build() {
    assert!(matches!(first_step(), Step::Run(Phase::Build)));
}

#[test]
fn successful_build_leads_to_rebuild() {
    assert!(matches!(after_phase(Phase::Build, true, Vec::new()), Step::Run(Phase::Rebuild)));
}

#[test]
fn failed_build_stops_without_rebuild() {
    match after_phase(Phase::Build, false, b"boom".to_vec()) {
        Step::Done(Outcome::Failure { phase, captured_output }) => {
            assert_eq!(phase, Phase::Build);
            assert_eq!(captured_output, b"boom".to_vec());
        }
        _ => panic!("a failed build must end the task"),
    }
}

#[test]
fn successful_rebuild_is_success() {
    assert!(matches!(after_phase(Phase::Rebuild, true, Vec::new()), Step::Done(Outcome::Success)));
}

#[test]
fn failed_rebuild_is_failure() {
    match after_phase(Phase::Rebuild, false, b"diff".to_vec()) {
        Step::Done(Outcome::Failure { phase, captured_output }) => {
            assert_eq!(phase, Phase::Rebuild);
            assert_eq!(captured_output, b"diff".to_vec());
        }
        _ => panic!("a failed rebuild must end the task"),
    }
}

#[test]
fn target_joins_derivation_and_output() {
    assert_eq!(build_target(&task()), "/nix/store/abc-hello.drv^out");
}

#[test]
fn arguments_of_each_phase() {
    assert_eq!(build_args(&task(), Phase::Build), vec!["build", "/nix/store/abc-hello.drv^out", "--no-link"]);
    assert_eq!(
        build_args(&task(), Phase::Rebuild),
        vec!["build", "/nix/store/abc-hello.drv^out", "--rebuild", "--no-link"]
    );
}

#[test]
fn failure_reasons_tell_phases_apart() {
    assert_eq!(Phase::Build.failure_reason(), "initial build failed");
    assert_eq!(Phase::Rebuild.failure_reason(), "rebuild failed");
}

#[test]
fn messages_for_outcomes() {
    assert_eq!(outcome_message(&task(), &Outcome::Success), "Rebuilt /nix/store/abc-hello.drv^out");
    let failed = Outcome::Failure { phase: Phase::Build, captured_output: Vec::new() };
    assert_eq!(
        outcome_message(&task(), &failed),
        "Failed to build /nix/store/abc-hello.drv^out: initial build failed"
    );
    let failed = Outcome::Failure { phase: Phase::Rebuild, captured_output: Vec::new() };
    assert_eq!(
        outcome_message(&task(), &failed),
        "Failed to build /nix/store/abc-hello.drv^out: rebuild failed"
    );
}

#[test]
fn phases_follow_order_through_a_whole_task() {
    let mut runs = Vec::new();
    let mut step = first_step();
    let results = [true, true];
    let mut i = 0;
    while let Step::Run(p) = step {
        runs.push(p);
        step = after_phase(p, results[i], Vec::new());
        i += 1;
    }
    assert_eq!(runs, vec![Phase::Build, Phase::Rebuild]);
    assert!(matches!(step, Step::Done(Outcome::Success)));
}
