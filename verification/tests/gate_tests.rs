use axum_harness::gate::{
    failure_line, gate_commands, gate_mode, gate_name_label, GateName, GateRun, GateVerdict,
    StepFailure,
};
use axum_harness::report::Mode;

#[test]
fn gate_labels_and_default_modes() {
    assert_eq!(gate_name_label(GateName::Prepush), "prepush");
    assert_eq!(gate_mode(None, GateName::Ci), Mode::Strict);
    assert_eq!(gate_mode(None, GateName::Release), Mode::Strict);
    assert_eq!(gate_mode(None, GateName::Local), Mode::Warn);
    assert_eq!(gate_mode(Some(Mode::Strict), GateName::Local), Mode::Strict);
}

#[test]
fn release_gate_passes_release_type_to_semver() {
    let cmds = gate_commands(GateName::Release, "patch");
    assert_eq!(cmds.len(), 5);
    assert_eq!(cmds[0].label, "semver compatibility");
    assert_eq!(cmds[0].args, vec!["semver-check".to_string(), "".to_string(), "patch".to_string()]);
    assert_eq!(cmds[3].program, "cargo");
    assert_eq!(
        cmds[3].args,
        vec!["run", "-p", "repo-tools", "--", "gate", "ci", "--mode", "strict"]
            .into_iter()
            .map(String::from)
            .collect::<Vec<_>>()
    );
}

#[test]
fn local_gate_runs_doctor_fmt_lint() {
    let labels: Vec<String> = gate_commands(GateName::Local, "minor").into_iter().map(|c| c.label).collect();
    assert_eq!(labels, vec!["toolchain doctor", "format check", "lint"]);
}

#[test]
fn strict_gate_blocks_at_first_failure() {
    let mut run = GateRun::new(GateName::Ci, Mode::Strict, gate_commands(GateName::Ci, "minor"));
    assert_eq!(run.next_step().unwrap().label, "full verify");
    run.record(true, 0);
    assert_eq!(run.next_step().unwrap().label, "platform doctor");
    run.record(false, 3);
    assert!(run.next_step().is_none());
    match run.verdict() {
        GateVerdict::Blocked(f) => {
            assert_eq!(f.label, "platform doctor");
            assert_eq!(f.exit_code, 3);
            assert_eq!(run.blocked_message(&f), "gate-ci blocked by platform doctor");
        }
        other => panic!("unexpected verdict {:?}", other),
    }
}

#[test]
fn warn_gate_runs_every_step_and_collects_failures() {
    let mut run = GateRun::new(GateName::Local, Mode::Warn, gate_commands(GateName::Local, "minor"));
    run.record(false, 1);
    run.record(true, 0);
    run.record(false, 2);
    assert!(run.next_step().is_none());
    match run.verdict() {
        GateVerdict::PassedWithWarnings(fs) => {
            assert_eq!(fs.len(), 2);
            assert_eq!(fs[0].label, "toolchain doctor");
            assert_eq!(fs[1].label, "lint");
            assert_eq!(failure_line(&fs[1]), "  - lint: exit 2");
        }
        other => panic!("unexpected verdict {:?}", other),
    }
}

#[test]
fn clean_gate_passes() {
    let mut run = GateRun::new(GateName::Local, Mode::Strict, gate_commands(GateName::Local, "minor"));
    while run.next_step().is_some() {
        run.record(true, 0);
    }
    assert!(matches!(run.verdict(), GateVerdict::Passed));
    let f = StepFailure { label: "x".to_string(), exit_code: -1 };
    assert_eq!(failure_line(&f), "  - x: exit -1");
}
