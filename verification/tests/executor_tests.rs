use wrestler::config::{Phase, Phases, Problem, Target};
use wrestler::executor::{
    after_phase, any_plan_failed, build_shell_string, create_directories_op, dry_run_lines,
    ensure_directory_op, log_sink, next_step, phase_invocation, phase_kind_name, plan_phase,
    runs_base_path, should_use_ssh, stderr_log_path, stdout_log_path, stored_log_path, DirOp,
    Invocation, LogSink, PhaseKind, RunState, Step,
};
use wrestler::params::ParamValue;
use wrestler::planner::{plan_problem, RunPlan};

fn remote_target() -> Target {
    Target { root: "/remote/work".to_string(), ssh: Some("user@host".to_string()) }
}

fn local_only_target() -> Target {
    Target { root: "/work".to_string(), ssh: None }
}

fn one_plan(with_build: bool, with_analyze: bool) -> RunPlan {
    let problem = Problem {
        run_name: "{n}".to_string(),
        parameters: vec![("n".to_string(), vec![ParamValue::Int(1)])],
        phases: Phases {
            build: if with_build {
                Some(Phase {
                    program: "make".to_string(),
                    args: vec![],
                    cwd: None,
                    env: None,
                })
            } else {
                None
            },
            run: Phase {
                program: "./bench".to_string(),
                args: vec!["-v".to_string()],
                cwd: None,
                env: None,
            },
            analyze: if with_analyze {
                Some(Phase {
                    program: "summarize".to_string(),
                    args: vec![],
                    cwd: None,
                    env: None,
                })
            } else {
                None
            },
        },
    };
    let target = local_only_target();
    let mut plans = plan_problem("bench", &problem, "local", &target);
    plans.remove(0)
}

#[test]
fn shell_string_has_fixed_shape() {
    let args = vec!["-n".to_string(), "8".to_string()];
    assert_eq!(build_shell_string("./solver", &args, "/w"), "cd /w && ./solver -n 8");
    let none: Vec<String> = vec![];
    assert_eq!(build_shell_string("prog", &none, "/w"), "cd /w && prog ");
    let one = vec!["x".to_string()];
    assert_eq!(build_shell_string("prog", &one, "/w"), "cd /w && prog x");
}

#[test]
fn local_target_yields_only_local_operations() {
    let target = local_only_target();
    assert!(!should_use_ssh(&target));
    let plan = one_plan(true, true);
    match create_directories_op(&plan, &target) {
        DirOp::LocalDirs { paths } => {
            assert_eq!(
                paths,
                vec![
                    format!("{}/logs", plan.run_root),
                    format!("{}/run", plan.run_root),
                    format!("{}/analysis", plan.run_root),
                ]
            );
        },
        DirOp::RemoteCommand { .. } => panic!("local target produced a remote command"),
    }
    assert!(matches!(ensure_directory_op("/w/d", &target), DirOp::LocalDirs { .. }));
    assert!(matches!(phase_invocation(&plan.run, &target), Invocation::LocalShell { .. }));
    assert!(matches!(log_sink("/w/l", &target), LogSink::LocalFile { .. }));
}

#[test]
fn remote_target_routes_through_remote_shell() {
    let target = remote_target();
    assert!(should_use_ssh(&target));
    let plan = one_plan(false, false);
    match create_directories_op(&plan, &target) {
        DirOp::RemoteCommand { endpoint, command } => {
            assert_eq!(endpoint, "user@host");
            assert_eq!(
                command,
                format!(
                    "mkdir -p {}/logs {}/run {}/analysis",
                    plan.run_root, plan.run_root, plan.run_root
                )
            );
        },
        DirOp::LocalDirs { .. } => panic!("remote target provisioned locally"),
    }
    match ensure_directory_op("/r/d", &target) {
        DirOp::RemoteCommand { endpoint, command } => {
            assert_eq!(endpoint, "user@host");
            assert_eq!(command, "mkdir -p /r/d");
        },
        DirOp::LocalDirs { .. } => panic!("remote target provisioned locally"),
    }
    match phase_invocation(&plan.run, &target) {
        Invocation::RemoteShell { endpoint, command } => {
            assert_eq!(endpoint, "user@host");
            assert_eq!(command, format!("cd {}/run && ./bench -v", plan.run_root));
        },
        Invocation::LocalShell { .. } => panic!("remote target executed locally"),
    }
    match log_sink("/r/log", &target) {
        LogSink::RemotePipe { endpoint, command } => {
            assert_eq!(endpoint, "user@host");
            assert_eq!(command, "cat > /r/log");
        },
        LogSink::LocalFile { .. } => panic!("remote target wrote locally"),
    }
}

#[test]
fn log_paths_follow_layout() {
    assert_eq!(stdout_log_path("/rr", "build"), "/rr/logs/build.stdout");
    assert_eq!(stderr_log_path("/rr", "build"), "/rr/logs/build.stderr");
    assert_eq!(stored_log_path("/base", "fast-1", "run"), "/base/fast-1/logs/run.stdout");
    assert_eq!(
        runs_base_path("/w", "bench", "local"),
        "/w/wrestler_outputs/problems/bench/runs/local"
    );
}

#[test]
fn phase_names() {
    assert_eq!(phase_kind_name(PhaseKind::Build), "build");
    assert_eq!(phase_kind_name(PhaseKind::Run), "run");
    assert_eq!(phase_kind_name(PhaseKind::Analyze), "analyze");
}

#[test]
fn phases_step_in_order_when_all_succeed() {
    let plan = one_plan(true, true);
    let mut executed: Vec<PhaseKind> = vec![];
    let mut st = RunState::Planned;
    loop {
        match next_step(&plan, &st) {
            Step::Provision => {
                st = RunState::Provisioned;
            },
            Step::Execute(kind) => {
                assert!(plan_phase(&plan, kind).is_some());
                executed.push(kind);
                st = after_phase(&plan, kind, true);
            },
            Step::Finish => break,
        }
    }
    assert_eq!(executed, vec![PhaseKind::Build, PhaseKind::Run, PhaseKind::Analyze]);
    assert_eq!(st, RunState::Completed);
}

#[test]
fn undeclared_phases_are_skipped() {
    let plan = one_plan(false, false);
    let mut executed: Vec<PhaseKind> = vec![];
    let mut st = RunState::Planned;
    loop {
        match next_step(&plan, &st) {
            Step::Provision => {
                st = RunState::Provisioned;
            },
            Step::Execute(kind) => {
                executed.push(kind);
                st = after_phase(&plan, kind, true);
            },
            Step::Finish => break,
        }
    }
    assert_eq!(executed, vec![PhaseKind::Run]);
    assert_eq!(st, RunState::Completed);
}

#[test]
fn failed_build_stops_run_and_analyze() {
    let plan = one_plan(true, true);
    let mut executed: Vec<PhaseKind> = vec![];
    let mut st = RunState::Planned;
    loop {
        match next_step(&plan, &st) {
            Step::Provision => {
                st = RunState::Provisioned;
            },
            Step::Execute(kind) => {
                executed.push(kind);
                // The build exits non-zero.
                st = after_phase(&plan, kind, false);
            },
            Step::Finish => break,
        }
    }
    assert_eq!(executed, vec![PhaseKind::Build]);
    assert_eq!(st, RunState::Failed(PhaseKind::Build));
}

#[test]
fn failed_run_stops_analyze() {
    let plan = one_plan(false, true);
    let mut executed: Vec<PhaseKind> = vec![];
    let mut st = RunState::Planned;
    loop {
        match next_step(&plan, &st) {
            Step::Provision => {
                st = RunState::Provisioned;
            },
            Step::Execute(kind) => {
                executed.push(kind);
                st = after_phase(&plan, kind, false);
            },
            Step::Finish => break,
        }
    }
    assert_eq!(executed, vec![PhaseKind::Run]);
    assert_eq!(st, RunState::Failed(PhaseKind::Run));
}

#[test]
fn dry_run_lines_match_executed_commands() {
    let plan = one_plan(true, true);
    let target = local_only_target();
    let lines = dry_run_lines("bench", "local", &plan);
    assert_eq!(lines.len(), 7);
    assert_eq!(lines[0], "(dry-run)");
    assert_eq!(lines[1], format!("[bench | local | {} | build]", plan.name));
    assert_eq!(lines[3], format!("[bench | local | {} | run]", plan.name));
    assert_eq!(lines[5], format!("[bench | local | {} | analyze]", plan.name));
    for (kind, idx) in [(PhaseKind::Build, 2), (PhaseKind::Run, 4), (PhaseKind::Analyze, 6)] {
        let phase = plan_phase(&plan, kind).unwrap();
        match phase_invocation(phase, &target) {
            Invocation::LocalShell { shell } => {
                assert_eq!(lines[idx], format!("> {}", shell));
            },
            Invocation::RemoteShell { .. } => panic!("local target executed remotely"),
        }
    }
}

#[test]
fn dry_run_lines_without_optional_phases() {
    let plan = one_plan(false, false);
    let lines = dry_run_lines("bench", "local", &plan);
    assert_eq!(lines.len(), 3);
    assert_eq!(lines[0], "(dry-run)");
    assert_eq!(lines[1], format!("[bench | local | {} | run]", plan.name));
    assert!(lines[2].starts_with("> cd "));
}

#[test]
fn sweep_failure_aggregation() {
    assert!(!any_plan_failed(&vec![]));
    assert!(!any_plan_failed(&vec![true, true]));
    assert!(any_plan_failed(&vec![true, false, true]));
}
