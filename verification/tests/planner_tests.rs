use wrestler::config::{Config, LookupError, Phase, Phases, Problem, Target};
use wrestler::params::{expand_lists, value_to_string, ParamValue};
use wrestler::planner::{
    build_concrete_phase, plan_problem, plans_have_distinct_names, run_root_for, runs_base_for,
};
use wrestler::subst::{replace_tokens, SubstitutionMap};

fn local_target(root: &str) -> Target {
    Target { root: root.to_string(), ssh: None }
}

fn simple_problem() -> Problem {
    Problem {
        run_name: "{mode}-{n}".to_string(),
        parameters: vec![
            ("n".to_string(), vec![ParamValue::Int(1), ParamValue::Int(2)]),
            ("mode".to_string(), vec![ParamValue::Str("fast".to_string())]),
        ],
        phases: Phases {
            build: Some(Phase {
                program: "make".to_string(),
                args: vec!["-j".to_string(), "{n}".to_string()],
                cwd: None,
                env: None,
            }),
            run: Phase {
                program: "./bench".to_string(),
                args: vec!["--mode".to_string(), "{mode}".to_string()],
                cwd: None,
                env: None,
            },
            analyze: Some(Phase {
                program: "python".to_string(),
                args: vec!["analyze.py".to_string(), "{run_dir}".to_string()],
                cwd: None,
                env: None,
            }),
        },
    }
}

#[test]
fn expander_counts_product_of_list_sizes() {
    let lists = vec![
        vec!["1".to_string(), "2".to_string(), "3".to_string()],
        vec!["x".to_string(), "y".to_string()],
    ];
    let combos = expand_lists(&lists);
    assert_eq!(combos.len(), 6);
}

#[test]
fn expander_empty_list_yields_zero_combinations() {
    let lists = vec![
        vec!["1".to_string(), "2".to_string()],
        vec![],
        vec!["x".to_string()],
    ];
    let combos = expand_lists(&lists);
    assert_eq!(combos.len(), 0);
}

#[test]
fn expander_last_list_varies_fastest() {
    let lists = vec![
        vec!["a".to_string(), "b".to_string()],
        vec!["1".to_string(), "2".to_string()],
    ];
    let combos = expand_lists(&lists);
    assert_eq!(combos[0], vec!["a".to_string(), "1".to_string()]);
    assert_eq!(combos[1], vec!["a".to_string(), "2".to_string()]);
    assert_eq!(combos[2], vec!["b".to_string(), "1".to_string()]);
    assert_eq!(combos[3], vec!["b".to_string(), "2".to_string()]);
}

#[test]
fn expander_of_no_lists_is_one_empty_combination() {
    let lists: Vec<Vec<String>> = vec![];
    let combos = expand_lists(&lists);
    assert_eq!(combos.len(), 1);
    assert!(combos[0].is_empty());
}

#[test]
fn value_canonicalization() {
    assert_eq!(value_to_string(&ParamValue::Int(42)), "42");
    assert_eq!(value_to_string(&ParamValue::Int(0)), "0");
    assert_eq!(value_to_string(&ParamValue::Int(-7)), "-7");
    assert_eq!(value_to_string(&ParamValue::Int(i64::MIN)), "-9223372036854775808");
    assert_eq!(value_to_string(&ParamValue::Int(i64::MAX)), "9223372036854775807");
    assert_eq!(value_to_string(&ParamValue::Str("fast".to_string())), "fast");
    assert_eq!(value_to_string(&ParamValue::Other("2.5".to_string())), "2.5");
}

#[test]
fn substitution_replaces_known_tokens() {
    let mut m = SubstitutionMap::new();
    m.insert("n".to_string(), "4".to_string());
    m.insert("mode".to_string(), "fast".to_string());
    assert_eq!(replace_tokens("run-{mode}-{n}", &m), "run-fast-4");
}

#[test]
fn substitution_leaves_unknown_tokens_unchanged() {
    let mut m = SubstitutionMap::new();
    m.insert("n".to_string(), "4".to_string());
    assert_eq!(replace_tokens("{unknown}-{n}", &m), "{unknown}-4");
    assert_eq!(replace_tokens("no tokens here", &m), "no tokens here");
    assert_eq!(replace_tokens("", &m), "");
    assert_eq!(replace_tokens("dangling {brace", &m), "dangling {brace");
}

#[test]
fn substitution_is_order_independent() {
    let mut m1 = SubstitutionMap::new();
    m1.insert("a".to_string(), "1".to_string());
    m1.insert("b".to_string(), "2".to_string());
    let mut m2 = SubstitutionMap::new();
    m2.insert("b".to_string(), "2".to_string());
    m2.insert("a".to_string(), "1".to_string());
    assert_eq!(replace_tokens("{a}{b}{a}", &m1), replace_tokens("{a}{b}{a}", &m2));
    assert_eq!(replace_tokens("{a}{b}{a}", &m1), "121");
}

#[test]
fn substitution_never_rescans_inserted_text() {
    // A value that itself looks like a token must not be expanded again,
    // whatever order the entries were added in.
    let mut m1 = SubstitutionMap::new();
    m1.insert("a".to_string(), "{b}".to_string());
    m1.insert("b".to_string(), "B".to_string());
    let mut m2 = SubstitutionMap::new();
    m2.insert("b".to_string(), "B".to_string());
    m2.insert("a".to_string(), "{b}".to_string());
    assert_eq!(replace_tokens("{a} {b}", &m1), "{b} B");
    assert_eq!(replace_tokens("{a} {b}", &m2), "{b} B");
}

#[test]
fn substitution_insert_overwrites() {
    let mut m = SubstitutionMap::new();
    m.insert("k".to_string(), "old".to_string());
    m.insert("k".to_string(), "new".to_string());
    assert_eq!(replace_tokens("{k}", &m), "new");
}

#[test]
fn run_root_follows_fixed_layout() {
    let r = run_root_for("/scratch", "diffusion", "cluster-a", "fast-1");
    assert_eq!(r, "/scratch/wrestler_outputs/problems/diffusion/runs/cluster-a/fast-1");
    assert_eq!(
        runs_base_for("/scratch", "diffusion", "cluster-a"),
        "/scratch/wrestler_outputs/problems/diffusion/runs/cluster-a"
    );
}

#[test]
fn run_root_with_path_unfriendly_characters() {
    // No escaping is applied: names pass into the layout verbatim.
    let r = run_root_for("/a b", "p:1", "t/x", "n n");
    assert_eq!(r, "/a b/wrestler_outputs/problems/p:1/runs/t/x/n n");
}

#[test]
fn two_runplans_for_two_by_one_sweep() {
    let problem = simple_problem();
    let target = local_target("/work");
    let plans = plan_problem("bench", &problem, "local", &target);
    assert_eq!(plans.len(), 2);
    assert_eq!(plans[0].name, "fast-1");
    assert_eq!(plans[1].name, "fast-2");
    assert_eq!(
        plans[0].run_root,
        "/work/wrestler_outputs/problems/bench/runs/local/fast-1"
    );
    assert_eq!(
        plans[1].run_root,
        "/work/wrestler_outputs/problems/bench/runs/local/fast-2"
    );
}

#[test]
fn plan_phases_are_fully_resolved() {
    let problem = simple_problem();
    let target = local_target("/work");
    let plans = plan_problem("bench", &problem, "local", &target);
    let p = &plans[0];
    let build = p.build.as_ref().unwrap();
    assert_eq!(build.program, "make");
    assert_eq!(build.args, vec!["-j".to_string(), "1".to_string()]);
    // Build defaults to the project root.
    assert_eq!(build.cwd, "/work");
    // Run defaults to {run_root}/run.
    assert_eq!(p.run.cwd, format!("{}/run", p.run_root));
    assert_eq!(p.run.args, vec!["--mode".to_string(), "fast".to_string()]);
    // Analyze defaults to {run_root}/analysis and sees run_dir.
    let analyze = p.analyze.as_ref().unwrap();
    assert_eq!(analyze.cwd, format!("{}/analysis", p.run_root));
    assert_eq!(analyze.args, vec!["analyze.py".to_string(), p.run_root.clone()]);
}

#[test]
fn plan_cwd_template_is_substituted() {
    let mut problem = simple_problem();
    problem.phases.run.cwd = Some("{project_root}/src".to_string());
    let target = local_target("/work");
    let plans = plan_problem("bench", &problem, "local", &target);
    assert_eq!(plans[0].run.cwd, "/work/src");
}

#[test]
fn plan_env_is_carried_through_unresolved() {
    let mut problem = simple_problem();
    problem.phases.run.env = Some(vec![("OMP_NUM_THREADS".to_string(), "{n}".to_string())]);
    let target = local_target("/work");
    let plans = plan_problem("bench", &problem, "local", &target);
    assert_eq!(
        plans[0].run.env,
        vec![("OMP_NUM_THREADS".to_string(), "{n}".to_string())]
    );
    assert!(plans[0].build.as_ref().unwrap().env.is_empty());
}

#[test]
fn distinct_combinations_distinct_names_detected() {
    let problem = simple_problem();
    let target = local_target("/work");
    let plans = plan_problem("bench", &problem, "local", &target);
    assert!(plans_have_distinct_names(&plans));

    let mut colliding = simple_problem();
    colliding.run_name = "{mode}".to_string();
    let plans = plan_problem("bench", &colliding, "local", &target);
    assert_eq!(plans.len(), 2);
    assert!(!plans_have_distinct_names(&plans));
}

#[test]
fn empty_parameter_list_yields_zero_plans() {
    let mut problem = simple_problem();
    problem.parameters[0].1 = vec![];
    let target = local_target("/work");
    let plans = plan_problem("bench", &problem, "local", &target);
    assert_eq!(plans.len(), 0);
}

#[test]
fn build_concrete_phase_resolves_each_part() {
    let mut m = SubstitutionMap::new();
    m.insert("bin".to_string(), "solver".to_string());
    m.insert("n".to_string(), "8".to_string());
    let phase = Phase {
        program: "./{bin}".to_string(),
        args: vec!["-n".to_string(), "{n}".to_string()],
        cwd: None,
        env: None,
    };
    let c = build_concrete_phase(&phase, &m, "/default");
    assert_eq!(c.program, "./solver");
    assert_eq!(c.args, vec!["-n".to_string(), "8".to_string()]);
    assert_eq!(c.cwd, "/default");
    assert!(c.env.is_empty());
}

#[test]
fn config_lookups_report_unknown_names() {
    let config = Config {
        targets: vec![("local".to_string(), local_target("/work"))],
        problems: vec![("bench".to_string(), simple_problem())],
    };
    assert!(config.get_target("local").is_ok());
    assert!(config.get_problem("bench").is_ok());
    match config.get_target("nowhere") {
        Ok(_) => panic!("unknown target looked up"),
        Err(e) => {
            assert!(matches!(e, LookupError::UnknownTarget));
            assert_eq!(e.message(), "Target not found");
        },
    }
    match config.get_problem("missing") {
        Ok(_) => panic!("unknown problem looked up"),
        Err(e) => {
            assert!(matches!(e, LookupError::UnknownProblem));
            assert_eq!(e.message(), "Problem not found");
        },
    }
}

#[test]
fn cli_commands_carry_their_names() {
    let run = wrestler::cli::Commands::Run {
        problem: "bench".to_string(),
        target: "local".to_string(),
        dry_run: true,
    };
    assert_eq!(run.problem_name(), "bench");
    assert_eq!(run.target_name(), "local");
    let logs = wrestler::cli::Commands::Logs {
        problem: "bench".to_string(),
        target: "local".to_string(),
        run: None,
        phase: None,
    };
    let cli = wrestler::cli::Cli { command: logs };
    assert_eq!(cli.command.problem_name(), "bench");
    assert_eq!(cli.command.target_name(), "local");
}
