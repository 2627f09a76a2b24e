//! Decision-level model of phase execution: shell-string construction,
//! directory provisioning and log-persistence operations in their local
//! and remote forms, the per-plan phase state machine with its
//! abort-on-failure policy, and the dry-run rendering of a plan.
//!
//! The functions here compute every command string, path and decision;
//! performing a returned operation (spawning the process, creating the
//! directory, writing the file) is the caller's side of the boundary.

use vstd::prelude::*;

use crate::config::Target;
use crate::planner::{spec_runs_base, ConcretePhase, RunPlan};

verus! {

/// Arguments joined by single spaces.
pub open spec fn spec_join_args(args: Seq<Seq<char>>) -> Seq<char>
    decreases args.len(),
{
    if args.len() == 0 {
        Seq::empty()
    } else if args.len() == 1 {
        args[0]
    } else {
        args[0] + " "@ + spec_join_args(args.drop_first())
    }
}

/// The invocation string of a phase:
/// `cd {cwd} && {program} {args joined by single spaces}`.
pub open spec fn spec_shell(program: Seq<char>, args: Seq<Seq<char>>, cwd: Seq<char>) -> Seq<
    char,
> {
    "cd "@ + cwd + " && "@ + program + " "@ + spec_join_args(args)
}

/// The invocation string a concrete phase executes.
pub open spec fn spec_phase_shell(phase: ConcretePhase) -> Seq<char> {
    spec_shell(phase.program@, phase.args.deep_view(), phase.cwd@)
}

proof fn lemma_join_snoc(args: Seq<Seq<char>>, i: int)
    requires
        1 <= i < args.len(),
    ensures
        spec_join_args(args.take(i + 1)) == spec_join_args(args.take(i)) + " "@ + args[i],
    decreases i,
{
    if i == 1 {
        assert(args.take(2)[0] == args[0]);
        assert(args.take(2).drop_first() =~= seq![args[1]]);
        assert(spec_join_args(args.take(2).drop_first()) == args[1]);
        assert(args.take(1)[0] == args[0]);
        assert(spec_join_args(args.take(1)) == args[0]);
        assert(spec_join_args(args.take(2)) =~= spec_join_args(args.take(1)) + " "@ + args[1]);
    } else {
        lemma_join_snoc(args.drop_first(), i - 1);
        assert(args.take(i + 1).drop_first() =~= args.drop_first().take(i));
        assert(args.take(i).drop_first() =~= args.drop_first().take(i - 1));
        assert(args.take(i + 1)[0] == args[0]);
        assert(args.take(i)[0] == args[0]);
        assert(args.drop_first()[i - 1] == args[i]);
        assert(args.drop_first().take(i - 1).len() == i - 1);
        assert(spec_join_args(args.take(i + 1)) =~= spec_join_args(args.take(i)) + " "@
            + args[i]);
    }
}

/// Joins argument strings with single spaces.
fn join_args(args: &Vec<String>) -> (r: String)
    ensures
        r@ == spec_join_args(args.deep_view()),
{
    let mut r = String::new();
    let n = args.len();
    let mut i: usize = 0;
    proof {
        if n == 0 {
            assert(args.deep_view().len() == 0);
        }
        assert(args.deep_view().take(0) =~= Seq::<Seq<char>>::empty());
    }
    while i < n
        invariant
            n == args.len(),
            i <= n,
            r@ == spec_join_args(args.deep_view().take(i as int)),
        decreases n - i,
    {
        if i > 0 {
            r.append(" ");
        }
        r.append(args[i].as_str());
        proof {
            let deep = args.deep_view();
            assert(deep[i as int] == args@[i as int]@);
            if i == 0 {
                assert(deep.take(1) =~= seq![deep[0]]);
                assert(spec_join_args(deep.take(1)) == deep[0]);
                assert(r@ =~= deep[0]);
            } else {
                lemma_join_snoc(deep, i as int);
            }
        }
        i += 1;
    }
    proof {
        assert(args.deep_view().take(n as int) =~= args.deep_view());
    }
    r
}

/// Builds the invocation string `cd {cwd} && {program} {args}` that a
/// phase executes, identically for local and remote targets.
pub fn build_shell_string(program: &str, args: &Vec<String>, cwd: &str) -> (r: String)
    ensures
        r@ == spec_shell(program@, args.deep_view(), cwd@),
{
    let mut r = String::from_str("cd ");
    r.append(cwd);
    r.append(" && ");
    r.append(program);
    r.append(" ");
    let joined = join_args(args);
    r.append(joined.as_str());
    r
}

/// True when operations for this target go through the remote shell.
pub fn should_use_ssh(target: &Target) -> (r: bool)
    ensures
        r == (target.ssh is Some),
{
    target.ssh.is_some()
}

/// A directory-provisioning operation: create the paths locally, or run
/// one `mkdir -p` command through the remote shell.
pub enum DirOp {
    LocalDirs { paths: Vec<String> },
    RemoteCommand { endpoint: String, command: String },
}

/// A phase invocation: run the shell string through the local shell, or
/// hand the same string to the remote shell client.
pub enum Invocation {
    LocalShell { shell: String },
    RemoteShell { endpoint: String, command: String },
}

/// A log-persistence destination: a local file written directly, or a
/// remote file fed through the remote shell's input channel.
pub enum LogSink {
    LocalFile { path: String },
    RemotePipe { endpoint: String, command: String },
}

/// The `mkdir -p` command line for the given paths.
pub open spec fn spec_mkdir_command(paths: Seq<Seq<char>>) -> Seq<char> {
    "mkdir -p "@ + spec_join_args(paths)
}

/// The operation provisions exactly `paths` on `target`: locally when the
/// target has no remote endpoint, and through one remote `mkdir -p`
/// command otherwise.
pub open spec fn dir_op_for(op: DirOp, paths: Seq<Seq<char>>, target: Target) -> bool {
    match op {
        DirOp::LocalDirs { paths: p } => target.ssh is None && p.deep_view() == paths,
        DirOp::RemoteCommand { endpoint, command } => {
            &&& target.ssh matches Some(e) && endpoint@ == e@
            &&& command@ == spec_mkdir_command(paths)
        },
    }
}

/// The invocation runs `shell` on `target`: through the local shell when
/// the target has no remote endpoint, and as the single command argument
/// of the remote shell client otherwise.
pub open spec fn invocation_for(inv: Invocation, shell: Seq<char>, target: Target) -> bool {
    match inv {
        Invocation::LocalShell { shell: s } => target.ssh is None && s@ == shell,
        Invocation::RemoteShell { endpoint, command } => {
            &&& target.ssh matches Some(e) && endpoint@ == e@
            &&& command@ == shell
        },
    }
}

/// The sink persists bytes to `path` on `target`: a direct overwriting
/// file write locally, a `cat > {path}` command fed over the remote
/// shell's input channel otherwise.
pub open spec fn log_sink_for(sink: LogSink, path: Seq<char>, target: Target) -> bool {
    match sink {
        LogSink::LocalFile { path: p } => target.ssh is None && p@ == path,
        LogSink::RemotePipe { endpoint, command } => {
            &&& target.ssh matches Some(e) && endpoint@ == e@
            &&& command@ == "cat > "@ + path
        },
    }
}

/// The three directories provisioned under a run root before any phase
/// executes.
pub open spec fn spec_run_dirs(run_root: Seq<char>) -> Seq<Seq<char>> {
    seq![run_root + "/logs"@, run_root + "/run"@, run_root + "/analysis"@]
}

fn append_suffix(base: &str, suffix: &str) -> (r: String)
    ensures
        r@ == base@ + suffix@,
{
    let mut r = String::from_str(base);
    r.append(suffix);
    r
}

/// The operation that provisions `logs/`, `run/` and `analysis/` under
/// the plan's run root on the given target.
pub fn create_directories_op(plan: &RunPlan, target: &Target) -> (r: DirOp)
    ensures
        dir_op_for(r, spec_run_dirs(plan.run_root@), *target),
{
    let logs_dir = append_suffix(plan.run_root.as_str(), "/logs");
    let run_dir = append_suffix(plan.run_root.as_str(), "/run");
    let analysis_dir = append_suffix(plan.run_root.as_str(), "/analysis");
    let mut paths: Vec<String> = Vec::new();
    paths.push(logs_dir);
    paths.push(run_dir);
    paths.push(analysis_dir);
    proof {
        assert(paths.deep_view() =~= spec_run_dirs(plan.run_root@));
    }
    match &target.ssh {
        Some(e) => {
            let mut command = String::from_str("mkdir -p ");
            let joined = join_args(&paths);
            command.append(joined.as_str());
            DirOp::RemoteCommand { endpoint: e.clone(), command }
        },
        None => DirOp::LocalDirs { paths },
    }
}

/// The operation that ensures one directory exists on the given target.
pub fn ensure_directory_op(path: &str, target: &Target) -> (r: DirOp)
    ensures
        dir_op_for(r, seq![path@], *target),
{
    match &target.ssh {
        Some(e) => {
            let mut command = String::from_str("mkdir -p ");
            command.append(path);
            proof {
                assert(seq![path@].drop_first() =~= Seq::<Seq<char>>::empty());
                assert(spec_join_args(seq![path@]) == path@);
            }
            DirOp::RemoteCommand { endpoint: e.clone(), command }
        },
        None => {
            let mut paths: Vec<String> = Vec::new();
            paths.push(String::from_str(path));
            proof {
                assert(paths.deep_view() =~= seq![path@]);
            }
            DirOp::LocalDirs { paths }
        },
    }
}

/// The invocation that executes one concrete phase on the given target:
/// the same shell string locally and remotely.
pub fn phase_invocation(phase: &ConcretePhase, target: &Target) -> (r: Invocation)
    ensures
        invocation_for(r, spec_phase_shell(*phase), *target),
{
    let shell = build_shell_string(phase.program.as_str(), &phase.args, phase.cwd.as_str());
    match &target.ssh {
        Some(e) => Invocation::RemoteShell { endpoint: e.clone(), command: shell },
        None => Invocation::LocalShell { shell },
    }
}

/// Path of the captured standard-output log of a phase.
pub fn stdout_log_path(run_root: &str, phase_name: &str) -> (r: String)
    ensures
        r@ == run_root@ + "/logs/"@ + phase_name@ + ".stdout"@,
{
    let mut r = String::from_str(run_root);
    r.append("/logs/");
    r.append(phase_name);
    r.append(".stdout");
    r
}

/// Path of the captured standard-error log of a phase.
pub fn stderr_log_path(run_root: &str, phase_name: &str) -> (r: String)
    ensures
        r@ == run_root@ + "/logs/"@ + phase_name@ + ".stderr"@,
{
    let mut r = String::from_str(run_root);
    r.append("/logs/");
    r.append(phase_name);
    r.append(".stderr");
    r
}

/// The sink that persists captured bytes at `path` on the given target.
pub fn log_sink(path: &str, target: &Target) -> (r: LogSink)
    ensures
        log_sink_for(r, path@, *target),
{
    match &target.ssh {
        Some(e) => {
            let mut command = String::from_str("cat > ");
            command.append(path);
            LogSink::RemotePipe { endpoint: e.clone(), command }
        },
        None => LogSink::LocalFile { path: String::from_str(path) },
    }
}

/// The path of the stored standard-output log that the log-viewing
/// command reads: `{base}/{run}/logs/{phase}.stdout` under the runs base.
pub fn stored_log_path(base: &str, run: &str, phase: &str) -> (r: String)
    ensures
        r@ == base@ + "/"@ + run@ + "/logs/"@ + phase@ + ".stdout"@,
{
    let mut r = String::from_str(base);
    r.append("/");
    r.append(run);
    r.append("/logs/");
    r.append(phase);
    r.append(".stdout");
    r
}

/// The runs base directory listed by the log-viewing command.
pub fn runs_base_path(root: &str, problem: &str, target: &str) -> (r: String)
    ensures
        r@ == spec_runs_base(root@, problem@, target@),
{
    crate::planner::runs_base_for(root, problem, target)
}

/// One of the three phases of a plan, in execution order.
#[derive(Clone, Copy, PartialEq, Eq, Structural, Debug)]
pub enum PhaseKind {
    Build,
    Run,
    Analyze,
}

/// The state of one plan's execution.
#[derive(Clone, Copy, PartialEq, Eq, Structural, Debug)]
pub enum RunState {
    /// Constructed, nothing performed yet.
    Planned,
    /// The run root's directories exist.
    Provisioned,
    /// The build phase succeeded.
    BuildDone,
    /// The run phase succeeded and an analyze phase is declared.
    RunDone,
    /// Every declared phase succeeded.
    Completed,
    /// The named phase failed; no later phase of this plan runs.
    Failed(PhaseKind),
}

/// What the orchestrator does next for one plan.
#[derive(Clone, Copy, PartialEq, Eq, Structural, Debug)]
pub enum Step {
    /// Provision the run root's directories.
    Provision,
    /// Execute the given phase.
    Execute(PhaseKind),
    /// Nothing remains: the plan is completed or failed.
    Finish,
}

/// The next step for a plan in a given state: provisioning first, then
/// the declared phases in build, run, analyze order, and nothing once the
/// plan is completed or has failed.
pub open spec fn spec_next_step(plan: RunPlan, st: RunState) -> Step {
    match st {
        RunState::Planned => Step::Provision,
        RunState::Provisioned => if plan.build is Some {
            Step::Execute(PhaseKind::Build)
        } else {
            Step::Execute(PhaseKind::Run)
        },
        RunState::BuildDone => Step::Execute(PhaseKind::Run),
        RunState::RunDone => Step::Execute(PhaseKind::Analyze),
        RunState::Completed => Step::Finish,
        RunState::Failed(_) => Step::Finish,
    }
}

/// The state after a phase reports success or failure: failure moves the
/// plan to `Failed` at that phase, success advances toward `Completed`,
/// skipping undeclared phases.
pub open spec fn spec_after_phase(plan: RunPlan, phase: PhaseKind, success: bool) -> RunState {
    if !success {
        RunState::Failed(phase)
    } else {
        match phase {
            PhaseKind::Build => RunState::BuildDone,
            PhaseKind::Run => if plan.analyze is Some {
                RunState::RunDone
            } else {
                RunState::Completed
            },
            PhaseKind::Analyze => RunState::Completed,
        }
    }
}

/// The next step for a plan in a given state.
pub fn next_step(plan: &RunPlan, st: &RunState) -> (r: Step)
    ensures
        r == spec_next_step(*plan, *st),
{
    match st {
        RunState::Planned => Step::Provision,
        RunState::Provisioned => if plan.build.is_some() {
            Step::Execute(PhaseKind::Build)
        } else {
            Step::Execute(PhaseKind::Run)
        },
        RunState::BuildDone => Step::Execute(PhaseKind::Run),
        RunState::RunDone => Step::Execute(PhaseKind::Analyze),
        RunState::Completed => Step::Finish,
        RunState::Failed(_) => Step::Finish,
    }
}

/// The state a plan is in after one phase reports its outcome.
pub fn after_phase(plan: &RunPlan, phase: PhaseKind, success: bool) -> (r: RunState)
    ensures
        r == spec_after_phase(*plan, phase, success),
{
    if !success {
        RunState::Failed(phase)
    } else {
        match phase {
            PhaseKind::Build => RunState::BuildDone,
            PhaseKind::Run => if plan.analyze.is_some() {
                RunState::RunDone
            } else {
                RunState::Completed
            },
            PhaseKind::Analyze => RunState::Completed,
        }
    }
}

/// The phase of a plan of the given kind, if declared.
pub fn plan_phase<'a>(plan: &'a RunPlan, kind: PhaseKind) -> (r: Option<&'a ConcretePhase>)
    ensures
        match kind {
            PhaseKind::Build => match (r, plan.build) {
                (Some(c), Some(b)) => *c == b,
                (None, None) => true,
                _ => false,
            },
            PhaseKind::Run => r matches Some(c) && *c == plan.run,
            PhaseKind::Analyze => match (r, plan.analyze) {
                (Some(c), Some(a)) => *c == a,
                (None, None) => true,
                _ => false,
            },
        },
{
    match kind {
        PhaseKind::Build => match &plan.build {
            Some(b) => Some(b),
            None => None,
        },
        PhaseKind::Run => Some(&plan.run),
        PhaseKind::Analyze => match &plan.analyze {
            Some(a) => Some(a),
            None => None,
        },
    }
}

/// The name of a phase as it appears in headers, log file names and
/// reports.
pub fn phase_kind_name(kind: PhaseKind) -> (r: &'static str)
    ensures
        kind is Build ==> r@ == "build"@,
        kind is Run ==> r@ == "run"@,
        kind is Analyze ==> r@ == "analyze"@,
{
    match kind {
        PhaseKind::Build => "build",
        PhaseKind::Run => "run",
        PhaseKind::Analyze => "analyze",
    }
}

/// A failed phase halts its plan: after any phase of a plan fails, the
/// plan's state names that phase, and from that state no provisioning and
/// no further phase is ever stepped — in particular, after a failed build
/// neither run nor analyze is invoked.
pub proof fn lemma_failure_stops_plan(plan: RunPlan, phase: PhaseKind)
    ensures
        spec_after_phase(plan, phase, false) == RunState::Failed(phase),
        spec_next_step(plan, spec_after_phase(plan, phase, false)) == Step::Finish,
        forall|p: PhaseKind| spec_next_step(plan, RunState::Failed(p)) == Step::Finish,
{
}

/// Phases execute in build, run, analyze order, skipping undeclared
/// phases: from provisioning on, each successful outcome leads to the
/// next declared phase and finally to `Completed`.
pub proof fn lemma_phase_order(plan: RunPlan)
    ensures
        spec_next_step(plan, RunState::Planned) == Step::Provision,
        plan.build is Some ==> spec_next_step(plan, RunState::Provisioned) == Step::Execute(
            PhaseKind::Build,
        ),
        plan.build is None ==> spec_next_step(plan, RunState::Provisioned) == Step::Execute(
            PhaseKind::Run,
        ),
        spec_after_phase(plan, PhaseKind::Build, true) == RunState::BuildDone,
        spec_next_step(plan, RunState::BuildDone) == Step::Execute(PhaseKind::Run),
        plan.analyze is Some ==> spec_after_phase(plan, PhaseKind::Run, true)
            == RunState::RunDone,
        plan.analyze is None ==> spec_after_phase(plan, PhaseKind::Run, true)
            == RunState::Completed,
        spec_next_step(plan, RunState::RunDone) == Step::Execute(PhaseKind::Analyze),
        spec_after_phase(plan, PhaseKind::Analyze, true) == RunState::Completed,
        spec_next_step(plan, RunState::Completed) == Step::Finish,
{
}

/// For a target with no remote endpoint, every operation the engine
/// yields — directory provisioning, phase execution and log persistence —
/// is local: no remote-shell invocation occurs anywhere.
pub proof fn lemma_local_target_stays_local(
    target: Target,
    dir_op: DirOp,
    paths: Seq<Seq<char>>,
    inv: Invocation,
    shell: Seq<char>,
    sink: LogSink,
    path: Seq<char>,
)
    requires
        target.ssh is None,
        dir_op_for(dir_op, paths, target),
        invocation_for(inv, shell, target),
        log_sink_for(sink, path, target),
    ensures
        dir_op is LocalDirs,
        inv is LocalShell,
        sink is LocalFile,
{
}


/// One header line of a plan or phase report:
/// `[{problem} | {target} | {run} | {phase}]` without the phase part when
/// `phase` is absent.
pub open spec fn spec_phase_header(
    problem: Seq<char>,
    target: Seq<char>,
    run: Seq<char>,
    phase: Seq<char>,
) -> Seq<char> {
    "["@ + problem + " | "@ + target + " | "@ + run + " | "@ + phase + "]"@
}

/// The command line a dry run prints for one phase: `> ` followed by
/// exactly the invocation string a real run would execute.
pub open spec fn spec_dry_cmd(phase: ConcretePhase) -> Seq<char> {
    "> "@ + spec_phase_shell(phase)
}

/// Every line a dry run prints for one plan: the dry-run marker, then a
/// header and the command line of each declared phase, in execution
/// order.
pub open spec fn spec_dry_lines(problem: Seq<char>, target: Seq<char>, plan: RunPlan) -> Seq<
    Seq<char>,
> {
    seq!["(dry-run)"@] + (match plan.build {
        Some(b) => seq![
            spec_phase_header(problem, target, plan.name@, "build"@),
            spec_dry_cmd(b),
        ],
        None => Seq::<Seq<char>>::empty(),
    }) + seq![spec_phase_header(problem, target, plan.name@, "run"@), spec_dry_cmd(plan.run)] + (
    match plan.analyze {
        Some(a) => seq![
            spec_phase_header(problem, target, plan.name@, "analyze"@),
            spec_dry_cmd(a),
        ],
        None => Seq::<Seq<char>>::empty(),
    })
}

fn phase_header(problem: &str, target: &str, run: &str, phase: &str) -> (r: String)
    ensures
        r@ == spec_phase_header(problem@, target@, run@, phase@),
{
    let mut r = String::from_str("[");
    r.append(problem);
    r.append(" | ");
    r.append(target);
    r.append(" | ");
    r.append(run);
    r.append(" | ");
    r.append(phase);
    r.append("]");
    r
}

fn dry_cmd(phase: &ConcretePhase) -> (r: String)
    ensures
        r@ == spec_dry_cmd(*phase),
{
    let shell = build_shell_string(phase.program.as_str(), &phase.args, phase.cwd.as_str());
    let mut r = String::from_str("> ");
    r.append(shell.as_str());
    r
}

/// The lines a dry run prints for one plan, in order, touching neither
/// the filesystem nor any process: the fully resolved command line of
/// every declared phase under its header.
pub fn dry_run_lines(problem: &str, target: &str, plan: &RunPlan) -> (r: Vec<String>)
    ensures
        r.deep_view() == spec_dry_lines(problem@, target@, *plan),
{
    let mut r: Vec<String> = Vec::new();
    r.push(String::from_str("(dry-run)"));
    if let Some(b) = &plan.build {
        r.push(phase_header(problem, target, plan.name.as_str(), "build"));
        r.push(dry_cmd(b));
    }
    r.push(phase_header(problem, target, plan.name.as_str(), "run"));
    r.push(dry_cmd(&plan.run));
    if let Some(a) = &plan.analyze {
        r.push(phase_header(problem, target, plan.name.as_str(), "analyze"));
        r.push(dry_cmd(a));
    }
    proof {
        assert(r.deep_view() =~= spec_dry_lines(problem@, target@, *plan));
    }
    r
}

/// The command string an invocation runs: the local shell string, or the
/// single command argument handed to the remote shell client.
pub open spec fn invocation_command(inv: Invocation) -> Seq<char> {
    match inv {
        Invocation::LocalShell { shell } => shell@,
        Invocation::RemoteShell { endpoint: _, command } => command@,
    }
}

/// Dry-run output matches real execution: for every declared phase, the
/// command text printed by a dry run is exactly the command string that a
/// real run of the same plan hands to the local or remote shell — and a
/// dry run yields only lines of text, performing no operation.
pub proof fn lemma_dry_run_matches_execution(
    problem: Seq<char>,
    target_name: Seq<char>,
    plan: RunPlan,
    target: Target,
    inv_build: Invocation,
    inv_run: Invocation,
    inv_analyze: Invocation,
)
    requires
        plan.build matches Some(b) ==> invocation_for(inv_build, spec_phase_shell(b), target),
        invocation_for(inv_run, spec_phase_shell(plan.run), target),
        plan.analyze matches Some(a) ==> invocation_for(
            inv_analyze,
            spec_phase_shell(a),
            target,
        ),
    ensures
        ({
            let lines = spec_dry_lines(problem, target_name, plan);
            let run_cmd_at = if plan.build is Some {
                4int
            } else {
                2int
            };
            &&& lines[run_cmd_at] == "> "@ + invocation_command(inv_run)
            &&& plan.build is Some ==> lines[2] == "> "@ + invocation_command(inv_build)
            &&& plan.analyze is Some ==> lines[run_cmd_at + 2] == "> "@ + invocation_command(
                inv_analyze,
            )
        }),
{
    let lines = spec_dry_lines(problem, target_name, plan);
    match plan.build {
        Some(b) => {
            assert(lines[2] == spec_dry_cmd(b));
            assert(lines[4] == spec_dry_cmd(plan.run));
            if plan.analyze is Some {
                assert(lines[6] == spec_dry_cmd(plan.analyze->0));
            }
        },
        None => {
            assert(lines[2] == spec_dry_cmd(plan.run));
            if plan.analyze is Some {
                assert(lines[4] == spec_dry_cmd(plan.analyze->0));
            }
        },
    }
}

/// Whether any plan of a sweep failed: the overall run reports failure
/// exactly when at least one plan's outcome is a failure.
pub fn any_plan_failed(outcomes: &Vec<bool>) -> (r: bool)
    ensures
        r == exists|i: int| 0 <= i < outcomes@.len() && !outcomes@[i],
{
    let n = outcomes.len();
    let mut i: usize = 0;
    while i < n
        invariant
            n == outcomes.len(),
            i <= n,
            forall|j: int| 0 <= j < i ==> outcomes@[j],
        decreases n - i,
    {
        if !outcomes[i] {
            return true;
        }
        i += 1;
    }
    false
}

} // verus!
