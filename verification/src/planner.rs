//! Run plan construction: for each parameter combination, a substitution
//! map is built, the run name and the deterministic run-root path are
//! derived, and every declared phase template is materialized into a
//! concrete phase.

use vstd::prelude::*;

use crate::config::{Phase, Problem, Target};
use crate::params::{
    expand_lists, spec_canonical, spec_product, value_to_string, ParamValue,
};
use crate::subst::{replace_tokens, spec_subst, SubstitutionMap};

verus! {

/// A fully resolved phase: program, arguments, working directory and
/// environment, with no further substitution to perform.
pub struct ConcretePhase {
    pub program: String,
    pub args: Vec<String>,
    pub cwd: String,
    pub env: Vec<(String, String)>,
}

/// One independent execution unit for one point of the parameter sweep.
pub struct RunPlan {
    pub name: String,
    pub run_root: String,
    pub build: Option<ConcretePhase>,
    pub run: ConcretePhase,
    pub analyze: Option<ConcretePhase>,
}

/// The fixed run-root layout:
/// `{root}/wrestler_outputs/problems/{problem}/runs/{target}` is the base
/// under which every run of the problem on the target lives.
pub open spec fn spec_runs_base(root: Seq<char>, problem: Seq<char>, target: Seq<char>) -> Seq<
    char,
> {
    root + "/wrestler_outputs/problems/"@ + problem + "/runs/"@ + target
}

/// The deterministic run root: the runs base followed by the resolved run
/// name.
pub open spec fn spec_run_root(
    root: Seq<char>,
    problem: Seq<char>,
    target: Seq<char>,
    run_name: Seq<char>,
) -> Seq<char> {
    spec_runs_base(root, problem, target) + "/"@ + run_name
}

/// The directory under a target's root where the runs of a problem on a
/// target are kept.
pub fn runs_base_for(root: &str, problem: &str, target: &str) -> (r: String)
    ensures
        r@ == spec_runs_base(root@, problem@, target@),
{
    let mut r = String::from_str(root);
    r.append("/wrestler_outputs/problems/");
    r.append(problem);
    r.append("/runs/");
    r.append(target);
    r
}

/// The run root is a pure function of the target root, the problem name,
/// the target name and the resolved run name, following the fixed layout.
pub fn run_root_for(root: &str, problem: &str, target: &str, run_name: &str) -> (r: String)
    ensures
        r@ == spec_run_root(root@, problem@, target@, run_name@),
{
    let mut r = runs_base_for(root, problem, target);
    r.append("/");
    r.append(run_name);
    r
}

/// `c` is `t` materialized under the mapping `m`, with `default_cwd` as
/// the working directory when the template names none: program, every
/// argument and the declared working directory are each independently
/// resolved, and the environment is carried through unresolved.
pub open spec fn phase_materialized(
    c: ConcretePhase,
    t: Phase,
    m: Map<Seq<char>, Seq<char>>,
    default_cwd: Seq<char>,
) -> bool {
    &&& c.program@ == spec_subst(t.program@, m)
    &&& c.args@.len() == t.args@.len()
    &&& forall|i: int|
        0 <= i < t.args@.len() ==> c.args.deep_view()[i] == spec_subst(t.args.deep_view()[i], m)
    &&& c.cwd@ == match t.cwd {
        Some(cw) => spec_subst(cw@, m),
        None => default_cwd,
    }
    &&& c.env.deep_view() == match t.env {
        Some(e) => e.deep_view(),
        None => Seq::<(Seq<char>, Seq<char>)>::empty(),
    }
}

/// Materializes one phase template under the substitution map, using
/// `default_cwd` when the template declares no working directory.
pub fn build_concrete_phase(phase: &Phase, substitutions: &SubstitutionMap, default_cwd: &str) -> (r:
    ConcretePhase)
    ensures
        phase_materialized(r, *phase, substitutions.as_map(), default_cwd@),
{
    let program = replace_tokens(phase.program.as_str(), substitutions);
    let mut args: Vec<String> = Vec::new();
    let n = phase.args.len();
    let mut i: usize = 0;
    while i < n
        invariant
            n == phase.args.len(),
            i <= n,
            args.len() == i,
            forall|j: int|
                0 <= j < i ==> args.deep_view()[j] == spec_subst(
                    phase.args.deep_view()[j],
                    substitutions.as_map(),
                ),
        decreases n - i,
    {
        let resolved = replace_tokens(phase.args[i].as_str(), substitutions);
        let ghost pre = args.deep_view();
        args.push(resolved);
        proof {
            assert(args.deep_view() =~= pre.push(resolved@));
            assert(phase.args.deep_view()[i as int] == phase.args@[i as int]@);
        }
        i += 1;
    }
    let cwd = match &phase.cwd {
        Some(c) => replace_tokens(c.as_str(), substitutions),
        None => String::from_str(default_cwd),
    };
    let env = match &phase.env {
        Some(e) => clone_env(e),
        None => Vec::new(),
    };
    proof {
        if phase.env is None {
            assert(env.deep_view() =~= Seq::<(Seq<char>, Seq<char>)>::empty());
        }
    }
    ConcretePhase { program, args, cwd, env }
}

/// Clone of an environment mapping, entry for entry.
fn clone_env(e: &Vec<(String, String)>) -> (r: Vec<(String, String)>)
    ensures
        r.deep_view() == e.deep_view(),
{
    let mut r: Vec<(String, String)> = Vec::new();
    let n = e.len();
    let mut i: usize = 0;
    while i < n
        invariant
            n == e.len(),
            i <= n,
            r.len() == i,
            forall|j: int| 0 <= j < i ==> r.deep_view()[j] == e.deep_view()[j],
        decreases n - i,
    {
        let (k, v) = (&e[i].0, &e[i].1);
        r.push((k.clone(), v.clone()));
        i += 1;
    }
    proof {
        assert(r.deep_view() =~= e.deep_view());
    }
    r
}

/// The parameter names of a problem, in declaration order.
pub open spec fn spec_keys(params: Seq<(String, Vec<ParamValue>)>) -> Seq<Seq<char>> {
    params.map(|i: int, p: (String, Vec<ParamValue>)| p.0@)
}

/// The canonical text of every declared value list, in declaration order.
pub open spec fn spec_canon_lists(params: Seq<(String, Vec<ParamValue>)>) -> Seq<Seq<Seq<char>>> {
    params.map(|i: int, p: (String, Vec<ParamValue>)| p.1@.map(|j: int, v: ParamValue| spec_canonical(v)))
}

/// The mapping that binds the first `j` parameter names to the matching
/// values of one combination, in declaration order.
pub open spec fn spec_pairs_map(keys: Seq<Seq<char>>, combo: Seq<Seq<char>>, j: int) -> Map<
    Seq<char>,
    Seq<char>,
>
    decreases j,
{
    if j <= 0 {
        Map::empty()
    } else {
        spec_pairs_map(keys, combo, j - 1).insert(keys[j - 1], combo[j - 1])
    }
}

/// The substitution map a combination starts from: its parameter values
/// plus `project_root`.
pub open spec fn spec_base_map(
    keys: Seq<Seq<char>>,
    combo: Seq<Seq<char>>,
    root: Seq<char>,
) -> Map<Seq<char>, Seq<char>> {
    spec_pairs_map(keys, combo, keys.len() as int).insert("project_root"@, root)
}

/// The plan derived for one parameter combination: name, run root and
/// every declared phase follow from the combination alone.
pub open spec fn plan_matches(
    plan: RunPlan,
    problem_name: Seq<char>,
    problem: Problem,
    target_name: Seq<char>,
    root: Seq<char>,
    combo: Seq<Seq<char>>,
) -> bool {
    let keys = spec_keys(problem.parameters@);
    let base = spec_base_map(keys, combo, root);
    let name = spec_subst(problem.run_name@, base);
    let rroot = spec_run_root(root, problem_name, target_name, name);
    let m = base.insert("run_dir"@, rroot);
    &&& plan.name@ == name
    &&& plan.run_root@ == rroot
    &&& match (plan.build, problem.phases.build) {
        (Some(c), Some(t)) => phase_materialized(c, t, m, root),
        (None, None) => true,
        _ => false,
    }
    &&& phase_materialized(plan.run, problem.phases.run, m, rroot + "/run"@)
    &&& match (plan.analyze, problem.phases.analyze) {
        (Some(c), Some(t)) => phase_materialized(c, t, m, rroot + "/analysis"@),
        (None, None) => true,
        _ => false,
    }
}

/// Expands the problem's parameter sweep and builds one fully resolved,
/// self-contained plan per combination, in sweep order.
pub fn plan_problem(
    problem_name: &str,
    problem: &Problem,
    target_name: &str,
    target: &Target,
) -> (r: Vec<RunPlan>)
    ensures
        r@.len() == spec_product(spec_canon_lists(problem.parameters@)).len(),
        forall|c: int|
            0 <= c < r@.len() ==> plan_matches(
                #[trigger] r@[c],
                problem_name@,
                *problem,
                target_name@,
                target.root@,
                spec_product(spec_canon_lists(problem.parameters@))[c],
            ),
{
    let ghost params = problem.parameters@;
    let pn = problem.parameters.len();
    let mut keys: Vec<String> = Vec::new();
    let mut lists: Vec<Vec<String>> = Vec::new();
    let mut pi: usize = 0;
    while pi < pn
        invariant
            pn == problem.parameters.len(),
            params == problem.parameters@,
            pi <= pn,
            keys.len() == pi,
            lists.len() == pi,
            forall|j: int| 0 <= j < pi ==> keys.deep_view()[j] == spec_keys(params)[j],
            forall|j: int| 0 <= j < pi ==> lists.deep_view()[j] == spec_canon_lists(params)[j],
        decreases pn - pi,
    {
        keys.push(problem.parameters[pi].0.clone());
        let vals = &problem.parameters[pi].1;
        let mut canon: Vec<String> = Vec::new();
        let vn = vals.len();
        let mut vi: usize = 0;
        while vi < vn
            invariant
                vn == vals.len(),
                vi <= vn,
                canon.len() == vi,
                forall|j: int|
                    0 <= j < vi ==> canon.deep_view()[j] == spec_canonical(vals@[j]),
            decreases vn - vi,
        {
            let text = value_to_string(&vals[vi]);
            let ghost pre = canon.deep_view();
            canon.push(text);
            proof {
                assert(canon.deep_view() =~= pre.push(text@));
            }
            vi += 1;
        }
        proof {
            assert(canon.deep_view() =~= vals@.map(|j: int, v: ParamValue| spec_canonical(v)));
        }
        lists.push(canon);
        pi += 1;
    }
    proof {
        assert(keys.deep_view() =~= spec_keys(params));
        assert(lists.deep_view() =~= spec_canon_lists(params));
    }
    let combos = expand_lists(&lists);
    let ghost spec_combos = spec_product(spec_canon_lists(params));
    let mut plans: Vec<RunPlan> = Vec::new();
    let cn = combos.len();
    let mut ci: usize = 0;
    while ci < cn
        invariant
            cn == combos.len(),
            params == problem.parameters@,
            combos.deep_view() == spec_combos,
            spec_combos == spec_product(spec_canon_lists(params)),
            keys.deep_view() == spec_keys(params),
            keys.len() == problem.parameters.len(),
            ci <= cn,
            plans.len() == ci,
            forall|c: int|
                0 <= c < ci ==> plan_matches(
                    #[trigger] plans@[c],
                    problem_name@,
                    *problem,
                    target_name@,
                    target.root@,
                    spec_combos[c],
                ),
        decreases cn - ci,
    {
        let combo = &combos[ci];
        proof {
            assert(combo.deep_view() == spec_combos[ci as int]);
            crate::params::lemma_product_combo_len(spec_canon_lists(params), ci as int);
            assert(spec_canon_lists(params).len() == params.len());
        }
        let plan = build_plan(problem_name, problem, target_name, target, &keys, combo);
        plans.push(plan);
        ci += 1;
    }
    plans
}

/// True when every plan of the sweep has its own run name, so no two
/// plans collide on a run root. A template that ignores a varying
/// parameter makes this false.
pub fn plans_have_distinct_names(plans: &Vec<RunPlan>) -> (r: bool)
    ensures
        r == (forall|i: int, j: int|
            0 <= i < j < plans@.len() ==> (#[trigger] plans@[i]).name@ != (
            #[trigger] plans@[j]).name@),
{
    let n = plans.len();
    let mut i: usize = 0;
    while i < n
        invariant
            n == plans.len(),
            i <= n,
            forall|a: int, b: int|
                0 <= a < b < plans@.len() && a < i ==> (#[trigger] plans@[a]).name@ != (
                #[trigger] plans@[b]).name@,
        decreases n - i,
    {
        let mut j = i + 1;
        while j < n
            invariant
                n == plans.len(),
                i < j,
                j <= n,
                i < n,
                forall|b: int|
                    i < b < j ==> (#[trigger] plans@[b]).name@ != plans@[i as int].name@,
            decreases n - j,
        {
            if crate::text::str_eq(plans[i].name.as_str(), plans[j].name.as_str()) {
                return false;
            }
            j += 1;
        }
        i += 1;
    }
    true
}

/// Builds the one plan of a single parameter combination.
fn build_plan(
    problem_name: &str,
    problem: &Problem,
    target_name: &str,
    target: &Target,
    keys: &Vec<String>,
    combo: &Vec<String>,
) -> (r: RunPlan)
    requires
        keys.len() == combo.len(),
        keys.deep_view() == spec_keys(problem.parameters@),
    ensures
        plan_matches(
            r,
            problem_name@,
            *problem,
            target_name@,
            target.root@,
            combo.deep_view(),
        ),
{
    let ghost ckeys = keys.deep_view();
    let ghost cvals = combo.deep_view();
    let mut subs = SubstitutionMap::new();
    let kn = keys.len();
    let mut ki: usize = 0;
    while ki < kn
        invariant
            kn == keys.len(),
            kn == combo.len(),
            ckeys == keys.deep_view(),
            cvals == combo.deep_view(),
            ki <= kn,
            subs.as_map() == spec_pairs_map(ckeys, cvals, ki as int),
        decreases kn - ki,
    {
        subs.insert(keys[ki].clone(), combo[ki].clone());
        ki += 1;
    }
    subs.insert(String::from_str("project_root"), target.root.clone());
    proof {
        assert(subs.as_map() == spec_base_map(ckeys, cvals, target.root@));
    }
    let run_name = replace_tokens(problem.run_name.as_str(), &subs);
    let run_root = run_root_for(
        target.root.as_str(),
        problem_name,
        target_name,
        run_name.as_str(),
    );
    subs.insert(String::from_str("run_dir"), run_root.clone());
    let mut default_run_cwd = run_root.clone();
    default_run_cwd.append("/run");
    let build = match &problem.phases.build {
        Some(b) => Some(build_concrete_phase(b, &subs, target.root.as_str())),
        None => None,
    };
    let run = build_concrete_phase(&problem.phases.run, &subs, default_run_cwd.as_str());
    let analyze = match &problem.phases.analyze {
        Some(a) => {
            let mut analysis_dir = run_root.clone();
            analysis_dir.append("/analysis");
            Some(build_concrete_phase(a, &subs, analysis_dir.as_str()))
        },
        None => None,
    };
    RunPlan { name: run_name, run_root, build, run, analyze }
}

} // verus!
