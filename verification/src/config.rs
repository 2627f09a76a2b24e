//! Configuration data: execution targets, problem definitions with their
//! parameter sweeps and phase templates, and checked lookups by name.

use vstd::prelude::*;

use crate::params::ParamValue;
use crate::text::str_eq;

verus! {

/// An execution locale: a root filesystem path, plus an optional
/// remote-shell endpoint. Without an endpoint every operation for this
/// target is local.
pub struct Target {
    pub root: String,
    pub ssh: Option<String>,
}

/// One phase template: a program, argument templates, an optional
/// working-directory template, and optional environment variables.
pub struct Phase {
    pub program: String,
    pub args: Vec<String>,
    pub cwd: Option<String>,
    pub env: Option<Vec<(String, String)>>,
}

/// The up-to-three phase templates of a problem; only `run` is required.
pub struct Phases {
    pub build: Option<Phase>,
    pub run: Phase,
    pub analyze: Option<Phase>,
}

/// A named experiment definition: a run-name template, an ordered mapping
/// from parameter name to its list of values, and the phase templates.
pub struct Problem {
    pub run_name: String,
    pub parameters: Vec<(String, Vec<ParamValue>)>,
    pub phases: Phases,
}

/// The whole configuration: named targets and named problems.
pub struct Config {
    pub targets: Vec<(String, Target)>,
    pub problems: Vec<(String, Problem)>,
}

/// An unknown problem or target name.
pub enum LookupError {
    UnknownProblem,
    UnknownTarget,
}

/// Whether some entry of `entries` carries the name `name`.
pub open spec fn spec_has_name<T>(entries: Seq<(String, T)>, name: Seq<char>) -> bool {
    exists|i: int| 0 <= i < entries.len() && (#[trigger] entries[i]).0@ == name
}

impl Config {
    /// The target of the given name, or an error naming the failure.
    pub fn get_target(&self, name: &str) -> (r: Result<&Target, LookupError>)
        ensures
            r.is_ok() == spec_has_name(self.targets@, name@),
            r matches Ok(t) ==> exists|i: int|
                0 <= i < self.targets@.len() && (#[trigger] self.targets@[i]).0@ == name@ && *t
                    == self.targets@[i].1,
            r matches Err(e) ==> e == LookupError::UnknownTarget,
    {
        let n = self.targets.len();
        let mut i: usize = 0;
        while i < n
            invariant
                n == self.targets.len(),
                i <= n,
                forall|j: int| 0 <= j < i ==> (#[trigger] self.targets@[j]).0@ != name@,
            decreases n - i,
        {
            if str_eq(self.targets[i].0.as_str(), name) {
                return Ok(&self.targets[i].1);
            }
            i += 1;
        }
        Err(LookupError::UnknownTarget)
    }

    /// The problem of the given name, or an error naming the failure.
    pub fn get_problem(&self, name: &str) -> (r: Result<&Problem, LookupError>)
        ensures
            r.is_ok() == spec_has_name(self.problems@, name@),
            r matches Ok(p) ==> exists|i: int|
                0 <= i < self.problems@.len() && (#[trigger] self.problems@[i]).0@ == name@ && *p
                    == self.problems@[i].1,
            r matches Err(e) ==> e == LookupError::UnknownProblem,
    {
        let n = self.problems.len();
        let mut i: usize = 0;
        while i < n
            invariant
                n == self.problems.len(),
                i <= n,
                forall|j: int| 0 <= j < i ==> (#[trigger] self.problems@[j]).0@ != name@,
            decreases n - i,
        {
            if str_eq(self.problems[i].0.as_str(), name) {
                return Ok(&self.problems[i].1);
            }
            i += 1;
        }
        Err(LookupError::UnknownProblem)
    }
}

impl LookupError {
    /// A message describing the failed lookup.
    pub fn message(&self) -> (r: &'static str)
        ensures
            *self is UnknownProblem ==> r@ == "Problem not found"@,
            *self is UnknownTarget ==> r@ == "Target not found"@,
    {
        match self {
            LookupError::UnknownProblem => "Problem not found",
            LookupError::UnknownTarget => "Target not found",
        }
    }
}

} // verus!
