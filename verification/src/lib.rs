//! Run planning and phase execution engine for parametrized experiment
//! sweeps: parameter-space expansion, token substitution, deterministic
//! run-root derivation, and a decision-level model of local/remote phase
//! execution with directory provisioning and log persistence.

pub mod cli;
pub mod config;
pub mod executor;
pub mod params;
pub mod planner;
pub mod subst;
pub mod text;
