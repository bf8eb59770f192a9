//! Policy, planning and diagnostics of a Linux sandbox around Cargo builds.

pub mod access;
pub mod args;
pub mod backend;
pub mod backend_laws;
pub mod bubblewrap;
pub mod budget;
pub mod budget_laws;
pub mod bwrap;
pub mod capture;
pub mod cargo_args;
pub mod cargo_policy;
pub mod cgroup;
pub mod command_laws;
pub mod confinement_laws;
pub mod discovery_laws;
pub mod doctor;
pub mod doctor_laws;
pub mod error;
pub mod flow;
pub mod grant_laws;
pub mod group_laws;
pub mod launcher;
pub mod mount_laws;
pub mod mounts;
pub mod order;
pub mod order_laws;
pub mod os;
pub mod path;
pub mod path_laws;
pub mod plan;
pub mod plan_laws;
pub mod policy;
pub mod policy_laws;
pub mod reads;
pub mod redteam;
pub mod redteam_laws;
pub mod release;
pub mod release_laws;
pub mod run;
pub mod run_laws;
pub mod runs;
pub mod scan;
pub mod starts;
pub mod talk;
pub mod target;
pub mod testkit;
pub mod text;
pub mod text_laws;
pub mod toolchain;
pub mod toolchain_laws;
pub mod tree;
pub mod tree_laws;
pub mod walk;
pub mod workspace;

