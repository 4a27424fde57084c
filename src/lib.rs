//! Orchestration core of a differential fuzzing harness: first-seen-wins
//! classification of execution failures, the serialized execution manager,
//! the per-iteration decision machine and the profiling record format.

pub mod classify;
pub mod iteration;
pub mod manager;
pub mod profile;
pub mod settings;

pub use classify::{BugVerdict, Outcome, SignatureMemo, classify};
pub use iteration::{Action, Iteration, IterationEnd, RunStatus};
pub use manager::{ExecFault, ExecutionManager};
pub use profile::{SettingProfile, profile_record, push_decimal};
pub use settings::{CONFIG_PATH_VAR, DEFAULT_CONFIG_PATH, PROFILE_LOG, PROFILING_VAR, config_path, profiling_enabled};
