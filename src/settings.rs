use vstd::prelude::*;
use vstd::string::*;

verus! {

/// The environment variable that names the configuration file.
pub const CONFIG_PATH_VAR: &'static str = "MOVE_SMITH_CONFIG";

/// The configuration file read when `CONFIG_PATH_VAR` is unset.
pub const DEFAULT_CONFIG_PATH: &'static str = "MoveSmith.toml";

/// The environment variable that switches profiling on.
pub const PROFILING_VAR: &'static str = "MOVE_SMITH_PROFILING";

/// The log file, in the working directory, that profile records are
/// appended to.
pub const PROFILE_LOG: &'static str = "move-smith-profile.txt";

/// Profiling is on exactly when the toggle is present and reads `1`.
pub fn profiling_enabled(value: Option<&str>) -> (r: bool)
    ensures
        r == (value is Some && value->0@ == seq!['1']),
{
    match value {
        None => false,
        Some(v) => {
            if v.unicode_len() != 1 {
                return false;
            }
            let c = v.get_char(0);
            if c == '1' {
                assert(v@ =~= seq!['1']);
            }
            c == '1'
        },
    }
}

/// The configuration file to read: the one the environment names, or the
/// default.
pub fn config_path(value: Option<String>) -> (r: String)
    ensures
        r@ == (match value {
            Some(v) => v@,
            None => DEFAULT_CONFIG_PATH@,
        }),
{
    match value {
        Some(v) => v,
        None => DEFAULT_CONFIG_PATH.to_owned(),
    }
}

} // verus!
