use vstd::prelude::*;

use crate::cost::Platform;

verus! {

/// POSIX guarantees at least this much argument space.
pub const ARG_POSIX_MIN: usize = 4096;

/// Space kept back on unix for what exec stores beyond the strings themselves.
pub const UNIX_ARG_RESERVED: usize = 4096;

/// The least argument space a unix profile ever offers.
pub const UNIX_ARG_MIN: usize = 2048;

/// The queried unix argument space is capped here.
pub const UNIX_ARG_MAX: usize = 2048 * 1024;

/// Linux limits a single argument or environment entry to this many bytes.
pub const LINUX_ARG_SINGLE_MAX: usize = 128 * 1024;

/// Windows keeps separate areas for arguments and environment, each of this
/// size once a little has been reserved.
pub const WINDOWS_ARG_MAX: usize = 32767 - 4096;

/// The argument space of the conservative profile.
pub const CONSERVATIVE_ARG_MAX: usize = 4096;

/// The size limits of a command, and the cost model they are measured in.
///
/// A limit of `None` means that there is no separate limit: the argument limit
/// stands in for the environment ones, and counts are unlimited.
#[derive(Clone, Copy, Debug, PartialEq, Eq, Structural)]
pub struct CommandLimits {
    /// The maximum total cost of the arguments, and of the environment too when
    /// `env_size` is `None`.
    pub arg_size: usize,
    /// The maximum cost of a single argument.
    pub individual_arg_size: Option<usize>,
    /// The maximum number of arguments, the program included.
    pub arg_count: Option<usize>,
    /// The maximum total cost of the environment, kept apart from the arguments.
    pub env_size: Option<usize>,
    /// The maximum cost of a single `key=value` entry.
    pub individual_env_size: Option<usize>,
    /// The maximum number of environment entries.
    pub env_count: Option<usize>,
    /// How costs are computed.
    pub platform: Platform,
}

/// Some limit that is not zero.
pub open spec fn positive(limit: Option<usize>) -> bool {
    match limit {
        Some(n) => n > 0,
        None => true,
    }
}

/// The argument space of a unix system whose `sysconf(_SC_ARG_MAX)` returned
/// `raw`: a non-positive answer counts as zero, the value is clamped into
/// `[ARG_POSIX_MIN, UNIX_ARG_MAX]`, and the reserve is taken off without going
/// under `UNIX_ARG_MIN`.
pub open spec fn unix_arg_space(raw: int) -> int {
    let queried = if raw > 0 { raw } else { 0 };
    let capped = if queried < UNIX_ARG_MAX { queried } else { UNIX_ARG_MAX as int };
    let raised = if capped > ARG_POSIX_MIN { capped } else { ARG_POSIX_MIN as int };
    let spare = raised - UNIX_ARG_RESERVED;
    if spare > UNIX_ARG_MIN { spare } else { UNIX_ARG_MIN as int }
}

impl CommandLimits {
    /// Every limit that is given is positive.
    pub open spec fn wf(self) -> bool {
        &&& self.arg_size > 0
        &&& positive(self.individual_arg_size)
        &&& positive(self.arg_count)
        &&& positive(self.env_size)
        &&& positive(self.individual_env_size)
        &&& positive(self.env_count)
    }

    /// The most that one argument may cost.
    pub open spec fn arg_ceiling(self) -> nat {
        match self.individual_arg_size {
            Some(n) => n as nat,
            None => self.arg_size as nat,
        }
    }

    /// The most that one environment entry may cost.
    pub open spec fn env_ceiling(self) -> nat {
        match self.individual_env_size {
            Some(n) => n as nat,
            None => match self.env_size {
                Some(n) => n as nat,
                None => self.arg_size as nat,
            },
        }
    }

    /// The profile of a unix system. `sysconf_arg_max` is what
    /// `sysconf(_SC_ARG_MAX)` returned; `linux` says whether the kernel caps
    /// single arguments.
    pub fn unix(sysconf_arg_max: i64, linux: bool) -> (r: CommandLimits)
        ensures
            r.wf(),
            r.arg_size == unix_arg_space(sysconf_arg_max as int),
            r.individual_arg_size == (if linux { Some(LINUX_ARG_SINGLE_MAX) } else { None }),
            r.individual_env_size == r.individual_arg_size,
            r.arg_count is None,
            r.env_size is None,
            r.env_count is None,
            r.platform == Platform::Unix,
    {
        let queried: usize = match sysconf_value(sysconf_arg_max) {
            Some(v) => if v < UNIX_ARG_MAX as u64 { v as usize } else { UNIX_ARG_MAX },
            None => 0,
        };
        let raised: usize = if queried > ARG_POSIX_MIN { queried } else { ARG_POSIX_MIN };
        let spare: usize = raised - UNIX_ARG_RESERVED;
        let arg_max: usize = if spare > UNIX_ARG_MIN { spare } else { UNIX_ARG_MIN };
        let single: Option<usize> = if linux { Some(LINUX_ARG_SINGLE_MAX) } else { None };
        CommandLimits {
            arg_size: arg_max,
            individual_arg_size: single,
            arg_count: None,
            env_size: None,
            individual_env_size: single,
            env_count: None,
            platform: Platform::Unix,
        }
    }

    /// The profile of Windows, where arguments and environment each have their
    /// own area of the same size.
    pub fn windows() -> (r: CommandLimits)
        ensures
            r.wf(),
            r.arg_size == WINDOWS_ARG_MAX,
            r.env_size == Some(WINDOWS_ARG_MAX),
            r.individual_arg_size is None,
            r.arg_count is None,
            r.individual_env_size is None,
            r.env_count is None,
            r.platform == Platform::Windows,
    {
        CommandLimits {
            arg_size: WINDOWS_ARG_MAX,
            individual_arg_size: None,
            arg_count: None,
            env_size: Some(WINDOWS_ARG_MAX),
            individual_env_size: None,
            env_count: None,
            platform: Platform::Windows,
        }
    }
}

impl CommandLimits {
    /// The fallback profile for a platform with no way to ask for its limits: a
    /// fixed, small argument space shared with the environment.
    pub open spec fn default_spec() -> CommandLimits {
        CommandLimits {
            arg_size: CONSERVATIVE_ARG_MAX,
            individual_arg_size: None,
            arg_count: None,
            env_size: None,
            individual_env_size: None,
            env_count: None,
            platform: Platform::Conservative,
        }
    }
}

/// The fallback profile; see `default_spec`.
impl Default for CommandLimits {
    fn default() -> (r: CommandLimits)
        ensures
            r.wf(),
            r == CommandLimits::default_spec(),
    {
        CommandLimits {
            arg_size: CONSERVATIVE_ARG_MAX,
            individual_arg_size: None,
            arg_count: None,
            env_size: None,
            individual_env_size: None,
            env_count: None,
            platform: Platform::Conservative,
        }
    }
}

/// A positive answer of `sysconf`, or `None` when the system gave none.
fn sysconf_value(raw: i64) -> (r: Option<u64>)
    ensures
        r == (if raw > 0 { Some(raw as u64) } else { None::<u64> }),
        r matches Some(v) ==> v as int == raw,
{
    if raw > 0 {
        Some(raw as u64)
    } else {
        None
    }
}

} // verus!
