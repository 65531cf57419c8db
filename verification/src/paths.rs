//! Fixed locations of the daemon's files.

use vstd::prelude::*;
use vstd::string::StringExecFns;
use crate::text::{decimal_digits, push_decimal};

verus! {

pub const BASE_DIR: &'static str = "/data/local/tmp/coreshift";

pub const CONTROL_DIR: &'static str = "/data/local/tmp/coreshift/control";

pub const ADDONS_DIR: &'static str = "/data/local/tmp/coreshift/addons";

pub const SOCKET_PATH: &'static str = "/data/local/tmp/coreshift/coreshift.sock";

pub const CORE_LOG_PATH: &'static str = "/data/local/tmp/coreshift/core.log";

pub const ENABLE_PRELOAD_PATH: &'static str = "/data/local/tmp/coreshift/control/enable_preload";

pub const LOG_DEBUG_PATH: &'static str = "/data/local/tmp/coreshift/control/log_debug";

pub const LOG_TRACE_PATH: &'static str = "/data/local/tmp/coreshift/control/log_trace";

/// The log file of addon `addon_id`: `addon_<id>.log` in the addons directory.
pub fn addon_log_path(addon_id: u32) -> (r: String)
    ensures
        r@ == "/data/local/tmp/coreshift/addons"@ + "/addon_"@ + decimal_digits(addon_id as nat) + ".log"@,
{
    let mut s = String::from_str("/data/local/tmp/coreshift/addons");
    s.append("/addon_");
    push_decimal(&mut s, addon_id as u64);
    s.append(".log");
    s
}

} // verus!
