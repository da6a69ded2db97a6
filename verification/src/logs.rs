//! The log-retention rule: which log files the startup cleanup removes.
//!
//! Listing the log directory and deleting files is I/O done outside the
//! library; the age rule is decided here, on plain seconds.

use vstd::prelude::*;

verus! {

/// Whether a log file has outlived the retention window: its age — zero for
/// a file modified in the future — exceeds the window.
pub fn log_expired(now_secs: u64, modified_secs: u64, max_age_secs: u64) -> (r: bool)
    ensures
        r == (modified_secs <= now_secs && now_secs - modified_secs > max_age_secs),
{
    if modified_secs <= now_secs {
        now_secs - modified_secs > max_age_secs
    } else {
        false
    }
}

} // verus!
