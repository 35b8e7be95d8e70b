//! The trusted boundary to the host machine: wall clock, local-time
//! rendering and hardware introspection. Every function here makes one call
//! into an outside crate; its contract is believed, not verified, so each
//! states only what the crate's documentation plainly promises.

use vstd::prelude::*;

verus! {

/// Relies on chrono's `Utc::now`: the current Unix timestamp in seconds.
/// The result depends on the wall clock, so nothing is promised of it.
#[verifier::external_body]
fn chrono_now_timestamp() -> i64 {
    chrono::Utc::now().timestamp()
}

/// The current time as seconds since the Unix epoch, clamped at zero for
/// clocks set before 1970. Nothing can be promised of a wall-clock reading.
pub fn current_time_seconds() -> u64 {
    let t = chrono_now_timestamp();
    if t < 0 {
        0
    } else {
        t as u64
    }
}

/// Relies on chrono's local-time conversion and `format`: renders a Unix
/// timestamp as `YYYY-MM-DD HH:MM:SS` in the host's time zone, or `None`
/// for a timestamp the zone cannot represent. The text depends on the
/// machine's zone, so nothing is promised of it.
#[verifier::external_body]
pub(crate) fn format_local_timestamp(secs: u64) -> Option<String> {
    match chrono::TimeZone::timestamp_opt(&chrono::Local, secs as i64, 0) {
        chrono::LocalResult::Single(t) => Some(t.format("%Y-%m-%d %H:%M:%S").to_string()),
        _ => None,
    }
}

/// Relies on `num_cpus::get`: the number of available logical CPUs, which
/// its documentation promises to be at least one.
#[verifier::external_body]
pub(crate) fn cpu_count() -> (r: usize)
    ensures
        r >= 1,
{
    num_cpus::get()
}

/// Relies on `sys_info::mem_info`: the total physical memory in KiB, where
/// the host reports it.
#[verifier::external_body]
pub(crate) fn total_memory_kb() -> Option<u64> {
    match sys_info::mem_info() {
        Ok(m) => Some(m.total),
        Err(_) => None,
    }
}

/// Relies on `sys_info::os_type`: the host operating system's name, such as
/// `Linux`, `Darwin` or `Windows`.
#[verifier::external_body]
pub(crate) fn os_type_name() -> Option<String> {
    match sys_info::os_type() {
        Ok(t) => Some(t),
        Err(_) => None,
    }
}

} // verus!
