//! The wall clock and the per-user directories, as the host system reports them.

use vstd::prelude::*;

verus! {

/// Relies on `std::time::SystemTime::now`, measured with `duration_since`
/// from `UNIX_EPOCH`: the current time in milliseconds since the Unix epoch,
/// or `None` where the clock reads before the epoch or past `i64`. Nothing is
/// promised of its value.
#[verifier::external_body]
pub fn now_millis() -> (r: Option<i64>) {
    std::time::SystemTime::now()
        .duration_since(std::time::UNIX_EPOCH)
        .ok()
        .and_then(|d| i64::try_from(d.as_millis()).ok())
}

/// Relies on `dirs::cache_dir`: the per-user cache directory, where the
/// platform has one. Its text is taken lossily.
#[verifier::external_body]
pub fn user_cache_dir() -> (r: Option<String>) {
    dirs::cache_dir().map(|p| p.to_string_lossy().into_owned())
}

/// Relies on `dirs::home_dir`: the user's home directory, where the platform
/// reports one. Its text is taken lossily.
#[verifier::external_body]
pub fn user_home_dir() -> (r: Option<String>) {
    dirs::home_dir().map(|p| p.to_string_lossy().into_owned())
}

} // verus!
