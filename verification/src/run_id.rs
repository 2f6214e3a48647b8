use std::time::{Duration, SystemTime, SystemTimeError, UNIX_EPOCH};
use vstd::prelude::*;

use crate::numbers::{decimal, push_decimal};
use crate::text::string_from_chars;

verus! {

#[verifier::external_type_specification]
#[verifier::external_body]
pub struct ExSystemTime(SystemTime);

#[verifier::external_type_specification]
#[verifier::external_body]
pub struct ExSystemTimeError(SystemTimeError);

/// The run id `run-<seconds>`.
pub open spec fn run_id_text(secs: nat) -> Seq<char> {
    seq!['r', 'u', 'n', '-'] + decimal(secs)
}

/// The current time.
///
/// Trusted: calls std's `SystemTime::now`; nothing is claimed of the result,
/// which depends on the clock.
#[verifier::external_body]
fn system_now() -> SystemTime {
    SystemTime::now()
}

/// Time elapsed from the Unix epoch to `t`, or an error when `t` is earlier.
///
/// Trusted: calls std's `SystemTime::duration_since` with `UNIX_EPOCH`;
/// nothing is claimed of the result.
#[verifier::external_body]
fn since_unix_epoch(t: &SystemTime) -> Result<Duration, SystemTimeError> {
    t.duration_since(UNIX_EPOCH)
}

/// Whole seconds of `d`.
///
/// Trusted: calls std's `Duration::as_secs`; nothing is claimed of the
/// result, `Duration` being opaque here.
#[verifier::external_body]
fn whole_seconds(d: &Duration) -> u64 {
    d.as_secs()
}

/// The run id for a run started `secs` seconds after the Unix epoch.
pub fn run_id_for(secs: u64) -> (r: String)
    ensures
        r@ == run_id_text(secs as nat),
{
    let mut out: Vec<char> = Vec::new();
    out.push('r');
    out.push('u');
    out.push('n');
    out.push('-');
    push_decimal(&mut out, secs);
    assert(out@ =~= run_id_text(secs as nat));
    string_from_chars(&out)
}

/// A run id from the current time: `run-` and the seconds since the Unix
/// epoch (0 when the clock reads before the epoch).
pub fn timestamp_run_id() -> (r: String)
    ensures
        exists|secs: u64| r@ == run_id_text(secs as nat),
{
    let now = system_now();
    let secs = match since_unix_epoch(&now) {
        Ok(d) => whole_seconds(&d),
        Err(_) => 0,
    };
    run_id_for(secs)
}

} // verus!
