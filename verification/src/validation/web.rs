//! Checking whether a URL points at a reachable resource, through the
//! context's probe capability and its cache.

use vstd::prelude::*;

use crate::validation::cache::CacheEntry;
use crate::validation::context::Context;
use crate::validation::Reason;

verus! {

#[verifier::external_type_specification]
#[verifier::external_body]
pub struct ExSystemTime(std::time::SystemTime);

/// Check whether a URL points to a valid resource on the internet.
///
/// A fresh cached success answers without a probe; otherwise the context's
/// probe runs and its outcome is recorded in the cache, whatever it was. A
/// fragment on the URL is accepted unconditionally, since fragment checking
/// is not implemented.
pub fn check_web<C: Context>(url: &str, ctx: &mut C) -> (r: Result<(), Reason>)
    ensures
        r is Err ==> r->Err_0 is Web,
{
    let timeout = ctx.cache_timeout();
    let now = now_epoch_seconds();
    let fresh = match ctx.cache_get(url) {
        Some(entry) => entry.is_fresh(timeout, now),
        None => false,
    };
    if fresh {
        return Ok(());
    }
    let extra_headers = ctx.url_specific_headers(url);
    let result = ctx.probe(url, &extra_headers);
    let recorded_at = now_epoch_seconds();
    let entry = CacheEntry::new(recorded_at, result.is_ok());
    ctx.cache_put(url, entry);
    match result {
        Ok(()) => Ok(()),
        Err(e) => Err(Reason::Web(e)),
    }
}

/// The current time in whole seconds since the epoch.
fn now_epoch_seconds() -> u64 {
    let t = system_now();
    seconds_since_epoch(&t)
}

/// Relies on `std::time::SystemTime::now`: the current system time, of
/// which nothing can be promised.
#[verifier::external_body]
fn system_now() -> std::time::SystemTime {
    std::time::SystemTime::now()
}

/// Relies on `std::time::SystemTime::duration_since`: the time from the
/// epoch to `t`, converted to whole seconds; a clock reading earlier than
/// the epoch counts as the epoch itself.
#[verifier::external_body]
fn seconds_since_epoch(t: &std::time::SystemTime) -> u64 {
    match t.duration_since(std::time::UNIX_EPOCH) {
        Ok(d) => d.as_secs(),
        Err(_) => 0,
    }
}

} // verus!
