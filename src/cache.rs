//! The resource cache's decisions. A resource has a local copy, named by a
//! cache key, and a remote source. The host supplies the copy's
//! last-modification time and the current time, in milliseconds since the
//! Unix epoch, performs the reads, fetches and writes, and hands each result
//! back to the steps below.

use vstd::prelude::*;

verus! {

/// The last-modification time that stands for a local copy that does not
/// exist: the earliest representable time, so that such a copy is stale.
pub const ABSENT: i64 = i64::MIN;

/// A copy last modified at `modified` is fresh at `now` under the window
/// `max_age` when it is younger than the window.
pub open spec fn is_fresh(modified: int, max_age: int, now: int) -> bool {
    modified + max_age > now
}

/// What to do with a cached resource.
pub enum CacheStep {
    /// The local copy is fresh: read it and return it as it is.
    UseLocal,
    /// The local copy is stale or missing: fetch the resource remotely.
    FetchRemote,
}

/// Why a remote retrieval gave no text.
pub enum FetchError {
    /// The transport failed; the host's description of the failure.
    Transport(String),
    /// The remote answered with something that is not text.
    NotText,
}

/// What to do once a remote retrieval has finished.
pub struct FetchFinish {
    /// The text to write over the local copy, if any.
    pub write: Option<String>,
    /// What the fetch-or-cache call returns.
    pub result: Result<String, FetchError>,
}

/// Decides between the local copy, last modified at `modified`, and a remote
/// fetch, at time `now`, with the freshness window `max_age`.
pub fn plan_fetch(modified: i64, max_age: i64, now: i64) -> (r: CacheStep)
    ensures
        r is UseLocal <==> is_fresh(modified as int, max_age as int, now as int),
        r is FetchRemote <==> !is_fresh(modified as int, max_age as int, now as int),
{
    if (modified as i128) + (max_age as i128) > (now as i128) {
        CacheStep::UseLocal
    } else {
        CacheStep::FetchRemote
    }
}

/// The step after a remote retrieval: retrieved text is written over the
/// local copy and returned; a failure is returned and nothing is written.
/// The text is returned whether or not the write then succeeds.
pub fn finish_fetch(fetched: Result<String, FetchError>) -> (r: FetchFinish)
    ensures
        match fetched {
            Ok(t) => r.write == Some(t) && r.result == Ok::<String, FetchError>(t),
            Err(e) => r.write is None && r.result == Err::<String, FetchError>(e),
        },
{
    match fetched {
        Ok(t) => FetchFinish { write: Some(t.clone()), result: Ok(t) },
        Err(e) => FetchFinish { write: None, result: Err(e) },
    }
}

/// An absent local copy is never fresh, whatever the window, at any time
/// from the epoch on.
pub proof fn absent_is_stale(max_age: i64, now: i64)
    requires
        now >= 0,
    ensures
        !is_fresh(ABSENT as int, max_age as int, now as int),
{
}

} // verus!
