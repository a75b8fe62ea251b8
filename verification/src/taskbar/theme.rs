//! The "app theme" flag of Windows, which a theme that follows the system resolves
//! against.
//!
//! Reading it is a registry round-trip and the widget bar draws many times a second,
//! so the answer is memoised for a second. A one-second lag on a theme switch is not
//! something anyone can see.

use vstd::prelude::*;

verus! {

/// How long a memoised answer is reused, in milliseconds.
pub const CACHE_TTL_MS: u64 = 1000;

/// A memoised answer, and when it was read.
#[derive(Clone, Copy, Debug, PartialEq, Eq, Structural)]
pub struct Memo {
    pub at: u64,
    pub light: bool,
}

/// Can the memoised answer still be used?
pub open spec fn fresh(cache: Option<Memo>, now: u64) -> bool {
    cache is Some && now - cache->0.at < CACHE_TTL_MS
}

/// The memoised answer, if it can still be used; otherwise the flag has to be read.
pub fn cached(cache: &Option<Memo>, now: u64) -> (r: Option<bool>)
    ensures
        r == (if fresh(*cache, now) {
            Some(cache->0.light)
        } else {
            None
        }),
{
    match cache {
        None => None,
        Some(memo) => if now < memo.at || now - memo.at < CACHE_TTL_MS {
            Some(memo.light)
        } else {
            None
        },
    }
}

/// Is Windows using its light app theme? `read` is what the registry says right now; it
/// is only used, and remembered, when no answer is at hand.
pub fn apps_use_light_theme(cache: &mut Option<Memo>, now: u64, read: bool) -> (r: bool)
    ensures
        r == (if fresh(*old(cache), now) {
            old(cache)->0.light
        } else {
            read
        }),
        *final(cache) == (if fresh(*old(cache), now) {
            *old(cache)
        } else {
            Some(Memo { at: now, light: read })
        }),
{
    match cached(cache, now) {
        Some(light) => light,
        None => {
            *cache = Some(Memo { at: now, light: read });
            read
        },
    }
}

/// What the registry's value means: anything but an explicit one counts as dark, which
/// is also what a missing value should look like.
pub fn read_apps_use_light_theme(readable: bool, value: u32) -> (r: bool)
    ensures
        r == (readable && value == 1),
{
    readable && value == 1
}

/// Within a second of a read, every answer is the one that was read, whatever the
/// registry says meanwhile.
pub proof fn an_answer_lasts_a_second(memo: Memo, now: u64)
    requires
        now - memo.at < CACHE_TTL_MS,
    ensures
        fresh(Some(memo), now),
{
}

/// A thousand milliseconds after it was read, an answer is used no more.
pub proof fn an_answer_ends_after_a_second(memo: Memo, now: u64)
    ensures
        fresh(Some(memo), now) <==> now < memo.at + 1000,
        !fresh(None, now),
{
}

} // verus!
