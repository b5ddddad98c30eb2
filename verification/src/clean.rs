//! Picking the cache entries that are old enough to be deleted.

use vstd::prelude::*;

verus! {

/// The cutoff `days` days before the instant `now_secs` seconds and `now_nanos`
/// nanoseconds after the epoch, in nanoseconds after the epoch.
pub open spec fn cutoff_of(now_secs: i64, now_nanos: u32, days: i64) -> int {
    (now_secs - days * 86_400) * 1_000_000_000 + now_nanos
}

/// Whether a directory last modified `mtime` whole seconds after the epoch
/// predates the cutoff.
pub open spec fn predates(mtime: i64, cutoff: int) -> bool {
    mtime * 1_000_000_000 < cutoff
}

/// The positions, among the first `n` directories, of those to delete: the ones
/// whose time of last modification is known and predates the cutoff.
pub open spec fn expired(mtimes: Seq<Option<i64>>, cutoff: int, n: int) -> Seq<usize>
    decreases n,
{
    if n <= 0 {
        Seq::empty()
    } else {
        let rest = expired(mtimes, cutoff, n - 1);
        match mtimes[n - 1] {
            Some(t) => if predates(t, cutoff) {
                rest.push((n - 1) as usize)
            } else {
                rest
            },
            None => rest,
        }
    }
}

/// Picks the directories to delete among those found at entry depth. `mtimes`
/// holds for each the time of its last modification in seconds after the epoch,
/// or nothing where it could not be read: such a directory is passed over.
pub fn clean_in_dir(cutoff: i128, mtimes: &Vec<Option<i64>>) -> (doomed: Vec<usize>)
    ensures
        doomed@ == expired(mtimes@, cutoff as int, mtimes@.len() as int),
{
    let mut doomed: Vec<usize> = Vec::new();
    let mut i: usize = 0;
    while i < mtimes.len()
        invariant
            i <= mtimes@.len(),
            doomed@ == expired(mtimes@, cutoff as int, i as int),
        decreases mtimes@.len() - i,
    {
        match mtimes[i] {
            Some(t) => {
                let t: i128 = t as i128;
                if t * 1_000_000_000 < cutoff {
                    doomed.push(i);
                }
            },
            None => {},
        }
        i += 1;
    }
    doomed
}

/// Picks the cache entries to delete: those last modified more than `days` days
/// before now. The result holds their positions in `mtimes`, in rising order.
pub fn clean(now_secs: i64, now_nanos: u32, days: i64, mtimes: &Vec<Option<i64>>) -> (doomed: Vec<usize>)
    ensures
        doomed@ == expired(mtimes@, cutoff_of(now_secs, now_nanos, days), mtimes@.len() as int),
{
    let whole: i128 = now_secs as i128 - days as i128 * 86_400;
    let cutoff: i128 = whole * 1_000_000_000 + now_nanos as i128;
    clean_in_dir(cutoff, mtimes)
}

} // verus!
