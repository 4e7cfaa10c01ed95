//! Deciding whether a watched file has changed, from its modification time.
use crate::registry::Registry;
use vstd::prelude::*;

verus! {

/// How much, in nanoseconds, a modification time must advance to count as a
/// change.
pub const WATCH_THRESHOLD_NS: u128 = 500_000_000;

/// Whether a poll that sees the modification time `m` reports a change, for
/// a file last seen modified at `seen`.
pub open spec fn changed_since(seen: u128, m: u128) -> bool {
    m < seen || m - seen > WATCH_THRESHOLD_NS
}

/// One poll of `file`, whose modification time is now `modified` in
/// nanoseconds (`None` when it could not be read). `watchers` holds the time
/// each file was last seen modified.
///
/// A file polled for the first time is recorded and reported unchanged. After
/// that a poll reports a change when the time has advanced by more than
/// `WATCH_THRESHOLD_NS`, or gone back, and records the new time when it did
/// not go back. A file whose time cannot be read is reported changed, so that
/// a waiter never blocks on it forever.
pub fn watch_modified(watchers: &mut Registry<String, u128>, file: &str, modified: Option<u128>) -> (r:
    bool)
    requires
        old(watchers).wf(),
    ensures
        final(watchers).wf(),
        match modified {
            None => r && final(watchers)@ == old(watchers)@,
            Some(m) => if old(watchers)@.contains_key(file@) {
                let seen = old(watchers)@[file@];
                &&& r == changed_since(seen, m)
                &&& final(watchers)@ == old(watchers)@.insert(
                    file@,
                    if m >= seen {
                        m
                    } else {
                        seen
                    },
                )
            } else {
                !r && final(watchers)@ == old(watchers)@.insert(file@, m)
            },
        },
{
    let m = match modified {
        None => {
            return true;
        },
        Some(m) => m,
    };
    let name = file.to_owned();
    match watchers.find(&name) {
        None => {
            watchers.push(name, m);
            false
        },
        Some(i) => {
            let seen = *watchers.get(i);
            if m >= seen {
                watchers.replace(i, m);
                m - seen > WATCH_THRESHOLD_NS
            } else {
                true
            }
        },
    }
}

} // verus!
