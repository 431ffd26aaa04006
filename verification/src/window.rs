//! The one-minute window of recent readings that each sensor keeps.
//!
//! A reading is stored with the time at which it was taken, in nanoseconds
//! on a monotonic clock. The payload of a reading is left generic.
use std::collections::VecDeque;
use vstd::prelude::*;

verus! {

/// The length of the window: one minute, in nanoseconds.
pub const ONE_MINUTE_NANOS: u64 = 60_000_000_000u64;

/// A reading taken at `timestamp` has dropped out of the window at time `now`:
/// more than one minute has passed since it was taken. A timestamp later than
/// `now` counts as no time passed.
pub open spec fn is_stale(timestamp: u64, now: u64) -> bool {
    now - timestamp > ONE_MINUTE_NANOS
}

/// How many readings at the front of `s` are stale at `now`, counted up to
/// the first one that is not.
pub open spec fn stale_prefix_len<T>(s: Seq<(u64, T)>, now: u64) -> nat
    decreases s.len(),
{
    if s.len() == 0 {
        0
    } else if is_stale(s[0].0, now) {
        1 + stale_prefix_len(s.drop_first(), now)
    } else {
        0
    }
}

/// The window after a reading `value` is taken at `now`: the reading is
/// appended, then the readings at the front are dropped as long as they are
/// stale.
pub open spec fn kept_window<T>(old_window: Seq<(u64, T)>, now: u64, value: T) -> Seq<(u64, T)> {
    let s = old_window.push((now, value));
    s.skip(stale_prefix_len(s, now) as int)
}

/// The timestamps of `s` never decrease from front to back.
pub open spec fn ordered_by_time<T>(s: Seq<(u64, T)>) -> bool {
    forall|i: int, j: int| 0 <= i <= j < s.len() ==> s[i].0 <= s[j].0
}

/// No reading of `s` was taken after `now`.
pub open spec fn all_taken_by<T>(s: Seq<(u64, T)>, now: u64) -> bool {
    forall|i: int| 0 <= i < s.len() ==> s[i].0 <= now
}

/// The stale prefix is at most the whole sequence, every reading in it is
/// stale, and the reading right after it (if any) is not.
pub proof fn lemma_stale_prefix<T>(s: Seq<(u64, T)>, now: u64)
    ensures
        stale_prefix_len(s, now) <= s.len(),
        forall|i: int| 0 <= i < stale_prefix_len(s, now) ==> is_stale(#[trigger] s[i].0, now),
        stale_prefix_len(s, now) < s.len() ==> !is_stale(s[stale_prefix_len(s, now) as int].0, now),
    decreases s.len(),
{
    if s.len() > 0 && is_stale(s[0].0, now) {
        let t = s.drop_first();
        lemma_stale_prefix(t, now);
        assert forall|i: int| 0 <= i < stale_prefix_len(s, now) implies is_stale(#[trigger] s[i].0, now) by {
            if i > 0 {
                assert(s[i] == t[i - 1]);
            }
        }
        if stale_prefix_len(s, now) < s.len() {
            assert(s[stale_prefix_len(s, now) as int] == t[stale_prefix_len(t, now) as int]);
        }
    }
}

/// On a window ordered by time whose readings were all taken by `now`, taking
/// a reading at `now` leaves exactly the readings that are at most one minute
/// old: every dropped reading is stale, every kept one is fresh, no fresh
/// reading is lost, the new reading is the last one kept, and the window stays
/// ordered by time.
pub proof fn lemma_keep_window_keeps_fresh<T>(old_window: Seq<(u64, T)>, now: u64, value: T)
    requires
        ordered_by_time(old_window),
        all_taken_by(old_window, now),
    ensures
        ({
            let s = old_window.push((now, value));
            let k = stale_prefix_len(s, now) as int;
            &&& forall|i: int| 0 <= i < k ==> is_stale(#[trigger] s[i].0, now)
            &&& forall|i: int| 0 <= i < kept_window(old_window, now, value).len()
                ==> !is_stale(#[trigger] kept_window(old_window, now, value)[i].0, now)
            &&& forall|i: int| 0 <= i < old_window.len() && !is_stale(#[trigger] old_window[i].0, now)
                ==> kept_window(old_window, now, value).contains(old_window[i])
        }),
        kept_window(old_window, now, value).len() >= 1,
        kept_window(old_window, now, value).last() == (now, value),
        ordered_by_time(kept_window(old_window, now, value)),
        all_taken_by(kept_window(old_window, now, value), now),
{
    let s = old_window.push((now, value));
    lemma_stale_prefix(s, now);
    let k = stale_prefix_len(s, now) as int;
    let r = kept_window(old_window, now, value);
    assert(s[s.len() - 1] == (now, value));
    assert(!is_stale(now, now));
    assert(k < s.len()) by {
        if k == s.len() {
            assert(is_stale(s[s.len() - 1].0, now));
        }
    }
    assert(ordered_by_time(s)) by {
        assert forall|i: int, j: int| 0 <= i <= j < s.len() implies s[i].0 <= s[j].0 by {
            if j == s.len() - 1 {
                if i < j {
                    assert(s[i] == old_window[i]);
                }
            } else {
                assert(s[i] == old_window[i]);
                assert(s[j] == old_window[j]);
            }
        }
    }
    assert forall|i: int| 0 <= i < r.len() implies !is_stale(#[trigger] r[i].0, now) by {
        assert(r[i] == s[k + i]);
        assert(s[k].0 <= s[k + i].0);
        assert(!is_stale(s[k].0, now));
    }
    assert forall|i: int| 0 <= i < old_window.len() && !is_stale(#[trigger] old_window[i].0, now)
        implies r.contains(old_window[i]) by {
        assert(s[i] == old_window[i]);
        assert(i >= k);
        assert(r[i - k] == s[i]);
    }
    assert(r.last() == s[s.len() - 1]);
    assert forall|i: int| 0 <= i < r.len() implies r[i].0 <= now by {
        assert(r[i] == s[k + i]);
        if k + i < s.len() - 1 {
            assert(s[k + i] == old_window[k + i]);
        }
    }
    assert forall|i: int, j: int| 0 <= i <= j < r.len() implies r[i].0 <= r[j].0 by {
        assert(r[i] == s[k + i]);
        assert(r[j] == s[k + j]);
    }
}

/// Dropping `k` stale readings from the front leaves the rest of the stale
/// prefix to be dropped.
proof fn lemma_stale_prefix_step<T>(s: Seq<(u64, T)>, k: int, now: u64)
    requires
        0 <= k < s.len(),
        is_stale(s[k].0, now),
    ensures
        stale_prefix_len(s.skip(k), now) == 1 + stale_prefix_len(s.skip(k + 1), now),
{
    assert(s.skip(k).drop_first() =~= s.skip(k + 1));
}

/// Appends the reading `noise_value` taken at `now` to `recent_values`, then
/// drops the readings at the front that are more than one minute old, up to
/// the first one that is not.
pub fn keep_window<T>(recent_values: &mut VecDeque<(u64, T)>, now: u64, noise_value: T)
    ensures
        final(recent_values)@ == kept_window(old(recent_values)@, now, noise_value),
{
    let ghost s = old(recent_values)@.push((now, noise_value));
    recent_values.push_back((now, noise_value));
    let ghost mut k: int = 0;
    assert(recent_values@ =~= s.skip(0));
    loop
        invariant
            0 <= k <= s.len(),
            recent_values@ == s.skip(k),
            k + stale_prefix_len(s.skip(k), now) == stale_prefix_len(s, now),
        ensures
            recent_values@ == s.skip(k),
            k == stale_prefix_len(s, now),
        decreases recent_values@.len(),
    {
        if recent_values.len() == 0 {
            break;
        }
        let timestamp = recent_values[0].0;
        proof {
            assert(s.skip(k)[0] == s[k]);
        }
        if now >= timestamp && now - timestamp > ONE_MINUTE_NANOS {
            proof {
                assert(s.skip(k)[0] == s[k]);
                lemma_stale_prefix_step(s, k, now);
            }
            recent_values.pop_front();
            proof {
                k = k + 1;
                assert(recent_values@ =~= s.skip(k));
            }
        } else {
            break;
        }
    }
}

} // verus!
