//! The watchdog, which ends sessions that have gone silent.

use vstd::prelude::*;

use crate::session;
use crate::session::{SessionMap, SessionView};

verus! {

/// How often the watchdog looks, in nanoseconds: three times in the idle timeout,
/// but between once a second and once in thirty seconds.
pub open spec fn tick_of(idle_ms: u64) -> int {
    let third = idle_ms as int * 1_000_000 / 3;
    if third < 1_000_000_000 {
        1_000_000_000
    } else if third > 30_000_000_000 {
        30_000_000_000
    } else {
        third
    }
}

/// How often the watchdog looks, in nanoseconds.
pub fn tick_ns(idle_ms: u64) -> (r: u64)
    ensures
        r == tick_of(idle_ms),
{
    let third: u128 = idle_ms as u128 * 1_000_000 / 3;
    if third < 1_000_000_000 {
        1_000_000_000
    } else if third > 30_000_000_000 {
        30_000_000_000
    } else {
        third as u64
    }
}

/// The sessions that have not been silent for longer than the timeout.
pub open spec fn lively(m: Map<u128, SessionView>, idle_ms: u64, now_ms: u64) -> Map<
    u128,
    SessionView,
> {
    m.restrict(Set::new(|id: u128| !session::idle_for(m[id], idle_ms, now_ms)))
}

/// End the sessions that have been silent for longer than the timeout; their ids
/// are handed back.
pub fn sweep(map: &mut SessionMap, idle_ms: u64, now_ms: u64) -> (r: Vec<u128>)
    ensures
        final(map)@ == lively(old(map)@, idle_ms, now_ms),
        r@.no_duplicates(),
        forall|id: u128| #[trigger]
            r@.contains(id) <==> old(map)@.dom().contains(id) && session::idle_for(
                old(map)@[id],
                idle_ms,
                now_ms,
            ),
{
    let ids = map.idle_ids(idle_ms, now_ms);
    let ghost before = map@;
    let mut i: usize = 0;
    while i < ids.len()
        invariant
            i <= ids.len(),
            before == old(map)@,
            forall|id: u128| #[trigger]
                map@.dom().contains(id) <==> before.dom().contains(id) && !ids@.take(
                    i as int,
                ).contains(id),
            forall|id: u128| #[trigger] map@.dom().contains(id) ==> map@[id] == before[id],
        decreases ids.len() - i,
    {
        let ghost here = map@;
        let id: u128 = ids[i];
        let _ = session::unregister(map, id);
        proof {
            let t = ids@.take(i + 1);
            assert(t == ids@.take(i as int).push(id));
            assert forall|x: u128| #[trigger] map@.dom().contains(x) <==> before.dom().contains(x)
                && !t.contains(x) by {
                if t.contains(x) {
                    let j = choose|j: int| 0 <= j < t.len() && t[j] == x;
                    if j < i {
                        assert(ids@.take(i as int)[j] == x);
                    }
                } else {
                    assert(t[i as int] == id);
                    if ids@.take(i as int).contains(x) {
                        let j = choose|j: int|
                            0 <= j < ids@.take(i as int).len() && ids@.take(i as int)[j] == x;
                        assert(t[j] == x);
                    }
                    assert(here.dom().contains(x) <==> before.dom().contains(x));
                }
                assert(here.dom().contains(x) ==> before.dom().contains(x));
            }
            assert forall|x: u128| #[trigger] map@.dom().contains(x) implies map@[x]
                == before[x] by {
                assert(here.dom().contains(x));
            }
        }
        i += 1;
    }
    proof {
        assert(ids@.take(i as int) == ids@);
        let want = lively(before, idle_ms, now_ms);
        assert forall|id: u128| map@.dom().contains(id) == want.dom().contains(id) by {
            assert(ids@.contains(id) <==> before.dom().contains(id) && session::idle_for(
                before[id],
                idle_ms,
                now_ms,
            ));
        }
        assert(map@ =~= want);
    }
    ids
}

/// A session that the client has used within the timeout is never ended.
pub proof fn law_active_session_stays(
    m: Map<u128, SessionView>,
    id: u128,
    idle_ms: u64,
    now_ms: u64,
)
    requires
        m.dom().contains(id),
        now_ms - m[id].last_activity_ms <= idle_ms,
    ensures
        lively(m, idle_ms, now_ms).dom().contains(id),
        lively(m, idle_ms, now_ms)[id] == m[id],
{
}

/// The watch looks three times in a timeout, but not more often than every second
/// and not less often than every thirty.
pub proof fn law_watch_looks_three_times(idle_ms: u64)
    ensures
        1_000_000_000 <= tick_of(idle_ms) <= 30_000_000_000,
        3_000 <= idle_ms <= 90_000 ==> 3 * tick_of(idle_ms) <= idle_ms * 1_000_000 < 3 * (tick_of(
            idle_ms,
        ) + 1),
        idle_ms < 3_000 ==> tick_of(idle_ms) == 1_000_000_000,
        idle_ms > 90_000 ==> tick_of(idle_ms) == 30_000_000_000,
{
}

/// A sweep takes away exactly the sessions that have been silent for longer than the
/// timeout.
pub proof fn law_silent_session_goes(
    m: Map<u128, SessionView>,
    id: u128,
    idle_ms: u64,
    now_ms: u64,
)
    ensures
        lively(m, idle_ms, now_ms).dom().contains(id) <==> m.dom().contains(id) && now_ms
            <= m[id].last_activity_ms + idle_ms,
{
}

} // verus!
