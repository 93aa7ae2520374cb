//! The sorter: a total order over the session collection by timestamp,
//! ascending (oldest first) when requested, descending (newest first) by
//! default. Equal timestamps carry no guaranteed relative order.

use vstd::prelude::*;
use vstd::seq_lib::group_to_multiset_ensures;

use crate::model::{Session, SessionDuration};

verus! {

broadcast use group_to_multiset_ensures;

/// The order on timestamps: by whole seconds, then by the nanosecond part.
pub open spec fn ts_le(a: SessionDuration, b: SessionDuration) -> bool {
    a.secs < b.secs || (a.secs == b.secs && a.nanos <= b.nanos)
}

/// The requested order between two timestamps: `ts_le` when ascending, its
/// reverse when descending.
pub open spec fn in_order(a: SessionDuration, b: SessionDuration, ascending: bool) -> bool {
    if ascending {
        ts_le(a, b)
    } else {
        ts_le(b, a)
    }
}

/// The collection is totally ordered by timestamp in the requested
/// direction.
pub open spec fn sorted_by_timestamp(s: Seq<Session>, ascending: bool) -> bool {
    forall|i: int, j: int|
        0 <= i < j < s.len() ==> in_order(#[trigger] s[i].timestamp, #[trigger] s[j].timestamp, ascending)
}

/// Decides `in_order` on two timestamps.
fn timestamp_in_order(a: &SessionDuration, b: &SessionDuration, ascending: bool) -> (r: bool)
    ensures
        r == in_order(*a, *b, ascending),
{
    if ascending {
        a.secs < b.secs || (a.secs == b.secs && a.nanos <= b.nanos)
    } else {
        b.secs < a.secs || (b.secs == a.secs && b.nanos <= a.nanos)
    }
}

/// Sorts the collection by timestamp in the requested direction. The result
/// is a permutation of the input; entries with equal timestamps may end up
/// in either relative order.
pub fn sort_sessions(sessions: &mut Vec<Session>, ascending: bool)
    ensures
        sorted_by_timestamp(final(sessions)@, ascending),
        final(sessions)@.to_multiset() == old(sessions)@.to_multiset(),
{
    let mut i: usize = 0;
    while i < sessions.len()
        invariant
            i <= sessions@.len(),
            sessions@.to_multiset() == old(sessions)@.to_multiset(),
            sorted_by_timestamp(sessions@.take(i as int), ascending),
        decreases sessions@.len() - i,
    {
        let ghost orig = sessions@;
        let x = sessions.remove(i);
        let ghost pre = sessions@;
        let mut j: usize = i;
        while j > 0 && !timestamp_in_order(&sessions[j - 1].timestamp, &x.timestamp, ascending)
            invariant
                j <= i,
                i < orig.len(),
                pre == sessions@,
                pre == orig.remove(i as int),
                sorted_by_timestamp(pre.take(i as int), ascending),
                forall|k: int|
                    j <= k < i ==> in_order(x.timestamp, #[trigger] pre[k].timestamp, ascending),
            decreases j,
        {
            j -= 1;
        }
        sessions.insert(j, x);
        proof {
            let now = sessions@;
            assert(now == pre.insert(j as int, x));
            assert(orig.to_multiset().count(x) >= 1) by {
                assert(orig.contains(x));
            }
            assert(now.to_multiset() =~= orig.to_multiset());
            assert(forall|k: int| 0 <= k < j ==> now[k] == pre[k]);
            assert(now[j as int] == x);
            assert(forall|k: int| j < k < now.len() ==> now[k] == pre[k - 1]);
            assert forall|a: int, b: int| 0 <= a < b < i + 1 implies in_order(
                now[a].timestamp,
                now[b].timestamp,
                ascending,
            ) by {
                if b < j {
                } else if b == j {
                    assert(in_order(pre[j - 1].timestamp, x.timestamp, ascending));
                } else if a == j {
                } else if a < j {
                    if j > 0 {
                        assert(in_order(pre[j - 1].timestamp, x.timestamp, ascending));
                    }
                }
            }
            assert(sorted_by_timestamp(now.take(i as int + 1), ascending)) by {
                assert(forall|k: int| 0 <= k < i + 1 ==> now.take(i as int + 1)[k] == now[k]);
            }
        }
        i += 1;
    }
    proof {
        assert(sessions@.take(sessions@.len() as int) =~= sessions@);
    }
}

} // verus!
