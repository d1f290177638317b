//! General laws of the state pipeline, stated over the spec-level model
//! and proved once for every input.

use vstd::prelude::*;
use vstd::arithmetic::div_mod::{
    lemma_basic_div, lemma_div_multiples_vanish, lemma_fundamental_div_mod,
    lemma_mod_multiples_basic,
};

use crate::state::{
    absorb, build_states, jitter_filter, jitter_one, manhattan, merge_from, merge_states,
    mergeable, sat_add_u64, sat_sub_u64, scan_from, scan_states, RawEvent, StateModel,
};

verus! {

/// No two adjacent states share an identical signature: same held keys and
/// neither carrying any pointer or scroll motion.
pub open spec fn no_adjacent_mergeable(ss: Seq<StateModel>) -> bool {
    forall|i: int| 0 <= i < ss.len() - 1 ==> !mergeable(#[trigger] ss[i], ss[i + 1])
}

/// A state's pointer motion is either zero or of Manhattan length at least 5.
pub open spec fn jitter_bounded(s: StateModel) -> bool {
    manhattan(s.mouse) == 0 || manhattan(s.mouse) >= 5
}

/// The sum of all durations in a state sequence, in milliseconds.
pub open spec fn total_duration(ss: Seq<StateModel>) -> int
    decreases ss.len(),
{
    if ss.len() == 0 {
        0
    } else {
        ss[0].duration_ms + total_duration(ss.drop_first())
    }
}

/// Building states from no events yields no states.
pub proof fn lemma_build_states_empty()
    ensures
        build_states(Seq::<RawEvent>::empty()) == Seq::<StateModel>::empty(),
{
    assert(scan_states(Seq::<RawEvent>::empty()) == Seq::<StateModel>::empty());
    assert(jitter_filter(Seq::<StateModel>::empty()) =~= Seq::<StateModel>::empty());
}

/// The head of a merge keeps the running state's signature, and no two
/// adjacent states of the result are mergeable.
proof fn lemma_merge_from_shape(ss: Seq<StateModel>, cur: StateModel)
    ensures
        merge_from(ss, cur).len() >= 1,
        merge_from(ss, cur)[0].keys =~= cur.keys,
        merge_from(ss, cur)[0].mouse == cur.mouse,
        merge_from(ss, cur)[0].scroll == cur.scroll,
        no_adjacent_mergeable(merge_from(ss, cur)),
    decreases ss.len(),
{
    if ss.len() == 0 {
    } else if mergeable(cur, ss[0]) {
        lemma_merge_from_shape(ss.drop_first(), absorb(cur, ss[0]));
    } else {
        lemma_merge_from_shape(ss.drop_first(), ss[0]);
        let tail = merge_from(ss.drop_first(), ss[0]);
        let r = seq![cur] + tail;
        assert(r[0] == cur);
        assert forall|k: int| 0 <= k < r.len() - 1 implies !mergeable(#[trigger] r[k], r[k + 1]) by {
            if k == 0 {
                assert(r[1] == tail[0]);
                if mergeable(cur, tail[0]) {
                    assert(mergeable(cur, ss[0]));
                }
            } else {
                assert(r[k] == tail[k - 1] && r[k + 1] == tail[k]);
            }
        }
    }
}

/// Merging a sequence whose adjacent states are already unmergeable copies it.
proof fn lemma_merge_from_already(ss: Seq<StateModel>, cur: StateModel)
    requires
        no_adjacent_mergeable(seq![cur] + ss),
    ensures
        merge_from(ss, cur) == seq![cur] + ss,
    decreases ss.len(),
{
    if ss.len() == 0 {
        assert(merge_from(ss, cur) =~= seq![cur] + ss);
    } else {
        let full = seq![cur] + ss;
        assert(full[0] == cur && full[1] == ss[0]);
        assert(!mergeable(cur, ss[0]));
        assert(seq![ss[0]] + ss.drop_first() =~= ss);
        assert forall|k: int| 0 <= k < ss.len() - 1 implies !mergeable(#[trigger] ss[k], ss[k + 1]) by {
            assert(full[k + 1] == ss[k] && full[k + 2] == ss[k + 1]);
        }
        lemma_merge_from_already(ss.drop_first(), ss[0]);
        assert(seq![cur] + (seq![ss[0]] + ss.drop_first()) =~= seq![cur] + ss);
    }
}

/// Run-length merging is idempotent: merging an already merged sequence
/// changes nothing.
pub proof fn lemma_merge_idempotent(ss: Seq<StateModel>)
    ensures
        merge_states(merge_states(ss)) == merge_states(ss),
{
    if ss.len() > 0 {
        let out = merge_from(ss.drop_first(), ss[0]);
        lemma_merge_from_shape(ss.drop_first(), ss[0]);
        assert(seq![out[0]] + out.drop_first() =~= out);
        lemma_merge_from_already(out.drop_first(), out[0]);
    }
}

/// Merging preserves the jitter bound: the merged head keeps the running
/// state's motion, and every other state comes from the input.
proof fn lemma_merge_from_jitter(ss: Seq<StateModel>, cur: StateModel)
    requires
        jitter_bounded(cur),
        forall|k: int| 0 <= k < ss.len() ==> jitter_bounded(#[trigger] ss[k]),
    ensures
        forall|k: int|
            0 <= k < merge_from(ss, cur).len() ==> jitter_bounded(
                #[trigger] merge_from(ss, cur)[k],
            ),
    decreases ss.len(),
{
    if ss.len() == 0 {
        assert forall|k: int|
            0 <= k < merge_from(ss, cur).len() implies jitter_bounded(
            #[trigger] merge_from(ss, cur)[k]) by {
            assert(merge_from(ss, cur)[0] == cur);
        }
    } else {
        assert forall|k: int|
            0 <= k < ss.drop_first().len() implies jitter_bounded(
            #[trigger] ss.drop_first()[k]) by {
            assert(ss.drop_first()[k] == ss[k + 1]);
        }
        if mergeable(cur, ss[0]) {
            assert(jitter_bounded(absorb(cur, ss[0])));
            lemma_merge_from_jitter(ss.drop_first(), absorb(cur, ss[0]));
            assert forall|k: int|
                0 <= k < merge_from(ss, cur).len() implies jitter_bounded(
                #[trigger] merge_from(ss, cur)[k]) by {
                assert(merge_from(ss, cur)[k] == merge_from(ss.drop_first(), absorb(cur, ss[0]))[
                    k
                ]);
            }
        } else {
            assert(jitter_bounded(ss[0]));
            lemma_merge_from_jitter(ss.drop_first(), ss[0]);
            let tail = merge_from(ss.drop_first(), ss[0]);
            assert forall|k: int|
                0 <= k < merge_from(ss, cur).len() implies jitter_bounded(
                #[trigger] merge_from(ss, cur)[k]) by {
                assert(merge_from(ss, cur) == seq![cur] + tail);
                if k > 0 {
                    assert((seq![cur] + tail)[k] == tail[k - 1]);
                } else {
                    assert((seq![cur] + tail)[0] == cur);
                }
            }
        }
    }
}

/// Every built state's pointer motion is either exactly zero or of
/// Manhattan length at least 5: smaller motion was filtered as jitter.
pub proof fn lemma_jitter_bound(events: Seq<RawEvent>)
    ensures
        forall|k: int|
            0 <= k < build_states(events).len() ==> jitter_bounded(
                #[trigger] build_states(events)[k],
            ),
{
    let sc = scan_states(events);
    let jf = jitter_filter(sc);
    assert forall|k: int| 0 <= k < jf.len() implies jitter_bounded(#[trigger] jf[k]) by {
        assert(jf[k] == jitter_one(sc[k]));
    }
    if jf.len() > 0 {
        assert forall|k: int|
            0 <= k < jf.drop_first().len() implies jitter_bounded(
            #[trigger] jf.drop_first()[k]) by {
            assert(jf.drop_first()[k] == jf[k + 1]);
        }
        lemma_merge_from_jitter(jf.drop_first(), jf[0]);
    }
}

/// No two adjacent built states share an identical signature of held keys
/// with zero pointer and scroll motion.
pub proof fn lemma_no_adjacent_states(events: Seq<RawEvent>)
    ensures
        no_adjacent_mergeable(build_states(events)),
{
    let jf = jitter_filter(scan_states(events));
    if jf.len() > 0 {
        lemma_merge_from_shape(jf.drop_first(), jf[0]);
    }
}

proof fn lemma_total_duration_nonneg(ss: Seq<StateModel>)
    ensures
        total_duration(ss) >= 0,
    decreases ss.len(),
{
    if ss.len() > 0 {
        lemma_total_duration_nonneg(ss.drop_first());
    }
}

proof fn lemma_total_duration_concat(a: Seq<StateModel>, b: Seq<StateModel>)
    ensures
        total_duration(a + b) == total_duration(a) + total_duration(b),
    decreases a.len(),
{
    if a.len() == 0 {
        assert(a + b =~= b);
    } else {
        lemma_total_duration_concat(a.drop_first(), b);
        assert((a + b).drop_first() =~= a.drop_first() + b);
        assert((a + b)[0] == a[0]);
    }
}

/// The jitter filter never changes durations.
proof fn lemma_jitter_total(ss: Seq<StateModel>)
    ensures
        total_duration(jitter_filter(ss)) == total_duration(ss),
    decreases ss.len(),
{
    if ss.len() == 0 {
        assert(jitter_filter(ss) =~= Seq::<StateModel>::empty());
    } else {
        lemma_jitter_total(ss.drop_first());
        assert(jitter_filter(ss).drop_first() =~= jitter_filter(ss.drop_first()));
        assert(jitter_filter(ss)[0] == jitter_one(ss[0]));
    }
}

/// Merging redistributes durations but never changes their sum, as long as
/// the sum fits the duration type.
proof fn lemma_merge_from_total(ss: Seq<StateModel>, cur: StateModel)
    requires
        cur.duration_ms + total_duration(ss) <= u64::MAX,
    ensures
        total_duration(merge_from(ss, cur)) == cur.duration_ms + total_duration(ss),
    decreases ss.len(),
{
    if ss.len() == 0 {
        assert(total_duration(Seq::<StateModel>::empty()) == 0);
        assert(seq![cur].drop_first() =~= Seq::<StateModel>::empty());
        assert(merge_from(ss, cur) == seq![cur]);
        assert(total_duration(seq![cur]) == cur.duration_ms + total_duration(
            seq![cur].drop_first(),
        ));
        assert(total_duration(merge_from(ss, cur)) == cur.duration_ms as int);
    } else {
        lemma_total_duration_nonneg(ss.drop_first());
        if mergeable(cur, ss[0]) {
            assert(sat_add_u64(cur.duration_ms, ss[0].duration_ms) == cur.duration_ms
                + ss[0].duration_ms);
            lemma_merge_from_total(ss.drop_first(), absorb(cur, ss[0]));
        } else {
            lemma_merge_from_total(ss.drop_first(), ss[0]);
            let tail = merge_from(ss.drop_first(), ss[0]);
            assert((seq![cur] + tail).drop_first() =~= tail);
            assert((seq![cur] + tail)[0] == cur);
        }
    }
}

/// The scan accounts for the whole span between the first processed
/// timestamp and the last, once every gap is a whole number of milliseconds.
proof fn lemma_scan_from_total(
    events: Seq<RawEvent>,
    held: Set<u16>,
    last_ts: u64,
    mouse: (i32, i32),
    scroll: (i32, i32),
)
    requires
        events.len() > 0,
        last_ts <= events[0].timestamp_us,
        (events[0].timestamp_us - last_ts) % 1000 == 0,
        forall|k: int|
            1 <= k < events.len() ==> (#[trigger] events[k].timestamp_us)
                >= events[k - 1].timestamp_us,
        forall|k: int|
            1 <= k < events.len() ==> ((#[trigger] events[k].timestamp_us)
                - events[k - 1].timestamp_us) % 1000 == 0,
    ensures
        total_duration(scan_from(events, held, last_ts, mouse, scroll)) == (
        events.last().timestamp_us - last_ts) / 1000,
        (events.last().timestamp_us - last_ts) % 1000 == 0,
        events.last().timestamp_us >= last_ts,
    decreases events.len(),
{
    let e = events[0];
    let gap = e.timestamp_us - last_ts;
    let dur = sat_sub_u64(e.timestamp_us, last_ts) / 1000;
    lemma_fundamental_div_mod(gap, 1000);
    let k1 = gap / 1000;
    assert(gap == 1000 * k1);
    assert(dur == k1);
    let head = if dur > 0 {
        seq![crate::state::snapshot(dur, held, mouse, scroll)]
    } else {
        Seq::<StateModel>::empty()
    };
    assert(total_duration(head) == k1) by {
        assert(total_duration(Seq::<StateModel>::empty()) == 0);
        if dur > 0 {
            assert(head.drop_first() =~= Seq::<StateModel>::empty());
            assert(total_duration(head) == head[0].duration_ms + total_duration(
                head.drop_first(),
            ));
        }
    }
    let rest = events.drop_first();
    let tail = scan_from(
        rest,
        crate::state::keys_after(held, e),
        e.timestamp_us,
        crate::state::mouse_after(
            if dur > 0 {
                (0i32, 0i32)
            } else {
                mouse
            },
            e,
        ),
        crate::state::scroll_after(
            if dur > 0 {
                (0i32, 0i32)
            } else {
                scroll
            },
            e,
        ),
    );
    lemma_total_duration_concat(head, tail);
    if rest.len() == 0 {
        // only the terminal flush remains, and it carries duration 0
        assert(total_duration(tail) == 0) by {
            if !crate::state::snapshot(
                0,
                crate::state::keys_after(held, e),
                crate::state::mouse_after(
                    if dur > 0 {
                        (0i32, 0i32)
                    } else {
                        mouse
                    },
                    e,
                ),
                crate::state::scroll_after(
                    if dur > 0 {
                        (0i32, 0i32)
                    } else {
                        scroll
                    },
                    e,
                ),
            ).is_idle() {
                assert(tail.drop_first() =~= Seq::<StateModel>::empty());
                assert(total_duration(Seq::<StateModel>::empty()) == 0);
                assert(total_duration(tail) == tail[0].duration_ms + total_duration(
                    tail.drop_first(),
                ));
                assert(tail[0].duration_ms == 0);
            }
        }
        assert(events.last() == e);
        lemma_div_multiples_vanish(k1, 1000);
    } else {
        assert(rest[0] == events[1]);
        assert forall|k: int|
            1 <= k < rest.len() implies (#[trigger] rest[k].timestamp_us)
            >= rest[k - 1].timestamp_us by {
            assert(rest[k] == events[k + 1] && rest[k - 1] == events[k]);
        }
        assert forall|k: int|
            1 <= k < rest.len() implies ((#[trigger] rest[k].timestamp_us)
            - rest[k - 1].timestamp_us) % 1000 == 0 by {
            assert(rest[k] == events[k + 1] && rest[k - 1] == events[k]);
        }
        lemma_scan_from_total(
            rest,
            crate::state::keys_after(held, e),
            e.timestamp_us,
            crate::state::mouse_after(
                if dur > 0 {
                    (0i32, 0i32)
                } else {
                    mouse
                },
                e,
            ),
            crate::state::scroll_after(
                if dur > 0 {
                    (0i32, 0i32)
                } else {
                    scroll
                },
                e,
            ),
        );
        let span2 = rest.last().timestamp_us - e.timestamp_us;
        lemma_fundamental_div_mod(span2, 1000);
        let k2 = span2 / 1000;
        assert(span2 == 1000 * k2);
        assert(rest.last() == events.last());
        let span = events.last().timestamp_us - last_ts;
        assert(span == 1000 * (k1 + k2));
        lemma_div_multiples_vanish(k1 + k2, 1000);
        lemma_mod_multiples_basic(k1 + k2, 1000);
        assert((1000 * (k1 + k2)) % 1000 == ((k1 + k2) * 1000) % 1000);
    }
}

/// Duration accounting: when timestamps never decrease, the recording
/// starts within the first millisecond, and every later gap is a whole
/// number of milliseconds, the durations of the built states add up to the
/// elapsed time between the first and the last event, in milliseconds.
/// A trailing zero-duration terminal state adds nothing to that sum.
pub proof fn lemma_duration_accounting(events: Seq<RawEvent>)
    requires
        events.len() > 0,
        events[0].timestamp_us < 1000,
        forall|k: int|
            1 <= k < events.len() ==> (#[trigger] events[k].timestamp_us)
                >= events[k - 1].timestamp_us,
        forall|k: int|
            1 <= k < events.len() ==> ((#[trigger] events[k].timestamp_us)
                - events[k - 1].timestamp_us) % 1000 == 0,
    ensures
        total_duration(build_states(events)) == (events.last().timestamp_us
            - events[0].timestamp_us) / 1000,
{
    let e = events[0];
    let sc = scan_states(events);
    assert(sc == scan_from(events, Set::<u16>::empty(), 0, (0i32, 0i32), (0i32, 0i32)));
    lemma_basic_div(e.timestamp_us as int, 1000);
    let dur0 = sat_sub_u64(e.timestamp_us, 0) / 1000;
    assert(dur0 == 0);
    let tail = scan_from(
        events.drop_first(),
        crate::state::keys_after(Set::<u16>::empty(), e),
        e.timestamp_us,
        crate::state::mouse_after((0i32, 0i32), e),
        crate::state::scroll_after((0i32, 0i32), e),
    );
    assert(sc == Seq::<StateModel>::empty() + tail);
    assert(Seq::<StateModel>::empty() + tail =~= tail);
    let span = events.last().timestamp_us - e.timestamp_us;
    if events.len() == 1 {
        assert(total_duration(sc) == 0) by {
            if !crate::state::snapshot(
                0,
                crate::state::keys_after(Set::<u16>::empty(), e),
                crate::state::mouse_after((0i32, 0i32), e),
                crate::state::scroll_after((0i32, 0i32), e),
            ).is_idle() {
                assert(tail.drop_first() =~= Seq::<StateModel>::empty());
                assert(total_duration(Seq::<StateModel>::empty()) == 0);
                assert(total_duration(tail) == tail[0].duration_ms + total_duration(
                    tail.drop_first(),
                ));
                assert(tail[0].duration_ms == 0);
            }
        }
        assert(span == 0);
        lemma_basic_div(0, 1000);
    } else {
        let rest = events.drop_first();
        assert(rest[0] == events[1]);
        assert forall|k: int|
            1 <= k < rest.len() implies (#[trigger] rest[k].timestamp_us)
            >= rest[k - 1].timestamp_us by {
            assert(rest[k] == events[k + 1] && rest[k - 1] == events[k]);
        }
        assert forall|k: int|
            1 <= k < rest.len() implies ((#[trigger] rest[k].timestamp_us)
            - rest[k - 1].timestamp_us) % 1000 == 0 by {
            assert(rest[k] == events[k + 1] && rest[k - 1] == events[k]);
        }
        lemma_scan_from_total(
            rest,
            crate::state::keys_after(Set::<u16>::empty(), e),
            e.timestamp_us,
            crate::state::mouse_after((0i32, 0i32), e),
            crate::state::scroll_after((0i32, 0i32), e),
        );
        assert(rest.last() == events.last());
        assert(total_duration(sc) == span / 1000);
    }
    // the filter keeps durations, the merge keeps their sum
    let jf = jitter_filter(sc);
    lemma_jitter_total(sc);
    lemma_fundamental_div_mod(span, 1000);
    lemma_total_duration_nonneg(sc);
    if jf.len() == 0 {
        assert(build_states(events) == Seq::<StateModel>::empty());
        assert(total_duration(Seq::<StateModel>::empty()) == 0);
    } else {
        assert(total_duration(jf) == jf[0].duration_ms + total_duration(jf.drop_first()));
        assert(total_duration(jf) <= u64::MAX) by {
            assert(total_duration(jf) == span / 1000);
            assert(span <= u64::MAX);
            assert(span / 1000 <= u64::MAX);
        }
        lemma_merge_from_total(jf.drop_first(), jf[0]);
    }
}

} // verus!
