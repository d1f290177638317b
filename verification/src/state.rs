//! The hold-state representation and the two transformations around it:
//! building states from raw events and playing states back as raw events.
//!
//! The builder runs three passes over the event stream: a forward scan that
//! cuts the stream into interval snapshots, a jitter filter that zeroes
//! small pointer motion, and a run-length merge of adjacent identical
//! snapshots. Each pass has a spec-level twin, and the executable functions
//! are proved to return exactly what the spec pipeline describes.

use vstd::prelude::*;

verus! {

/// The kind of a raw input event. Keycodes and axis codes are opaque
/// identifiers; only these four kinds matter to the state model.
#[derive(Clone, Copy, Debug, PartialEq, Eq, Structural)]
pub enum EventKind {
    /// A key transition: value 1 = press, 0 = release, 2 = repeat (ignored).
    Key,
    /// Relative motion: code 0/1 = pointer X/Y, 8/6 = vertical/horizontal scroll.
    RelativeAxis,
    /// A synchronization marker between event bursts.
    Synchronization,
    /// Any other event kind; never inspected.
    Other,
}

/// A single timestamped hardware-level input signal.
#[derive(Clone, Copy, Debug, PartialEq, Eq, Structural)]
pub struct RawEvent {
    /// Microseconds since an arbitrary origin; expected non-decreasing.
    pub timestamp_us: u64,
    pub kind: EventKind,
    /// Key code or axis identifier.
    pub code: u16,
    /// Press/release/repeat for keys, signed delta for axes.
    pub value: i32,
}

/// A macro state: which keys are held, and what motion accumulated, for how long.
#[derive(Debug)]
pub struct MacroState {
    /// Duration this state lasts (in milliseconds); 0 marks an unflushed
    /// terminal snapshot, never an intermediate wait.
    pub duration_ms: u64,
    /// Keys held throughout the interval, each listed once.
    pub keys_pressed: Vec<u16>,
    /// Accumulated relative pointer motion (x, y) during the interval.
    pub mouse_delta: (i32, i32),
    /// Accumulated scroll ticks (vertical, horizontal) during the interval.
    pub scroll_delta: (i32, i32),
}

/// The mathematical value of a `MacroState`: the held keys form a set.
#[verifier::ext_equal]
pub ghost struct StateModel {
    pub duration_ms: u64,
    pub keys: Set<u16>,
    pub mouse: (i32, i32),
    pub scroll: (i32, i32),
}

/// No key code occurs twice.
pub open spec fn distinct_keys(s: Seq<u16>) -> bool {
    forall|i: int, j: int| 0 <= i < j < s.len() ==> s[i] != s[j]
}

impl View for MacroState {
    type V = StateModel;

    open spec fn view(&self) -> StateModel {
        StateModel {
            duration_ms: self.duration_ms,
            keys: self.keys_pressed@.to_set(),
            mouse: self.mouse_delta,
            scroll: self.scroll_delta,
        }
    }
}

impl StateModel {
    /// A state that holds no keys and carries no motion.
    pub open spec fn is_idle(self) -> bool {
        self.keys =~= Set::<u16>::empty() && self.mouse == (0i32, 0i32) && self.scroll == (
        0i32,
        0i32,
        )
    }
}

/// The models of a sequence of states.
pub open spec fn states_view(v: Seq<MacroState>) -> Seq<StateModel> {
    v.map_values(|s: MacroState| s@)
}

// ---------------------------------------------------------------------------
// Saturating arithmetic, shared by both directions of the transformation.
// ---------------------------------------------------------------------------

pub open spec fn sat_add_u64(a: u64, b: u64) -> u64 {
    if a + b > u64::MAX {
        u64::MAX
    } else {
        (a + b) as u64
    }
}

pub open spec fn sat_mul_u64(a: u64, b: u64) -> u64 {
    if a * b > u64::MAX {
        u64::MAX
    } else {
        (a * b) as u64
    }
}

pub open spec fn sat_sub_u64(a: u64, b: u64) -> u64 {
    if a >= b {
        (a - b) as u64
    } else {
        0
    }
}

pub open spec fn sat_add_i32(a: i32, b: i32) -> i32 {
    if a + b > i32::MAX {
        i32::MAX
    } else if a + b < i32::MIN {
        i32::MIN
    } else {
        (a + b) as i32
    }
}

fn saturating_add_u64(a: u64, b: u64) -> (r: u64)
    ensures
        r == sat_add_u64(a, b),
{
    a.saturating_add(b)
}

fn saturating_mul_u64(a: u64, b: u64) -> (r: u64)
    ensures
        r == sat_mul_u64(a, b),
{
    match a.checked_mul(b) {
        Some(x) => x,
        None => u64::MAX,
    }
}

fn saturating_sub_u64(a: u64, b: u64) -> (r: u64)
    ensures
        r == sat_sub_u64(a, b),
{
    a.saturating_sub(b)
}

fn saturating_add_i32(a: i32, b: i32) -> (r: i32)
    ensures
        r == sat_add_i32(a, b),
{
    match a.checked_add(b) {
        Some(x) => x,
        None => if b < 0 {
            i32::MIN
        } else {
            i32::MAX
        },
    }
}

// ---------------------------------------------------------------------------
// Key lists as sets: duplicate-free vectors with set operations.
// ---------------------------------------------------------------------------

fn contains_key(v: &Vec<u16>, x: u16) -> (r: bool)
    ensures
        r == v@.contains(x),
{
    let mut i: usize = 0;
    while i < v.len()
        invariant
            0 <= i <= v@.len(),
            forall|j: int| 0 <= j < i ==> v@[j] != x,
        decreases v@.len() - i,
    {
        if v[i] == x {
            return true;
        }
        i += 1;
    }
    false
}

fn insert_key(v: &mut Vec<u16>, x: u16)
    requires
        distinct_keys(old(v)@),
    ensures
        distinct_keys(final(v)@),
        final(v)@.to_set() =~= old(v)@.to_set().insert(x),
{
    if !contains_key(v, x) {
        v.push(x);
        proof {
            assert forall|y: u16|
                final(v)@.to_set().contains(y) implies old(v)@.to_set().insert(x).contains(y) by {
                let k = choose|k: int| 0 <= k < final(v)@.len() && final(v)@[k] == y;
                if k < old(v)@.len() {
                    assert(old(v)@.contains(y));
                }
            }
            assert(final(v)@[final(v)@.len() - 1] == x);
            assert(final(v)@.contains(x));
            assert forall|y: u16|
                old(v)@.to_set().insert(x).contains(y) implies final(v)@.to_set().contains(y) by {
                if y == x {
                } else {
                    let k = choose|k: int| 0 <= k < old(v)@.len() && old(v)@[k] == y;
                    assert(final(v)@[k] == y);
                }
            }
        }
    } else {
        proof {
            assert(old(v)@.to_set().contains(x));
            assert(final(v)@.to_set() =~= old(v)@.to_set().insert(x));
        }
    }
}

fn find_key(v: &Vec<u16>, x: u16) -> (r: Option<usize>)
    ensures
        match r {
            Some(i) => i < v@.len() && v@[i as int] == x,
            None => !v@.contains(x),
        },
{
    let mut i: usize = 0;
    while i < v.len()
        invariant
            0 <= i <= v@.len(),
            forall|j: int| 0 <= j < i ==> v@[j] != x,
        decreases v@.len() - i,
    {
        if v[i] == x {
            return Some(i);
        }
        i += 1;
    }
    None
}

fn remove_key(v: &mut Vec<u16>, x: u16)
    requires
        distinct_keys(old(v)@),
    ensures
        distinct_keys(final(v)@),
        final(v)@.to_set() =~= old(v)@.to_set().remove(x),
{
    let ghost pre = old(v)@;
    match find_key(v, x) {
        Some(i) => {
            v.remove(i);
            proof {
                let post = v@;
                assert(post == pre.remove(i as int));
                assert forall|y: u16|
                    post.to_set().contains(y) implies pre.to_set().remove(x).contains(y) by {
                    let k = choose|k: int| 0 <= k < post.len() && post[k] == y;
                    if k < i {
                        assert(pre[k] == y);
                        assert(pre.to_set().contains(y));
                        assert(y != x);
                    } else {
                        assert(pre[k + 1] == y);
                        assert(pre.to_set().contains(y));
                        if y == x {
                            // x would occur both at i and after it, against distinctness
                            assert(pre[i as int] == x);
                            assert(i < k + 1 < pre.len());
                            assert(false);
                        }
                    }
                }
                assert forall|y: u16|
                    pre.to_set().remove(x).contains(y) implies post.to_set().contains(y) by {
                    assert(pre.contains(y));
                    let k = choose|k: int| 0 <= k < pre.len() && pre[k] == y;
                    assert(k != i);
                    if k < i {
                        assert(post[k] == y);
                        assert(post.contains(y));
                    } else {
                        assert(post[k - 1] == y);
                        assert(post.contains(y));
                    }
                }
                assert(post.to_set() =~= pre.to_set().remove(x));
                assert forall|a: int, b: int|
                    0 <= a < b < post.len() implies post[a] != post[b] by {
                    if b < i {
                    } else if a < i {
                        assert(pre[a] == post[a] && pre[b + 1] == post[b]);
                    } else {
                        assert(pre[a + 1] == post[a] && pre[b + 1] == post[b]);
                    }
                }
            }
        },
        None => {
            proof {
                assert(!pre.contains(x));
                assert(v@.to_set() =~= pre.to_set().remove(x));
            }
        },
    }
}

fn copy_keys(v: &Vec<u16>) -> (r: Vec<u16>)
    ensures
        r@ == v@,
{
    let mut r: Vec<u16> = Vec::new();
    let mut i: usize = 0;
    while i < v.len()
        invariant
            0 <= i <= v@.len(),
            r@ == v@.take(i as int),
        decreases v@.len() - i,
    {
        r.push(v[i]);
        proof {
            assert(v@.take(i as int).push(v@[i as int]) =~= v@.take(i as int + 1));
        }
        i += 1;
    }
    proof {
        assert(v@.take(v@.len() as int) =~= v@);
    }
    r
}

fn keys_subset(a: &Vec<u16>, b: &Vec<u16>) -> (r: bool)
    ensures
        r == forall|j: int| 0 <= j < a@.len() ==> b@.contains(#[trigger] a@[j]),
{
    let mut i: usize = 0;
    while i < a.len()
        invariant
            0 <= i <= a@.len(),
            forall|j: int| 0 <= j < i ==> b@.contains(#[trigger] a@[j]),
        decreases a@.len() - i,
    {
        if !contains_key(b, a[i]) {
            return false;
        }
        i += 1;
    }
    true
}

fn keys_set_equal(a: &Vec<u16>, b: &Vec<u16>) -> (r: bool)
    ensures
        r == (a@.to_set() =~= b@.to_set()),
{
    let r = keys_subset(a, b) && keys_subset(b, a);
    proof {
        if r {
            assert forall|y: u16| a@.to_set().contains(y) implies b@.to_set().contains(y) by {
                let k = choose|k: int| 0 <= k < a@.len() && a@[k] == y;
            }
            assert forall|y: u16| b@.to_set().contains(y) implies a@.to_set().contains(y) by {
                let k = choose|k: int| 0 <= k < b@.len() && b@[k] == y;
            }
        } else {
            if !(forall|j: int| 0 <= j < a@.len() ==> b@.contains(#[trigger] a@[j])) {
                let k = choose|k: int|
                    0 <= k < a@.len() && !b@.contains(#[trigger] a@[k]);
                assert(a@.to_set().contains(a@[k]));
                assert(!b@.to_set().contains(a@[k]));
            } else {
                let k = choose|k: int|
                    0 <= k < b@.len() && !a@.contains(#[trigger] b@[k]);
                assert(b@.to_set().contains(b@[k]));
                assert(!a@.to_set().contains(b@[k]));
            }
        }
    }
    r
}

// ---------------------------------------------------------------------------
// The spec pipeline: scan, jitter filter, run-length merge.
// ---------------------------------------------------------------------------

pub open spec fn snapshot(
    duration_ms: u64,
    held: Set<u16>,
    mouse: (i32, i32),
    scroll: (i32, i32),
) -> StateModel {
    StateModel { duration_ms, keys: held, mouse, scroll }
}

/// The held-key set after one event: press inserts, release removes,
/// repeat and every other kind leave it unchanged.
pub open spec fn keys_after(held: Set<u16>, e: RawEvent) -> Set<u16> {
    if e.kind == EventKind::Key {
        if e.value == 1 {
            held.insert(e.code)
        } else if e.value == 0 {
            held.remove(e.code)
        } else {
            held
        }
    } else {
        held
    }
}

/// Pointer accumulation after one event: axis 0 is X, axis 1 is Y.
pub open spec fn mouse_after(mouse: (i32, i32), e: RawEvent) -> (i32, i32) {
    if e.kind == EventKind::RelativeAxis {
        if e.code == 0 {
            (sat_add_i32(mouse.0, e.value), mouse.1)
        } else if e.code == 1 {
            (mouse.0, sat_add_i32(mouse.1, e.value))
        } else {
            mouse
        }
    } else {
        mouse
    }
}

/// Scroll accumulation after one event: axis 8 is vertical, 6 horizontal.
pub open spec fn scroll_after(scroll: (i32, i32), e: RawEvent) -> (i32, i32) {
    if e.kind == EventKind::RelativeAxis {
        if e.code == 8 {
            (sat_add_i32(scroll.0, e.value), scroll.1)
        } else if e.code == 6 {
            (scroll.0, sat_add_i32(scroll.1, e.value))
        } else {
            scroll
        }
    } else {
        scroll
    }
}

/// The forward scan: before each event, if at least one millisecond elapsed
/// since the previous one, a snapshot of the running accumulators is cut
/// (and motion resets); then the event is applied. A final snapshot of
/// duration 0 captures whatever is still open at the end.
pub open spec fn scan_from(
    events: Seq<RawEvent>,
    held: Set<u16>,
    last_ts: u64,
    mouse: (i32, i32),
    scroll: (i32, i32),
) -> Seq<StateModel>
    decreases events.len(),
{
    if events.len() == 0 {
        if snapshot(0, held, mouse, scroll).is_idle() {
            Seq::<StateModel>::empty()
        } else {
            seq![snapshot(0, held, mouse, scroll)]
        }
    } else {
        let e = events[0];
        let dur = sat_sub_u64(e.timestamp_us, last_ts) / 1000;
        let head = if dur > 0 {
            seq![snapshot(dur, held, mouse, scroll)]
        } else {
            Seq::<StateModel>::empty()
        };
        let live_mouse = if dur > 0 {
            (0i32, 0i32)
        } else {
            mouse
        };
        let live_scroll = if dur > 0 {
            (0i32, 0i32)
        } else {
            scroll
        };
        head + scan_from(
            events.drop_first(),
            keys_after(held, e),
            e.timestamp_us,
            mouse_after(live_mouse, e),
            scroll_after(live_scroll, e),
        )
    }
}

pub open spec fn scan_states(events: Seq<RawEvent>) -> Seq<StateModel> {
    if events.len() == 0 {
        Seq::<StateModel>::empty()
    } else {
        scan_from(events, Set::<u16>::empty(), 0, (0i32, 0i32), (0i32, 0i32))
    }
}

pub open spec fn abs_int(x: int) -> int {
    if x < 0 {
        -x
    } else {
        x
    }
}

/// Manhattan length of a pointer delta.
pub open spec fn manhattan(m: (i32, i32)) -> int {
    abs_int(m.0 as int) + abs_int(m.1 as int)
}

/// Jitter suppression: pointer motion shorter than 5 is forced to zero.
pub open spec fn jitter_one(s: StateModel) -> StateModel {
    if manhattan(s.mouse) < 5 {
        StateModel { duration_ms: s.duration_ms, keys: s.keys, mouse: (0i32, 0i32), scroll: s.scroll }
    } else {
        s
    }
}

pub open spec fn jitter_filter(ss: Seq<StateModel>) -> Seq<StateModel> {
    ss.map_values(|s: StateModel| jitter_one(s))
}

/// Two adjacent states collapse into one exactly when they hold the same
/// keys and neither carries any pointer or scroll motion.
pub open spec fn mergeable(a: StateModel, b: StateModel) -> bool {
    a.keys =~= b.keys && a.mouse == (0i32, 0i32) && b.mouse == (0i32, 0i32) && a.scroll == (
    0i32,
    0i32,
    ) && b.scroll == (0i32, 0i32)
}

/// Absorbing a mergeable state only lengthens the running one.
pub open spec fn absorb(cur: StateModel, next: StateModel) -> StateModel {
    StateModel {
        duration_ms: sat_add_u64(cur.duration_ms, next.duration_ms),
        keys: cur.keys,
        mouse: cur.mouse,
        scroll: cur.scroll,
    }
}

pub open spec fn merge_from(ss: Seq<StateModel>, cur: StateModel) -> Seq<StateModel>
    decreases ss.len(),
{
    if ss.len() == 0 {
        seq![cur]
    } else if mergeable(cur, ss[0]) {
        merge_from(ss.drop_first(), absorb(cur, ss[0]))
    } else {
        seq![cur] + merge_from(ss.drop_first(), ss[0])
    }
}

/// Run-length merge of adjacent identical-signature states.
pub open spec fn merge_states(ss: Seq<StateModel>) -> Seq<StateModel> {
    if ss.len() == 0 {
        Seq::<StateModel>::empty()
    } else {
        merge_from(ss.drop_first(), ss[0])
    }
}

/// The whole builder pipeline, as one spec function.
pub open spec fn build_states(events: Seq<RawEvent>) -> Seq<StateModel> {
    merge_states(jitter_filter(scan_states(events)))
}

// ---------------------------------------------------------------------------
// The executable data type.
// ---------------------------------------------------------------------------

impl MacroState {
    /// The key list is a faithful set representation.
    pub open spec fn wf(&self) -> bool {
        distinct_keys(self.keys_pressed@)
    }

    pub fn new(duration_ms: u64) -> (s: Self)
        ensures
            s.duration_ms == duration_ms,
            s.keys_pressed@ == Seq::<u16>::empty(),
            s.mouse_delta == (0i32, 0i32),
            s.scroll_delta == (0i32, 0i32),
            s.wf(),
            s@.keys =~= Set::<u16>::empty(),
    {
        let s = Self {
            duration_ms,
            keys_pressed: Vec::new(),
            mouse_delta: (0, 0),
            scroll_delta: (0, 0),
        };
        proof {
            assert(s.keys_pressed@.to_set() =~= Set::<u16>::empty());
        }
        s
    }

    /// Check whether this state has any actions: held keys or motion.
    pub fn is_empty(&self) -> (r: bool)
        ensures
            r == self@.is_idle(),
    {
        let r = self.keys_pressed.len() == 0 && self.mouse_delta.0 == 0 && self.mouse_delta.1 == 0
            && self.scroll_delta.0 == 0 && self.scroll_delta.1 == 0;
        proof {
            if self.keys_pressed@.len() == 0 {
                assert(self.keys_pressed@.to_set() =~= Set::<u16>::empty());
            } else {
                assert(self.keys_pressed@.contains(self.keys_pressed@[0]));
                assert(self.keys_pressed@.to_set().contains(self.keys_pressed@[0]));
            }
        }
        r
    }

    /// A copy that shares nothing with the original.
    pub fn duplicate(&self) -> (r: Self)
        ensures
            r.duration_ms == self.duration_ms,
            r.keys_pressed@ == self.keys_pressed@,
            r.mouse_delta == self.mouse_delta,
            r.scroll_delta == self.scroll_delta,
            r@ == self@,
    {
        MacroState {
            duration_ms: self.duration_ms,
            keys_pressed: copy_keys(&self.keys_pressed),
            mouse_delta: self.mouse_delta,
            scroll_delta: self.scroll_delta,
        }
    }
}

// ---------------------------------------------------------------------------
// The spec player: states back to a raw event stream on a virtual clock.
// ---------------------------------------------------------------------------

pub open spec fn key_event(ts: u64, code: u16, value: i32) -> RawEvent {
    RawEvent { timestamp_us: ts, kind: EventKind::Key, code, value }
}

pub open spec fn sync_event(ts: u64) -> RawEvent {
    RawEvent { timestamp_us: ts, kind: EventKind::Synchronization, code: 0, value: 0 }
}

pub open spec fn axis_event(ts: u64, code: u16, value: i32) -> RawEvent {
    RawEvent { timestamp_us: ts, kind: EventKind::RelativeAxis, code, value }
}

/// One key event per listed code, each followed by a synchronization event.
pub open spec fn key_pairs(ts: u64, keys: Seq<u16>, value: i32) -> Seq<RawEvent>
    decreases keys.len(),
{
    if keys.len() == 0 {
        Seq::<RawEvent>::empty()
    } else {
        seq![key_event(ts, keys[0], value), sync_event(ts)] + key_pairs(
            ts,
            keys.drop_first(),
            value,
        )
    }
}

/// The elements of `a` that do not occur in `b`, in `a`'s order.
pub open spec fn diff_keys(a: Seq<u16>, b: Seq<u16>) -> Seq<u16>
    decreases a.len(),
{
    if a.len() == 0 {
        Seq::<u16>::empty()
    } else if b.contains(a[0]) {
        diff_keys(a.drop_first(), b)
    } else {
        seq![a[0]] + diff_keys(a.drop_first(), b)
    }
}

/// One axis event per non-zero component (first then second), closed by
/// one synchronization event; nothing at all for a zero delta.
pub open spec fn motion_events(ts: u64, m: (i32, i32), x_code: u16, y_code: u16) -> Seq<RawEvent> {
    if m == (0i32, 0i32) {
        Seq::<RawEvent>::empty()
    } else {
        (if m.0 != 0 {
            seq![axis_event(ts, x_code, m.0)]
        } else {
            Seq::<RawEvent>::empty()
        }) + (if m.1 != 0 {
            seq![axis_event(ts, y_code, m.1)]
        } else {
            Seq::<RawEvent>::empty()
        }) + seq![sync_event(ts)]
    }
}

/// The burst of events that carries one state: releases of keys no longer
/// held come before presses of newly held keys, then pointer motion, then
/// scroll ticks — all on the same instant of the virtual clock.
pub open spec fn play_one(ts: u64, cur: Seq<u16>, st: MacroState) -> Seq<RawEvent> {
    key_pairs(ts, diff_keys(cur, st.keys_pressed@), 0) + key_pairs(
        ts,
        diff_keys(st.keys_pressed@, cur),
        1,
    ) + motion_events(ts, st.mouse_delta, 0, 1) + motion_events(ts, st.scroll_delta, 8, 6)
}

pub open spec fn play_from(states: Seq<MacroState>, ts: u64, cur: Seq<u16>) -> Seq<RawEvent>
    decreases states.len(),
{
    if states.len() == 0 {
        key_pairs(ts, cur, 0)
    } else {
        play_one(ts, cur, states[0]) + play_from(
            states.drop_first(),
            sat_add_u64(ts, sat_mul_u64(states[0].duration_ms, 1000)),
            states[0].keys_pressed@,
        )
    }
}

/// The whole player, as one spec function: the virtual clock starts at 0,
/// no key is held at the start, and every key still held after the last
/// state is released at the final clock value.
pub open spec fn play_events(states: Seq<MacroState>) -> Seq<RawEvent> {
    play_from(states, 0, Seq::<u16>::empty())
}

// ---------------------------------------------------------------------------
// The executable builder.
// ---------------------------------------------------------------------------

fn manhattan_len(m: (i32, i32)) -> (r: i64)
    ensures
        r == manhattan(m),
{
    let a: i64 = m.0 as i64;
    let b: i64 = m.1 as i64;
    let aa: i64 = if a < 0 {
        -a
    } else {
        a
    };
    let bb: i64 = if b < 0 {
        -b
    } else {
        b
    };
    aa + bb
}

/// Merge consecutive states that hold the same keys and carry no pointer
/// or scroll motion, summing their durations.
pub fn merge_consecutive_states(states: Vec<MacroState>) -> (res: Vec<MacroState>)
    ensures
        states_view(res@) == merge_states(states_view(states@)),
        (forall|i: int| 0 <= i < states@.len() ==> (#[trigger] states@[i]).wf()) ==> (forall|i: int|
            0 <= i < res@.len() ==> (#[trigger] res@[i]).wf()),
{
    if states.len() == 0 {
        proof {
            assert(states_view(states@) =~= Seq::<StateModel>::empty());
        }
        return states;
    }
    let ghost svs = states_view(states@);
    let mut merged: Vec<MacroState> = Vec::new();
    let mut current: MacroState = states[0].duplicate();
    let mut i: usize = 1;
    proof {
        assert(svs[0] == states@[0]@);
        assert(svs.skip(1) =~= svs.drop_first());
        assert(states_view(merged@) =~= Seq::<StateModel>::empty());
        assert(states_view(merged@) + merge_from(svs.skip(1), current@) =~= merge_from(
            svs.drop_first(),
            svs[0],
        ));
    }
    while i < states.len()
        invariant
            1 <= i <= states@.len(),
            svs == states_view(states@),
            svs.len() == states@.len(),
            merge_states(svs) == states_view(merged@) + merge_from(svs.skip(i as int), current@),
            (forall|k: int| 0 <= k < states@.len() ==> (#[trigger] states@[k]).wf()) ==> (
            current.wf() && forall|k: int|
                0 <= k < merged@.len() ==> (#[trigger] merged@[k]).wf()),
        decreases states@.len() - i,
    {
        let s = &states[i];
        let same = keys_set_equal(&current.keys_pressed, &s.keys_pressed);
        let can = same && current.mouse_delta.0 == 0 && current.mouse_delta.1 == 0
            && s.mouse_delta.0 == 0 && s.mouse_delta.1 == 0 && current.scroll_delta.0 == 0
            && current.scroll_delta.1 == 0 && s.scroll_delta.0 == 0 && s.scroll_delta.1 == 0;
        proof {
            assert(svs.skip(i as int)[0] == states@[i as int]@);
            assert(can == mergeable(current@, states@[i as int]@));
            assert(svs.skip(i as int).drop_first() =~= svs.skip(i as int + 1));
        }
        if can {
            let ghost pre_cur = current@;
            current.duration_ms = saturating_add_u64(current.duration_ms, s.duration_ms);
            proof {
                assert(current@ =~= absorb(pre_cur, states@[i as int]@));
            }
        } else {
            let ghost pre_merged = merged@;
            let ghost pre_cur = current@;
            merged.push(current);
            current = s.duplicate();
            proof {
                assert(current@ =~= states@[i as int]@);
                assert(states_view(merged@) =~= states_view(pre_merged) + seq![pre_cur]);
                assert(states_view(pre_merged) + (seq![pre_cur] + merge_from(
                    svs.skip(i as int + 1),
                    current@,
                )) =~= states_view(merged@) + merge_from(svs.skip(i as int + 1), current@));
            }
        }
        i += 1;
    }
    proof {
        assert(svs.skip(svs.len() as int) =~= Seq::<StateModel>::empty());
        assert(merge_from(svs.skip(svs.len() as int), current@) =~= seq![current@]);
    }
    let ghost pre_merged = merged@;
    let ghost last_cur = current@;
    merged.push(current);
    proof {
        assert(states_view(merged@) =~= states_view(pre_merged) + seq![last_cur]);
    }
    merged
}

/// Convert recorded raw events into the state-based representation:
/// scan into interval snapshots, suppress pointer jitter, merge runs.
pub fn events_to_states(events: &Vec<RawEvent>) -> (res: Vec<MacroState>)
    ensures
        states_view(res@) == build_states(events@),
        forall|i: int| 0 <= i < res@.len() ==> (#[trigger] res@[i]).wf(),
{
    if events.len() == 0 {
        let res: Vec<MacroState> = Vec::new();
        proof {
            assert(states_view(res@) =~= Seq::<StateModel>::empty());
            assert(jitter_filter(Seq::<StateModel>::empty()) =~= Seq::<StateModel>::empty());
        }
        return res;
    }
    let mut states: Vec<MacroState> = Vec::new();
    let mut held: Vec<u16> = Vec::new();
    let mut last_ts: u64 = 0;
    let mut mouse: (i32, i32) = (0, 0);
    let mut scroll: (i32, i32) = (0, 0);
    let mut i: usize = 0;
    proof {
        assert(held@.to_set() =~= Set::<u16>::empty());
        assert(events@.skip(0) =~= events@);
        assert(states_view(states@) =~= Seq::<StateModel>::empty());
        assert(states_view(states@) + scan_from(
            events@,
            Set::<u16>::empty(),
            0,
            (0i32, 0i32),
            (0i32, 0i32),
        ) =~= scan_from(events@, Set::<u16>::empty(), 0, (0i32, 0i32), (0i32, 0i32)));
    }
    while i < events.len()
        invariant
            0 <= i <= events@.len(),
            events@.len() > 0,
            distinct_keys(held@),
            forall|k: int| 0 <= k < states@.len() ==> (#[trigger] states@[k]).wf(),
            scan_states(events@) == states_view(states@) + scan_from(
                events@.skip(i as int),
                held@.to_set(),
                last_ts,
                mouse,
                scroll,
            ),
        decreases events@.len() - i,
    {
        let e = events[i];
        let ghost pre_held = held@.to_set();
        let ghost pre_states = states@;
        let ghost pre_mouse = mouse;
        let ghost pre_scroll = scroll;
        let ghost pre_ts = last_ts;
        let elapsed = saturating_sub_u64(e.timestamp_us, last_ts);
        let dur = elapsed / 1000;
        if dur > 0 {
            let snap = MacroState {
                duration_ms: dur,
                keys_pressed: copy_keys(&held),
                mouse_delta: mouse,
                scroll_delta: scroll,
            };
            proof {
                assert(snap@ =~= snapshot(dur, pre_held, pre_mouse, pre_scroll));
            }
            states.push(snap);
            mouse = (0, 0);
            scroll = (0, 0);
            proof {
                assert(states_view(states@) =~= states_view(pre_states) + seq![
                    snapshot(dur, pre_held, pre_mouse, pre_scroll),
                ]);
            }
        }
        match e.kind {
            EventKind::Key => {
                if e.value == 1 {
                    insert_key(&mut held, e.code);
                } else if e.value == 0 {
                    remove_key(&mut held, e.code);
                }
            },
            EventKind::RelativeAxis => {
                if e.code == 0 {
                    mouse = (saturating_add_i32(mouse.0, e.value), mouse.1);
                } else if e.code == 1 {
                    mouse = (mouse.0, saturating_add_i32(mouse.1, e.value));
                } else if e.code == 8 {
                    scroll = (saturating_add_i32(scroll.0, e.value), scroll.1);
                } else if e.code == 6 {
                    scroll = (scroll.0, saturating_add_i32(scroll.1, e.value));
                }
            },
            _ => {},
        }
        last_ts = e.timestamp_us;
        proof {
            let rest = events@.skip(i as int);
            let ev = events@[i as int];
            assert(rest[0] == ev);
            assert(rest.drop_first() =~= events@.skip(i as int + 1));
            let spec_dur = sat_sub_u64(ev.timestamp_us, pre_ts) / 1000;
            assert(dur == spec_dur);
            let live_mouse = if spec_dur > 0 {
                (0i32, 0i32)
            } else {
                pre_mouse
            };
            let live_scroll = if spec_dur > 0 {
                (0i32, 0i32)
            } else {
                pre_scroll
            };
            assert(held@.to_set() =~= keys_after(pre_held, ev));
            assert(mouse == mouse_after(live_mouse, ev));
            assert(scroll == scroll_after(live_scroll, ev));
            assert(scan_from(rest, pre_held, pre_ts, pre_mouse, pre_scroll) == (if spec_dur > 0 {
                seq![snapshot(spec_dur, pre_held, pre_mouse, pre_scroll)]
            } else {
                Seq::<StateModel>::empty()
            }) + scan_from(
                events@.skip(i as int + 1),
                held@.to_set(),
                ev.timestamp_us,
                mouse,
                scroll,
            ));
            if spec_dur > 0 {
                assert((states_view(pre_states) + seq![
                    snapshot(spec_dur, pre_held, pre_mouse, pre_scroll),
                ]) + scan_from(events@.skip(i as int + 1), held@.to_set(), last_ts, mouse, scroll)
                    =~= states_view(pre_states) + (seq![
                    snapshot(spec_dur, pre_held, pre_mouse, pre_scroll),
                ] + scan_from(events@.skip(i as int + 1), held@.to_set(), last_ts, mouse, scroll)));
            } else {
                assert(states_view(states@) + (Seq::<StateModel>::empty() + scan_from(
                    events@.skip(i as int + 1),
                    held@.to_set(),
                    last_ts,
                    mouse,
                    scroll,
                )) =~= states_view(states@) + scan_from(
                    events@.skip(i as int + 1),
                    held@.to_set(),
                    last_ts,
                    mouse,
                    scroll,
                ));
            }
        }
        i += 1;
    }
    proof {
        assert(events@.skip(events@.len() as int) =~= Seq::<RawEvent>::empty());
    }
    let flush = held.len() > 0 || mouse.0 != 0 || mouse.1 != 0 || scroll.0 != 0 || scroll.1 != 0;
    if flush {
        proof {
            if held@.len() > 0 {
                assert(held@.contains(held@[0]));
                assert(held@.to_set().contains(held@[0]));
            }
            assert(!snapshot(0, held@.to_set(), mouse, scroll).is_idle());
        }
        let ghost pre_states = states@;
        let ghost tail_model = snapshot(0, held@.to_set(), mouse, scroll);
        let tail_state = MacroState {
            duration_ms: 0,
            keys_pressed: held,
            mouse_delta: mouse,
            scroll_delta: scroll,
        };
        proof {
            assert(tail_state@ =~= tail_model);
        }
        states.push(tail_state);
        proof {
            assert(states_view(states@) =~= states_view(pre_states) + seq![tail_model]);
        }
    } else {
        proof {
            assert(held@.to_set() =~= Set::<u16>::empty());
            assert(snapshot(0, held@.to_set(), mouse, scroll).is_idle());
            assert(states_view(states@) + Seq::<StateModel>::empty() =~= states_view(states@));
        }
    }
    // here states_view(states@) == scan_states(events@)
    let ghost scanned = states_view(states@);
    let mut filtered: Vec<MacroState> = Vec::new();
    let mut j: usize = 0;
    proof {
        assert(states_view(filtered@) =~= Seq::<StateModel>::empty());
        assert(jitter_filter(scanned).take(0) =~= Seq::<StateModel>::empty());
    }
    while j < states.len()
        invariant
            0 <= j <= states@.len(),
            scanned == states_view(states@),
            scanned.len() == states@.len(),
            states_view(filtered@) == jitter_filter(scanned).take(j as int),
            forall|k: int| 0 <= k < states@.len() ==> (#[trigger] states@[k]).wf(),
            forall|k: int| 0 <= k < filtered@.len() ==> (#[trigger] filtered@[k]).wf(),
        decreases states@.len() - j,
    {
        let s = &states[j];
        let m = manhattan_len(s.mouse_delta);
        let nm = if m < 5 {
            (0i32, 0i32)
        } else {
            s.mouse_delta
        };
        let f = MacroState {
            duration_ms: s.duration_ms,
            keys_pressed: copy_keys(&s.keys_pressed),
            mouse_delta: nm,
            scroll_delta: s.scroll_delta,
        };
        let ghost pre_filtered = filtered@;
        proof {
            assert(scanned[j as int] == states@[j as int]@);
            assert(jitter_filter(scanned)[j as int] == jitter_one(scanned[j as int]));
            assert(f@ =~= jitter_one(states@[j as int]@));
        }
        filtered.push(f);
        proof {
            assert(states_view(filtered@) =~= states_view(pre_filtered) + seq![f@]);
            assert(jitter_filter(scanned).take(j as int + 1) =~= jitter_filter(scanned).take(
                j as int,
            ) + seq![jitter_one(scanned[j as int])]);
        }
        j += 1;
    }
    proof {
        assert(jitter_filter(scanned).take(scanned.len() as int) =~= jitter_filter(scanned));
    }
    merge_consecutive_states(filtered)
}

// ---------------------------------------------------------------------------
// The executable player.
// ---------------------------------------------------------------------------

fn key_diff(a: &Vec<u16>, b: &Vec<u16>) -> (r: Vec<u16>)
    ensures
        r@ == diff_keys(a@, b@),
{
    let mut r: Vec<u16> = Vec::new();
    let mut i: usize = 0;
    proof {
        assert(a@.skip(0) =~= a@);
        assert(Seq::<u16>::empty() + diff_keys(a@, b@) =~= diff_keys(a@, b@));
    }
    while i < a.len()
        invariant
            0 <= i <= a@.len(),
            diff_keys(a@, b@) == r@ + diff_keys(a@.skip(i as int), b@),
        decreases a@.len() - i,
    {
        proof {
            assert(a@.skip(i as int)[0] == a@[i as int]);
            assert(a@.skip(i as int).drop_first() =~= a@.skip(i as int + 1));
        }
        if !contains_key(b, a[i]) {
            let ghost pre = r@;
            r.push(a[i]);
            proof {
                assert(pre + (seq![a@[i as int]] + diff_keys(a@.skip(i as int + 1), b@)) =~= r@
                    + diff_keys(a@.skip(i as int + 1), b@));
            }
        }
        i += 1;
    }
    proof {
        assert(a@.skip(a@.len() as int) =~= Seq::<u16>::empty());
        assert(r@ + Seq::<u16>::empty() =~= r@);
    }
    r
}

fn push_key_pairs(events: &mut Vec<RawEvent>, ts: u64, keys: &Vec<u16>, value: i32)
    ensures
        final(events)@ == old(events)@ + key_pairs(ts, keys@, value),
{
    let mut i: usize = 0;
    proof {
        assert(keys@.skip(0) =~= keys@);
    }
    while i < keys.len()
        invariant
            0 <= i <= keys@.len(),
            old(events)@ + key_pairs(ts, keys@, value) == events@ + key_pairs(
                ts,
                keys@.skip(i as int),
                value,
            ),
        decreases keys@.len() - i,
    {
        let ghost pre = events@;
        proof {
            assert(keys@.skip(i as int)[0] == keys@[i as int]);
            assert(keys@.skip(i as int).drop_first() =~= keys@.skip(i as int + 1));
        }
        events.push(
            RawEvent { timestamp_us: ts, kind: EventKind::Key, code: keys[i], value },
        );
        events.push(
            RawEvent { timestamp_us: ts, kind: EventKind::Synchronization, code: 0, value: 0 },
        );
        proof {
            assert(pre + (seq![key_event(ts, keys@[i as int], value), sync_event(ts)] + key_pairs(
                ts,
                keys@.skip(i as int + 1),
                value,
            )) =~= events@ + key_pairs(ts, keys@.skip(i as int + 1), value));
        }
        i += 1;
    }
    proof {
        assert(keys@.skip(keys@.len() as int) =~= Seq::<u16>::empty());
        assert(events@ + Seq::<RawEvent>::empty() =~= events@);
    }
}

/// Play one motion delta: an axis event per non-zero component, then one
/// synchronization event; nothing for a zero delta.
fn push_motion(events: &mut Vec<RawEvent>, ts: u64, m: (i32, i32), x_code: u16, y_code: u16)
    ensures
        final(events)@ == old(events)@ + motion_events(ts, m, x_code, y_code),
{
    let ghost pre = events@;
    if m.0 != 0 || m.1 != 0 {
        if m.0 != 0 {
            events.push(RawEvent { timestamp_us: ts, kind: EventKind::RelativeAxis, code: x_code, value: m.0 });
        }
        if m.1 != 0 {
            events.push(RawEvent { timestamp_us: ts, kind: EventKind::RelativeAxis, code: y_code, value: m.1 });
        }
        events.push(
            RawEvent { timestamp_us: ts, kind: EventKind::Synchronization, code: 0, value: 0 },
        );
        proof {
            assert(events@ =~= pre + motion_events(ts, m, x_code, y_code));
        }
    } else {
        proof {
            assert(m == (0i32, 0i32));
            assert(events@ =~= pre + motion_events(ts, m, x_code, y_code));
        }
    }
}

/// Convert the state-based representation back into a raw event stream
/// suitable for injection, on a synthetic clock starting at 0.
pub fn states_to_events(states: &Vec<MacroState>) -> (res: Vec<RawEvent>)
    ensures
        res@ == play_events(states@),
{
    let mut events: Vec<RawEvent> = Vec::new();
    let mut clock: u64 = 0;
    let mut cur: Vec<u16> = Vec::new();
    let mut i: usize = 0;
    proof {
        assert(states@.skip(0) =~= states@);
        assert(cur@ =~= Seq::<u16>::empty());
        assert(events@ + play_from(states@, 0, Seq::<u16>::empty()) =~= play_from(
            states@,
            0,
            Seq::<u16>::empty(),
        ));
    }
    while i < states.len()
        invariant
            0 <= i <= states@.len(),
            play_events(states@) == events@ + play_from(states@.skip(i as int), clock, cur@),
        decreases states@.len() - i,
    {
        let st = &states[i];
        let ghost pre_events = events@;
        let ghost pre_cur = cur@;
        let ghost pre_clock = clock;
        proof {
            assert(states@.skip(i as int)[0] == states@[i as int]);
            assert(states@.skip(i as int).drop_first() =~= states@.skip(i as int + 1));
        }
        let to_release = key_diff(&cur, &st.keys_pressed);
        let to_press = key_diff(&st.keys_pressed, &cur);
        push_key_pairs(&mut events, clock, &to_release, 0);
        push_key_pairs(&mut events, clock, &to_press, 1);
        push_motion(&mut events, clock, st.mouse_delta, 0, 1);
        push_motion(&mut events, clock, st.scroll_delta, 8, 6);
        cur = copy_keys(&st.keys_pressed);
        clock = saturating_add_u64(clock, saturating_mul_u64(st.duration_ms, 1000));
        proof {
            let stm = states@[i as int];
            assert(events@ =~= pre_events + play_one(pre_clock, pre_cur, stm));
            assert(pre_events + (play_one(pre_clock, pre_cur, stm) + play_from(
                states@.skip(i as int + 1),
                clock,
                cur@,
            )) =~= events@ + play_from(states@.skip(i as int + 1), clock, cur@));
        }
        i += 1;
    }
    proof {
        assert(states@.skip(states@.len() as int) =~= Seq::<MacroState>::empty());
    }
    push_key_pairs(&mut events, clock, &cur, 0);
    events
}

} // verus!
