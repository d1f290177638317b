use macro_states::state::{
    events_to_states, merge_consecutive_states, states_to_events, EventKind, MacroState, RawEvent,
};

fn key(timestamp_us: u64, code: u16, value: i32) -> RawEvent {
    RawEvent { timestamp_us, kind: EventKind::Key, code, value }
}

fn axis(timestamp_us: u64, code: u16, value: i32) -> RawEvent {
    RawEvent { timestamp_us, kind: EventKind::RelativeAxis, code, value }
}

fn plain_state(duration_ms: u64, keys: Vec<u16>) -> MacroState {
    MacroState { duration_ms, keys_pressed: keys, mouse_delta: (0, 0), scroll_delta: (0, 0) }
}

#[test]
fn test_empty_events() {
    let states = events_to_states(&vec![]);
    assert!(states.is_empty());
}

#[test]
fn test_single_key_press() {
    let events = vec![
        key(0, 17, 1),       // W press
        key(100_000, 17, 0), // W release, 100ms later
    ];

    let states = events_to_states(&events);
    assert_eq!(states.len(), 1);
    assert_eq!(states[0].duration_ms, 100);
    assert!(states[0].keys_pressed.contains(&17));
}

#[test]
fn test_merge_consecutive_states() {
    let states = vec![plain_state(10, vec![17]), plain_state(20, vec![17])];

    let merged = merge_consecutive_states(states);
    assert_eq!(merged.len(), 1);
    assert_eq!(merged[0].duration_ms, 30);
}

#[test]
fn test_wait_gap_between_keys() {
    // Press W, hold for 100ms, release, wait 6000ms, press A
    let events = vec![
        key(0, 17, 1),
        key(100_000, 17, 0),
        key(6_100_000, 30, 1),
        key(6_200_000, 30, 0),
    ];

    let states = events_to_states(&events);

    assert_eq!(states.len(), 3);

    // First state: W held
    assert_eq!(states[0].duration_ms, 100);
    assert!(states[0].keys_pressed.contains(&17));

    // Second state: Wait (no keys)
    assert_eq!(states[1].duration_ms, 6000);
    assert!(states[1].keys_pressed.is_empty());

    // Third state: A held
    assert_eq!(states[2].duration_ms, 100);
    assert!(states[2].keys_pressed.contains(&30));
}

#[test]
fn test_merge_is_idempotent_on_concrete_input() {
    let build = || {
        vec![
            plain_state(10, vec![17]),
            plain_state(20, vec![17]),
            MacroState {
                duration_ms: 5,
                keys_pressed: vec![17],
                mouse_delta: (6, 0),
                scroll_delta: (0, 0),
            },
            plain_state(7, vec![]),
            plain_state(8, vec![]),
        ]
    };
    let once = merge_consecutive_states(build());
    let once_again = merge_consecutive_states(build());
    let twice = merge_consecutive_states(once_again);
    assert_eq!(once.len(), 3);
    assert_eq!(twice.len(), once.len());
    for (a, b) in once.iter().zip(twice.iter()) {
        assert_eq!(a.duration_ms, b.duration_ms);
        assert_eq!(a.keys_pressed, b.keys_pressed);
        assert_eq!(a.mouse_delta, b.mouse_delta);
        assert_eq!(a.scroll_delta, b.scroll_delta);
    }
}

#[test]
fn test_small_mouse_motion_is_jitter() {
    // 3 units of motion in total: below the threshold of 5, so zeroed
    let events = vec![axis(0, 0, 2), axis(0, 1, -1), key(1_000_000, 30, 1)];
    let states = events_to_states(&events);
    assert_eq!(states.len(), 2);
    assert_eq!(states[0].duration_ms, 1000);
    assert_eq!(states[0].mouse_delta, (0, 0));
    assert_eq!(states[1].duration_ms, 0);
    assert!(states[1].keys_pressed.contains(&30));
}

#[test]
fn test_mouse_motion_at_threshold_is_kept() {
    // |3| + |-2| == 5: exactly at the threshold, kept
    let events = vec![axis(0, 0, 3), axis(0, 1, -2), key(1_000_000, 30, 1)];
    let states = events_to_states(&events);
    assert_eq!(states.len(), 2);
    assert_eq!(states[0].mouse_delta, (3, -2));
}

#[test]
fn test_scroll_accumulates_per_axis() {
    let events = vec![axis(0, 8, 2), axis(0, 6, -1), key(500_000, 30, 1)];
    let states = events_to_states(&events);
    assert_eq!(states.len(), 2);
    assert_eq!(states[0].duration_ms, 500);
    assert_eq!(states[0].scroll_delta, (2, -1));
    assert_eq!(states[0].mouse_delta, (0, 0));
    assert_eq!(states[1].duration_ms, 0);
    assert!(states[1].keys_pressed.contains(&30));
}

#[test]
fn test_out_of_order_timestamp_clamps_to_zero() {
    let events = vec![key(1_000_000, 17, 1), key(0, 17, 0)];
    let states = events_to_states(&events);
    // the leading wait is emitted; the out-of-order release still applies
    assert_eq!(states.len(), 1);
    assert_eq!(states[0].duration_ms, 1000);
    assert!(states[0].keys_pressed.is_empty());
}

#[test]
fn test_key_repeat_is_ignored_and_runs_merge() {
    let events = vec![key(0, 17, 1), key(50_000, 17, 2), key(100_000, 17, 0)];
    let states = events_to_states(&events);
    assert_eq!(states.len(), 1);
    assert_eq!(states[0].duration_ms, 100);
    assert!(states[0].keys_pressed.contains(&17));
}

#[test]
fn test_unknown_kind_and_axis_are_ignored() {
    let events = vec![
        RawEvent { timestamp_us: 0, kind: EventKind::Other, code: 5, value: 9 },
        axis(0, 3, 44), // unknown relative axis
        key(200_000, 30, 1),
    ];
    let states = events_to_states(&events);
    assert_eq!(states.len(), 2);
    assert_eq!(states[0].duration_ms, 200);
    assert_eq!(states[0].mouse_delta, (0, 0));
    assert_eq!(states[0].scroll_delta, (0, 0));
    assert!(states[0].keys_pressed.is_empty());
}

#[test]
fn test_no_adjacent_identical_states_in_output() {
    let events = vec![
        key(0, 17, 1),
        key(100_000, 17, 0),
        key(6_100_000, 30, 1),
        key(6_200_000, 30, 0),
    ];
    let states = events_to_states(&events);
    for w in states.windows(2) {
        let same_keys = w[0].keys_pressed == w[1].keys_pressed;
        let both_still = w[0].mouse_delta == (0, 0) && w[1].mouse_delta == (0, 0)
            && w[0].scroll_delta == (0, 0) && w[1].scroll_delta == (0, 0);
        assert!(!(same_keys && both_still));
    }
}

#[test]
fn test_duration_sum_accounts_for_elapsed_time() {
    let events = vec![
        key(0, 17, 1),
        key(100_000, 17, 0),
        key(6_100_000, 30, 1),
        key(6_200_000, 30, 0),
    ];
    let states = events_to_states(&events);
    let total: u64 = states.iter().map(|s| s.duration_ms).sum();
    assert_eq!(total, (6_200_000 - 0) / 1000);
}

#[test]
fn test_states_to_events_empty() {
    let events = states_to_events(&vec![]);
    assert!(events.is_empty());
}

#[test]
fn test_states_to_events_motion_only() {
    let states = vec![MacroState {
        duration_ms: 10,
        keys_pressed: vec![],
        mouse_delta: (7, -3),
        scroll_delta: (1, 0),
    }];
    let events = states_to_events(&states);
    assert_eq!(events.len(), 5);
    assert_eq!(
        events[0],
        RawEvent { timestamp_us: 0, kind: EventKind::RelativeAxis, code: 0, value: 7 }
    );
    assert_eq!(
        events[1],
        RawEvent { timestamp_us: 0, kind: EventKind::RelativeAxis, code: 1, value: -3 }
    );
    assert_eq!(
        events[2],
        RawEvent { timestamp_us: 0, kind: EventKind::Synchronization, code: 0, value: 0 }
    );
    assert_eq!(
        events[3],
        RawEvent { timestamp_us: 0, kind: EventKind::RelativeAxis, code: 8, value: 1 }
    );
    assert_eq!(
        events[4],
        RawEvent { timestamp_us: 0, kind: EventKind::Synchronization, code: 0, value: 0 }
    );
}

#[test]
fn test_round_trip_of_two_key_scenario() {
    let events = vec![
        key(0, 17, 1),
        key(100_000, 17, 0),
        key(6_100_000, 30, 1),
        key(6_200_000, 30, 0),
    ];
    let replayed = states_to_events(&events_to_states(&events));
    let expected = vec![
        key(0, 17, 1),
        RawEvent { timestamp_us: 0, kind: EventKind::Synchronization, code: 0, value: 0 },
        key(100_000, 17, 0),
        RawEvent { timestamp_us: 100_000, kind: EventKind::Synchronization, code: 0, value: 0 },
        key(6_100_000, 30, 1),
        RawEvent { timestamp_us: 6_100_000, kind: EventKind::Synchronization, code: 0, value: 0 },
        key(6_200_000, 30, 0),
        RawEvent { timestamp_us: 6_200_000, kind: EventKind::Synchronization, code: 0, value: 0 },
    ];
    assert_eq!(replayed, expected);

    // the held-key set over the replayed timeline matches the original:
    // {17} from 0 to 100ms, {} from 100ms to 6100ms, {30} from 6100ms on
    let mut held: Vec<u16> = Vec::new();
    let mut held_at: Vec<(u64, Vec<u16>)> = Vec::new();
    for e in &replayed {
        if e.kind == EventKind::Key {
            if e.value == 1 {
                held.push(e.code);
            } else {
                held.retain(|c| *c != e.code);
            }
            held_at.push((e.timestamp_us, held.clone()));
        }
    }
    assert_eq!(
        held_at,
        vec![
            (0, vec![17]),
            (100_000, vec![]),
            (6_100_000, vec![30]),
            (6_200_000, vec![]),
        ]
    );
}

#[test]
fn test_player_releases_keys_still_held() {
    let states = vec![plain_state(50, vec![17, 30])];
    let events = states_to_events(&states);
    // presses at 0 and releases of both keys at 50ms, each with a sync event
    assert_eq!(events.len(), 8);
    assert_eq!(events[0], key(0, 17, 1));
    assert_eq!(events[2], key(0, 30, 1));
    assert_eq!(events[4], key(50_000, 17, 0));
    assert_eq!(events[6], key(50_000, 30, 0));
    for i in [1, 3, 5, 7] {
        assert_eq!(events[i].kind, EventKind::Synchronization);
    }
}

#[test]
fn test_macro_state_new_and_is_empty() {
    let s = MacroState::new(25);
    assert_eq!(s.duration_ms, 25);
    assert!(s.is_empty());
    let busy = MacroState {
        duration_ms: 0,
        keys_pressed: vec![],
        mouse_delta: (0, 1),
        scroll_delta: (0, 0),
    };
    assert!(!busy.is_empty());
}
