use podracer::recording::{GhostPlayer, InputRecord, Recorder, Recording};

fn states(rec: &Recording) -> Vec<(u64, bool, bool)> {
    rec.inputs.iter().map(|r| (r.tick, r.left, r.right)).collect()
}

#[test]
fn recorder_starts_empty() {
    let rec = Recorder::new().finish();
    assert!(rec.inputs.is_empty());
}

#[test]
fn recorder_ignores_initial_idle_input() {
    let mut r = Recorder::new();
    r.record(0, false, false);
    r.record(1, false, false);
    assert!(r.finish().inputs.is_empty());
}

#[test]
fn recorder_keeps_only_changes() {
    let mut r = Recorder::new();
    r.record(1, false, false);
    r.record(2, true, false);
    r.record(3, true, false);
    r.record(4, true, true);
    r.record(5, true, true);
    r.record(6, false, false);
    let rec = r.finish();
    assert_eq!(states(&rec), vec![(2, true, false), (4, true, true), (6, false, false)]);
}

#[test]
fn recorder_repeat_offer_is_noop() {
    let mut r = Recorder::new();
    r.record(7, false, true);
    r.record(7, false, true);
    r.record(8, false, true);
    assert_eq!(states(&r.finish()), vec![(7, false, true)]);
}

#[test]
fn recorder_change_back_and_forth() {
    let mut r = Recorder::new();
    r.record(1, true, false);
    r.record(2, false, true);
    r.record(3, true, false);
    assert_eq!(states(&r.finish()), vec![(1, true, false), (2, false, true), (3, true, false)]);
}

fn sample_recording() -> Recording {
    Recording {
        inputs: vec![
            InputRecord { tick: 10, left: true, right: false },
            InputRecord { tick: 20, left: true, right: true },
            InputRecord { tick: 30, left: false, right: false },
        ],
    }
}

#[test]
fn ghost_starts_idle() {
    let g = GhostPlayer::new(sample_recording());
    assert!(!g.left && !g.right);
    assert!(!g.is_done());
}

#[test]
fn ghost_waits_until_first_change_is_due() {
    let mut g = GhostPlayer::new(sample_recording());
    g.update(9);
    assert!(!g.left && !g.right);
    g.update(10);
    assert!(g.left && !g.right);
}

#[test]
fn ghost_catches_up_several_changes_at_once() {
    let mut g = GhostPlayer::new(sample_recording());
    g.update(25);
    assert!(g.left && g.right);
    assert!(!g.is_done());
}

#[test]
fn ghost_is_done_after_last_change_to_idle() {
    let mut g = GhostPlayer::new(sample_recording());
    g.update(100);
    assert!(!g.left && !g.right);
    assert!(g.is_done());
}

#[test]
fn ghost_not_done_when_last_change_keeps_an_engine_on() {
    let rec = Recording { inputs: vec![InputRecord { tick: 1, left: false, right: true }] };
    let mut g = GhostPlayer::new(rec);
    g.update(50);
    assert!(!g.left && g.right);
    assert!(!g.is_done());
}

#[test]
fn ghost_of_empty_recording_is_done() {
    let g = GhostPlayer::new(Recording { inputs: vec![] });
    assert!(g.is_done());
}

#[test]
fn ghost_keeps_shown_inputs_when_nothing_is_due() {
    let mut g = GhostPlayer::new(sample_recording());
    g.update(10);
    g.left = false;
    g.update(15);
    assert!(!g.left && !g.right);
}

#[test]
fn ghost_update_at_unsorted_recording_stops_at_first_future_change() {
    let rec = Recording {
        inputs: vec![
            InputRecord { tick: 5, left: true, right: false },
            InputRecord { tick: 50, left: false, right: true },
            InputRecord { tick: 6, left: true, right: true },
        ],
    };
    let mut g = GhostPlayer::new(rec);
    g.update(10);
    assert!(g.left && !g.right);
}

#[test]
fn replay_gives_back_recorded_inputs() {
    let samples: Vec<(u64, bool, bool)> = vec![
        (0, false, false),
        (1, true, false),
        (2, true, false),
        (3, true, true),
        (4, false, true),
        (5, false, true),
        (6, false, false),
        (7, false, false),
    ];
    let mut r = Recorder::new();
    for &(t, l, rr) in &samples {
        r.record(t, l, rr);
    }
    let mut g = GhostPlayer::new(r.finish());
    for &(t, l, rr) in &samples {
        g.update(t);
        assert_eq!((g.left, g.right), (l, rr));
    }
    assert!(g.is_done());
}

#[test]
fn ghost_updates_compose() {
    let mut stepwise = GhostPlayer::new(sample_recording());
    stepwise.update(12);
    stepwise.update(25);
    let mut at_once = GhostPlayer::new(sample_recording());
    at_once.update(25);
    assert_eq!((stepwise.left, stepwise.right), (at_once.left, at_once.right));
    assert_eq!(stepwise.is_done(), at_once.is_done());
}

#[test]
fn replay_between_sample_ticks_shows_last_due_sample() {
    let mut r = Recorder::new();
    r.record(10, true, false);
    r.record(20, true, false);
    r.record(30, false, true);
    let rec = r.finish();
    let mut g = GhostPlayer::new(rec);
    g.update(5);
    assert_eq!(g.shown_inputs(), (false, false));
    g.update(25);
    assert_eq!(g.shown_inputs(), (true, false));
    g.update(35);
    assert_eq!(g.shown_inputs(), (false, true));
}

#[test]
fn sorted_replay_updates_in_any_order_reach_largest_tick() {
    let mut g = GhostPlayer::new(sample_recording());
    g.update(25);
    g.update(12);
    assert_eq!(g.shown_inputs(), (true, true));
}

#[test]
fn done_after_replay_depends_on_last_change() {
    let mut g = GhostPlayer::new(sample_recording());
    g.update(29);
    assert!(!g.is_done());
    g.update(30);
    assert!(g.is_done());
}

#[test]
fn recording_is_sorted_subsequence_of_calls() {
    let calls: Vec<(u64, bool, bool)> =
        vec![(1, false, false), (2, true, false), (3, true, false), (5, false, false), (8, false, false), (9, true, true)];
    let mut r = Recorder::new();
    for &(t, l, rr) in &calls {
        r.record(t, l, rr);
    }
    let kept = states(&r.finish());
    let mut prev = (false, false);
    let expected: Vec<(u64, bool, bool)> = calls
        .iter()
        .filter(|&&(_, l, rr)| {
            let keep = (l, rr) != prev;
            prev = (l, rr);
            keep
        })
        .cloned()
        .collect();
    assert_eq!(kept, expected);
    assert!(kept.windows(2).all(|w| w[0].0 < w[1].0));
}
