use rsk_keys::gesture::{
    keep_draining, keep_waiting_up, Gesture, Poll, Sample, Stage, DOUBLE_WINDOW_MS, HOLD_MS, POLL_MS, STUCK_MS,
};

/// Play a key that is down in the given millisecond spans, polled every
/// [`POLL_MS`]; returns the outcome and when it came.
fn play(down: &[(u64, u64)], host_at: u64) -> (Option<Gesture>, u64) {
    let mut stage = Stage::start(0);
    let mut now = 0u64;
    loop {
        let sample = Sample {
            configured: now >= host_at,
            pressed: down.iter().any(|&(a, b)| a <= now && now < b),
            now_us: now * 1000,
        };
        match stage.step(&sample) {
            Poll::Again => {}
            Poll::Sleep => now += POLL_MS,
            Poll::Done(g) => return (g, now),
        }
        assert!(now < 60_000, "the recognizer never ended");
    }
}

const NEVER: u64 = u64::MAX;

#[test]
fn a_lone_short_press_is_a_tap_once_the_window_closes() {
    let (g, at) = play(&[(100, 200)], NEVER);
    assert_eq!(g, Some(Gesture::Tap));
    assert!(at >= 200 + DOUBLE_WINDOW_MS && at <= 200 + DOUBLE_WINDOW_MS + 2 * POLL_MS);
}

#[test]
fn two_short_presses_are_a_double() {
    let (g, at) = play(&[(100, 200), (350, 450)], NEVER);
    assert_eq!(g, Some(Gesture::Double));
    assert!((450..450 + 2 * POLL_MS).contains(&at));
}

#[test]
fn a_second_press_after_the_window_is_not_part_of_the_gesture() {
    let (g, at) = play(&[(100, 200), (600, 700)], NEVER);
    assert_eq!(g, Some(Gesture::Tap));
    assert!(at < 600);
}

#[test]
fn a_hold_fires_on_the_threshold_while_the_key_is_down() {
    let (g, at) = play(&[(100, 5000)], NEVER);
    assert_eq!(g, Some(Gesture::Hold));
    assert!(at >= 100 + HOLD_MS && at <= 100 + HOLD_MS + 2 * POLL_MS);
}

#[test]
fn a_long_second_press_reads_as_a_hold() {
    assert_eq!(play(&[(100, 200), (300, 2000)], NEVER).0, Some(Gesture::Hold));
}

#[test]
fn a_key_held_from_before_is_consumed_not_read() {
    // Down at the start, released at 500: only the fresh press counts.
    let (g, at) = play(&[(0, 500), (1000, 1100)], NEVER);
    assert_eq!(g, Some(Gesture::Tap));
    assert!(at >= 1100 + DOUBLE_WINDOW_MS);
}

#[test]
fn a_stuck_key_ends_without_a_gesture() {
    let (g, at) = play(&[(0, 60_000)], NEVER);
    assert_eq!(g, None);
    assert!(at >= STUCK_MS && at <= STUCK_MS + POLL_MS);
}

#[test]
fn a_host_ends_the_recognition_in_every_stage() {
    assert_eq!(play(&[], 48).0, None);
    assert_eq!(play(&[(0, 100)], 48).0, None);
    assert_eq!(play(&[(16, 500)], 160).0, None);
    assert_eq!(play(&[(16, 96)], 160).0, None);
    assert_eq!(play(&[(16, 96), (128, 500)], 200).0, None);
}

#[test]
fn thresholds_are_inclusive() {
    let mut s = Stage::Down { since: 5 };
    let mut sample = Sample {
        configured: false,
        pressed: true,
        now_us: 5 + HOLD_MS * 1000 - 1,
    };
    assert_eq!(s.step(&sample), Poll::Sleep);
    sample.now_us += 1;
    assert_eq!(s.step(&sample), Poll::Done(Some(Gesture::Hold)));
    let mut w = Stage::Window { since: 0 };
    sample.pressed = false;
    sample.now_us = DOUBLE_WINDOW_MS * 1000;
    assert_eq!(w.step(&sample), Poll::Done(Some(Gesture::Tap)));
}

#[test]
fn the_release_wait_is_bounded() {
    assert!(keep_waiting_up(true, false, 0));
    assert!(keep_waiting_up(true, false, 1_999_999));
    assert!(!keep_waiting_up(true, false, 2_000_000));
    assert!(!keep_waiting_up(false, false, 0));
    assert!(!keep_waiting_up(true, true, 0));
    // Draining a held key goes on whatever the host does.
    assert!(keep_draining(true, 0));
    assert!(keep_draining(true, 1_999_999));
    assert!(!keep_draining(true, 2_000_000));
    assert!(!keep_draining(false, 0));
}
