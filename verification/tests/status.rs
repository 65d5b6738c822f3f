use rsk_keys::render::keys::StatusKind;
use rsk_keys::status::{
    ceremony_answer, closing, decision_of, opening, request_answer, status_to_kind, Act, Ambient,
    KeygenPace, Outcome, Presence, Repaint, StatusCodes,
};

const CODES: StatusCodes = StatusCodes {
    idle: 1,
    processing: 2,
    touch: 3,
};

#[test]
fn unknown_status_indices_read_as_starting() {
    assert_eq!(status_to_kind(1, &CODES), StatusKind::Idle);
    assert_eq!(status_to_kind(2, &CODES), StatusKind::Processing);
    assert_eq!(status_to_kind(3, &CODES), StatusKind::Touch);
    assert_eq!(status_to_kind(0, &CODES), StatusKind::Boot);
    assert_eq!(status_to_kind(255, &CODES), StatusKind::Boot);
}

#[test]
fn a_status_change_is_painted_in_full_until_it_lands() {
    let mut a = Ambient::new();
    for _ in 0..5 {
        let t = a.tick(StatusKind::Idle);
        assert!(t.changed);
        assert_eq!(a.plan(&t), Repaint::Full);
    }
    a.painted(StatusKind::Idle);
    let t = a.tick(StatusKind::Idle);
    assert!(!t.changed);
}

#[test]
fn a_requested_repaint_is_a_full_one() {
    let mut a = Ambient::new();
    let t = a.tick(StatusKind::Boot);
    assert_eq!(a.plan(&t), Repaint::Nothing);
    a.request();
    assert_eq!(a.plan(&t), Repaint::Full);
}

#[test]
fn a_requested_repaint_is_retried_until_it_lands() {
    let mut a = Ambient::new();
    a.request();
    for _ in 0..7 {
        let t = a.tick(StatusKind::Boot);
        assert!(!t.changed);
        assert_eq!(a.plan(&t), Repaint::Full);
    }
    a.painted(StatusKind::Boot);
    assert!(!a.pending);
    let t = a.tick(StatusKind::Boot);
    assert_ne!(a.plan(&t), Repaint::Full);
}

#[test]
fn ready_breathes_every_third_tick() {
    let mut a = Ambient::new();
    let mut steps = Vec::new();
    for n in 1..=9u32 {
        let t = a.tick(StatusKind::Boot);
        if let Repaint::Step { phase } = a.plan(&t) {
            steps.push((n, phase));
        }
    }
    assert_eq!(steps, vec![(3, 1), (6, 2), (9, 3)]);
}

#[test]
fn working_moves_on_every_tick() {
    let mut a = Ambient::new();
    a.painted(StatusKind::Processing);
    let mut steps = Vec::new();
    for n in 1..=4u32 {
        let t = a.tick(StatusKind::Processing);
        if let Repaint::Step { phase } = a.plan(&t) {
            steps.push((n, phase));
        }
    }
    assert_eq!(steps, vec![(1, 1), (2, 2), (3, 3), (4, 4)]);
}

#[test]
fn a_touch_page_is_still_and_a_change_restarts_the_breath() {
    let mut a = Ambient::new();
    for _ in 0..7 {
        a.tick(StatusKind::Boot);
    }
    assert_eq!((a.phase, a.breathe_ticks), (2, 7));
    let t = a.tick(StatusKind::Touch);
    assert!(t.changed && !t.advance);
    assert_eq!((a.phase, a.breathe_ticks), (0, 0));
    a.painted(StatusKind::Touch);
    for _ in 0..10 {
        let t = a.tick(StatusKind::Touch);
        assert_eq!(a.plan(&t), Repaint::Nothing);
    }
}

#[test]
fn keygen_steps_are_at_least_a_tick_apart() {
    let mut g = KeygenPace::enter();
    assert_eq!(g.tick(99), None);
    assert_eq!(g.tick(100), Some(0));
    assert_eq!(g.tick(199), None);
    assert_eq!(g.tick(205), Some(1));
    assert_eq!(g.tick(500), Some(2));
    // The millisecond clock wraps.
    let mut g = KeygenPace {
        last_ms: u32::MAX - 10,
        phase: u32::MAX,
    };
    assert_eq!(g.tick(50), None);
    assert_eq!(g.tick(89), Some(u32::MAX));
    assert_eq!(g.phase, 0);
}

#[test]
fn only_a_decision_earns_a_feedback_page() {
    assert_eq!(decision_of(Outcome::Confirmed), Some(true));
    assert_eq!(decision_of(Outcome::Declined), Some(false));
    assert_eq!(decision_of(Outcome::Timeout), None);
    assert_eq!(decision_of(Outcome::Cancelled), None);
}

#[test]
fn a_touch_policy_knows_no_cancellation() {
    assert_eq!(ceremony_answer(Outcome::Cancelled), Presence::Cancelled);
    assert_eq!(request_answer(Outcome::Cancelled), Presence::Timeout);
    for (o, p) in [
        (Outcome::Confirmed, Presence::Confirmed),
        (Outcome::Declined, Presence::Declined),
        (Outcome::Timeout, Presence::Timeout),
    ] {
        assert_eq!(ceremony_answer(o), p);
        assert_eq!(request_answer(o), p);
    }
}

#[test]
fn keygen_phases_count_up_however_often_the_search_calls() {
    let mut g = KeygenPace::enter();
    let mut drawn = Vec::new();
    for now in 0..1000u32 {
        if let Some(phase) = g.tick(now) {
            drawn.push((now, phase));
        }
    }
    let want: Vec<(u32, u32)> = (1..10).map(|k| (k * 100, k - 1)).collect();
    assert_eq!(drawn, want);
}

#[test]
fn a_request_names_its_operation_only_after_the_key_is_up() {
    assert_eq!(
        opening(&CODES),
        vec![Act::SetStatus { status: 3 }, Act::AwaitRelease, Act::ShowConfirm]
    );
}

#[test]
fn a_request_leaves_the_status_it_found() {
    assert_eq!(
        closing(Outcome::Declined, 2, &CODES),
        vec![
            Act::ShowDecision { approved: false },
            Act::Pause { ms: 900 },
            Act::ShowStatus {
                kind: StatusKind::Processing
            },
            Act::SetStatus { status: 2 },
            Act::RequestRepaint,
        ]
    );
    assert_eq!(
        closing(Outcome::Confirmed, 1, &CODES)[0],
        Act::ShowDecision { approved: true }
    );
    assert_eq!(
        closing(Outcome::Timeout, 77, &CODES),
        vec![
            Act::ShowStatus {
                kind: StatusKind::Boot
            },
            Act::SetStatus { status: 77 },
            Act::RequestRepaint,
        ]
    );
    assert_eq!(closing(Outcome::Cancelled, 1, &CODES).len(), 3);
}
