//! The three-gesture recognizer of the single key: tap, double and hold, from
//! timed samples of the key and of the host.
use vstd::prelude::*;

verus! {

/// How long a poll loop sleeps between samples.
pub const POLL_MS: u64 = 16;

/// At or past this many milliseconds a press is a hold.
pub const HOLD_MS: u64 = 800;

/// How long after a short press a second one still makes a double.
pub const DOUBLE_WINDOW_MS: u64 = 300;

/// How long a wait for the key to go up lasts at most, so that a stuck key
/// cannot wedge the panel.
pub const STUCK_MS: u64 = 2000;

/// One recognised gesture.
#[derive(Clone, Copy, PartialEq, Eq, Structural, Debug)]
pub enum Gesture {
    /// A lone short press: next (page, option).
    Tap,
    /// Two short presses inside the double window: back.
    Double,
    /// A press held past [`HOLD_MS`]: enter or confirm.
    Hold,
}

/// One look at the device: whether a host has configured it, whether the key
/// is down, and when (in microseconds).
#[derive(Clone, Copy, PartialEq, Eq, Structural, Debug)]
pub struct Sample {
    pub configured: bool,
    pub pressed: bool,
    pub now_us: u64,
}

/// Where the recognizer stands; `since` is when the stage began.
#[derive(Clone, Copy, PartialEq, Eq, Structural, Debug)]
pub enum Stage {
    /// Waiting for the key to be up.
    Rearm { since: u64 },
    /// Up; waiting for a fresh press.
    Armed,
    /// The first press is down.
    Down { since: u64 },
    /// Released early; a second press may still come.
    Window { since: u64 },
    /// The second press is down.
    Second { since: u64 },
}

/// What the recognizer asks for next.
#[derive(Clone, Copy, PartialEq, Eq, Structural, Debug)]
pub enum Poll {
    /// Another sample at once.
    Again,
    /// Another sample after [`POLL_MS`].
    Sleep,
    /// Nothing more: the gesture, or `None` where a host configured the device
    /// or the key is stuck.
    Done(Option<Gesture>),
}

/// When a stage began, for the stages that time themselves.
pub open spec fn began(stage: Stage) -> Option<u64> {
    match stage {
        Stage::Rearm { since } => Some(since),
        Stage::Armed => None,
        Stage::Down { since } => Some(since),
        Stage::Window { since } => Some(since),
        Stage::Second { since } => Some(since),
    }
}

/// Whole milliseconds from `since` to `now`.
pub open spec fn elapsed_ms(since: u64, now: u64) -> int {
    (now - since) / 1000
}

/// The recognizer's transition on one sample. A configured host ends it in
/// every stage.
pub open spec fn step_of(stage: Stage, s: Sample) -> (Stage, Poll) {
    if s.configured {
        (stage, Poll::Done(None))
    } else {
        match stage {
            Stage::Rearm { since } => if !s.pressed {
                (Stage::Armed, Poll::Again)
            } else if elapsed_ms(since, s.now_us) >= STUCK_MS {
                (stage, Poll::Done(None))
            } else {
                (stage, Poll::Sleep)
            },
            Stage::Armed => if s.pressed {
                (Stage::Down { since: s.now_us }, Poll::Again)
            } else {
                (stage, Poll::Sleep)
            },
            Stage::Down { since } => if !s.pressed {
                (Stage::Window { since: s.now_us }, Poll::Again)
            } else if elapsed_ms(since, s.now_us) >= HOLD_MS {
                (stage, Poll::Done(Some(Gesture::Hold)))
            } else {
                (stage, Poll::Sleep)
            },
            Stage::Window { since } => if s.pressed {
                (Stage::Second { since: s.now_us }, Poll::Again)
            } else if elapsed_ms(since, s.now_us) >= DOUBLE_WINDOW_MS {
                (stage, Poll::Done(Some(Gesture::Tap)))
            } else {
                (stage, Poll::Sleep)
            },
            Stage::Second { since } => if !s.pressed {
                (stage, Poll::Done(Some(Gesture::Double)))
            } else if elapsed_ms(since, s.now_us) >= HOLD_MS {
                (stage, Poll::Done(Some(Gesture::Hold)))
            } else {
                (stage, Poll::Sleep)
            },
        }
    }
}

/// Where a recognizer starts: with the key still to be seen up.
pub open spec fn begin(now_us: u64) -> Stage {
    Stage::Rearm { since: now_us }
}

impl Stage {
    /// A recognizer that starts at `now_us`.
    pub fn start(now_us: u64) -> (r: Self)
        ensures
            r == begin(now_us),
    {
        Stage::Rearm { since: now_us }
    }

    /// Take one sample.
    pub fn step(&mut self, s: &Sample) -> (r: Poll)
        requires
            began(*old(self)) matches Some(since) ==> since <= s.now_us,
        ensures
            *final(self) == step_of(*old(self), *s).0,
            r == step_of(*old(self), *s).1,
    {
        if s.configured {
            return Poll::Done(None);
        }
        match *self {
            Stage::Rearm { since } => {
                if !s.pressed {
                    *self = Stage::Armed;
                    Poll::Again
                } else if (s.now_us - since) / 1000 >= STUCK_MS {
                    Poll::Done(None)
                } else {
                    Poll::Sleep
                }
            },
            Stage::Armed => {
                if s.pressed {
                    *self = Stage::Down { since: s.now_us };
                    Poll::Again
                } else {
                    Poll::Sleep
                }
            },
            Stage::Down { since } => {
                if !s.pressed {
                    *self = Stage::Window { since: s.now_us };
                    Poll::Again
                } else if (s.now_us - since) / 1000 >= HOLD_MS {
                    Poll::Done(Some(Gesture::Hold))
                } else {
                    Poll::Sleep
                }
            },
            Stage::Window { since } => {
                if s.pressed {
                    *self = Stage::Second { since: s.now_us };
                    Poll::Again
                } else if (s.now_us - since) / 1000 >= DOUBLE_WINDOW_MS {
                    Poll::Done(Some(Gesture::Tap))
                } else {
                    Poll::Sleep
                }
            },
            Stage::Second { since } => {
                if !s.pressed {
                    Poll::Done(Some(Gesture::Double))
                } else if (s.now_us - since) / 1000 >= HOLD_MS {
                    Poll::Done(Some(Gesture::Hold))
                } else {
                    Poll::Sleep
                }
            },
        }
    }
}

/// A wait that drains a held key goes on: the key is down and the bound is not
/// reached.
pub open spec fn drains(pressed: bool, waited_us: u64) -> bool {
    pressed && waited_us < STUCK_MS * 1000
}

/// A wait for the key to go up on menu entry goes on: a draining wait, as long
/// as no host has configured the device.
pub open spec fn waits_up(pressed: bool, configured: bool, waited_us: u64) -> bool {
    !configured && drains(pressed, waited_us)
}

/// Whether the wait for the key to go up on menu entry goes on: the key is
/// down, no host has configured the device, and the bound is not reached.
pub fn keep_waiting_up(pressed: bool, configured: bool, waited_us: u64) -> (r: bool)
    ensures
        r == waits_up(pressed, configured, waited_us),
{
    !configured && keep_draining(pressed, waited_us)
}

/// Whether the wait that drains a held key goes on, when a configured host ends
/// the menu and before a confirm page: the key is down and the bound is not
/// reached. Nothing else cuts it short.
pub fn keep_draining(pressed: bool, waited_us: u64) -> (r: bool)
    ensures
        r == drains(pressed, waited_us),
{
    pressed && waited_us / 1000 < STUCK_MS
}

/// The stage after a run of samples that began at `t0`.
pub open spec fn stage_after(t0: u64, run: Seq<Sample>) -> Stage
    decreases run.len(),
{
    if run.len() == 0 {
        begin(t0)
    } else {
        step_of(stage_after(t0, run.drop_last()), run.last()).0
    }
}

/// What the recognizer asked for after the last sample of a run.
pub open spec fn poll_after(t0: u64, run: Seq<Sample>) -> Poll
    recommends
        run.len() > 0,
{
    step_of(stage_after(t0, run.drop_last()), run.last()).1
}

/// A run that is still going: no sample of it ended the recognition.
pub open spec fn going(t0: u64, run: Seq<Sample>) -> bool
    decreases run.len(),
{
    run.len() == 0 || (going(t0, run.drop_last()) && !(poll_after(t0, run) is Done))
}

/// The key is down (or up) in samples `i` up to `j`.
pub open spec fn down_in(run: Seq<Sample>, i: int, j: int) -> bool {
    forall|k: int| i <= k < j ==> (#[trigger] run[k]).pressed
}

pub open spec fn up_in(run: Seq<Sample>, i: int, j: int) -> bool {
    forall|k: int| i <= k < j ==> !(#[trigger] run[k]).pressed
}

/// No sample from `i` up to `j` lies `bound` milliseconds or more after sample
/// `i`.
pub open spec fn within(run: Seq<Sample>, i: int, j: int, bound: u64) -> bool {
    forall|k: int| i < k < j ==> elapsed_ms(run[i].now_us, (#[trigger] run[k]).now_us) < bound
}

/// The run was armed by an up key at sample `a` and pressed at `d`.
pub open spec fn pressed_at(run: Seq<Sample>, a: int, d: int) -> bool {
    &&& 0 <= a < d < run.len()
    &&& down_in(run, 0, a)
    &&& up_in(run, a, d)
    &&& run[d].pressed
}

/// The press at `d` was short: let go at `r`, before the hold threshold.
pub open spec fn short_press(run: Seq<Sample>, d: int, r: int) -> bool {
    &&& d < r < run.len()
    &&& down_in(run, d, r)
    &&& within(run, d, r, HOLD_MS)
    &&& !run[r].pressed
}

/// A second press at `e`, inside the window that the release at `r` opened.
pub open spec fn second_press(run: Seq<Sample>, r: int, e: int) -> bool {
    &&& r < e < run.len()
    &&& up_in(run, r, e)
    &&& within(run, r, e, DOUBLE_WINDOW_MS)
    &&& run[e].pressed
}

/// What the samples so far must look like for the recognizer to stand where it
/// does.
pub open spec fn told_by(stage: Stage, t0: u64, run: Seq<Sample>) -> bool {
    match stage {
        Stage::Rearm { since } => since == t0 && down_in(run, 0, run.len() as int),
        Stage::Armed => exists|a: int|
            0 <= a < run.len() && #[trigger] down_in(run, 0, a) && up_in(
                run,
                a,
                run.len() as int,
            ),
        Stage::Down { since } => exists|a: int, d: int|
            #[trigger] pressed_at(run, a, d) && since == run[d].now_us && down_in(
                run,
                d,
                run.len() as int,
            ) && within(run, d, run.len() as int, HOLD_MS),
        Stage::Window { since } => exists|a: int, d: int, r: int|
            #[trigger] pressed_at(run, a, d) && #[trigger] short_press(run, d, r) && since
                == run[r].now_us && up_in(run, r, run.len() as int) && within(
                run,
                r,
                run.len() as int,
                DOUBLE_WINDOW_MS,
            ),
        Stage::Second { since } => exists|a: int, d: int, r: int, e: int|
            #[trigger] pressed_at(run, a, d) && #[trigger] short_press(run, d, r)
                && #[trigger] second_press(run, r, e) && since == run[e].now_us && down_in(
                run,
                e,
                run.len() as int,
            ) && within(run, e, run.len() as int, HOLD_MS),
    }
}

/// One more sample that did not end a run whose shape so far its stage tells.
spec fn told_so_far(t0: u64, run: Seq<Sample>) -> bool {
    &&& run.len() > 0
    &&& told_by(stage_after(t0, run.drop_last()), t0, run.drop_last())
    &&& !(poll_after(t0, run) is Done)
}

#[verifier::spinoff_prover]
proof fn lemma_told_after_rearm(t0: u64, run: Seq<Sample>)
    requires
        told_so_far(t0, run),
        stage_after(t0, run.drop_last()) is Rearm,
    ensures
        told_by(stage_after(t0, run), t0, run),
{
    let p = run.drop_last();
    let n = p.len() as int;
    assert(forall|k: int| 0 <= k < n ==> p[k] == run[k]);
    if !run[n].pressed {
        assert(down_in(run, 0, n) && up_in(run, n, n + 1));
    }
}

#[verifier::spinoff_prover]
proof fn lemma_told_after_armed(t0: u64, run: Seq<Sample>)
    requires
        told_so_far(t0, run),
        stage_after(t0, run.drop_last()) is Armed,
    ensures
        told_by(stage_after(t0, run), t0, run),
{
    let p = run.drop_last();
    let n = p.len() as int;
    assert(forall|k: int| 0 <= k < n ==> p[k] == run[k]);
    let a = choose|a: int| 0 <= a < p.len() && #[trigger] down_in(p, 0, a) && up_in(p, a, n);
    assert(down_in(run, 0, a));
    if run[n].pressed {
        assert(up_in(run, a, n));
        assert(pressed_at(run, a, n));
    } else {
        assert(up_in(run, a, n + 1));
    }
}

#[verifier::spinoff_prover]
proof fn lemma_told_after_down(t0: u64, run: Seq<Sample>)
    requires
        told_so_far(t0, run),
        stage_after(t0, run.drop_last()) is Down,
    ensures
        told_by(stage_after(t0, run), t0, run),
{
    let p = run.drop_last();
    let n = p.len() as int;
    assert(forall|k: int| 0 <= k < n ==> p[k] == run[k]);
    let since = stage_after(t0, p)->Down_since;
    let (a, d) = choose|a: int, d: int|
        #[trigger] pressed_at(p, a, d) && since == p[d].now_us && down_in(p, d, n) && within(
            p,
            d,
            n,
            HOLD_MS,
        );
    assert(pressed_at(run, a, d));
    if !run[n].pressed {
        assert(short_press(run, d, n));
    } else {
        assert(down_in(run, d, n + 1) && within(run, d, n + 1, HOLD_MS));
    }
}

#[verifier::spinoff_prover]
proof fn lemma_told_after_window(t0: u64, run: Seq<Sample>)
    requires
        told_so_far(t0, run),
        stage_after(t0, run.drop_last()) is Window,
    ensures
        told_by(stage_after(t0, run), t0, run),
{
    let p = run.drop_last();
    let n = p.len() as int;
    assert(forall|k: int| 0 <= k < n ==> p[k] == run[k]);
    let since = stage_after(t0, p)->Window_since;
    let (a, d, r) = choose|a: int, d: int, r: int|
        #[trigger] pressed_at(p, a, d) && #[trigger] short_press(p, d, r) && since == p[r].now_us
            && up_in(p, r, n) && within(p, r, n, DOUBLE_WINDOW_MS);
    assert(pressed_at(run, a, d));
    assert(short_press(run, d, r));
    if run[n].pressed {
        assert(second_press(run, r, n));
    } else {
        assert(up_in(run, r, n + 1) && within(run, r, n + 1, DOUBLE_WINDOW_MS));
    }
}

#[verifier::spinoff_prover]
proof fn lemma_told_after_second(t0: u64, run: Seq<Sample>)
    requires
        told_so_far(t0, run),
        stage_after(t0, run.drop_last()) is Second,
    ensures
        told_by(stage_after(t0, run), t0, run),
{
    let p = run.drop_last();
    let n = p.len() as int;
    assert(forall|k: int| 0 <= k < n ==> p[k] == run[k]);
    let since = stage_after(t0, p)->Second_since;
    let (a, d, r, e) = choose|a: int, d: int, r: int, e: int|
        #[trigger] pressed_at(p, a, d) && #[trigger] short_press(p, d, r)
            && #[trigger] second_press(p, r, e) && since == p[e].now_us && down_in(p, e, n)
            && within(p, e, n, HOLD_MS);
    assert(pressed_at(run, a, d));
    assert(short_press(run, d, r));
    assert(second_press(run, r, e));
    assert(down_in(run, e, n + 1) && within(run, e, n + 1, HOLD_MS));
}

/// A run still going looks like its stage says.
proof fn lemma_told_by(t0: u64, run: Seq<Sample>)
    requires
        going(t0, run),
    ensures
        told_by(stage_after(t0, run), t0, run),
    decreases run.len(),
{
    if run.len() > 0 {
        lemma_told_by(t0, run.drop_last());
        match stage_after(t0, run.drop_last()) {
            Stage::Rearm { .. } => lemma_told_after_rearm(t0, run),
            Stage::Armed => lemma_told_after_armed(t0, run),
            Stage::Down { .. } => lemma_told_after_down(t0, run),
            Stage::Window { .. } => lemma_told_after_window(t0, run),
            Stage::Second { .. } => lemma_told_after_second(t0, run),
        }
    }
}

/// A hold is a press that reached the threshold while the key was still down:
/// the first press of the run, or the second press of what would have been a
/// double. Either way the key was seen up before.
pub proof fn law_hold_is_a_long_press(t0: u64, run: Seq<Sample>)
    requires
        run.len() > 0,
        going(t0, run.drop_last()),
        poll_after(t0, run) == Poll::Done(Some(Gesture::Hold)),
    ensures
        exists|a: int, d: int, p: int|
            #[trigger] pressed_at(run, a, d) && d <= p && #[trigger] down_in(
                run,
                p,
                run.len() as int,
            ) && p < run.len() - 1 && elapsed_ms(run[p].now_us, run.last().now_us) >= HOLD_MS && (p
                == d || exists|r: int|
                #[trigger] short_press(run, d, r) && second_press(run, r, p)),
{
    let q = run.drop_last();
    let n = q.len() as int;
    lemma_told_by(t0, q);
    assert(forall|k: int| 0 <= k < n ==> q[k] == run[k]);
    match stage_after(t0, q) {
        Stage::Down { since } => {
            let (a, d) = choose|a: int, d: int|
                #[trigger] pressed_at(q, a, d) && since == q[d].now_us && down_in(q, d, n)
                    && within(q, d, n, HOLD_MS);
            assert(pressed_at(run, a, d));
            assert(down_in(run, d, run.len() as int));
        },
        Stage::Second { since } => {
            let (a, d, r, e) = choose|a: int, d: int, r: int, e: int|
                #[trigger] pressed_at(q, a, d) && #[trigger] short_press(q, d, r)
                    && #[trigger] second_press(q, r, e) && since == q[e].now_us && down_in(q, e, n)
                    && within(q, e, n, HOLD_MS);
            assert(pressed_at(run, a, d));
            assert(short_press(run, d, r));
            assert(second_press(run, r, e));
            assert(down_in(run, e, run.len() as int));
        },
        _ => {},
    }
}

/// A tap is one short press after the key was seen up, and then the key stayed
/// up until the double window had closed.
pub proof fn law_tap_is_a_lone_short_press(t0: u64, run: Seq<Sample>)
    requires
        run.len() > 0,
        going(t0, run.drop_last()),
        poll_after(t0, run) == Poll::Done(Some(Gesture::Tap)),
    ensures
        exists|a: int, d: int, r: int|
            #[trigger] pressed_at(run, a, d) && #[trigger] short_press(run, d, r) && up_in(
                run,
                r,
                run.len() as int,
            ) && elapsed_ms(run[r].now_us, run.last().now_us) >= DOUBLE_WINDOW_MS,
{
    let q = run.drop_last();
    let n = q.len() as int;
    lemma_told_by(t0, q);
    assert(forall|k: int| 0 <= k < n ==> q[k] == run[k]);
    if let Stage::Window { since } = stage_after(t0, q) {
        let (a, d, r) = choose|a: int, d: int, r: int|
            #[trigger] pressed_at(q, a, d) && #[trigger] short_press(q, d, r) && since
                == q[r].now_us && up_in(q, r, n) && within(q, r, n, DOUBLE_WINDOW_MS);
        assert(pressed_at(run, a, d));
        assert(short_press(run, d, r));
    }
}

/// A double is two short presses, the second inside the window that the first
/// release opened, both let go before the hold threshold.
pub proof fn law_double_is_two_short_presses(t0: u64, run: Seq<Sample>)
    requires
        run.len() > 0,
        going(t0, run.drop_last()),
        poll_after(t0, run) == Poll::Done(Some(Gesture::Double)),
    ensures
        exists|a: int, d: int, r: int, e: int|
            #[trigger] pressed_at(run, a, d) && #[trigger] short_press(run, d, r)
                && #[trigger] second_press(run, r, e) && short_press(run, e, run.len() - 1),
{
    let q = run.drop_last();
    let n = q.len() as int;
    lemma_told_by(t0, q);
    assert(forall|k: int| 0 <= k < n ==> q[k] == run[k]);
    if let Stage::Second { since } = stage_after(t0, q) {
        let (a, d, r, e) = choose|a: int, d: int, r: int, e: int|
            #[trigger] pressed_at(q, a, d) && #[trigger] short_press(q, d, r)
                && #[trigger] second_press(q, r, e) && since == q[e].now_us && down_in(q, e, n)
                && within(q, e, n, HOLD_MS);
        assert(pressed_at(run, a, d));
        assert(short_press(run, d, r));
        assert(second_press(run, r, e));
        assert(short_press(run, e, run.len() - 1));
    }
}

/// A recognition ends without a gesture exactly when a host has configured the
/// device, or when the key has been down from the start for the stuck bound.
pub proof fn law_no_gesture_means_host_or_stuck_key(t0: u64, run: Seq<Sample>)
    requires
        run.len() > 0,
        going(t0, run.drop_last()),
    ensures
        poll_after(t0, run) == Poll::Done(None::<Gesture>) <==> (run.last().configured || (down_in(
            run,
            0,
            run.len() as int,
        ) && elapsed_ms(t0, run.last().now_us) >= STUCK_MS)),
{
    let q = run.drop_last();
    let n = q.len() as int;
    lemma_told_by(t0, q);
    assert(forall|k: int| 0 <= k < n ==> q[k] == run[k]);
    assert(run[n] == run.last());
    if down_in(run, 0, run.len() as int) {
        lemma_held_key_stays_in_rearm(t0, q);
    }
}

proof fn lemma_held_key_stays_in_rearm(t0: u64, run: Seq<Sample>)
    requires
        down_in(run, 0, run.len() as int),
    ensures
        stage_after(t0, run) == (Stage::Rearm { since: t0 }),
    decreases run.len(),
{
    if run.len() > 0 {
        assert(forall|k: int| 0 <= k < run.len() - 1 ==> run.drop_last()[k] == run[k]);
        lemma_held_key_stays_in_rearm(t0, run.drop_last());
    }
}

/// A key still down when a recognition starts (the tail of the last gesture)
/// is never read as a gesture: while it stays down, and when it goes up, the
/// recognizer asks for more or gives up.
pub proof fn law_held_key_is_not_a_gesture(t0: u64, run: Seq<Sample>)
    requires
        run.len() > 0,
        down_in(run, 0, run.len() - 1),
    ensures
        !(poll_after(t0, run) matches Poll::Done(Some(_))),
{
    assert(forall|k: int| 0 <= k < run.len() - 1 ==> run.drop_last()[k] == run[k]);
    lemma_held_key_stays_in_rearm(t0, run.drop_last());
}

/// No host configures the device during the run, and a key that is down at its
/// start goes up, at sample `a`, before the stuck bound.
pub open spec fn undisturbed(t0: u64, run: Seq<Sample>, a: int) -> bool {
    &&& forall|k: int| 0 <= k < run.len() ==> !(#[trigger] run[k]).configured
    &&& forall|k: int| 0 <= k < a ==> elapsed_ms(t0, (#[trigger] run[k]).now_us) < STUCK_MS
}

proof fn lemma_reaches_armed(t0: u64, run: Seq<Sample>, a: int)
    requires
        undisturbed(t0, run, a),
        0 <= a <= run.len(),
        down_in(run, 0, a),
        up_in(run, a, run.len() as int),
    ensures
        going(t0, run),
        stage_after(t0, run) == (if a == run.len() {
            Stage::Rearm { since: t0 }
        } else {
            Stage::Armed
        }),
    decreases run.len(),
{
    if run.len() > 0 {
        let p = run.drop_last();
        assert(forall|k: int| 0 <= k < p.len() ==> p[k] == run[k]);
        assert(run[run.len() - 1] == run.last());
        if a == run.len() {
            assert(undisturbed(t0, p, a - 1));
            lemma_reaches_armed(t0, p, a - 1);
        } else {
            lemma_reaches_armed(t0, p, a);
        }
    }
}

proof fn lemma_reaches_down(t0: u64, run: Seq<Sample>, a: int, d: int)
    requires
        undisturbed(t0, run, a),
        pressed_at(run, a, d),
        down_in(run, d, run.len() as int),
        within(run, d, run.len() as int, HOLD_MS),
    ensures
        going(t0, run),
        stage_after(t0, run) == (Stage::Down { since: run[d].now_us }),
    decreases run.len(),
{
    let p = run.drop_last();
    assert(forall|k: int| 0 <= k < p.len() ==> p[k] == run[k]);
    assert(run[run.len() - 1] == run.last());
    if d == run.len() - 1 {
        lemma_reaches_armed(t0, p, a);
    } else {
        assert(pressed_at(p, a, d));
        lemma_reaches_down(t0, p, a, d);
    }
}

proof fn lemma_reaches_window(t0: u64, run: Seq<Sample>, a: int, d: int, r: int)
    requires
        undisturbed(t0, run, a),
        pressed_at(run, a, d),
        short_press(run, d, r),
        up_in(run, r, run.len() as int),
        within(run, r, run.len() as int, DOUBLE_WINDOW_MS),
    ensures
        going(t0, run),
        stage_after(t0, run) == (Stage::Window { since: run[r].now_us }),
    decreases run.len(),
{
    let p = run.drop_last();
    assert(forall|k: int| 0 <= k < p.len() ==> p[k] == run[k]);
    assert(run[run.len() - 1] == run.last());
    assert(pressed_at(p, a, d));
    if r == run.len() - 1 {
        lemma_reaches_down(t0, p, a, d);
    } else {
        assert(short_press(p, d, r));
        lemma_reaches_window(t0, p, a, d, r);
    }
}

proof fn lemma_reaches_second(t0: u64, run: Seq<Sample>, a: int, d: int, r: int, e: int)
    requires
        undisturbed(t0, run, a),
        pressed_at(run, a, d),
        short_press(run, d, r),
        second_press(run, r, e),
        down_in(run, e, run.len() as int),
        within(run, e, run.len() as int, HOLD_MS),
    ensures
        going(t0, run),
        stage_after(t0, run) == (Stage::Second { since: run[e].now_us }),
    decreases run.len(),
{
    let p = run.drop_last();
    assert(forall|k: int| 0 <= k < p.len() ==> p[k] == run[k]);
    assert(run[run.len() - 1] == run.last());
    assert(pressed_at(p, a, d));
    assert(short_press(p, d, r));
    if e == run.len() - 1 {
        lemma_reaches_window(t0, p, a, d, r);
    } else {
        assert(second_press(p, r, e));
        lemma_reaches_second(t0, p, a, d, r, e);
    }
}

/// A press kept down fires as a hold on the first sample at or past the
/// threshold, without waiting for the release.
pub proof fn law_long_press_fires(t0: u64, run: Seq<Sample>, a: int, d: int)
    requires
        undisturbed(t0, run, a),
        pressed_at(run, a, d),
        d < run.len() - 1,
        down_in(run, d, run.len() as int),
        within(run, d, run.len() - 1, HOLD_MS),
        elapsed_ms(run[d].now_us, run.last().now_us) >= HOLD_MS,
    ensures
        going(t0, run.drop_last()),
        poll_after(t0, run) == Poll::Done(Some(Gesture::Hold)),
{
    let p = run.drop_last();
    assert(forall|k: int| 0 <= k < p.len() ==> p[k] == run[k]);
    assert(run[run.len() - 1] == run.last());
    assert(pressed_at(p, a, d));
    lemma_reaches_down(t0, p, a, d);
}

/// A lone short press fires as a tap on the first sample that finds the double
/// window closed.
pub proof fn law_lone_short_press_fires(t0: u64, run: Seq<Sample>, a: int, d: int, r: int)
    requires
        undisturbed(t0, run, a),
        pressed_at(run, a, d),
        short_press(run, d, r),
        r < run.len() - 1,
        up_in(run, r, run.len() as int),
        within(run, r, run.len() - 1, DOUBLE_WINDOW_MS),
        elapsed_ms(run[r].now_us, run.last().now_us) >= DOUBLE_WINDOW_MS,
    ensures
        going(t0, run.drop_last()),
        poll_after(t0, run) == Poll::Done(Some(Gesture::Tap)),
{
    let p = run.drop_last();
    assert(forall|k: int| 0 <= k < p.len() ==> p[k] == run[k]);
    assert(run[run.len() - 1] == run.last());
    assert(pressed_at(p, a, d));
    assert(short_press(p, d, r));
    lemma_reaches_window(t0, p, a, d, r);
}

/// Two short presses fire as a double on the second release; a second press
/// kept down to the threshold fires as a hold instead.
pub proof fn law_second_press_fires(
    t0: u64,
    run: Seq<Sample>,
    a: int,
    d: int,
    r: int,
    e: int,
)
    requires
        undisturbed(t0, run, a),
        pressed_at(run, a, d),
        short_press(run, d, r),
        second_press(run, r, e),
        e < run.len() - 1,
        down_in(run, e, run.len() - 1),
        within(run, e, run.len() - 1, HOLD_MS),
    ensures
        going(t0, run.drop_last()),
        !run.last().pressed ==> poll_after(t0, run) == Poll::Done(Some(Gesture::Double)),
        run.last().pressed && elapsed_ms(run[e].now_us, run.last().now_us) >= HOLD_MS ==> poll_after(
            t0,
            run,
        ) == Poll::Done(Some(Gesture::Hold)),
{
    let p = run.drop_last();
    assert(forall|k: int| 0 <= k < p.len() ==> p[k] == run[k]);
    assert(run[run.len() - 1] == run.last());
    assert(pressed_at(p, a, d));
    assert(short_press(p, d, r));
    assert(second_press(p, r, e));
    lemma_reaches_second(t0, p, a, d, r, e);
}

/// The thresholds on the clock of the samples: a press is a hold from 800
/// milliseconds on, a second press makes a double within 300, and a key that is
/// down for 2000 is stuck.
pub proof fn law_thresholds_on_the_clock(since: u64, now: u64)
    requires
        since <= now,
    ensures
        elapsed_ms(since, now) >= HOLD_MS <==> now - since >= 800_000,
        elapsed_ms(since, now) >= DOUBLE_WINDOW_MS <==> now - since >= 300_000,
        elapsed_ms(since, now) >= STUCK_MS <==> now - since >= 2_000_000,
{
}

/// A wait for the key ends when the key goes up, and after two seconds in any
/// case; a configured host ends the one on menu entry at once, and has no say in
/// a drain.
pub proof fn law_waits_for_the_key_end(pressed: bool, configured: bool, waited_us: u64)
    ensures
        drains(true, waited_us) <==> waited_us < 2_000_000,
        !drains(false, waited_us),
        !waits_up(pressed, true, waited_us),
        waits_up(pressed, false, waited_us) <==> drains(pressed, waited_us),
{
}

/// The recognizer looks again at once exactly when it moved to another stage; it
/// sleeps between samples that leave it where it is.
pub proof fn law_recognizer_looks_again_after_a_move(stage: Stage, s: Sample)
    ensures
        step_of(stage, s).1 == Poll::Again <==> step_of(stage, s).0 != stage,
        step_of(stage, s).1 == Poll::Sleep ==> step_of(stage, s).0 == stage,
{
}

} // verus!
