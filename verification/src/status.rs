//! The ambient status page's pacing, the key-generation progress pacer, and what
//! a confirm gesture answers.
use vstd::prelude::*;

use crate::render::keys;
use crate::render::keys::StatusKind;
use crate::render::{Ink, Paint};

verus! {

/// Ambient repaint cadence, so a status flip shows within about a tick.
pub const POLL_MS: u64 = 100;

/// How long the starting page lingers after power-up.
pub const SPLASH_MS: u64 = 600;

/// How long the approve/decline feedback page stays up after a gesture
/// decides.
pub const DECISION_MS: u64 = 900;

/// How long the applied page of a confirmed setting stays up.
pub const APPLIED_MS: u64 = 600;

/// The status engine's indices of the states that have a page of their own.
#[derive(Clone, Copy, PartialEq, Eq, Structural, Debug)]
pub struct StatusCodes {
    pub idle: u8,
    pub processing: u8,
    pub touch: u8,
}

/// The state an index of the status engine stands for; any other index is a
/// device that is starting.
pub open spec fn kind_of(s: u8, codes: StatusCodes) -> StatusKind {
    if s == codes.idle {
        StatusKind::Idle
    } else if s == codes.processing {
        StatusKind::Processing
    } else if s == codes.touch {
        StatusKind::Touch
    } else {
        StatusKind::Boot
    }
}

/// Map the status engine's index onto the on-screen status.
pub fn status_to_kind(s: u8, codes: &StatusCodes) -> (r: StatusKind)
    ensures
        r == kind_of(s, *codes),
{
    if s == codes.idle {
        StatusKind::Idle
    } else if s == codes.processing {
        StatusKind::Processing
    } else if s == codes.touch {
        StatusKind::Touch
    } else {
        StatusKind::Boot
    }
}

/// The ambient page's state: what was last painted, where its animation
/// stands, and whether a repaint was asked for that has not landed yet.
#[derive(Clone, Copy, PartialEq, Eq, Structural, Debug)]
pub struct Ambient {
    pub shown: Option<StatusKind>,
    pub phase: u32,
    pub breathe_ticks: u32,
    pub pending: bool,
}

/// What one tick found.
#[derive(Clone, Copy, PartialEq, Eq, Structural, Debug)]
pub struct Tick {
    /// The state is not the one on screen.
    pub changed: bool,
    /// The animation moved on.
    pub advance: bool,
}

/// What to paint after a tick.
#[derive(Clone, Copy, PartialEq, Eq, Structural, Debug)]
pub enum Repaint {
    /// Nothing.
    Nothing,
    /// The whole page; call [`Ambient::painted`] once it landed.
    Full,
    /// The animation step in place, at this phase.
    Step { phase: u32 },
}

/// How many ticks an animation step of a state takes; a state that waits for a
/// touch has none.
pub open spec fn ticks_per_step(kind: StatusKind) -> Option<u32> {
    match kind {
        StatusKind::Processing => Some(1),
        StatusKind::Idle | StatusKind::Boot => Some(3),
        StatusKind::Touch => None,
    }
}

/// `n + 1`, wrapping.
pub open spec fn wrapped_next(n: u32) -> u32 {
    if n == u32::MAX {
        0
    } else {
        (n + 1) as u32
    }
}

/// The state after a tick that saw `kind`: a change restarts the animation,
/// and every so many ticks it moves on by one phase.
pub open spec fn ticked(a: Ambient, kind: StatusKind) -> Ambient {
    let start = if a.shown == Some(kind) {
        a
    } else {
        Ambient { phase: 0, breathe_ticks: 0, ..a }
    };
    match ticks_per_step(kind) {
        None => start,
        Some(n) => {
            let ticks = wrapped_next(start.breathe_ticks);
            Ambient {
                breathe_ticks: ticks,
                phase: if ticks % n == 0 {
                    wrapped_next(start.phase)
                } else {
                    start.phase
                },
                ..a
            }
        },
    }
}

/// Whether a tick that saw `kind` moved its animation.
pub open spec fn advances(a: Ambient, kind: StatusKind) -> bool {
    ticks_per_step(kind) matches Some(n) && ticked(a, kind).breathe_ticks % n == 0
}

/// What a tick that left the state `a` paints: the whole page on a change or
/// while a request is pending, else the animation's step.
pub open spec fn repaint_of(a: Ambient, t: Tick) -> Repaint {
    if t.changed || a.pending {
        Repaint::Full
    } else if t.advance {
        Repaint::Step { phase: a.phase }
    } else {
        Repaint::Nothing
    }
}

/// The state once the starting page is up.
pub open spec fn begun() -> Ambient {
    Ambient { shown: Some(StatusKind::Boot), phase: 0, breathe_ticks: 0, pending: false }
}

/// The state once a repaint was asked for.
pub open spec fn requested(a: Ambient) -> Ambient {
    Ambient { pending: true, ..a }
}

/// The state once the whole page of `kind` is on the panel.
pub open spec fn landed(a: Ambient, kind: StatusKind) -> Ambient {
    Ambient { shown: Some(kind), pending: false, ..a }
}

impl Ambient {
    /// The state once the starting page is up.
    pub fn new() -> (r: Self)
        ensures
            r == begun(),
    {
        Ambient { shown: Some(StatusKind::Boot), phase: 0, breathe_ticks: 0, pending: false }
    }

    /// A repaint was asked for: the panel was painted by other hands.
    pub fn request(&mut self)
        ensures
            *final(self) == requested(*old(self)),
    {
        self.pending = true;
    }

    /// Take one tick that saw `kind`.
    pub fn tick(&mut self, kind: StatusKind) -> (r: Tick)
        ensures
            *final(self) == ticked(*old(self), kind),
            r.changed == (old(self).shown != Some(kind)),
            r.advance == advances(*old(self), kind),
    {
        let changed: bool = match self.shown {
            Some(shown) => shown != kind,
            None => true,
        };
        if changed {
            self.phase = 0;
            self.breathe_ticks = 0;
        }
        let advance: bool = match kind {
            // Working moves on every tick.
            StatusKind::Processing => {
                self.breathe_ticks = self.breathe_ticks.wrapping_add(1);
                true
            },
            StatusKind::Idle | StatusKind::Boot => {
                self.breathe_ticks = self.breathe_ticks.wrapping_add(1);
                self.breathe_ticks % 3 == 0
            },
            StatusKind::Touch => false,
        };
        if advance {
            self.phase = self.phase.wrapping_add(1);
        }
        Tick { changed, advance }
    }

    /// What to paint after a tick.
    pub fn plan(&self, t: &Tick) -> (r: Repaint)
        ensures
            r == repaint_of(*self, *t),
    {
        if t.changed || self.pending {
            Repaint::Full
        } else if t.advance {
            Repaint::Step { phase: self.phase }
        } else {
            Repaint::Nothing
        }
    }

    /// The whole page of `kind` landed on the panel, which meets a pending
    /// request too.
    pub fn painted(&mut self, kind: StatusKind)
        ensures
            *final(self) == landed(*old(self), kind),
    {
        self.shown = Some(kind);
        self.pending = false;
    }
}

/// The state after ticks that saw `kinds`, none of whose pages landed.
pub open spec fn ticked_over(a: Ambient, kinds: Seq<StatusKind>) -> Ambient
    decreases kinds.len(),
{
    if kinds.len() == 0 {
        a
    } else {
        ticked(ticked_over(a, kinds.drop_last()), kinds.last())
    }
}

/// Ticks leave what is shown and what is pending alone.
proof fn lemma_ticks_keep(a: Ambient, kinds: Seq<StatusKind>)
    ensures
        ticked_over(a, kinds).shown == a.shown,
        ticked_over(a, kinds).pending == a.pending,
    decreases kinds.len(),
{
    if kinds.len() > 0 {
        lemma_ticks_keep(a, kinds.drop_last());
    }
}

/// A changed state asks for the whole page on every tick until that page
/// landed, however many ticks went by.
pub proof fn law_change_is_repainted_until_it_lands(
    a: Ambient,
    kinds: Seq<StatusKind>,
    kind: StatusKind,
    t: Tick,
)
    requires
        a.shown != Some(kind),
        t.changed == (ticked_over(a, kinds).shown != Some(kind)),
    ensures
        repaint_of(ticked(ticked_over(a, kinds), kind), t) == Repaint::Full,
{
    lemma_ticks_keep(a, kinds);
}

/// A requested repaint is retried until it lands: every tick after the request
/// asks for the whole page, however many ticks went by and whatever they saw.
pub proof fn law_request_is_retried_until_it_lands(
    a: Ambient,
    kinds: Seq<StatusKind>,
    kind: StatusKind,
    t: Tick,
)
    requires
        a.pending,
    ensures
        repaint_of(ticked(ticked_over(a, kinds), kind), t) == Repaint::Full,
{
    lemma_ticks_keep(a, kinds);
}

/// Once the page of the state landed, nothing but a new request or a new state
/// asks for the whole page again.
pub proof fn law_landed_page_is_not_repainted(a: Ambient, kind: StatusKind, t: Tick)
    requires
        a.shown == Some(kind),
        !a.pending,
        t.changed == (a.shown != Some(kind)),
    ensures
        repaint_of(ticked(a, kind), t) != Repaint::Full,
{
}

/// The state after `n` ticks that all saw `kind`.
pub open spec fn ticked_times(a: Ambient, kind: StatusKind, n: nat) -> Ambient
    decreases n,
{
    if n == 0 {
        a
    } else {
        ticked(ticked_times(a, kind, (n - 1) as nat), kind)
    }
}

/// A shown state that animates steps at a steady pace: after `n` ticks it
/// stands at phase `n` over its step length.
#[verifier::spinoff_prover]
pub proof fn law_breath_is_steady(kind: StatusKind, n: nat)
    requires
        kind != StatusKind::Touch,
        n <= u32::MAX,
    ensures
        ticked_times(
            Ambient { shown: Some(kind), phase: 0, breathe_ticks: 0, pending: false },
            kind,
            n,
        ) == (Ambient {
            shown: Some(kind),
            phase: (n / (ticks_per_step(kind)->0 as nat)) as u32,
            breathe_ticks: n as u32,
            pending: false,
        }),
        ticks_per_step(StatusKind::Processing) == Some(1u32),
        ticks_per_step(StatusKind::Idle) == Some(3u32),
        ticks_per_step(StatusKind::Boot) == Some(3u32),
    decreases n,
{
    if n > 0 {
        law_breath_is_steady(kind, (n - 1) as nat);
        let before = Ambient {
            shown: Some(kind),
            phase: ((n - 1) / (ticks_per_step(kind)->0 as int)) as u32,
            breathe_ticks: (n - 1) as u32,
            pending: false,
        };
        assert(ticked(before, kind).breathe_ticks == n as u32);
        match kind {
            StatusKind::Processing => {
                assert(n as u32 % 1 == 0);
            },
            _ => {
                assert(n / 3 == (n - 1) / 3 + (if n % 3 == 0 {
                    1int
                } else {
                    0
                }));
            },
        }
    }
}

/// A page that waits for a touch never moves, however long it waits.
pub proof fn law_touch_page_is_still(a: Ambient)
    requires
        a.shown == Some(StatusKind::Touch),
    ensures
        ticked(a, StatusKind::Touch) == a,
        !advances(a, StatusKind::Touch),
{
}

/// A key-generation progress step is drawn at most this often.
pub const KEYGEN_TICK_MS: u32 = 100;

/// The progress pacer of a running key generation, which calls far more often
/// than a repaint should run.
#[derive(Clone, Copy, PartialEq, Eq, Structural, Debug)]
pub struct KeygenPace {
    pub last_ms: u32,
    pub phase: u32,
}

/// Milliseconds from `last` to `now` on a clock that wraps.
pub open spec fn wrapped_since(now: u32, last: u32) -> int {
    if now >= last {
        now - last
    } else {
        now - last + 0x1_0000_0000
    }
}

/// What a progress call at `now` does: the pacer after it, and the phase to draw
/// where enough time has passed.
pub open spec fn paced(g: KeygenPace, now: u32) -> (KeygenPace, Option<u32>) {
    if wrapped_since(now, g.last_ms) < KEYGEN_TICK_MS {
        (g, None)
    } else {
        (KeygenPace { last_ms: now, phase: wrapped_next(g.phase) }, Some(g.phase))
    }
}

/// The pacer of a key generation that begins.
pub open spec fn entered() -> KeygenPace {
    KeygenPace { last_ms: 0, phase: 0 }
}

impl KeygenPace {
    /// A key generation begins.
    pub fn enter() -> (r: Self)
        ensures
            r == entered(),
    {
        KeygenPace { last_ms: 0, phase: 0 }
    }

    /// A progress call at `now`: the phase to draw, at most every
    /// [`KEYGEN_TICK_MS`].
    pub fn tick(&mut self, now_ms: u32) -> (r: Option<u32>)
        ensures
            *final(self) == paced(*old(self), now_ms).0,
            r == paced(*old(self), now_ms).1,
    {
        if now_ms.wrapping_sub(self.last_ms) < KEYGEN_TICK_MS {
            return None;
        }
        self.last_ms = now_ms;
        let phase: u32 = self.phase;
        self.phase = phase.wrapping_add(1);
        Some(phase)
    }
}

/// The pacer after a run of progress calls.
pub open spec fn pace_after(g: KeygenPace, calls: Seq<u32>) -> KeygenPace
    decreases calls.len(),
{
    if calls.len() == 0 {
        g
    } else {
        paced(pace_after(g, calls.drop_last()), calls.last()).0
    }
}

/// However often the search calls between two drawn steps, the second is drawn
/// a full pause after the first, and at the next phase.
pub proof fn law_keygen_steps_are_apart(g: KeygenPace, first: u32, calls: Seq<u32>, second: u32)
    requires
        paced(g, first).1 is Some,
        forall|k: int|
            0 <= k < calls.len() ==> paced(
                pace_after(paced(g, first).0, calls.take(k)),
                #[trigger] calls[k],
            ).1 is None,
    ensures
        ({
            let after = pace_after(paced(g, first).0, calls);
            paced(after, second).1 matches Some(phase) ==> {
                &&& wrapped_since(second, first) >= KEYGEN_TICK_MS
                &&& phase == wrapped_next(paced(g, first).1->0)
            }
        }),
{
    lemma_silent_calls(paced(g, first).0, calls);
}

/// Calls that draw nothing leave the pacer as it is.
proof fn lemma_silent_calls(g: KeygenPace, calls: Seq<u32>)
    requires
        forall|k: int|
            0 <= k < calls.len() ==> paced(pace_after(g, calls.take(k)), #[trigger] calls[k]).1 is None,
    ensures
        pace_after(g, calls) == g,
    decreases calls.len(),
{
    if calls.len() > 0 {
        let rest = calls.drop_last();
        assert forall|k: int| 0 <= k < rest.len() implies paced(
            pace_after(g, rest.take(k)),
            #[trigger] rest[k],
        ).1 is None by {
            assert(rest.take(k) =~= calls.take(k));
            assert(rest[k] == calls[k]);
        }
        lemma_silent_calls(g, rest);
        assert(rest =~= calls.take(calls.len() - 1));
        assert(paced(pace_after(g, calls.take(calls.len() - 1)), calls[calls.len() - 1]).1 is None);
    }
}

/// How a confirm wait ended.
#[derive(Clone, Copy, PartialEq, Eq, Structural, Debug)]
pub enum Outcome {
    Confirmed,
    Declined,
    Timeout,
    Cancelled,
}

/// What an applet that asked for presence is told.
#[derive(Clone, Copy, PartialEq, Eq, Structural, Debug)]
pub enum Presence {
    Confirmed,
    Declined,
    Timeout,
    Cancelled,
}

/// The answer each outcome gives.
pub open spec fn answer_of(outcome: Outcome) -> Presence {
    match outcome {
        Outcome::Confirmed => Presence::Confirmed,
        Outcome::Declined => Presence::Declined,
        Outcome::Timeout => Presence::Timeout,
        Outcome::Cancelled => Presence::Cancelled,
    }
}

/// What a gesture decided, where one did.
pub open spec fn decided(outcome: Outcome) -> Option<bool> {
    match outcome {
        Outcome::Confirmed => Some(true),
        Outcome::Declined => Some(false),
        _ => None,
    }
}

/// The answer a smartcard touch policy gets: a cancel is a non-confirmation.
pub open spec fn touch_answer_of(outcome: Outcome) -> Presence {
    if outcome == Outcome::Cancelled {
        Presence::Timeout
    } else {
        answer_of(outcome)
    }
}

/// The feedback page an outcome earns: one for a gesture that decided.
pub fn decision_of(outcome: Outcome) -> (r: Option<bool>)
    ensures
        r == decided(outcome),
{
    match outcome {
        Outcome::Confirmed => Some(true),
        Outcome::Declined => Some(false),
        Outcome::Timeout => None,
        Outcome::Cancelled => None,
    }
}

/// The answer to a ceremony that can be cancelled: cancellation is reported.
pub fn ceremony_answer(outcome: Outcome) -> (r: Presence)
    ensures
        r == answer_of(outcome),
{
    match outcome {
        Outcome::Confirmed => Presence::Confirmed,
        Outcome::Declined => Presence::Declined,
        Outcome::Timeout => Presence::Timeout,
        Outcome::Cancelled => Presence::Cancelled,
    }
}

/// The answer to a smartcard touch policy, which knows no cancellation: a
/// cancel is just a non-confirmation.
pub fn request_answer(outcome: Outcome) -> (r: Presence)
    ensures
        r == touch_answer_of(outcome),
        r == Presence::Confirmed <==> outcome == Outcome::Confirmed,
{
    match ceremony_answer(outcome) {
        Presence::Cancelled => Presence::Timeout,
        other => other,
    }
}

/// One thing a presence request has the board do.
#[derive(Clone, Copy, PartialEq, Eq, Structural, Debug)]
pub enum Act {
    /// Set the status engine.
    SetStatus { status: u8 },
    /// Wait, bounded, for a key still held from an earlier gesture.
    AwaitRelease,
    /// Paint the confirm page.
    ShowConfirm,
    /// Paint the approve/decline feedback page.
    ShowDecision { approved: bool },
    /// Keep the page up.
    Pause { ms: u64 },
    /// Paint the status page.
    ShowStatus { kind: StatusKind },
    /// Have the ambient task repaint on its next tick.
    RequestRepaint,
}

/// What comes before the wait for the gesture: the touch status goes up, a held
/// key is let go, and only then the page that names the operation appears.
pub open spec fn opening_acts(codes: StatusCodes) -> Seq<Act> {
    seq![Act::SetStatus { status: codes.touch }, Act::AwaitRelease, Act::ShowConfirm]
}

/// The feedback an outcome earns.
pub open spec fn feedback_acts(outcome: Outcome) -> Seq<Act> {
    match outcome {
        Outcome::Confirmed => seq![
            Act::ShowDecision { approved: true },
            Act::Pause { ms: DECISION_MS },
        ],
        Outcome::Declined => seq![
            Act::ShowDecision { approved: false },
            Act::Pause { ms: DECISION_MS },
        ],
        _ => Seq::empty(),
    }
}

/// What follows the outcome: the feedback of a gesture that decided, and then
/// the panel and the status engine go back to where they were.
pub open spec fn closing_acts(outcome: Outcome, saved: u8, codes: StatusCodes) -> Seq<Act> {
    feedback_acts(outcome) + seq![
        Act::ShowStatus { kind: kind_of(saved, codes) },
        Act::SetStatus { status: saved },
        Act::RequestRepaint,
    ]
}

/// What a presence request does before it waits for the gesture.
pub fn opening(codes: &StatusCodes) -> (r: Vec<Act>)
    ensures
        r@ == opening_acts(*codes),
{
    let mut acts: Vec<Act> = Vec::new();
    acts.push(Act::SetStatus { status: codes.touch });
    acts.push(Act::AwaitRelease);
    acts.push(Act::ShowConfirm);
    assert(acts@ =~= opening_acts(*codes));
    acts
}

/// What a presence request does once its outcome is known; `saved` is the
/// status it found.
pub fn closing(outcome: Outcome, saved: u8, codes: &StatusCodes) -> (r: Vec<Act>)
    ensures
        r@ == closing_acts(outcome, saved, *codes),
{
    let mut acts: Vec<Act> = Vec::new();
    if let Some(approved) = decision_of(outcome) {
        acts.push(Act::ShowDecision { approved });
        acts.push(Act::Pause { ms: DECISION_MS });
    }
    acts.push(Act::ShowStatus { kind: status_to_kind(saved, codes) });
    acts.push(Act::SetStatus { status: saved });
    acts.push(Act::RequestRepaint);
    assert(acts@ =~= closing_acts(outcome, saved, *codes));
    acts
}

/// The status engine's index after a run of acts.
pub open spec fn status_after(status: u8, acts: Seq<Act>) -> u8
    decreases acts.len(),
{
    if acts.len() == 0 {
        status
    } else {
        match acts.last() {
            Act::SetStatus { status } => status,
            _ => status_after(status, acts.drop_last()),
        }
    }
}

/// Whatever the outcome, a presence request waits with the touch status up,
/// and leaves the status it found, its page, and a repaint request behind.
pub proof fn law_request_leaves_what_it_found(saved: u8, outcome: Outcome, codes: StatusCodes)
    ensures
        status_after(saved, opening_acts(codes)) == codes.touch,
        status_after(codes.touch, closing_acts(outcome, saved, codes)) == saved,
        closing_acts(outcome, saved, codes).last() == Act::RequestRepaint,
        closing_acts(outcome, saved, codes).contains(
            Act::ShowStatus { kind: kind_of(saved, codes) },
        ),
{
    let open = opening_acts(codes);
    let close = closing_acts(outcome, saved, codes);
    reveal_with_fuel(status_after, 4);
    assert(open.drop_last().drop_last() =~= seq![Act::SetStatus { status: codes.touch }]);
    assert(close.drop_last().last() == Act::SetStatus { status: saved });
    assert(close[close.len() - 3] == Act::ShowStatus { kind: kind_of(saved, codes) });
}

/// A feedback page is shown exactly for a gesture that decided, and it says
/// what the applet is told.
#[verifier::spinoff_prover]
pub proof fn law_feedback_matches_the_answer(
    outcome: Outcome,
    saved: u8,
    codes: StatusCodes,
    approved: bool,
)
    ensures
        closing_acts(outcome, saved, codes).contains(Act::ShowDecision { approved }) <==> (if approved {
            answer_of(outcome) == Presence::Confirmed
        } else {
            answer_of(outcome) == Presence::Declined
        }),
{
    let close = closing_acts(outcome, saved, codes);
    let show = Act::ShowStatus { kind: kind_of(saved, codes) };
    let set = Act::SetStatus { status: saved };
    let asked = Act::ShowDecision { approved };
    match outcome {
        Outcome::Confirmed => {
            let told = Act::ShowDecision { approved: true };
            let pause = Act::Pause { ms: DECISION_MS };
            assert(close =~= seq![told, pause, show, set, Act::RequestRepaint]);
            assert(close[0] == told);
        },
        Outcome::Declined => {
            let told = Act::ShowDecision { approved: false };
            let pause = Act::Pause { ms: DECISION_MS };
            assert(close =~= seq![told, pause, show, set, Act::RequestRepaint]);
            assert(close[0] == told);
        },
        _ => {
            assert(close =~= seq![show, set, Act::RequestRepaint]);
        },
    }
    assert(forall|i: int| 0 < i < close.len() ==> close[i] != asked);
}

/// The applet is told what happened: that the user confirmed exactly when they
/// did, and that they declined exactly when they did. A cancelled ceremony is
/// reported as such; a touch policy hears of it as of a wait that ran out.
pub proof fn law_answer_is_the_outcome(outcome: Outcome)
    ensures
        answer_of(outcome) == Presence::Confirmed <==> outcome == Outcome::Confirmed,
        answer_of(outcome) == Presence::Declined <==> outcome == Outcome::Declined,
        answer_of(outcome) == Presence::Timeout <==> outcome == Outcome::Timeout,
        answer_of(outcome) == Presence::Cancelled <==> outcome == Outcome::Cancelled,
        touch_answer_of(outcome) == Presence::Confirmed <==> outcome == Outcome::Confirmed,
        touch_answer_of(outcome) == Presence::Declined <==> outcome == Outcome::Declined,
        touch_answer_of(outcome) == Presence::Timeout <==> outcome == Outcome::Timeout || outcome
            == Outcome::Cancelled,
        decided(outcome) == Some(true) <==> outcome == Outcome::Confirmed,
        decided(outcome) == Some(false) <==> outcome == Outcome::Declined,
{
}

/// The word on the feedback page is the answer the applet gets: a page that a
/// request shows says APPROVED exactly when the applet is told Confirmed, and
/// DECLINED exactly when it is told Declined.
#[verifier::spinoff_prover]
pub proof fn law_word_shown_is_the_answer_told(
    outcome: Outcome,
    saved: u8,
    codes: StatusCodes,
    approved: bool,
    word_w: Option<u32>,
)
    requires
        closing_acts(outcome, saved, codes).contains(Act::ShowDecision { approved }),
    ensures
        keys::says_only(
            keys::decision_ops(approved, word_w),
            "APPROVED"@,
            Paint::Solid(Ink::Success),
        ) <==> answer_of(outcome) == Presence::Confirmed,
        keys::says_only(
            keys::decision_ops(approved, word_w),
            "DECLINED"@,
            Paint::Solid(Ink::Danger),
        ) <==> answer_of(outcome) == Presence::Declined,
        answer_of(outcome) == Presence::Confirmed || answer_of(outcome) == Presence::Declined,
{
    law_feedback_matches_the_answer(outcome, saved, codes, approved);
    keys::law_decision_page_says_the_decision(word_w);
    let ops = keys::decision_ops(approved, word_w);
    assert(ops.len() == 3 && ops[2] is Text);
}

/// The feedback page stays up for 900 milliseconds before the status page comes
/// back; a request without a decision has none and waits for nothing. The
/// status page that comes back is painted before the status it found is set.
#[verifier::spinoff_prover]
pub proof fn law_feedback_stays_up(outcome: Outcome, saved: u8, codes: StatusCodes)
    ensures
        ({
            let acts = closing_acts(outcome, saved, codes);
            let n = acts.len() as int;
            &&& outcome == Outcome::Confirmed || outcome == Outcome::Declined ==> n == 5 && acts[0]
                == (Act::ShowDecision { approved: outcome == Outcome::Confirmed }) && acts[1]
                == (Act::Pause { ms: 900 })
            &&& outcome == Outcome::Timeout || outcome == Outcome::Cancelled ==> n == 3
            &&& acts[n - 3] is ShowStatus
            &&& acts[n - 2] == (Act::SetStatus { status: saved })
            &&& acts[n - 1] == Act::RequestRepaint
        }),
{
}

/// A request shows its page last, after the touch status is up and a held key
/// was let go: no press from before can answer it.
pub proof fn law_page_appears_after_the_release(codes: StatusCodes, i: int, j: int)
    requires
        0 <= i < opening_acts(codes).len(),
        0 <= j < opening_acts(codes).len(),
        opening_acts(codes)[i] == Act::AwaitRelease,
        opening_acts(codes)[j] == Act::ShowConfirm,
    ensures
        0 < i < j,
        j == opening_acts(codes).len() - 1,
        opening_acts(codes)[0] == (Act::SetStatus { status: codes.touch }),
        opening_acts(codes).len() == 3,
{
}

/// Each code of the status engine shows its own page, and a code that is none of
/// them shows the starting page.
pub proof fn law_status_code_shows_its_page(s: u8, codes: StatusCodes)
    requires
        codes.idle != codes.processing,
        codes.idle != codes.touch,
        codes.processing != codes.touch,
    ensures
        kind_of(s, codes) == StatusKind::Idle <==> s == codes.idle,
        kind_of(s, codes) == StatusKind::Processing <==> s == codes.processing,
        kind_of(s, codes) == StatusKind::Touch <==> s == codes.touch,
        kind_of(s, codes) == StatusKind::Boot <==> s != codes.idle && s != codes.processing && s
            != codes.touch,
{
}

/// A tick that sees a new state starts its animation over, whatever the last
/// state's stood at, and a tick that moves an animation paints the phase it
/// moved to.
pub proof fn law_change_restarts_the_animation(a: Ambient, kind: StatusKind, t: Tick)
    requires
        t.changed == (a.shown != Some(kind)),
        t.advance == advances(a, kind),
    ensures
        t.changed ==> ticked(a, kind).phase <= 1,
        t.changed && kind != StatusKind::Processing ==> ticked(a, kind).phase == 0,
        t.changed && kind != StatusKind::Touch ==> ticked(a, kind).breathe_ticks == 1,
        !t.changed && !t.advance ==> ticked(a, kind).phase == a.phase,
        !t.changed && t.advance ==> ticked(a, kind).phase != a.phase && (a.phase < u32::MAX
            ==> ticked(a, kind).phase == a.phase + 1),
        repaint_of(ticked(a, kind), t) matches Repaint::Step { phase } ==> t.advance && phase
            == ticked(a, kind).phase,
        t.advance ==> repaint_of(ticked(a, kind), t) != Repaint::Nothing,
{
}

/// A progress call draws exactly when 100 milliseconds have passed on the
/// wrapping clock; it draws the phase that stands and moves on to the next.
pub proof fn law_keygen_call_draws_when_due(g: KeygenPace, now: u32)
    ensures
        paced(g, now).1 is Some <==> (now - g.last_ms) % 0x1_0000_0000 >= 100,
        paced(g, now).1 matches Some(phase) ==> phase == g.phase && paced(g, now).0.last_ms == now
            && paced(g, now).0.phase == (g.phase + 1) % 0x1_0000_0000,
        paced(g, now).1 is None ==> paced(g, now).0 == g,
{
}

/// A request asks for the whole page until it lands, and once the page of a
/// state has landed, that state asks for it no more and any other does. Neither
/// disturbs the animation. The device begins with its starting page up.
pub proof fn law_requests_and_landings(a: Ambient, kind: StatusKind, seen: StatusKind, t: Tick, u: Tick)
    requires
        u.changed == (landed(a, kind).shown != Some(seen)),
    ensures
        repaint_of(ticked(requested(a), kind), t) == Repaint::Full,
        repaint_of(ticked(landed(a, kind), seen), u) == Repaint::Full <==> seen != kind,
        repaint_of(ticked(landed(requested(a), kind), seen), u) == Repaint::Full <==> seen != kind,
        landed(a, kind).phase == a.phase && landed(a, kind).breathe_ticks == a.breathe_ticks,
        requested(a).phase == a.phase && requested(a).breathe_ticks == a.breathe_ticks,
        requested(a).shown == a.shown,
        landed(begun(), StatusKind::Boot) == begun(),
        begun().phase == 0,
{
}

/// A key generation's first step is drawn a full pause after the clock's zero,
/// at phase zero.
pub proof fn law_keygen_begins_at_phase_zero(now: u32)
    ensures
        paced(entered(), now).1 == (if now >= 100 {
            Some(0u32)
        } else {
            None
        }),
{
}

} // verus!
