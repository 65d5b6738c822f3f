//! Touchless (physical-button) screens: the ambient status page and the
//! one-key confirm page, for the 240x135 landscape panel.
//!
//! The anti-phishing contract: the relying party is rendered verbatim
//! (losing its head, with a forced mark, when clamped) on the same screen the
//! button approves.
use vstd::prelude::*;

use super::{Glyph, Ink, Op, OpModel, Paint, Placing, Point, Rect, Role};

verus! {

/// Touchless panel width in pixels.
pub const KEYS_W: u16 = 240;

/// Touchless panel height in pixels.
pub const KEYS_H: u16 = 135;

/// Horizontal inset for every text line, so no line can touch the panel edges.
pub const KEYS_INSET: u16 = 12;

pub const KEYS_TEXT_W: u16 = KEYS_W - 2 * KEYS_INSET;

/// Vertical centres of the confirm page's lines, top to bottom.
pub const KEYS_TITLE_CY: i32 = 26;

pub const KEYS_RP_CY: i32 = 62;

pub const KEYS_ACCOUNT_CY: i32 = 82;

pub const KEYS_HINT_CY: i32 = 112;

pub const KEYS_HINT_ALT_CY: i32 = 126;

/// Row layout shared by every keys page: a glyph slot, a gap, then the word,
/// the whole row centred on the panel.
pub const ROW_GLYPH_PX: u16 = 32;

pub const ROW_GAP_PX: u16 = 10;

/// The panel's middle row (its height is odd) and its middle column.
pub const KEYS_MID_Y: i32 = 67;

pub const KEYS_MID_X: i32 = 120;

/// The press hint: the single button's approve gesture, shown on every
/// confirm.
pub const HINT_PRESS: &'static str = "PRESS TO CONFIRM";

/// The hold hint: the single button's decline gesture.
pub const HINT_HOLD: &'static str = "HOLD TO DENY";

/// What the device is doing.
#[derive(Clone, Copy, PartialEq, Eq, Structural, Debug)]
pub enum StatusKind {
    Idle,
    Processing,
    Touch,
    Boot,
}

/// A page's face: its colour, icon and word.
pub struct Face {
    pub ink: Ink,
    pub glyph: Glyph,
    pub word: Seq<char>,
}

/// The face of each state.
pub open spec fn face_of(kind: StatusKind) -> Face {
    match kind {
        StatusKind::Idle => Face { ink: Ink::Success, glyph: Glyph::CheckCircle, word: "READY"@ },
        StatusKind::Processing => Face { ink: Ink::Accent, glyph: Glyph::Rotate, word: "WORKING"@ },
        StatusKind::Touch => Face { ink: Ink::Accent, glyph: Glyph::Shield, word: "CONFIRM"@ },
        StatusKind::Boot => Face { ink: Ink::Warn, glyph: Glyph::Usb, word: "STARTING"@ },
    }
}

/// The status colour, icon and word for one state.
pub fn status_face(kind: StatusKind) -> (r: (Ink, Glyph, &'static str))
    ensures
        r.0 == face_of(kind).ink,
        r.1 == face_of(kind).glyph,
        r.2@ == face_of(kind).word,
{
    match kind {
        StatusKind::Idle => (Ink::Success, Glyph::CheckCircle, "READY"),
        StatusKind::Processing => (Ink::Accent, Glyph::Rotate, "WORKING"),
        StatusKind::Touch => (Ink::Accent, Glyph::Shield, "CONFIRM"),
        StatusKind::Boot => (Ink::Warn, Glyph::Usb, "STARTING"),
    }
}

/// A measured width; text that cannot be measured counts as zero wide.
pub open spec fn width_of(w: Option<u32>) -> int {
    match w {
        Some(w) => w as int,
        None => 0,
    }
}

/// Half of `n`, rounded toward zero.
pub open spec fn half(n: int) -> int {
    if n >= 0 {
        n / 2
    } else {
        -((-n) / 2)
    }
}

/// `n`, or zero where it is negative.
pub open spec fn not_below_zero(n: int) -> int {
    if n >= 0 {
        n
    } else {
        0
    }
}

/// The left edges of a row's glyph slot and word, for a word `word_w` wide: the
/// row is centred, and nothing starts left of the panel.
pub open spec fn slots_of(word_w: int) -> (int, int) {
    let x0 = half(KEYS_W - (ROW_GLYPH_PX + ROW_GAP_PX + word_w));
    (not_below_zero(x0), not_below_zero(x0 + ROW_GLYPH_PX + ROW_GAP_PX))
}

/// The horizontal slot positions for one row: the glyph slot's left edge and
/// the word's, from the word's measured width.
pub fn row_slots(word_w: Option<u32>) -> (r: (u16, u16))
    requires
        width_of(word_w) + ROW_GLYPH_PX + ROW_GAP_PX <= i32::MAX,
    ensures
        r.0 == slots_of(width_of(word_w)).0,
        r.1 == slots_of(width_of(word_w)).1,
{
    let w: u32 = match word_w {
        Some(w) => w,
        None => 0,
    };
    let lead: u32 = ROW_GLYPH_PX as u32 + ROW_GAP_PX as u32;
    let total: u32 = lead + w;
    if total <= KEYS_W as u32 {
        let x0: u32 = (KEYS_W as u32 - total) / 2;
        (x0 as u16, (x0 + lead) as u16)
    } else {
        let over: u32 = (total - KEYS_W as u32) / 2;
        (0, if over < lead {
            (lead - over) as u16
        } else {
            0
        })
    }
}

/// One breathe ramp (a triangle over the dark surface) in 4-bit coverages,
/// sixteen phases of a single step each; the first is the full colour.
pub const BREATHE_RAMP: [u8; 16] = [15, 14, 13, 12, 11, 10, 9, 8, 7, 8, 9, 10, 11, 12, 13, 14];

/// The coverage at a breathe phase: down from full by one a phase to the
/// middle of the ramp, and back up.
pub open spec fn coverage_at(phase: int) -> int {
    let p = phase % 16;
    if p <= 8 {
        15 - p
    } else {
        p - 1
    }
}

/// The colour at a breathe phase.
pub open spec fn breathed(ink: Ink, phase: u32) -> Paint {
    Paint::Lit { ink, coverage: coverage_at(phase as int) as u8 }
}

/// The colour at breathe `phase`: `base` lit over the panel background.
pub fn breathe_color(base: Ink, phase: u32) -> (r: Paint)
    ensures
        r == breathed(base, phase),
{
    let p: usize = (phase % 16) as usize;
    assert(BREATHE_RAMP@[p as int] == coverage_at(phase as int)) by {
        let q = p as int;
        assert(q == 0 || q == 1 || q == 2 || q == 3 || q == 4 || q == 5 || q == 6 || q == 7 || q
            == 8 || q == 9 || q == 10 || q == 11 || q == 12 || q == 13 || q == 14 || q == 15);
    }
    Paint::Lit { ink: base, coverage: BREATHE_RAMP[p] }
}

/// The whole panel, cleared.
pub open spec fn cleared() -> OpModel {
    OpModel::Fill { area: Rect { x: 0, y: 0, w: KEYS_W, h: KEYS_H } }
}

/// An icon in a row's leading slot.
pub open spec fn slot_icon(x0: int, glyph: Glyph, paint: Paint) -> OpModel {
    OpModel::Icon {
        glyph,
        slot: Rect { x: x0 as u16, y: 0, w: ROW_GLYPH_PX, h: KEYS_H },
        size: ROW_GLYPH_PX,
        paint,
    }
}

/// A row's word.
pub open spec fn row_word(x: int, word: Seq<char>, paint: Paint) -> OpModel {
    OpModel::Text {
        text: word,
        at: Point { x: x as i32, y: KEYS_MID_Y },
        role: Role::Ready,
        paint,
        placing: Placing::Left,
    }
}

/// An icon and a word as one centred row.
pub open spec fn row_ops(face: Face, word_w: Option<u32>, paint: Paint) -> Seq<OpModel> {
    let slots = slots_of(width_of(word_w));
    seq![slot_icon(slots.0, face.glyph, paint), row_word(slots.1, face.word, paint)]
}

/// A bare word in the middle of the panel.
pub open spec fn lone_word(word: Seq<char>, paint: Paint) -> OpModel {
    OpModel::Text {
        text: word,
        at: Point { x: KEYS_MID_X, y: KEYS_MID_Y },
        role: Role::Ready,
        paint,
        placing: Placing::Centered,
    }
}

/// What an animation step repaints at `phase`: the breathing word of a working
/// device, the breathing icon and word of a ready or starting one, and nothing
/// while it waits for a touch.
pub open spec fn step_ops(kind: StatusKind, phase: u32, word_w: Option<u32>) -> Seq<OpModel> {
    let face = face_of(kind);
    match kind {
        StatusKind::Processing => seq![lone_word(face.word, breathed(face.ink, phase))],
        StatusKind::Idle | StatusKind::Boot => row_ops(face, word_w, breathed(face.ink, phase)),
        StatusKind::Touch => Seq::empty(),
    }
}

/// The full status page at `phase`: a cleared panel and the state's row; the
/// touch page's row is static.
pub open spec fn status_ops(kind: StatusKind, phase: u32, word_w: Option<u32>) -> Seq<OpModel> {
    seq![cleared()] + if kind == StatusKind::Touch {
        row_ops(face_of(kind), word_w, Paint::Solid(face_of(kind).ink))
    } else {
        step_ops(kind, phase, word_w)
    }
}

fn clear_panel() -> (r: Op)
    ensures
        r@ == cleared(),
{
    Op::Fill { area: Rect { x: 0, y: 0, w: KEYS_W, h: KEYS_H } }
}

/// An icon in the row's leading slot at `x0`.
fn paint_slot_glyph(x0: u16, glyph: Glyph, paint: Paint) -> (r: Op)
    ensures
        r@ == slot_icon(x0 as int, glyph, paint),
{
    Op::Icon {
        glyph,
        slot: Rect { x: x0, y: 0, w: ROW_GLYPH_PX, h: KEYS_H },
        size: ROW_GLYPH_PX,
        paint,
    }
}

fn paint_word(x: u16, word: &str, paint: Paint) -> (r: Op)
    ensures
        r@ == row_word(x as int, word@, paint),
{
    Op::Text {
        text: word.to_owned(),
        at: Point { x: x as i32, y: KEYS_MID_Y },
        role: Role::Ready,
        paint,
        placing: Placing::Left,
    }
}

fn paint_lone_word(word: &str, paint: Paint) -> (r: Op)
    ensures
        r@ == lone_word(word@, paint),
{
    Op::Text {
        text: word.to_owned(),
        at: Point { x: KEYS_MID_X, y: KEYS_MID_Y },
        role: Role::Ready,
        paint,
        placing: Placing::Centered,
    }
}

/// One centred row on the dark surface: leading icon, gap, then the word,
/// vertically centred on the panel's midline. The panel is filled explicitly.
fn centred_row(glyph: Glyph, ink: Ink, label: &str, word_w: Option<u32>) -> (r: Vec<Op>)
    requires
        width_of(word_w) + ROW_GLYPH_PX + ROW_GAP_PX <= i32::MAX,
    ensures
        super::ops_of(r@) == seq![cleared()] + row_ops(
            Face { ink, glyph, word: label@ },
            word_w,
            Paint::Solid(ink),
        ),
{
    let (x0, word_x) = row_slots(word_w);
    let mut ops: Vec<Op> = Vec::new();
    ops.push(clear_panel());
    ops.push(paint_slot_glyph(x0, glyph, Paint::Solid(ink)));
    ops.push(paint_word(word_x, label, Paint::Solid(ink)));
    assert(super::ops_of(ops@) =~= seq![cleared()] + row_ops(
        Face { ink, glyph, word: label@ },
        word_w,
        Paint::Solid(ink),
    ));
    ops
}

/// The animated status page: the touchless panel's stand-in for a status LED.
/// `word_w` is the measured width of the state's word.
pub fn render_keys_status_phase(kind: StatusKind, phase: u32, word_w: Option<u32>) -> (r: Vec<Op>)
    requires
        width_of(word_w) + ROW_GLYPH_PX + ROW_GAP_PX <= i32::MAX,
    ensures
        super::ops_of(r@) == status_ops(kind, phase, word_w),
{
    let (base, glyph, label) = status_face(kind);
    let (x0, word_x) = row_slots(word_w);
    let mut ops: Vec<Op> = Vec::new();
    ops.push(clear_panel());
    match kind {
        StatusKind::Processing => {
            ops.push(paint_lone_word(label, breathe_color(base, phase)));
        },
        StatusKind::Idle | StatusKind::Boot => {
            let c = breathe_color(base, phase);
            ops.push(paint_slot_glyph(x0, glyph, c));
            ops.push(paint_word(word_x, label, c));
        },
        StatusKind::Touch => {
            ops.push(paint_slot_glyph(x0, glyph, Paint::Solid(base)));
            ops.push(paint_word(word_x, label, Paint::Solid(base)));
        },
    }
    assert(super::ops_of(ops@) =~= status_ops(kind, phase, word_w));
    ops
}

/// The status page of callers that do not animate: the first phase.
pub open spec fn still_ops(kind: StatusKind, word_w: Option<u32>) -> Seq<OpModel> {
    status_ops(kind, 0, word_w)
}

/// The page that does not animate shows its state in full colour, and is the
/// page the animation comes back to every sixteen phases.
pub proof fn law_still_page_is_lit_in_full(kind: StatusKind, turns: u32, word_w: Option<u32>)
    requires
        16 * turns <= u32::MAX,
    ensures
        still_ops(kind, word_w) == status_ops(kind, (16 * turns) as u32, word_w),
        kind != StatusKind::Touch ==> says_only(
            still_ops(kind, word_w),
            face_of(kind).word,
            Paint::Lit { ink: face_of(kind).ink, coverage: 15 },
        ),
{
    let ops = still_ops(kind, word_w);
    assert(coverage_at((16 * turns) as int) == 15 && coverage_at(0) == 15);
    if kind == StatusKind::Processing {
        assert(ops.len() == 2 && ops[1] is Text);
    } else {
        assert(ops.len() == 3 && ops[1] is Icon && ops[2] is Text);
    }
}

/// The ambient status page at phase zero: a fixed frame for callers that
/// repaint on state change only.
pub fn render_keys_status(kind: StatusKind, word_w: Option<u32>) -> (r: Vec<Op>)
    requires
        width_of(word_w) + ROW_GLYPH_PX + ROW_GAP_PX <= i32::MAX,
    ensures
        super::ops_of(r@) == still_ops(kind, word_w),
{
    render_keys_status_phase(kind, 0, word_w)
}

/// Step one animated state in place: only its own region is repainted, never
/// the whole panel. The caller paints the full frame first.
pub fn render_keys_status_step(kind: StatusKind, phase: u32, word_w: Option<u32>) -> (r: Vec<Op>)
    requires
        width_of(word_w) + ROW_GLYPH_PX + ROW_GAP_PX <= i32::MAX,
    ensures
        super::ops_of(r@) == step_ops(kind, phase, word_w),
{
    let (base, glyph, label) = status_face(kind);
    let c = breathe_color(base, phase);
    let (x0, word_x) = row_slots(word_w);
    let mut ops: Vec<Op> = Vec::new();
    match kind {
        StatusKind::Processing => {
            ops.push(paint_lone_word(label, c));
        },
        StatusKind::Idle | StatusKind::Boot => {
            ops.push(paint_slot_glyph(x0, glyph, c));
            ops.push(paint_word(word_x, label, c));
        },
        StatusKind::Touch => {},
    }
    assert(super::ops_of(ops@) =~= step_ops(kind, phase, word_w));
    ops
}

/// The face of a decision.
pub open spec fn decision_face(approved: bool) -> Face {
    if approved {
        Face { ink: Ink::Success, glyph: Glyph::Check, word: "APPROVED"@ }
    } else {
        Face { ink: Ink::Danger, glyph: Glyph::Warn, word: "DECLINED"@ }
    }
}

/// The approve/decline feedback page.
pub open spec fn decision_ops(approved: bool, word_w: Option<u32>) -> Seq<OpModel> {
    seq![cleared()] + row_ops(
        decision_face(approved),
        word_w,
        Paint::Solid(decision_face(approved).ink),
    )
}

/// The word of a decision page.
pub fn decision_word(approved: bool) -> (r: &'static str)
    ensures
        r@ == decision_face(approved).word,
{
    if approved {
        "APPROVED"
    } else {
        "DECLINED"
    }
}

/// The brief approve/decline feedback page shown after a button gesture
/// decides a confirm: one centred row, green or red.
pub fn render_keys_decision(approved: bool, word_w: Option<u32>) -> (r: Vec<Op>)
    requires
        width_of(word_w) + ROW_GLYPH_PX + ROW_GAP_PX <= i32::MAX,
    ensures
        super::ops_of(r@) == decision_ops(approved, word_w),
{
    if approved {
        centred_row(Glyph::Check, Ink::Success, decision_word(true), word_w)
    } else {
        centred_row(Glyph::Warn, Ink::Danger, decision_word(false), word_w)
    }
}

/// A clamped text of a confirm page; `truncated` tells that the clamp cut it.
#[derive(Clone, Copy, Debug)]
pub struct PromptText<'a> {
    pub text: &'a str,
    pub truncated: bool,
}

/// What a confirm page asks: the device's own title, the relying party, and
/// the account.
#[derive(Clone, Copy, Debug)]
pub struct ConfirmPrompt<'a> {
    pub title: &'a str,
    pub primary: PromptText<'a>,
    pub secondary: PromptText<'a>,
}

/// A plain line centred on the panel's middle column.
pub open spec fn mid_line(text: Seq<char>, cy: i32, role: Role, ink: Ink) -> OpModel {
    OpModel::Text {
        text,
        at: Point { x: KEYS_MID_X, y: cy },
        role,
        paint: Paint::Solid(ink),
        placing: Placing::Line,
    }
}

/// The text column's clip.
pub open spec fn text_clip() -> Rect {
    Rect { x: KEYS_INSET, y: 0, w: KEYS_TEXT_W, h: KEYS_H }
}

/// The confirm page. The relying party keeps its tail, the registrable suffix;
/// the account keeps its head and is left out where there is none.
pub open spec fn confirm_ops(p: ConfirmPrompt) -> Seq<OpModel> {
    seq![
        cleared(),
        mid_line(p.title@, KEYS_TITLE_CY, Role::Heading, Ink::Fg),
        OpModel::Text {
            text: p.primary.text@,
            at: Point { x: KEYS_INSET as i32, y: KEYS_RP_CY },
            role: Role::BodyStrong,
            paint: Paint::Solid(Ink::Fg),
            placing: Placing::KeepTail { clip: text_clip(), cut: p.primary.truncated },
        },
    ] + (if p.secondary.text@.len() == 0 {
        Seq::empty()
    } else {
        seq![
            OpModel::Text {
                text: p.secondary.text@,
                at: Point { x: KEYS_INSET as i32, y: KEYS_ACCOUNT_CY },
                role: Role::Body,
                paint: Paint::Solid(Ink::Grey),
                placing: Placing::KeepHead { clip: text_clip(), cut: p.secondary.truncated },
            },
        ]
    }) + seq![
        mid_line(HINT_PRESS@, KEYS_HINT_CY, Role::Body, Ink::Muted),
        mid_line(HINT_HOLD@, KEYS_HINT_ALT_CY, Role::Body, Ink::Muted),
    ]
}

pub(crate) fn paint_mid_line(text: &str, cy: i32, role: Role, ink: Ink) -> (r: Op)
    ensures
        r@ == mid_line(text@, cy, role, ink),
{
    Op::Text {
        text: text.to_owned(),
        at: Point { x: KEYS_MID_X, y: cy },
        role,
        paint: Paint::Solid(ink),
        placing: Placing::Line,
    }
}

/// The one-key confirm page: the device-controlled operation title, the
/// sanitized relying-party fields, and the gesture hints. There are no
/// buttons, so the page is text only.
pub fn render_keys_confirm(prompt: &ConfirmPrompt) -> (r: Vec<Op>)
    ensures
        super::ops_of(r@) == confirm_ops(*prompt),
{
    let clip = Rect { x: KEYS_INSET, y: 0, w: KEYS_TEXT_W, h: KEYS_H };
    let mut ops: Vec<Op> = Vec::new();
    ops.push(clear_panel());
    ops.push(paint_mid_line(prompt.title, KEYS_TITLE_CY, Role::Heading, Ink::Fg));
    ops.push(
        Op::Text {
            text: prompt.primary.text.to_owned(),
            at: Point { x: KEYS_INSET as i32, y: KEYS_RP_CY },
            role: Role::BodyStrong,
            paint: Paint::Solid(Ink::Fg),
            placing: Placing::KeepTail { clip, cut: prompt.primary.truncated },
        },
    );
    if !prompt.secondary.text.is_empty() {
        ops.push(
            Op::Text {
                text: prompt.secondary.text.to_owned(),
                at: Point { x: KEYS_INSET as i32, y: KEYS_ACCOUNT_CY },
                role: Role::Body,
                paint: Paint::Solid(Ink::Grey),
                placing: Placing::KeepHead { clip, cut: prompt.secondary.truncated },
            },
        );
    }
    ops.push(paint_mid_line(HINT_PRESS, KEYS_HINT_CY, Role::Body, Ink::Muted));
    ops.push(paint_mid_line(HINT_HOLD, KEYS_HINT_ALT_CY, Role::Body, Ink::Muted));
    assert(super::ops_of(ops@) =~= confirm_ops(*prompt));
    ops
}

/// A request's account, where it has one, is the line under the relying party:
/// in full, in grey, at the inset, losing its tail where it outgrows the text
/// column, and marked as cut exactly when it was clamped. The relying party is
/// in the foreground colour at the same inset.
pub proof fn law_confirm_shows_the_account(p: ConfirmPrompt)
    ensures
        p.secondary.text@.len() > 0 ==> (confirm_ops(p)[3] matches OpModel::Text {
            text,
            at,
            role,
            paint,
            placing,
        } && {
            &&& text == p.secondary.text@
            &&& at == (Point { x: 12, y: 82 })
            &&& role == Role::Body
            &&& paint == Paint::Solid(Ink::Grey)
            &&& placing == (Placing::KeepHead {
                clip: Rect { x: 12, y: 0, w: 216, h: 135 },
                cut: p.secondary.truncated,
            })
        }),
        confirm_ops(p)[2] matches OpModel::Text { at, role, paint, placing, .. } && {
            &&& at == (Point { x: 12, y: 62 })
            &&& role == Role::BodyStrong
            &&& paint == Paint::Solid(Ink::Fg)
            &&& placing == (Placing::KeepTail {
                clip: Rect { x: 12, y: 0, w: 216, h: 135 },
                cut: p.primary.truncated,
            })
        },
        fills_the_panel(confirm_ops(p)[0]),
        forall|k: int|
            1 <= k < confirm_ops(p).len() ==> #[trigger] confirm_ops(p)[k] is Text,
        confirm_ops(p)[confirm_ops(p).len() - 2] matches OpModel::Text { text, at, placing, .. }
            && text == "PRESS TO CONFIRM"@ && at == (Point { x: 120, y: 112 }) && placing
            == Placing::Line,
        confirm_ops(p).last() matches OpModel::Text { text, at, placing, .. } && text
            == "HOLD TO DENY"@ && at == (Point { x: 120, y: 126 }) && placing == Placing::Line,
        confirm_ops(p)[1] matches OpModel::Text { text, at, role, placing, .. } && text == p.title@
            && at == (Point { x: 120, y: 26 }) && role == Role::Heading && placing == Placing::Line,
{
}

/// Whatever the request, the confirm page carries the whole relying-party text
/// inside the text column, marked as cut exactly when it was clamped, under the
/// device's own title and above both gesture hints; the account is there
/// exactly when the request carries one.
pub proof fn law_confirm_names_its_subject(p: ConfirmPrompt)
    ensures
        confirm_ops(p)[1] == mid_line(p.title@, KEYS_TITLE_CY, Role::Heading, Ink::Fg),
        confirm_ops(p)[2] matches OpModel::Text { text, placing, .. } && text == p.primary.text@
            && placing == (Placing::KeepTail { clip: text_clip(), cut: p.primary.truncated }),
        confirm_ops(p).len() == (if p.secondary.text@.len() == 0 {
            5int
        } else {
            6
        }),
        confirm_ops(p)[confirm_ops(p).len() - 2] == mid_line(
            HINT_PRESS@,
            KEYS_HINT_CY,
            Role::Body,
            Ink::Muted,
        ),
        confirm_ops(p).last() == mid_line(HINT_HOLD@, KEYS_HINT_ALT_CY, Role::Body, Ink::Muted),
{
}

/// The vertical middle of a line of text.
pub open spec fn line_cy(op: OpModel) -> int {
    match op {
        OpModel::Text { at, .. } => at.y as int,
        _ => 0,
    }
}

/// The confirm page's lines keep apart: every centre leaves room for its face
/// above and below, the title, subject, account and hint bands do not collide,
/// and whatever lines a request has come in this order down the panel.
pub proof fn law_confirm_lines_keep_apart(p: ConfirmPrompt, i: int, j: int)
    requires
        1 <= i < j < confirm_ops(p).len(),
    ensures
        KEYS_TITLE_CY > 13,
        KEYS_RP_CY - KEYS_TITLE_CY >= 22,
        KEYS_ACCOUNT_CY - KEYS_RP_CY >= 16,
        KEYS_HINT_CY - KEYS_ACCOUNT_CY >= 24,
        KEYS_H - KEYS_HINT_ALT_CY >= 8,
        line_cy(confirm_ops(p)[1]) == KEYS_TITLE_CY,
        line_cy(confirm_ops(p)[2]) == KEYS_RP_CY,
        line_cy(confirm_ops(p).last()) == KEYS_HINT_ALT_CY,
        line_cy(confirm_ops(p)[j]) - line_cy(confirm_ops(p)[i]) >= 14,
        j < confirm_ops(p).len() - 1 ==> line_cy(confirm_ops(p)[j]) - line_cy(confirm_ops(p)[i])
            >= 16,
{
}

/// The whole panel, from corner to corner.
pub open spec fn fills_the_panel(op: OpModel) -> bool {
    op matches OpModel::Fill { area } && area == (Rect { x: 0, y: 0, w: 240, h: 135 })
}

/// The texts an operation list paints are all `word`, in `paint`, and it does
/// paint it.
pub open spec fn says_only(ops: Seq<OpModel>, word: Seq<char>, paint: Paint) -> bool {
    &&& exists|k: int| 0 <= k < ops.len() && #[trigger] ops[k] is Text
    &&& forall|k: int|
        0 <= k < ops.len() ==> (#[trigger] ops[k] matches OpModel::Text {
            text,
            paint: p,
            role,
            at,
            ..
        } ==> text == word && p == paint && role == Role::Ready && at.y == 67)
}

/// The icons an operation list paints are all `glyph`, in `paint`, and it does
/// paint one.
pub open spec fn draws_only(ops: Seq<OpModel>, glyph: Glyph, paint: Paint) -> bool {
    &&& exists|k: int| 0 <= k < ops.len() && #[trigger] ops[k] is Icon
    &&& forall|k: int|
        0 <= k < ops.len() ==> (#[trigger] ops[k] matches OpModel::Icon {
            glyph: g,
            paint: p,
            size,
            ..
        } ==> g == glyph && p == paint && size == 32)
}

/// The feedback page says what was decided: an approval reads APPROVED in green
/// with a check and nothing else, a refusal DECLINED in red with a warning and
/// nothing else. The two words differ.
pub proof fn law_decision_page_says_the_decision(word_w: Option<u32>)
    ensures
        says_only(decision_ops(true, word_w), "APPROVED"@, Paint::Solid(Ink::Success)),
        says_only(decision_ops(false, word_w), "DECLINED"@, Paint::Solid(Ink::Danger)),
        draws_only(decision_ops(true, word_w), Glyph::Check, Paint::Solid(Ink::Success)),
        draws_only(decision_ops(false, word_w), Glyph::Warn, Paint::Solid(Ink::Danger)),
        !says_only(decision_ops(true, word_w), "DECLINED"@, Paint::Solid(Ink::Success)),
        !says_only(decision_ops(false, word_w), "APPROVED"@, Paint::Solid(Ink::Danger)),
        fills_the_panel(decision_ops(true, word_w)[0]),
        fills_the_panel(decision_ops(false, word_w)[0]),
        decision_face(true).word == "APPROVED"@,
        decision_face(false).word == "DECLINED"@,
        "APPROVED"@ != "DECLINED"@,
{
    let yes = decision_ops(true, word_w);
    let no = decision_ops(false, word_w);
    assert(yes.len() == 3 && no.len() == 3);
    assert(yes[1] is Icon && yes[2] is Text && no[1] is Icon && no[2] is Text);
    reveal_strlit("APPROVED");
    reveal_strlit("DECLINED");
    assert("APPROVED"@[0] == 'A' && "DECLINED"@[0] == 'D');
}

/// A status page says its state, whatever the phase: READY in green with a
/// checked circle, a bare WORKING in the accent colour, CONFIRM in the accent
/// colour with a shield, STARTING in the warning colour with a plug. Ready,
/// working and starting breathe; the page that waits for a touch is lit in full.
pub proof fn law_status_page_says_the_state(phase: u32, word_w: Option<u32>)
    ensures
        says_only(
            status_ops(StatusKind::Idle, phase, word_w),
            "READY"@,
            Paint::Lit { ink: Ink::Success, coverage: coverage_at(phase as int) as u8 },
        ),
        draws_only(
            status_ops(StatusKind::Idle, phase, word_w),
            Glyph::CheckCircle,
            Paint::Lit { ink: Ink::Success, coverage: coverage_at(phase as int) as u8 },
        ),
        says_only(
            status_ops(StatusKind::Boot, phase, word_w),
            "STARTING"@,
            Paint::Lit { ink: Ink::Warn, coverage: coverage_at(phase as int) as u8 },
        ),
        draws_only(
            status_ops(StatusKind::Boot, phase, word_w),
            Glyph::Usb,
            Paint::Lit { ink: Ink::Warn, coverage: coverage_at(phase as int) as u8 },
        ),
        says_only(
            status_ops(StatusKind::Processing, phase, word_w),
            "WORKING"@,
            Paint::Lit { ink: Ink::Accent, coverage: coverage_at(phase as int) as u8 },
        ),
        forall|k: int|
            0 <= k < status_ops(StatusKind::Processing, phase, word_w).len() ==> !(
            #[trigger] status_ops(StatusKind::Processing, phase, word_w)[k] is Icon),
        says_only(
            status_ops(StatusKind::Touch, phase, word_w),
            "CONFIRM"@,
            Paint::Solid(Ink::Accent),
        ),
        draws_only(
            status_ops(StatusKind::Touch, phase, word_w),
            Glyph::Shield,
            Paint::Solid(Ink::Accent),
        ),
        fills_the_panel(status_ops(StatusKind::Idle, phase, word_w)[0]),
        fills_the_panel(status_ops(StatusKind::Boot, phase, word_w)[0]),
        fills_the_panel(status_ops(StatusKind::Processing, phase, word_w)[0]),
        fills_the_panel(status_ops(StatusKind::Touch, phase, word_w)[0]),
{
    let idle = status_ops(StatusKind::Idle, phase, word_w);
    let boot = status_ops(StatusKind::Boot, phase, word_w);
    let work = status_ops(StatusKind::Processing, phase, word_w);
    let touch = status_ops(StatusKind::Touch, phase, word_w);
    assert(idle.len() == 3 && boot.len() == 3 && work.len() == 2 && touch.len() == 3);
    assert(idle[1] is Icon && idle[2] is Text);
    assert(boot[1] is Icon && boot[2] is Text);
    assert(work[1] is Text);
    assert(touch[1] is Icon && touch[2] is Text);
}

/// The icon and word of a row lie where the centred row has them: the icon's
/// slot as wide as the icon, the word a gap after it; a lone word is centred on
/// the panel. A row too wide for the panel starts at its edge, and its word is
/// moved left by half of what is too much, as far as the edge.
pub proof fn law_rows_are_placed_by_their_word(face: Face, word_w: Option<u32>, paint: Paint)
    ensures
        row_ops(face, word_w, paint).len() == 2,
        row_ops(face, word_w, paint)[0] matches OpModel::Icon { slot, .. } && {
            let w = width_of(word_w);
            &&& slot.w == 32 && slot.y == 0 && slot.h == 135
            &&& w <= 198 ==> 0 <= 240 - (42 + w) - 2 * slot.x <= 1
            &&& w > 198 ==> slot.x == 0
        },
        row_ops(face, word_w, paint)[1] matches OpModel::Text { at, placing, .. } && {
            let w = width_of(word_w);
            &&& placing == Placing::Left
            &&& w <= 198 ==> 0 <= 240 + 42 - w - 2 * at.x <= 1
            &&& 198 < w < 282 ==> 0 <= (w - 198) - 2 * (42 - at.x) <= 1
            &&& w >= 282 ==> at.x == 0
        },
        lone_word(face.word, paint) matches OpModel::Text { at, placing, .. } && placing
            == Placing::Centered && at.x == 120,
{
}

/// The breathe ramp is a closed triangle: full at phase zero, one step between
/// neighbours, the same every sixteen phases, and darkest halfway and nowhere
/// else.
pub proof fn law_breathe_ramp(phase: nat)
    ensures
        coverage_at(0) == 15,
        coverage_at(phase as int) == 7 <==> phase % 16 == 8,
        7 <= coverage_at(phase as int) <= 15,
        coverage_at(phase as int + 16) == coverage_at(phase as int),
        coverage_at(phase as int + 1) - coverage_at(phase as int) == 1 || coverage_at(
            phase as int,
        ) - coverage_at(phase as int + 1) == 1,
        coverage_at(phase as int) == 15 <==> phase % 16 == 0,
{
}

/// A step repaints exactly what the full page at its phase shows on the
/// cleared panel, so a stepped page and a freshly painted one are the same.
pub proof fn law_step_matches_the_page(kind: StatusKind, phase: u32, word_w: Option<u32>)
    requires
        kind != StatusKind::Touch,
    ensures
        status_ops(kind, phase, word_w) == seq![cleared()] + step_ops(kind, phase, word_w),
        !step_ops(kind, phase, word_w).contains(cleared()),
{
}

/// The page that waits for a touch never animates.
pub proof fn law_touch_never_animates(a: u32, b: u32, word_w: Option<u32>)
    ensures
        status_ops(StatusKind::Touch, a, word_w) == status_ops(StatusKind::Touch, b, word_w),
        step_ops(StatusKind::Touch, a, word_w) == Seq::<OpModel>::empty(),
{
}

/// Every other state does: phases of different coverage, neighbours among
/// them, paint different pages and different steps.
pub proof fn law_phases_change_the_frame(kind: StatusKind, a: u32, b: u32, word_w: Option<u32>)
    requires
        kind != StatusKind::Touch,
        coverage_at(a as int) != coverage_at(b as int),
    ensures
        status_ops(kind, a, word_w) != status_ops(kind, b, word_w),
        step_ops(kind, a, word_w) != step_ops(kind, b, word_w),
{
    let face = face_of(kind);
    assert(breathed(face.ink, a) != breathed(face.ink, b));
    if kind == StatusKind::Processing {
        assert(step_ops(kind, a, word_w)[0] != step_ops(kind, b, word_w)[0]);
        assert(status_ops(kind, a, word_w)[1] != status_ops(kind, b, word_w)[1]);
    } else {
        assert(step_ops(kind, a, word_w)[1] != step_ops(kind, b, word_w)[1]);
        assert(status_ops(kind, a, word_w)[2] != status_ops(kind, b, word_w)[2]);
    }
}

/// A row that fits the panel is centred on it to within a pixel: the icon, the
/// gap and the word lie between equal margins.
pub proof fn law_row_is_centred(word_w: int)
    requires
        0 <= word_w <= KEYS_W - ROW_GLYPH_PX - ROW_GAP_PX,
    ensures
        ({
            let (x0, word_x) = slots_of(word_w);
            let right = KEYS_W - (word_x + word_w);
            &&& 0 <= x0
            &&& word_x == x0 + ROW_GLYPH_PX + ROW_GAP_PX
            &&& x0 <= right <= x0 + 1
        }),
{
}

/// Whatever the word measures, the icon's slot lies inside the panel and the
/// word starts in it.
pub proof fn law_row_starts_inside(word_w: int)
    requires
        0 <= word_w,
    ensures
        0 <= slots_of(word_w).0,
        slots_of(word_w).0 + ROW_GLYPH_PX <= KEYS_W,
        0 <= slots_of(word_w).1 < KEYS_W,
{
}

} // verus!
