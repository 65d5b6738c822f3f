use core::convert::Infallible;

use embedded_graphics::draw_target::DrawTarget;
use embedded_graphics::geometry::{OriginDimensions, Point as EgPoint, Size};
use embedded_graphics::mono_font::ascii::{FONT_10X20, FONT_7X13, FONT_7X13_BOLD};
use embedded_graphics::mono_font::{MonoFont, MonoTextStyle};
use embedded_graphics::pixelcolor::{Rgb565, RgbColor};
use embedded_graphics::primitives::Rectangle;
use embedded_graphics::text::{Alignment, Baseline, Text, TextStyleBuilder};
use embedded_graphics::{Drawable, Pixel};

use rsk_keys::render::keys::{
    breathe_color, decision_word, render_keys_confirm, render_keys_decision, render_keys_status,
    render_keys_status_phase, render_keys_status_step, row_slots, status_face, ConfirmPrompt,
    PromptText, StatusKind, BREATHE_RAMP, KEYS_ACCOUNT_CY, KEYS_H, KEYS_HINT_ALT_CY, KEYS_HINT_CY,
    KEYS_INSET, KEYS_RP_CY, KEYS_TEXT_W, KEYS_TITLE_CY, KEYS_W,
};
use rsk_keys::render::keys_menu::{
    fmt_page_indicator, fmt_u16, has_indicator_room, keys_menu_page_slice, render_keys_menu_page, tone_color,
    PageWidths, COL_GAP_PX, HINT, KEYS_MENU_ROWS_PER_PAGE,
};
use rsk_keys::render::{Glyph, Ink, Op, Paint, Placing, Rect, Role};
use rsk_keys::row::{KeysMenuRow, Tone};

const BG: Rgb565 = Rgb565::BLACK;
const FG: Rgb565 = Rgb565::WHITE;

/// A 240x135 recording target: it clips out-of-bounds pixels but flags that it
/// had to (`oob`), so a test can assert a page stayed inside its panel.
struct Rec {
    px: Vec<Rgb565>,
    oob: bool,
}

impl Rec {
    fn new() -> Self {
        Self {
            px: vec![BG; KEYS_W as usize * KEYS_H as usize],
            oob: false,
        }
    }
    fn at(&self, x: u16, y: u16) -> Rgb565 {
        self.px[y as usize * KEYS_W as usize + x as usize]
    }
    fn any_ink_in(&self, r: Rect) -> bool {
        (r.y..r.y + r.h).any(|y| (r.x..r.x + r.w).any(|x| self.at(x, y) != BG))
    }
    fn any_color_in(&self, r: Rect, c: Rgb565) -> bool {
        (r.y..r.y + r.h).any(|y| (r.x..r.x + r.w).any(|x| self.at(x, y) == c))
    }
}

impl OriginDimensions for Rec {
    fn size(&self) -> Size {
        Size::new(KEYS_W.into(), KEYS_H.into())
    }
}

impl DrawTarget for Rec {
    type Color = Rgb565;
    type Error = Infallible;

    fn draw_iter<I>(&mut self, pixels: I) -> Result<(), Self::Error>
    where
        I: IntoIterator<Item = Pixel<Rgb565>>,
    {
        for Pixel(p, c) in pixels {
            if p.x >= 0 && p.y >= 0 && p.x < i32::from(KEYS_W) && p.y < i32::from(KEYS_H) {
                self.px[p.y as usize * KEYS_W as usize + p.x as usize] = c;
            } else {
                self.oob = true;
            }
        }
        Ok(())
    }
}

fn rect(x: u16, y: u16, w: u16, h: u16) -> Rect {
    Rect { x, y, w, h }
}

/// A stand-in for the panel's faces.
fn face(role: Role) -> &'static MonoFont<'static> {
    match role {
        Role::Ready | Role::Heading => &FONT_10X20,
        Role::BodyStrong => &FONT_7X13_BOLD,
        Role::Body | Role::Mono => &FONT_7X13,
    }
}

fn width(text: &str, role: Role) -> Option<u32> {
    Some(text.len() as u32 * face(role).character_size.width)
}

fn color(ink: Ink) -> Rgb565 {
    match ink {
        Ink::Fg => FG,
        Ink::Muted => Rgb565::new(15, 15, 15),
        Ink::Grey => Rgb565::new(20, 40, 20),
        Ink::Success => Rgb565::new(2, 60, 4),
        Ink::Accent => Rgb565::new(4, 30, 31),
        Ink::Warn => Rgb565::new(31, 45, 0),
        Ink::Danger => Rgb565::new(31, 8, 6),
    }
}

fn blend(paint: Paint) -> Rgb565 {
    match paint {
        Paint::Solid(ink) => color(ink),
        Paint::Lit { ink, coverage } => {
            let c = color(ink);
            let lit = |v: u8| (u16::from(v) * u16::from(coverage) / 15) as u8;
            Rgb565::new(lit(c.r()), lit(c.g()), lit(c.b()))
        }
    }
}

fn write(d: &mut Rec, text: &str, x: i32, y: i32, role: Role, c: Rgb565, align: Alignment) {
    let style = TextStyleBuilder::new()
        .alignment(align)
        .baseline(Baseline::Middle)
        .build();
    Text::with_text_style(
        text,
        EgPoint::new(x, y),
        MonoTextStyle::new(face(role), c),
        style,
    )
    .draw(d)
    .unwrap();
}

fn paint(d: &mut Rec, ops: &[Op]) {
    for op in ops {
        match op {
            Op::Fill { area } => d
                .fill_solid(
                    &Rectangle::new(
                        EgPoint::new(area.x.into(), area.y.into()),
                        Size::new(area.w.into(), area.h.into()),
                    ),
                    BG,
                )
                .unwrap(),
            Op::Icon {
                slot, size, paint, ..
            } => {
                let x = slot.x + (slot.w - size) / 2;
                let y = slot.y + (slot.h - size) / 2;
                d.fill_solid(
                    &Rectangle::new(
                        EgPoint::new(x.into(), y.into()),
                        Size::new((*size).into(), (*size).into()),
                    ),
                    blend(*paint),
                )
                .unwrap()
            }
            Op::Text {
                text,
                at,
                role,
                paint,
                placing,
            } => {
                let c = blend(*paint);
                let fits = |clip: &Rect, cut: bool| {
                    !cut && width(text, *role).unwrap() <= u32::from(clip.w)
                };
                let room = |clip: &Rect| {
                    (u32::from(clip.w) / face(*role).character_size.width).saturating_sub(3)
                        as usize
                };
                match placing {
                    Placing::Left => write(d, text, at.x, at.y, *role, c, Alignment::Left),
                    Placing::Right => write(d, text, at.x - 1, at.y, *role, c, Alignment::Right),
                    Placing::Centered | Placing::Line => {
                        write(d, text, at.x, at.y, *role, c, Alignment::Center)
                    }
                    Placing::KeepHead { clip, cut } => {
                        let shown = if fits(clip, *cut) {
                            text.clone()
                        } else {
                            format!("{}...", &text[..room(clip).min(text.len())])
                        };
                        write(d, &shown, at.x, at.y, *role, c, Alignment::Left)
                    }
                    Placing::KeepTail { clip, cut } => {
                        let shown = if fits(clip, *cut) {
                            text.clone()
                        } else {
                            format!("...{}", &text[text.len().saturating_sub(room(clip))..])
                        };
                        write(d, &shown, at.x, at.y, *role, c, Alignment::Left)
                    }
                }
            }
        }
    }
}

const KINDS: [StatusKind; 4] = [
    StatusKind::Idle,
    StatusKind::Processing,
    StatusKind::Touch,
    StatusKind::Boot,
];

fn word_width(kind: StatusKind) -> Option<u32> {
    width(status_face(kind).2, Role::Ready)
}

fn paint_status(d: &mut Rec, kind: StatusKind) {
    paint(d, &render_keys_status(kind, word_width(kind)));
}

fn paint_phase(d: &mut Rec, kind: StatusKind, phase: u32) {
    paint(d, &render_keys_status_phase(kind, phase, word_width(kind)));
}

fn paint_step(d: &mut Rec, kind: StatusKind, phase: u32) {
    paint(d, &render_keys_status_step(kind, phase, word_width(kind)));
}

#[test]
fn status_pages_paint_one_centred_row_in_their_status_colour() {
    for kind in KINDS {
        let ink = color(status_face(kind).0);
        let mut d = Rec::new();
        paint_status(&mut d, kind);
        assert!(!d.oob, "{kind:?} painted outside the keys panel");
        // Dark surface, no full-panel wash.
        assert_eq!(d.at(0, 0), BG, "{kind:?} corner not dark");
        assert_eq!(d.at(KEYS_W - 1, KEYS_H - 1), BG);
        // The coloured glyph+word row sits on the vertical middle.
        assert!(
            d.any_ink_in(rect(0, KEYS_H / 2 - 20, KEYS_W, 40)),
            "{kind:?} row missing from the middle band"
        );
        assert!(
            (0..KEYS_H).any(|y| (0..KEYS_W).any(|x| d.at(x, y) == ink)),
            "{kind:?} status colour not painted"
        );
    }
}

#[test]
fn animated_phases_change_the_frame() {
    for (kind, a, b) in [
        (StatusKind::Processing, 0u32, 1u32),
        (StatusKind::Processing, 0, 6),
        (StatusKind::Idle, 0, 4),
        (StatusKind::Boot, 0, 4),
    ] {
        let mut x = Rec::new();
        paint_phase(&mut x, kind, a);
        assert!(!x.oob, "{kind:?} phase {a} painted outside the keys panel");
        let mut y = Rec::new();
        paint_phase(&mut y, kind, b);
        assert!(!y.oob, "{kind:?} phase {b} painted outside the keys panel");
        assert_ne!(
            x.px, y.px,
            "{kind:?} phases {a} and {b} rendered identically"
        );
    }
    let mut p0 = Rec::new();
    paint_phase(&mut p0, StatusKind::Touch, 0);
    let mut p5 = Rec::new();
    paint_phase(&mut p5, StatusKind::Touch, 5);
    assert_eq!(p0.px, p5.px, "Touch must not animate");
}

#[test]
fn partial_animation_steps_advance_without_escaping_the_panel() {
    // The in-place steps repaint only their regions; verify they stay in bounds
    // and actually change pixels between phases.
    let mut a = Rec::new();
    paint_status(&mut a, StatusKind::Processing);
    paint_step(&mut a, StatusKind::Processing, 0);
    let mut b = Rec::new();
    paint_status(&mut b, StatusKind::Processing);
    paint_step(&mut b, StatusKind::Processing, 5);
    assert!(!a.oob && !b.oob, "processing step escaped the panel");
    assert_ne!(a.px, b.px, "processing breathe phases identical");

    for kind in [StatusKind::Idle, StatusKind::Boot] {
        let mut x = Rec::new();
        paint_status(&mut x, kind);
        paint_step(&mut x, kind, 0);
        let mut y = Rec::new();
        paint_status(&mut y, kind);
        paint_step(&mut y, kind, 4);
        assert!(!x.oob && !y.oob, "{kind:?} breathe escaped the panel");
        assert_ne!(x.px, y.px, "{kind:?} breathe phases identical");
    }
}

#[test]
fn a_stepped_page_equals_the_full_page_at_its_phase() {
    for kind in [StatusKind::Idle, StatusKind::Processing, StatusKind::Boot] {
        for phase in 0..20 {
            let mut stepped = Rec::new();
            paint_status(&mut stepped, kind);
            paint_step(&mut stepped, kind, phase);
            let mut full = Rec::new();
            paint_phase(&mut full, kind, phase);
            assert_eq!(stepped.px, full.px, "{kind:?} phase {phase}");
        }
    }
    assert!(render_keys_status_step(StatusKind::Touch, 3, Some(70)).is_empty());
}

#[test]
fn decision_pages_paint_one_centred_row_in_their_status_colour() {
    // Approve paints its success colour, decline its danger colour: one row
    // (glyph + word) centred vertically on the dark surface.
    for (approved, ink) in [(true, color(Ink::Success)), (false, color(Ink::Danger))] {
        let mut d = Rec::new();
        paint(
            &mut d,
            &render_keys_decision(approved, width(decision_word(approved), Role::Ready)),
        );
        assert!(!d.oob, "decision painted outside the keys panel");
        assert_eq!(d.at(0, 0), BG, "decision surface is not the panel BG");
        assert_eq!(d.at(KEYS_W - 1, KEYS_H - 1), BG);
        // The row sits on the vertical middle of the panel...
        assert!(
            d.any_ink_in(rect(0, KEYS_H / 2 - 20, KEYS_W, 40)),
            "decision row missing from the middle band"
        );
        // ...and nothing (glyph or word) bleeds into the top or bottom quarters.
        assert!(
            !d.any_ink_in(rect(0, 0, KEYS_W, KEYS_H / 2 - 22)),
            "row too high"
        );
        assert!(
            !d.any_ink_in(rect(0, KEYS_H / 2 + 22, KEYS_W, KEYS_H / 2 - 22)),
            "row too low"
        );
        // The status colour is actually on screen.
        assert!(
            (0..KEYS_H).any(|y| (0..KEYS_W).any(|x| d.at(x, y) == ink)),
            "status colour not painted"
        );
    }
}

fn prompt<'a>(title: &'a str, primary: &'a str, secondary: &'a str) -> ConfirmPrompt<'a> {
    ConfirmPrompt {
        title,
        primary: PromptText {
            text: primary,
            truncated: false,
        },
        secondary: PromptText {
            text: secondary,
            truncated: false,
        },
    }
}

#[test]
fn confirm_renders_title_subject_and_hints() {
    let mut d = Rec::new();
    paint(
        &mut d,
        &render_keys_confirm(&prompt("Sign in?", "example.com", "alice")),
    );
    assert!(!d.oob, "confirm painted outside the keys panel");
    // Title band (device-controlled operation name).
    assert!(d.any_ink_in(rect(0, 8, KEYS_W, 22)), "title missing");
    // The relying-party line.
    assert!(
        d.any_ink_in(rect(KEYS_INSET, 52, KEYS_TEXT_W, 20)),
        "relying-party line missing"
    );
    // The account line.
    assert!(
        d.any_ink_in(rect(KEYS_INSET, 72, KEYS_TEXT_W, 18)),
        "account line missing"
    );
    // The gesture hints at the foot.
    assert!(
        d.any_ink_in(rect(0, 100, KEYS_W, 34)),
        "gesture hints missing"
    );
}

#[test]
fn confirm_without_account_skips_the_account_line() {
    let mut d = Rec::new();
    paint(
        &mut d,
        &render_keys_confirm(&prompt("Sign in?", "example.com", "")),
    );
    // The account line's band is empty when the request carries no account.
    assert!(
        !d.any_ink_in(rect(KEYS_INSET, 74, KEYS_TEXT_W, 10)),
        "empty account still painted"
    );
}

#[test]
fn overlong_rp_stays_inside_its_clip() {
    // A source of 64 bytes arrives clamped, with `truncated` set; the page must
    // lose the head and never paint past the text clip.
    let long = "z".repeat(64);
    let mut prompt = prompt("Sign in?", &long, "");
    prompt.primary.truncated = true;
    let mut d = Rec::new();
    paint(&mut d, &render_keys_confirm(&prompt));
    assert!(!d.oob, "long rp painted outside the panel");
    // Ink exists in the rp band...
    assert!(d.any_ink_in(rect(KEYS_INSET, 52, KEYS_TEXT_W, 20)));
    // ...and nothing was drawn in the left margin at the rp band's height.
    let escaped = (52..72).any(|y| (0..KEYS_INSET).any(|x| d.at(x, y) != BG));
    assert!(!escaped, "long rp escaped its clip");
}

#[test]
fn confirm_shows_the_subject_verbatim_with_its_truncation_mark() {
    let mut p = prompt("Register?", "login.example.com", "bob");
    p.primary.truncated = true;
    let ops = render_keys_confirm(&p);
    assert_eq!(ops.len(), 6);
    match &ops[2] {
        Op::Text { text, placing, .. } => {
            assert_eq!(text, "login.example.com");
            assert_eq!(
                *placing,
                Placing::KeepTail {
                    clip: rect(12, 0, 216, 135),
                    cut: true
                }
            );
        }
        other => panic!("not the subject: {other:?}"),
    }
    match &ops[3] {
        Op::Text { text, placing, .. } => {
            assert_eq!(text, "bob");
            assert!(matches!(placing, Placing::KeepHead { cut: false, .. }));
        }
        other => panic!("not the account: {other:?}"),
    }
    match (&ops[4], &ops[5]) {
        (Op::Text { text: a, .. }, Op::Text { text: b, .. }) => {
            assert_eq!(a, "PRESS TO CONFIRM");
            assert_eq!(b, "HOLD TO DENY");
        }
        other => panic!("not the hints: {other:?}"),
    }
}

#[test]
fn confirm_lines_leave_room_for_their_faces() {
    assert!(KEYS_H >= 135);
    assert!(KEYS_TITLE_CY > 13);
    assert!(KEYS_RP_CY - KEYS_TITLE_CY >= 22);
    assert!(KEYS_ACCOUNT_CY - KEYS_RP_CY >= 16);
    assert!(KEYS_HINT_CY - KEYS_ACCOUNT_CY >= 24);
    assert!(i32::from(KEYS_H) - KEYS_HINT_ALT_CY >= 8);
    assert!(KEYS_INSET * 2 < KEYS_W);
}

#[test]
fn rows_are_centred_and_never_start_left_of_the_panel() {
    // 240 - (32 + 10 + 80) = 118, halved.
    assert_eq!(row_slots(Some(80)), (59, 101));
    // A word that cannot be measured counts as zero wide.
    assert_eq!(row_slots(None), (99, 141));
    assert_eq!(row_slots(Some(0)), (99, 141));
    // Over-wide rows clamp at the left edge; the word last of all.
    assert_eq!(row_slots(Some(199)), (0, 42));
    assert_eq!(row_slots(Some(200)), (0, 41));
    assert_eq!(row_slots(Some(1000)), (0, 0));
}

#[test]
fn breathe_ramp_is_a_closed_triangle() {
    assert_eq!(BREATHE_RAMP.len(), 16);
    for phase in 0..40u32 {
        let Paint::Lit { ink, coverage } = breathe_color(Ink::Accent, phase) else {
            panic!("a breathed colour is lit");
        };
        assert_eq!(ink, Ink::Accent);
        assert_eq!(coverage, BREATHE_RAMP[phase as usize % 16]);
    }
    assert_eq!(
        breathe_color(Ink::Warn, 0),
        Paint::Lit {
            ink: Ink::Warn,
            coverage: 15
        }
    );
    assert_eq!(
        breathe_color(Ink::Warn, 8),
        Paint::Lit {
            ink: Ink::Warn,
            coverage: 7
        }
    );
    assert_eq!(
        breathe_color(Ink::Warn, u32::MAX),
        Paint::Lit {
            ink: Ink::Warn,
            coverage: 14
        }
    );
}

#[test]
fn each_state_has_its_face() {
    assert_eq!(
        status_face(StatusKind::Idle),
        (Ink::Success, Glyph::CheckCircle, "READY")
    );
    assert_eq!(
        status_face(StatusKind::Processing),
        (Ink::Accent, Glyph::Rotate, "WORKING")
    );
    assert_eq!(
        status_face(StatusKind::Touch),
        (Ink::Accent, Glyph::Shield, "CONFIRM")
    );
    assert_eq!(
        status_face(StatusKind::Boot),
        (Ink::Warn, Glyph::Usb, "STARTING")
    );
    // A working device shows the bare word.
    assert_eq!(
        render_keys_status(StatusKind::Processing, Some(70)).len(),
        2
    );
    assert_eq!(render_keys_status(StatusKind::Idle, Some(50)).len(), 3);
}

fn row(left: &str, right: &str, tone: Tone) -> KeysMenuRow {
    KeysMenuRow {
        left: left.to_string(),
        right: right.to_string(),
        tone,
        emph: false,
    }
}

/// Full rows for a section-less four-row page (the common listing shape).
fn four_rows() -> Vec<KeysMenuRow> {
    vec![
        row("9A AUTHENTICATION", "RSA-2048", Tone::Plain),
        row("9C CARD AUTH", "EC-P384", Tone::Plain),
        row("9D DIGITAL SIG", "empty", Tone::Plain),
        row("9E KEY MGMT", "empty", Tone::Plain),
    ]
}

fn paint_menu(d: &mut Rec, title: &str, page: u16, pages: u16, rows: &[KeysMenuRow]) {
    let mut buf = [0u8; 8];
    let mut widths = PageWidths {
        indicator: width(fmt_page_indicator(page, pages, &mut buf), Role::Mono),
        values: [None; 4],
    };
    for (i, r) in rows.iter().enumerate().take(KEYS_MENU_ROWS_PER_PAGE) {
        widths.values[i] = width(&r.right, Role::Mono);
    }
    paint(d, &render_keys_menu_page(title, page, pages, rows, &widths));
}

/// The vertical text bands of one menu page.
const TITLE_BAND: Rect = Rect {
    x: 0,
    y: 3,
    w: KEYS_W,
    h: 26,
};
const ROW0_BAND: Rect = Rect {
    x: 0,
    y: 31,
    w: KEYS_W,
    h: 18,
};
const ROW3_BAND: Rect = Rect {
    x: 0,
    y: 88,
    w: KEYS_W,
    h: 18,
};
const HINT_BAND: Rect = Rect {
    x: 0,
    y: 108,
    w: KEYS_W,
    h: 18,
};

#[test]
fn page_paints_bands_inside_the_panel() {
    let mut d = Rec::new();
    let rows = four_rows();
    paint_menu(&mut d, "PIV", 0, 1, &rows);
    assert!(!d.oob, "menu page painted outside the keys panel");
    // Dark surface, no full-panel wash.
    assert_eq!(d.at(0, 0), BG);
    assert_eq!(d.at(KEYS_W - 1, 0), BG);
    assert_eq!(d.at(0, KEYS_H - 1), BG);
    assert_eq!(d.at(KEYS_W - 1, KEYS_H - 1), BG);
    // Each band carries ink: title, first and last body row, hint foot.
    assert!(d.any_ink_in(TITLE_BAND), "title band blank");
    assert!(d.any_ink_in(ROW0_BAND), "first row band blank");
    assert!(d.any_ink_in(ROW3_BAND), "last row band blank");
    assert!(d.any_ink_in(HINT_BAND), "hint band blank");
    // The bands are separated by ink-free gutters (2 px at every seam).
    assert!(
        !d.any_ink_in(rect(0, 29, KEYS_W, 2)),
        "title/row0 gutter inked"
    );
    assert!(
        !d.any_ink_in(rect(0, 86, KEYS_W, 2)),
        "row2/row3 gutter inked"
    );
    assert!(
        !d.any_ink_in(rect(0, 106, KEYS_W, 2)),
        "last row/hint gutter inked"
    );
}

#[test]
fn empty_page_keeps_title_hint_and_blank_body() {
    let mut d = Rec::new();
    paint_menu(&mut d, "OATH", 0, 1, &[]);
    assert!(!d.oob);
    assert!(d.any_ink_in(TITLE_BAND), "title band blank");
    assert!(d.any_ink_in(HINT_BAND), "hint band blank");
    assert!(
        !d.any_ink_in(rect(0, 30, KEYS_W, 78)),
        "body bands inked on an empty page"
    );
}

#[test]
fn value_tones_paint_their_theme_colours() {
    let rows = [
        row("A", "OK", Tone::Good),
        row("B", "CAREFUL", Tone::Warn),
        row("C", "LOW", Tone::Bad),
        row("D", "plain", Tone::Plain),
    ];
    let mut d = Rec::new();
    paint_menu(&mut d, "OVERVIEW", 0, 1, &rows);
    assert!(
        d.any_color_in(ROW0_BAND, color(Ink::Success)),
        "Good value not in success"
    );
    assert!(
        d.any_color_in(rect(0, 49, KEYS_W, 18), color(Ink::Warn)),
        "Warn value not in warn"
    );
    assert!(
        d.any_color_in(rect(0, 68, KEYS_W, 18), color(Ink::Danger)),
        "Bad value not in danger"
    );
    assert!(
        d.any_color_in(ROW3_BAND, color(Ink::Grey)),
        "Plain value not in grey"
    );
}

#[test]
fn overwide_label_stops_at_the_value_column() {
    // A 60-char label against a value that leaves little room: the label's ink
    // must end at its clip (the value column minus the gap), and the value's
    // own ink must sit at the right margin.
    let long = "ABCDEFGHIJKLMNOPQRSTUVWXYZABCDEFGHIJKLMNOPQRSTUVWXYZABCDEFGH"; // 60
    let rows = [row(long, "TOTP 6", Tone::Plain)];
    let mut d = Rec::new();
    paint_menu(&mut d, "OATH", 0, 1, &rows);
    assert!(!d.oob);
    let value_w = width("TOTP 6", Role::Mono).unwrap();
    let value_x0 = i32::from(KEYS_W - KEYS_INSET) - value_w as i32;
    let clip_end = i32::from(KEYS_INSET) + value_x0 - i32::from(KEYS_INSET) - COL_GAP_PX;
    // The label's clip ends before the value column: no FG ink past clip_end in
    // the row band (the ellipsis is drawn inside the clip).
    assert!(
        !d.any_color_in(rect(clip_end as u16, 31, 4, 18), FG),
        "label ink crossed the clip edge into the gap"
    );
    // The label did reach its clip edge: something was drawn (the ellipsis).
    assert!(
        d.any_color_in(rect(clip_end.saturating_sub(24) as u16, 31, 24, 18), FG),
        "label ink never reached the value column"
    );
    // The value still reads at the right margin in its tone.
    assert!(
        d.any_color_in(rect(KEYS_W - KEYS_INSET - 40, 31, 40, 18), color(Ink::Grey)),
        "value ink missing from the right margin"
    );
}

#[test]
fn page_indicator_and_title_share_the_title_band() {
    // Two pages: indicator "2/2" must be drawn right-aligned while the title is
    // left-aligned, both in the title band, ink near both margins.
    let rows = four_rows();
    let mut d = Rec::new();
    paint_menu(&mut d, "OPENPGP", 1, 2, &rows);
    assert!(!d.oob);
    assert!(
        d.any_ink_in(rect(0, 3, 100, 26)),
        "title ink missing from the left of the title band"
    );
    assert!(
        d.any_ink_in(rect(KEYS_W - 80, 3, 80, 26)),
        "page indicator ink missing from the right of the title band"
    );
}

#[test]
fn slice_and_page_counts_agree() {
    // Empty, exact, ragged, and page beyond the end all converge.
    assert_eq!(keys_menu_page_slice(0, 0), (0, 0));
    assert_eq!(keys_menu_page_slice(4, 0), (0, 4));
    assert_eq!(keys_menu_page_slice(5, 0), (0, 4));
    assert_eq!(keys_menu_page_slice(5, 1), (4, 1));
    assert_eq!(keys_menu_page_slice(9, 0), (0, 4));
    assert_eq!(keys_menu_page_slice(9, 2), (8, 1));
    // Out-of-range page clamps to the last page (render can't show a blank).
    assert_eq!(keys_menu_page_slice(9, 9), (8, 1));
    assert_eq!(keys_menu_page_slice(9, usize::MAX), (8, 1));
}

#[test]
fn emphasised_row_paints_its_label_in_the_tone() {
    // The settings select cursor: an `emph` row's label takes the value tone
    // (green) instead of the plain foreground, so the whole row reads as the
    // current one.
    let rows = [KeysMenuRow {
        left: "SCREEN DIRECTION".to_string(),
        right: "180".to_string(),
        tone: Tone::Good,
        emph: true,
    }];
    let mut d = Rec::new();
    paint_menu(&mut d, "SETTINGS", 0, 1, &rows);
    assert!(!d.oob);
    // The label band (left of the value column) carries the success green.
    assert!(
        d.any_color_in(rect(12, 31, 100, 18), color(Ink::Success)),
        "emph label not painted in the tone"
    );
    // And the value column too.
    assert!(
        d.any_color_in(
            rect(KEYS_W - KEYS_INSET - 40, 31, 40, 18),
            color(Ink::Success)
        ),
        "emph value not painted in the tone"
    );
}

#[test]
fn overwide_title_stops_at_the_page_indicator() {
    // A detail page titles its frame with a device-supplied name (a relying
    // party), which can overrun the gauge: the title must ellipsize at the
    // indicator's left edge instead of painting under it.
    let long = "ABCDEFGHIJKLMNOPQRSTUVWXYZABCDEFGHIJKLMNOPQRSTUVWXYZABCDEFGH"; // 60
    let mut d = Rec::new();
    paint_menu(&mut d, long, 0, 1, &[]);
    assert!(!d.oob);
    let ind_w = width("1/1", Role::Mono).unwrap() as u16;
    let clip_end = KEYS_W - KEYS_INSET - ind_w - COL_GAP_PX as u16;
    assert!(
        !d.any_color_in(rect(clip_end, 3, 4, 26), FG),
        "title ink crossed into the indicator gap"
    );
    assert!(
        d.any_color_in(rect(clip_end.saturating_sub(24), 3, 24, 26), FG),
        "title ink never reached its clip"
    );
}

#[test]
fn plain_row_keeps_its_label_in_foreground() {
    let rows = [KeysMenuRow {
        left: "MENU DELAY".to_string(),
        right: "30S".to_string(),
        tone: Tone::Good,
        emph: false,
    }];
    let mut d = Rec::new();
    paint_menu(&mut d, "SETTINGS", 0, 1, &rows);
    // A non-emph row: the value is green but the label stays foreground: that
    // is what tells a current value from a selected row.
    assert!(
        d.any_color_in(rect(12, 31, 120, 18), FG),
        "plain label lost its foreground colour"
    );
    assert!(
        !d.any_color_in(rect(12, 31, 120, 18), color(Ink::Success)),
        "plain label painted green"
    );
}

#[test]
fn page_indicator_counts_from_one() {
    let mut buf = [0u8; 8];
    assert_eq!(fmt_page_indicator(0, 1, &mut buf), "1/1");
    assert_eq!(fmt_page_indicator(1, 2, &mut buf), "2/2");
    assert_eq!(fmt_page_indicator(41, 100, &mut buf), "42/100");
    assert_eq!(fmt_page_indicator(9, 9999, &mut buf), "10/9999");
    // An unknown page count shows nothing.
    assert_eq!(fmt_page_indicator(3, 0, &mut buf), "");
    let mut out = [0u8; 4];
    assert_eq!(fmt_u16(0, &mut out), "0");
    assert_eq!(fmt_u16(9999, &mut out), "9999");
    assert_eq!(fmt_u16(12, &mut out), "12");
    assert_eq!(&out, b"1299");
}

#[test]
fn menu_page_lays_out_its_operations_in_order() {
    let rows = [row("PIV", "3", Tone::Bad), row("NO VALUE", "", Tone::Good)];
    let widths = PageWidths {
        indicator: Some(21),
        values: [Some(7), None, None, None],
    };
    let ops = render_keys_menu_page("OVERVIEW", 0, 2, &rows, &widths);
    let texts: Vec<(String, i32, i32, Paint)> = ops
        .iter()
        .filter_map(|op| match op {
            Op::Text {
                text, at, paint, ..
            } => Some((text.clone(), at.x, at.y, *paint)),
            _ => None,
        })
        .collect();
    assert_eq!(
        texts,
        vec![
            ("OVERVIEW".to_string(), 12, 16, Paint::Solid(Ink::Fg)),
            ("1/2".to_string(), 228, 16, Paint::Solid(Ink::Muted)),
            ("3".to_string(), 228, 40, Paint::Solid(Ink::Danger)),
            ("PIV".to_string(), 12, 40, Paint::Solid(Ink::Fg)),
            ("NO VALUE".to_string(), 12, 59, Paint::Solid(Ink::Fg)),
            (HINT.to_string(), 120, 117, Paint::Solid(Ink::Muted)),
        ]
    );
    let clips: Vec<u16> = ops
        .iter()
        .filter_map(|op| match op {
            Op::Text {
                placing: Placing::KeepHead { clip, .. },
                ..
            } => Some(clip.w),
            _ => None,
        })
        .collect();
    // 216 - (21 + 8), 216 - 7 - 8, and the whole width without a value.
    assert_eq!(clips, vec![187, 201, 216]);
}

#[test]
fn menu_page_shows_four_rows_at_most() {
    let rows: Vec<KeysMenuRow> = (0..6).map(|_| row("A", "", Tone::Plain)).collect();
    let widths = PageWidths {
        indicator: None,
        values: [None; 4],
    };
    // Cleared panel, title, four labels, hint.
    let all = render_keys_menu_page("T", 0, 0, &rows, &widths);
    assert_eq!(all.len(), 7);
    // The very page that the first four rows paint.
    let four = render_keys_menu_page("T", 0, 0, &rows[..4], &widths);
    assert_eq!(format!("{all:?}"), format!("{four:?}"));
}

#[test]
fn an_overwide_value_leaves_no_label_column() {
    let rows = [row("LABEL", "WIDE", Tone::Plain)];
    for (w, want) in [(207u32, 1u16), (208, 0), (100_000, 0)] {
        let widths = PageWidths {
            indicator: None,
            values: [Some(w), None, None, None],
        };
        let ops = render_keys_menu_page("T", 0, 0, &rows, &widths);
        let Op::Text {
            placing: Placing::KeepHead { clip, .. },
            ..
        } = &ops[3]
        else {
            panic!("not the label");
        };
        assert_eq!(clip.w, want);
    }
}

#[test]
fn tones_map_to_their_inks() {
    assert_eq!(tone_color(Tone::Plain), Ink::Grey);
    assert_eq!(tone_color(Tone::Good), Ink::Success);
    assert_eq!(tone_color(Tone::Warn), Ink::Warn);
    assert_eq!(tone_color(Tone::Bad), Ink::Danger);
}

#[test]
fn an_indicator_past_its_buffer_is_told() {
    assert!(has_indicator_room(0, 0));
    assert!(has_indicator_room(998, 9999));
    assert!(!has_indicator_room(999, 9999));
    assert!(!has_indicator_room(0, 10_000));
    assert!(!has_indicator_room(9_999, 9_999));
    assert!(has_indicator_room(u16::MAX, 0));
}
