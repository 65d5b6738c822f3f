//! The no-host idle menu pages: paged label/value listings with a title band,
//! a page indicator and a gesture-hint foot line.
use vstd::prelude::*;
use vstd::string::*;

use super::keys;
use super::keys::{paint_mid_line, KEYS_H, KEYS_INSET, KEYS_TEXT_W, KEYS_W};
use super::{Ink, Op, OpModel, Paint, Placing, Point, Rect, Role};
use crate::row::{KeysMenuRow, RowFace, Tone};
use crate::text;
use crate::text::str_ascii;

verus! {

/// Rows per page: the body band between the title and the hint line fits four
/// rows; five would collide with the foot hints on the 135-row panel.
pub const KEYS_MENU_ROWS_PER_PAGE: usize = 4;

/// How many pages `total` rows fill.
pub open spec fn pages_of(total: nat) -> nat {
    (total + 3) / 4
}

/// The last page of `total` rows; an empty list has page zero.
pub open spec fn last_page(total: nat) -> nat {
    if total == 0 {
        0
    } else {
        ((total - 1) / 4) as nat
    }
}

/// The `(start, count)` of the rows on `page`, a page past the end reading as
/// the last one.
pub open spec fn page_slice(total: nat, page: nat) -> (nat, nat) {
    let start = 4 * if page <= last_page(total) {
        page
    } else {
        last_page(total)
    };
    (start, if total - start <= 4 {
        (total - start) as nat
    } else {
        4
    })
}

/// Slice `total` rows into pages: `(start, count)` for 0-based `page`. The
/// caller pages and paints the indicator from this one source, so the
/// indicator and the slice can never disagree.
pub fn keys_menu_page_slice(total: usize, page: usize) -> (r: (usize, usize))
    ensures
        r.0 == page_slice(total as nat, page as nat).0,
        r.1 == page_slice(total as nat, page as nat).1,
{
    let last: usize = if total == 0 {
        0
    } else {
        (total - 1) / KEYS_MENU_ROWS_PER_PAGE
    };
    let at: usize = if page <= last {
        page
    } else {
        last
    };
    let start: usize = at * KEYS_MENU_ROWS_PER_PAGE;
    let left: usize = total.saturating_sub(start);
    (start, if left <= KEYS_MENU_ROWS_PER_PAGE {
        left
    } else {
        KEYS_MENU_ROWS_PER_PAGE
    })
}

/// Every row is on exactly one page: the page `row / 4`, and on no other.
pub proof fn law_row_has_one_page(total: nat, row: nat)
    requires
        row < total,
    ensures
        row / 4 < pages_of(total),
        forall|page: nat|
            page < pages_of(total) ==> {
                let s = #[trigger] page_slice(total, page);
                s.0 <= row < s.0 + s.1 <==> page == row / 4
            },
{
}

/// The pages abut and end with the list: page zero starts at row zero, each
/// page starts where the one before ends, the last ends at `total`, and no
/// page of a list that has rows is blank.
pub proof fn law_pages_tile_the_list(total: nat, page: nat)
    requires
        page < pages_of(total),
    ensures
        page_slice(total, 0).0 == 0,
        1 <= page_slice(total, page).1 <= 4,
        page + 1 < pages_of(total) ==> page_slice(total, page + 1).0 == page_slice(total, page).0
            + page_slice(total, page).1,
        page + 1 == pages_of(total) ==> page_slice(total, page).0 + page_slice(total, page).1
            == total,
{
}

/// A page past the end shows the last page.
pub proof fn law_page_past_the_end_is_the_last(total: nat, page: nat)
    requires
        page + 1 >= pages_of(total),
    ensures
        page_slice(total, page) == page_slice(total, last_page(total)),
        total > 0 ==> last_page(total) + 1 == pages_of(total),
{
}

/// Title centre row (Heading face).
pub const TITLE_CY: i32 = 16;

/// First body row centre; each next row steps [`ROW_PITCH`] down.
pub const ROW0_CY: i32 = 40;

/// Body row pitch (Body face).
pub const ROW_PITCH: i32 = 19;

/// Gesture-hint centre row (Body face).
pub const HINT_CY: i32 = 117;

/// Horizontal gap between the left label's clip edge and the right value.
pub const COL_GAP_PX: i32 = 8;

/// Half-heights of the two faces.
pub const HEADING_HALF: i32 = 13;

pub const BODY_HALF: i32 = 9;

/// The gesture hint under every menu page; a hold enters a level, which the
/// shared foot line does not claim.
pub const HINT: &'static str = "TAP NEXT   DOUBLE BACK";

/// The value-column colour for a row's tone: status tones keep their theme
/// colours, the plain value reads as the secondary text grey.
pub open spec fn tone_ink(tone: Tone) -> Ink {
    match tone {
        Tone::Plain => Ink::Grey,
        Tone::Good => Ink::Success,
        Tone::Warn => Ink::Warn,
        Tone::Bad => Ink::Danger,
    }
}

pub fn tone_color(tone: Tone) -> (r: Ink)
    ensures
        r == tone_ink(tone),
{
    match tone {
        Tone::Plain => Ink::Grey,
        Tone::Good => Ink::Success,
        Tone::Warn => Ink::Warn,
        Tone::Bad => Ink::Danger,
    }
}

/// The number shown for a 0-based page.
pub open spec fn shown_page(page: u16) -> nat {
    if page == u16::MAX {
        u16::MAX as nat
    } else {
        (page + 1) as nat
    }
}

/// The "P/N" indicator: the page counted from one; nothing when the page count
/// is unknown.
pub open spec fn indicator(page: u16, pages: u16) -> Seq<u8> {
    if pages == 0 {
        Seq::empty()
    } else {
        text::dec(shown_page(page)) + seq![0x2Fu8] + text::dec(pages as nat)
    }
}

/// An indicator that fits its buffer: each number has at most four digits, and
/// all of it eight characters.
pub open spec fn indicator_fits(page: u16, pages: u16) -> bool {
    pages == 0 || (shown_page(page) < 10_000 && pages < 10_000 && indicator(page, pages).len()
        <= 8)
}

/// Whether a page's indicator fits, for callers whose page counts come from
/// outside.
pub fn has_indicator_room(page: u16, pages: u16) -> (r: bool)
    ensures
        r == indicator_fits(page, pages),
{
    if pages == 0 {
        return true;
    }
    let shown: u16 = page.saturating_add(1);
    proof {
        text::lemma_dec_width(shown as nat);
        text::lemma_dec_width(pages as nat);
    }
    shown < 10_000 && pages < 10_000 && text::digit_count(shown as u64) + 1 + text::digit_count(
        pages as u64,
    ) <= 8
}

/// Decimal-format a number of at most four digits into `out` (no zero-padding),
/// returning its prefix.
pub fn fmt_u16(v: u16, out: &mut [u8; 4]) -> (r: &str)
    requires
        v < 10_000,
    ensures
        r.spec_bytes() == text::dec(v as nat),
        final(out)@ == text::dec(v as nat) + old(out)@.skip(text::dec(v as nat).len() as int),
{
    proof {
        text::lemma_dec_width(v as nat);
    }
    text::write_dec(out, v)
}

/// Format the "P/N" indicator from the start of `buf`.
pub fn fmt_page_indicator(page: u16, pages: u16, buf: &mut [u8; 8]) -> (r: &str)
    requires
        indicator_fits(page, pages),
    ensures
        r.spec_bytes() == indicator(page, pages),
        r@ == text::chars_of(indicator(page, pages)),
        final(buf)@ == indicator(page, pages) + old(buf)@.skip(indicator(page, pages).len() as int),
{
    if pages == 0 {
        proof {
            crate::row::lemma_no_text();
            assert(""@ =~= text::chars_of(indicator(page, pages)));
            assert(buf@ =~= indicator(page, pages) + old(buf)@.skip(0));
        }
        return "";
    }
    let mut a: [u8; 4] = [0;4];
    let ps = fmt_u16(page.saturating_add(1), &mut a).as_bytes();
    let mut b: [u8; 4] = [0;4];
    let ns = fmt_u16(pages, &mut b).as_bytes();
    let ghost want = indicator(page, pages);
    let mut i: usize = 0;
    while i < ps.len()
        invariant
            i <= ps@.len(),
            ps@.len() < want.len() <= 8,
            forall|k: int| 0 <= k < ps@.len() ==> ps@[k] == want[k],
            forall|k: int| 0 <= k < i ==> buf@[k] == want[k],
            forall|k: int| i <= k < 8 ==> buf@[k] == old(buf)@[k],
        decreases ps@.len() - i,
    {
        buf[i] = ps[i];
        i += 1;
    }
    buf[i] = 0x2F;
    i += 1;
    let mut j: usize = 0;
    while j < ns.len()
        invariant
            j <= ns@.len(),
            i == ps@.len() + 1 + j,
            ps@.len() + 1 + ns@.len() == want.len(),
            want.len() <= 8,
            forall|k: int| 0 <= k < ns@.len() ==> ns@[k] == want[ps@.len() + 1 + k],
            forall|k: int| 0 <= k < i ==> buf@[k] == want[k],
            forall|k: int| i <= k < 8 ==> buf@[k] == old(buf)@[k],
        decreases ns@.len() - j,
    {
        buf[i] = ns[j];
        i += 1;
        j += 1;
    }
    assert(buf@.subrange(0, i as int) =~= want);
    assert(buf@ =~= want + old(buf)@.skip(want.len() as int));
    proof {
        text::lemma_dec_width(shown_page(page));
        text::lemma_dec_width(pages as nat);
        assert(text::all_printable(want));
    }
    str_ascii(&buf[0..i])
}

/// The measured widths (Mono face) that lay a page out: the indicator's, and
/// each row's value's.
#[derive(Clone, Copy, Debug)]
pub struct PageWidths {
    pub indicator: Option<u32>,
    pub values: [Option<u32>; KEYS_MENU_ROWS_PER_PAGE],
}

/// Widths the layout can compute with: an indicator leaves room for the gap in
/// sixteen bits, and a value is below two to the thirty-one.
pub open spec fn widths_fit(pages: u16, rows: Seq<RowFace>, widths: PageWidths) -> bool {
    &&& pages != 0 ==> (keys::width_of(widths.indicator) as u16) + COL_GAP_PX <= u16::MAX
    &&& forall|i: int|
        0 <= i < KEYS_MENU_ROWS_PER_PAGE && i < rows.len() && rows[i].right.len() != 0
            ==> keys::width_of(#[trigger] widths.values@[i]) <= i32::MAX
}

/// How wide the title may be beside an indicator `ind_w` wide.
pub open spec fn title_width(has_indicator: bool, ind_w: u16) -> int {
    if has_indicator {
        keys::not_below_zero(KEYS_TEXT_W - (ind_w + COL_GAP_PX))
    } else {
        KEYS_TEXT_W as int
    }
}

/// How wide a label may be beside a value `value_w` wide; an empty value leaves
/// it the whole text width.
pub open spec fn label_width(has_value: bool, value_w: int) -> int {
    if has_value {
        keys::not_below_zero(KEYS_TEXT_W - value_w - COL_GAP_PX)
    } else {
        KEYS_TEXT_W as int
    }
}

/// The text column, `w` wide.
pub open spec fn column(w: int) -> Rect {
    Rect { x: KEYS_INSET, y: 0, w: w as u16, h: KEYS_H }
}

/// A line at the left inset that loses its tail where it outgrows its column.
pub open spec fn left_line(text: Seq<char>, cy: int, role: Role, ink: Ink, w: int) -> OpModel {
    OpModel::Text {
        text,
        at: Point { x: KEYS_INSET as i32, y: cy as i32 },
        role,
        paint: Paint::Solid(ink),
        placing: Placing::KeepHead { clip: column(w), cut: false },
    }
}

/// A line that ends at the right inset.
pub open spec fn right_line(text: Seq<char>, cy: int, ink: Ink) -> OpModel {
    OpModel::Text {
        text,
        at: Point { x: (KEYS_W - KEYS_INSET) as i32, y: cy as i32 },
        role: Role::Mono,
        paint: Paint::Solid(ink),
        placing: Placing::Right,
    }
}

/// The vertical middle of body row `i`.
pub open spec fn row_cy(i: int) -> int {
    ROW0_CY + i * ROW_PITCH
}

/// A body row: its value, if it has one, and its label clipped to what the
/// value leaves. An emphasised row paints its label in the value's tone.
pub open spec fn body_row_ops(row: RowFace, i: int, value_w: int) -> Seq<OpModel> {
    let has_value = row.right.len() != 0;
    (if has_value {
        seq![right_line(row.right, row_cy(i), tone_ink(row.tone))]
    } else {
        Seq::empty()
    }) + seq![
        left_line(
            row.left,
            row_cy(i),
            Role::Body,
            if row.emph {
                tone_ink(row.tone)
            } else {
                Ink::Fg
            },
            label_width(has_value, value_w),
        ),
    ]
}

/// The first `n` body rows.
pub open spec fn body_ops(rows: Seq<RowFace>, widths: PageWidths, n: int) -> Seq<OpModel>
    decreases n,
{
    if n <= 0 {
        Seq::empty()
    } else {
        body_ops(rows, widths, n - 1) + body_row_ops(
            rows[n - 1],
            n - 1,
            keys::width_of(widths.values@[n - 1]),
        )
    }
}

/// The title band: the title, clipped short of the indicator, and the
/// indicator.
pub open spec fn title_ops(title: Seq<char>, page: u16, pages: u16, ind_w: u16) -> Seq<OpModel> {
    seq![left_line(title, TITLE_CY as int, Role::Heading, Ink::Fg, title_width(pages != 0, ind_w))]
        + if pages == 0 {
        Seq::empty()
    } else {
        seq![right_line(text::chars_of(indicator(page, pages)), TITLE_CY as int, Ink::Muted)]
    }
}

/// A menu page: a cleared panel, the title band, up to four rows, and the
/// gesture hint.
pub open spec fn page_ops(
    title: Seq<char>,
    page: u16,
    pages: u16,
    rows: Seq<RowFace>,
    widths: PageWidths,
) -> Seq<OpModel> {
    seq![keys::cleared()] + title_ops(
        title,
        page,
        pages,
        keys::width_of(widths.indicator) as u16,
    ) + body_ops(
        rows,
        widths,
        if rows.len() <= KEYS_MENU_ROWS_PER_PAGE {
            rows.len() as int
        } else {
            KEYS_MENU_ROWS_PER_PAGE as int
        },
    ) + seq![keys::mid_line(HINT@, HINT_CY, Role::Body, Ink::Muted)]
}

fn paint_left(text: &str, cy: i32, role: Role, ink: Ink, w: u16) -> (r: Op)
    ensures
        r@ == left_line(text@, cy as int, role, ink, w as int),
{
    Op::Text {
        text: text.to_owned(),
        at: Point { x: KEYS_INSET as i32, y: cy },
        role,
        paint: Paint::Solid(ink),
        placing: Placing::KeepHead {
            clip: Rect { x: KEYS_INSET, y: 0, w, h: KEYS_H },
            cut: false,
        },
    }
}

fn paint_right(text: &str, cy: i32, ink: Ink) -> (r: Op)
    ensures
        r@ == right_line(text@, cy as int, ink),
{
    Op::Text {
        text: text.to_owned(),
        at: Point { x: (KEYS_W - KEYS_INSET) as i32, y: cy },
        role: Role::Mono,
        paint: Paint::Solid(ink),
        placing: Placing::Right,
    }
}

/// Paint one body row: the value first fixes the label's budget, then the
/// label is clipped to that column.
fn paint_body_row(ops: &mut Vec<Op>, row: &KeysMenuRow, i: usize, value_w: Option<u32>)
    requires
        i < KEYS_MENU_ROWS_PER_PAGE,
        row@.right.len() != 0 ==> keys::width_of(value_w) <= i32::MAX,
    ensures
        super::ops_of(final(ops)@) == super::ops_of(old(ops)@) + body_row_ops(
            row@,
            i as int,
            keys::width_of(value_w),
        ),
{
    let cy: i32 = ROW0_CY + i as i32 * ROW_PITCH;
    let w: u32 = match value_w {
        Some(w) => w,
        None => 0,
    };
    let has_value: bool = !row.right.as_str().is_empty();
    if has_value {
        ops.push(paint_right(row.right.as_str(), cy, tone_color(row.tone)));
    }
    let budget: u32 = KEYS_TEXT_W as u32 - COL_GAP_PX as u32;
    let clip_w: u16 = if !has_value {
        KEYS_TEXT_W
    } else if w >= budget {
        0
    } else {
        (budget - w) as u16
    };
    let ink = if row.emph {
        tone_color(row.tone)
    } else {
        Ink::Fg
    };
    ops.push(paint_left(row.left.as_str(), cy, Role::Body, ink, clip_w));
    assert(super::ops_of(ops@) =~= super::ops_of(old(ops)@) + body_row_ops(
        row@,
        i as int,
        keys::width_of(value_w),
    ));
}

/// Lay out one menu page: dark surface, title and page indicator band, up to
/// [`KEYS_MENU_ROWS_PER_PAGE`] label/value rows, gesture hint foot. An
/// over-wide label is clipped against the value column, an over-wide title
/// against the indicator.
pub fn render_keys_menu_page(
    title: &str,
    page: u16,
    pages: u16,
    rows: &[KeysMenuRow],
    widths: &PageWidths,
) -> (r: Vec<Op>)
    requires
        indicator_fits(page, pages),
        widths_fit(pages, crate::row::faces(rows@), *widths),
    ensures
        super::ops_of(r@) == page_ops(title@, page, pages, crate::row::faces(rows@), *widths),
{
    let mut ops: Vec<Op> = Vec::new();
    ops.push(Op::Fill { area: Rect { x: 0, y: 0, w: KEYS_W, h: KEYS_H } });
    let mut ind_buf: [u8; 8] = [0;8];
    let ind = fmt_page_indicator(page, pages, &mut ind_buf);
    let ind_w: u16 = (match widths.indicator {
        Some(w) => w,
        None => 0,
    }) as u16;
    let title_w: u16 = if pages == 0 {
        KEYS_TEXT_W
    } else {
        KEYS_TEXT_W.saturating_sub(ind_w + COL_GAP_PX as u16)
    };
    ops.push(paint_left(title, TITLE_CY, Role::Heading, Ink::Fg, title_w));
    if pages != 0 {
        ops.push(paint_right(ind, TITLE_CY, Ink::Muted));
    }
    let ghost head = seq![keys::cleared()] + title_ops(
        title@,
        page,
        pages,
        keys::width_of(widths.indicator) as u16,
    );
    assert(super::ops_of(ops@) =~= head);
    let ghost faces = crate::row::faces(rows@);
    let mut i: usize = 0;
    assert(head =~= head + body_ops(faces, *widths, 0));
    while i < rows.len() && i < KEYS_MENU_ROWS_PER_PAGE
        invariant
            i <= rows@.len(),
            i <= KEYS_MENU_ROWS_PER_PAGE,
            widths_fit(pages, faces, *widths),
            faces == crate::row::faces(rows@),
            super::ops_of(ops@) == head + body_ops(faces, *widths, i as int),
        decreases KEYS_MENU_ROWS_PER_PAGE - i,
    {
        paint_body_row(&mut ops, &rows[i], i, widths.values[i]);
        i += 1;
        assert(super::ops_of(ops@) =~= head + body_ops(faces, *widths, i as int));
    }
    ops.push(paint_mid_line(HINT, HINT_CY, Role::Body, Ink::Muted));
    assert(super::ops_of(ops@) =~= page_ops(title@, page, pages, faces, *widths));
    ops
}

/// The indicator reads "P/N": the page counted from one, a slash, and the page
/// count; nothing where the count is unknown.
pub proof fn law_indicator_counts_from_one(page: u16, pages: u16)
    ensures
        pages == 0 ==> indicator(page, pages).len() == 0,
        pages > 0 ==> exists|k: int|
            0 <= k < indicator(page, pages).len() && #[trigger] indicator(page, pages)[k] == 0x2F
                && text::writes(
                indicator(page, pages).take(k),
                if page < 65535 {
                    (page + 1) as nat
                } else {
                    65535
                },
            ) && text::writes(indicator(page, pages).skip(k + 1), pages as nat),
{
    if pages > 0 {
        let head = text::dec(shown_page(page));
        let all = indicator(page, pages);
        let k = head.len() as int;
        text::law_decimal_reads_back(shown_page(page));
        text::law_decimal_reads_back(pages as nat);
        assert(all[k] == 0x2F);
        assert(all.take(k) =~= head);
        assert(all.skip(k + 1) =~= text::dec(pages as nat));
    }
}

/// An indicator fits where neither number has more than four digits and one of
/// them has no more than three.
pub proof fn law_indicator_has_room(page: u16, pages: u16)
    requires
        page < 65535,
    ensures
        indicator_fits(page, pages) <==> pages == 0 || (page + 1 < 10_000 && pages < 10_000 && (page
            + 1 < 1_000 || pages < 1_000)),
{
    let shown = shown_page(page);
    text::lemma_dec_width(shown);
    text::lemma_dec_width(pages as nat);
    assert(text::ten_to(3) == 1000) by {
        reveal_with_fuel(text::ten_to, 4);
    }
    text::lemma_dec(shown, 3);
    text::lemma_dec(pages as nat, 3);
}

/// The colour of a toned text: grey for plain, green, amber and red for the
/// status tones.
pub open spec fn inked(tone: Tone, ink: Ink) -> bool {
    match ink {
        Ink::Grey => tone == Tone::Plain,
        Ink::Success => tone == Tone::Good,
        Ink::Warn => tone == Tone::Warn,
        Ink::Danger => tone == Tone::Bad,
        _ => false,
    }
}

/// A label as a body row shows it.
pub open spec fn is_label(op: OpModel, row: RowFace, i: int, value_w: int) -> bool {
    op matches OpModel::Text { text, at, role, paint, placing } && {
        &&& text == row.left
        &&& at.x == 12 && at.y == 40 + 19 * i
        &&& role == Role::Body
        &&& paint matches Paint::Solid(ink) && (if row.emph {
            inked(row.tone, ink)
        } else {
            ink == Ink::Fg
        })
        &&& placing matches Placing::KeepHead { clip, cut } && {
            &&& !cut
            &&& clip.x == 12 && clip.y == 0 && clip.h == 135
            &&& row.right.len() == 0 ==> clip.w == 216
            &&& row.right.len() > 0 && value_w <= 208 ==> clip.w == 208 - value_w
            &&& row.right.len() > 0 && value_w > 208 ==> clip.w == 0
        }
    }
}

/// A value as a body row shows it.
pub open spec fn is_value(op: OpModel, row: RowFace, i: int) -> bool {
    op matches OpModel::Text { text, at, role, paint, placing } && {
        &&& text == row.right
        &&& at.x == 228 && at.y == 40 + 19 * i
        &&& role == Role::Mono
        &&& paint matches Paint::Solid(ink) && inked(row.tone, ink)
        &&& placing == Placing::Right
    }
}

/// The label and value of each of the first `n` rows are among the body's
/// operations.
proof fn lemma_body_row(rows: Seq<RowFace>, widths: PageWidths, n: int, i: int)
    requires
        0 <= i < n <= KEYS_MENU_ROWS_PER_PAGE,
        n <= rows.len(),
    ensures
        exists|k: int|
            0 <= k < body_ops(rows, widths, n).len() && is_label(
                #[trigger] body_ops(rows, widths, n)[k],
                rows[i],
                i,
                keys::width_of(widths.values@[i]),
            ),
        rows[i].right.len() > 0 ==> exists|k: int|
            0 <= k < body_ops(rows, widths, n).len() && is_value(
                #[trigger] body_ops(rows, widths, n)[k],
                rows[i],
                i,
            ),
    decreases n,
{
    let all = body_ops(rows, widths, n);
    let head = body_ops(rows, widths, n - 1);
    let w = keys::width_of(widths.values@[n - 1]);
    let last = body_row_ops(rows[n - 1], n - 1, w);
    if i < n - 1 {
        lemma_body_row(rows, widths, n - 1, i);
        let k = choose|k: int|
            0 <= k < head.len() && is_label(
                #[trigger] head[k],
                rows[i],
                i,
                keys::width_of(widths.values@[i]),
            );
        assert(all[k] == head[k]);
        if rows[i].right.len() > 0 {
            let v = choose|v: int| 0 <= v < head.len() && is_value(#[trigger] head[v], rows[i], i);
            assert(all[v] == head[v]);
        }
    } else {
        let k = head.len() + last.len() - 1;
        assert(all[k] == last[last.len() - 1]);
        assert(is_label(all[k], rows[i], i, w));
        if rows[i].right.len() > 0 {
            assert(all[head.len() as int] == last[0]);
            assert(is_value(all[head.len() as int], rows[i], i));
        }
    }
}

/// A menu page paints each of its rows, up to four: the label at the left inset,
/// clipped a gap short of its value, in the foreground or, under the cursor, in
/// its tone; and the value, where there is one, at the right inset in its tone.
pub proof fn law_page_paints_each_row(
    title: Seq<char>,
    page: u16,
    pages: u16,
    rows: Seq<RowFace>,
    widths: PageWidths,
    i: int,
)
    requires
        0 <= i < rows.len(),
        i < 4,
    ensures
        exists|k: int|
            0 <= k < page_ops(title, page, pages, rows, widths).len() && is_label(
                #[trigger] page_ops(title, page, pages, rows, widths)[k],
                rows[i],
                i,
                keys::width_of(widths.values@[i]),
            ),
        rows[i].right.len() > 0 ==> exists|k: int|
            0 <= k < page_ops(title, page, pages, rows, widths).len() && is_value(
                #[trigger] page_ops(title, page, pages, rows, widths)[k],
                rows[i],
                i,
            ),
{
    let n = if rows.len() <= KEYS_MENU_ROWS_PER_PAGE {
        rows.len() as int
    } else {
        KEYS_MENU_ROWS_PER_PAGE as int
    };
    let body = body_ops(rows, widths, n);
    let head = seq![keys::cleared()] + title_ops(
        title,
        page,
        pages,
        keys::width_of(widths.indicator) as u16,
    );
    let all = page_ops(title, page, pages, rows, widths);
    let at = head.len() as int;
    lemma_body_row(rows, widths, n, i);
    assert(forall|k: int| 0 <= k < body.len() ==> all[at + k] == #[trigger] body[k]);
    let k = choose|k: int|
        0 <= k < body.len() && is_label(
            #[trigger] body[k],
            rows[i],
            i,
            keys::width_of(widths.values@[i]),
        );
    assert(is_label(all[at + k], rows[i], i, keys::width_of(widths.values@[i])));
    if rows[i].right.len() > 0 {
        let v = choose|v: int| 0 <= v < body.len() && is_value(#[trigger] body[v], rows[i], i);
        assert(is_value(all[at + v], rows[i], i));
    }
}

/// An operation shows a row: its label, or the value that it has.
pub open spec fn shows_row(op: OpModel, row: RowFace, i: int, value_w: int) -> bool {
    is_label(op, row, i, value_w) || (row.right.len() > 0 && is_value(op, row, i))
}

/// An operation shows some row of the first `n`.
pub open spec fn shows_a_row(op: OpModel, rows: Seq<RowFace>, widths: PageWidths, n: int) -> bool {
    exists|i: int|
        0 <= i < n && #[trigger] shows_row(
            op,
            rows[i],
            i,
            keys::width_of(widths.values@[i]),
        )
}

proof fn lemma_body_is_rows(rows: Seq<RowFace>, widths: PageWidths, n: int)
    requires
        0 <= n <= KEYS_MENU_ROWS_PER_PAGE,
        n <= rows.len(),
    ensures
        forall|k: int|
            0 <= k < body_ops(rows, widths, n).len() ==> shows_a_row(
                #[trigger] body_ops(rows, widths, n)[k],
                rows,
                widths,
                n,
            ),
    decreases n,
{
    if n > 0 {
        let all = body_ops(rows, widths, n);
        let head = body_ops(rows, widths, n - 1);
        let w = keys::width_of(widths.values@[n - 1]);
        let last = body_row_ops(rows[n - 1], n - 1, w);
        lemma_body_is_rows(rows, widths, n - 1);
        assert forall|k: int| 0 <= k < all.len() implies shows_a_row(
            #[trigger] all[k],
            rows,
            widths,
            n,
        ) by {
            if k < head.len() {
                assert(all[k] == head[k]);
                assert(shows_a_row(head[k], rows, widths, n - 1));
                let i = choose|i: int|
                    0 <= i < n - 1 && #[trigger] shows_row(
                        head[k],
                        rows[i],
                        i,
                        keys::width_of(widths.values@[i]),
                    );
                assert(shows_row(all[k], rows[i], i, keys::width_of(widths.values@[i])));
            } else {
                assert(all[k] == last[k - head.len()]);
                assert(shows_row(all[k], rows[n - 1], n - 1, w));
            }
        }
    }
}

/// A menu page paints nothing else: between the title band and the hint, every
/// operation is a label or a value of one of the page's rows, and a row without
/// a value has none painted.
pub proof fn law_page_paints_nothing_else(
    title: Seq<char>,
    page: u16,
    pages: u16,
    rows: Seq<RowFace>,
    widths: PageWidths,
    k: int,
)
    requires
        k >= (if pages == 0 {
            2int
        } else {
            3
        }),
        k < page_ops(title, page, pages, rows, widths).len() - 1,
    ensures
        shows_a_row(
            page_ops(title, page, pages, rows, widths)[k],
            rows,
            widths,
            if rows.len() <= 4 {
                rows.len() as int
            } else {
                4
            },
        ),
{
    let n = if rows.len() <= 4 {
        rows.len() as int
    } else {
        4
    };
    let body = body_ops(rows, widths, n);
    let at = if pages == 0 {
        2int
    } else {
        3
    };
    lemma_body_is_rows(rows, widths, n);
    assert(page_ops(title, page, pages, rows, widths)[k] == body[k - at]);
}

/// Every menu page clears the panel, then paints its title at the left of the
/// title band, clipped a gap short of the indicator; the indicator, where the
/// page count is known, at the right of it; and last the gesture hint.
pub proof fn law_page_paints_its_frame(
    title: Seq<char>,
    page: u16,
    pages: u16,
    rows: Seq<RowFace>,
    widths: PageWidths,
)
    requires
        keys::width_of(widths.indicator) <= 65535,
    ensures
        ({
            let all = page_ops(title, page, pages, rows, widths);
            let w = keys::width_of(widths.indicator);
            &&& keys::fills_the_panel(all[0])
            &&& all[1] matches OpModel::Text { text, at, role, paint, placing } && {
                &&& text == title
                &&& at == (Point { x: 12, y: 16 })
                &&& role == Role::Heading
                &&& paint == Paint::Solid(Ink::Fg)
                &&& placing matches Placing::KeepHead { clip, cut } && {
                    &&& !cut
                    &&& clip.x == 12 && clip.y == 0 && clip.h == 135
                    &&& pages == 0 ==> clip.w == 216
                    &&& pages > 0 && w <= 208 ==> clip.w == 208 - w
                    &&& pages > 0 && w > 208 ==> clip.w == 0
                }
            }
            &&& pages > 0 ==> (all[2] matches OpModel::Text { text, at, role, paint, placing } && {
                &&& text == text::chars_of(indicator(page, pages))
                &&& at == (Point { x: 228, y: 16 })
                &&& role == Role::Mono
                &&& paint == Paint::Solid(Ink::Muted)
                &&& placing == Placing::Right
            })
            &&& all.last() matches OpModel::Text { text, at, role, paint, placing } && {
                &&& text == "TAP NEXT   DOUBLE BACK"@
                &&& at == (Point { x: 120, y: 117 })
                &&& role == Role::Body
                &&& paint == Paint::Solid(Ink::Muted)
                &&& placing == Placing::Line
            }
        }),
{
}

/// The body rows depend on the first `n` rows alone.
proof fn lemma_body_of_head(rows: Seq<RowFace>, widths: PageWidths, k: int, n: int)
    requires
        0 <= n <= k <= rows.len(),
    ensures
        body_ops(rows.take(k), widths, n) == body_ops(rows, widths, n),
    decreases n,
{
    if n > 0 {
        lemma_body_of_head(rows, widths, k, n - 1);
        assert(rows.take(k)[n - 1] == rows[n - 1]);
    }
}

/// Every body line lies on one of the first `n` row centres.
proof fn lemma_body_lines(rows: Seq<RowFace>, widths: PageWidths, n: int)
    requires
        0 <= n <= KEYS_MENU_ROWS_PER_PAGE,
    ensures
        body_ops(rows, widths, n).len() <= 2 * n,
        forall|k: int|
            0 <= k < body_ops(rows, widths, n).len() ==> ROW0_CY <= keys::line_cy(
                #[trigger] body_ops(rows, widths, n)[k],
            ) <= row_cy(n - 1),
    decreases n,
{
    if n > 0 {
        let last = body_row_ops(rows[n - 1], n - 1, keys::width_of(widths.values@[n - 1]));
        lemma_body_lines(rows, widths, n - 1);
        assert(forall|k: int|
            0 <= k < last.len() ==> keys::line_cy(#[trigger] last[k]) == row_cy(n - 1));
    }
}

/// A page shows four rows at most: longer lists paint the very page their first
/// four rows do, and no body line reaches the hint line.
pub proof fn law_page_shows_four_rows_at_most(
    title: Seq<char>,
    page: u16,
    pages: u16,
    rows: Seq<RowFace>,
    widths: PageWidths,
)
    requires
        rows.len() > KEYS_MENU_ROWS_PER_PAGE,
    ensures
        page_ops(title, page, pages, rows, widths) == page_ops(
            title,
            page,
            pages,
            rows.take(KEYS_MENU_ROWS_PER_PAGE as int),
            widths,
        ),
        widths_fit(pages, rows, widths) == widths_fit(
            pages,
            rows.take(KEYS_MENU_ROWS_PER_PAGE as int),
            widths,
        ),
        body_ops(rows, widths, KEYS_MENU_ROWS_PER_PAGE as int).len() <= 2
            * KEYS_MENU_ROWS_PER_PAGE,
        forall|k: int|
            0 <= k < body_ops(rows, widths, KEYS_MENU_ROWS_PER_PAGE as int).len()
                ==> keys::line_cy(
                #[trigger] body_ops(rows, widths, KEYS_MENU_ROWS_PER_PAGE as int)[k],
            ) + BODY_HALF < HINT_CY - BODY_HALF,
{
    let n = KEYS_MENU_ROWS_PER_PAGE as int;
    lemma_body_of_head(rows, widths, n, n);
    lemma_body_lines(rows, widths, n);
    assert(forall|i: int| 0 <= i < n ==> rows.take(n)[i] == rows[i]);
}

/// The bands of a page lie inside the panel and apart: the title band above
/// every row, the rows in order without touching, the hint below them.
pub proof fn law_bands_do_not_collide(i: int, j: int)
    requires
        0 <= i < j < KEYS_MENU_ROWS_PER_PAGE,
    ensures
        0 <= TITLE_CY - HEADING_HALF,
        TITLE_CY + HEADING_HALF < row_cy(i) - BODY_HALF,
        row_cy(i) + BODY_HALF < row_cy(j) - BODY_HALF,
        row_cy(j) + BODY_HALF < HINT_CY - BODY_HALF,
        HINT_CY + BODY_HALF < KEYS_H,
{
}

/// A label's column ends a gap short of the value, and a title's a gap short of
/// the indicator, wherever those fit the text width at all; neither leaves the
/// text width.
pub proof fn law_columns_do_not_collide(w: int)
    requires
        0 <= w,
    ensures
        0 <= label_width(true, w) <= KEYS_TEXT_W,
        w + COL_GAP_PX <= KEYS_TEXT_W ==> KEYS_INSET + label_width(true, w) + COL_GAP_PX == KEYS_W
            - KEYS_INSET - w,
        w + COL_GAP_PX > KEYS_TEXT_W ==> label_width(true, w) == 0,
        w <= u16::MAX ==> title_width(true, w as u16) == label_width(true, w),
        KEYS_INSET + KEYS_TEXT_W == KEYS_W - KEYS_INSET,
{
}

} // verus!
