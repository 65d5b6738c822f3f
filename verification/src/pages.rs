//! The menu's pages: what each one lists, as titled frames of rows for the
//! renderer.
use vstd::prelude::*;
use vstd::string::*;

use crate::detail::{Detail, Pick};
use crate::menu;
use crate::menu::{locate, page_rows, Menu, ROWS_PER_PAGE, SECTIONS, SEC_SETTINGS};
use crate::render::keys_menu;
use crate::row;
use crate::row::{row_view, KeysMenuRow, RowFace, RowModel, Tone};
use crate::settings;
use crate::settings::{LiveConf, Setting, SETTINGS_LEN, SETTINGS_LIST};
use crate::text;
use crate::text::str_ascii;

verus! {

/// Section titles, in browse order.
pub const TITLES: [&'static str; SECTIONS] = [
    "OVERVIEW",
    "PIV",
    "OPENPGP",
    "OATH",
    "PASSKEYS",
    "BACKUP",
    "FIRMWARE",
    "YUBI OTP",
    "SETTINGS",
];

/// One menu page before layout: its title, its place among the pages, and its
/// rows.
#[derive(Debug)]
pub struct Frame {
    pub title: String,
    pub page: u16,
    pub pages: u16,
    pub rows: Vec<KeysMenuRow>,
}

/// What a page says.
pub struct FrameModel {
    pub title: Seq<char>,
    pub page: u16,
    pub pages: u16,
    pub rows: Seq<RowFace>,
}

impl View for Frame {
    type V = FrameModel;

    open spec fn view(&self) -> FrameModel {
        FrameModel {
            title: self.title@,
            page: self.page,
            pages: self.pages,
            rows: row::faces(self.rows@),
        }
    }
}

/// A setting's overview row: the value in force. Outside the select mode every
/// value is toned as current; in it only the cursor row is, and reads
/// emphasised.
pub open spec fn setting_face(i: int, cursor: Option<usize>, live: LiveConf) -> RowFace {
    let item = SETTINGS_LIST@[i];
    RowFace {
        left: settings::name_of(item),
        right: text::chars_of(settings::value_text(item, settings::index_in_force(item, live))),
        tone: if cursor is None || cursor == Some(i as usize) {
            Tone::Good
        } else {
            Tone::Plain
        },
        emph: cursor == Some(i as usize),
    }
}

/// The settings overview.
pub open spec fn settings_frame(cursor: Option<usize>, live: LiveConf) -> FrameModel {
    FrameModel {
        title: TITLES@[SEC_SETTINGS as int]@,
        page: 0,
        pages: 1,
        rows: Seq::new(SETTINGS_LEN as nat, |i: int| setting_face(i, cursor, live)),
    }
}

/// The value texts are printable and fit their buffer.
pub proof fn lemma_value_text(item: Setting, idx: int)
    requires
        0 <= idx,
    ensures
        text::all_printable(settings::value_text(item, idx)),
        settings::value_text(item, idx).len() <= 4,
        text::all_printable(settings::option_text(item, idx)),
        settings::option_text(item, idx).len() <= 11,
{
    settings::lemma_value_small(item, idx);
    text::lemma_dec_width(settings::value_of(item, idx) as nat);
    reveal_strlit(" SECONDS");
    reveal_strlit(" DEG");
    assert(is_ascii(" SECONDS"));
    assert(is_ascii(" DEG"));
}

/// The settings overview page: one row per setting, name and current value.
/// With `cursor` set (the page's select mode) the cursor row is emphasised.
pub fn paint_settings_overview(cursor: Option<usize>, live: &LiveConf) -> (r: Frame)
    ensures
        r@ == settings_frame(cursor, *live),
{
    let mut rows: Vec<KeysMenuRow> = Vec::new();
    let mut i: usize = 0;
    while i < SETTINGS_LEN
        invariant
            i <= SETTINGS_LEN,
            rows@.len() == i,
            forall|k: int| 0 <= k < i ==> (#[trigger] rows@[k])@ == setting_face(k, cursor, *live),
        decreases SETTINGS_LEN - i,
    {
        let item = SETTINGS_LIST[i];
        let idx: usize = item.current_index(live);
        let mut val: [u8; 8] = [0;8];
        proof {
            lemma_value_text(item, idx as int);
        }
        let len: usize = item.fill_value(idx, &mut val);
        assert(val@.subrange(0, len as int) =~= settings::value_text(item, idx as int));
        let here: bool = match cursor {
            Some(c) => c == i,
            None => false,
        };
        rows.push(
            KeysMenuRow {
                left: item.name().to_owned(),
                right: str_ascii(&val[0..len]).to_owned(),
                tone: if cursor.is_none() || here {
                    Tone::Good
                } else {
                    Tone::Plain
                },
                emph: here,
            },
        );
        i += 1;
    }
    let r = Frame { title: TITLES[SEC_SETTINGS].to_owned(), page: 0, pages: 1, rows };
    assert(r@.rows =~= settings_frame(cursor, *live).rows);
    r
}

/// An option's editor row: the cursor row is starred and toned.
pub open spec fn option_face(item: Setting, idx: int, cursor: usize) -> RowFace {
    RowFace {
        left: text::chars_of(settings::option_text(item, idx)),
        right: if idx == cursor {
            "*"@
        } else {
            ""@
        },
        tone: if idx == cursor {
            Tone::Good
        } else {
            Tone::Plain
        },
        emph: false,
    }
}

/// A setting's option editor.
pub open spec fn editor_frame(item: Setting, cursor: usize) -> FrameModel {
    FrameModel {
        title: settings::name_of(item),
        page: 0,
        pages: 1,
        rows: Seq::new(
            settings::options_of(item).len(),
            |idx: int| option_face(item, idx, cursor),
        ),
    }
}

/// The option editor of `item`: the option list with the cursor row marked.
pub fn paint_editor(item: Setting, cursor: usize) -> (r: Frame)
    ensures
        r@ == editor_frame(item, cursor),
{
    let mut rows: Vec<KeysMenuRow> = Vec::new();
    let n: usize = item.options().len();
    let mut idx: usize = 0;
    while idx < n && idx < ROWS_PER_PAGE
        invariant
            n == settings::options_of(item).len(),
            n <= ROWS_PER_PAGE,
            idx <= n,
            rows@.len() == idx,
            forall|k: int|
                0 <= k < idx ==> (#[trigger] rows@[k])@ == option_face(item, k, cursor),
        decreases n - idx,
    {
        let mut label: [u8; 12] = [0;12];
        proof {
            lemma_value_text(item, idx as int);
        }
        let len: usize = item.fill_option(idx, &mut label);
        assert(label@.subrange(0, len as int) =~= settings::option_text(item, idx as int));
        rows.push(
            KeysMenuRow {
                left: str_ascii(&label[0..len]).to_owned(),
                right: (if idx == cursor {
                    "*"
                } else {
                    ""
                }).to_owned(),
                tone: if idx == cursor {
                    Tone::Good
                } else {
                    Tone::Plain
                },
                emph: false,
            },
        );
        idx += 1;
    }
    let r = Frame { title: item.name().to_owned(), page: 0, pages: 1, rows };
    assert(r@.rows =~= editor_frame(item, cursor).rows);
    r
}

/// The page flashed after a confirmed choice.
pub open spec fn applied_frame(item: Setting) -> FrameModel {
    FrameModel {
        title: settings::name_of(item),
        page: 0,
        pages: 1,
        rows: seq![RowFace { left: "APPLIED"@, right: ""@, tone: Tone::Good, emph: false }],
    }
}

pub fn paint_applied(item: Setting) -> (r: Frame)
    ensures
        r@ == applied_frame(item),
{
    let mut rows: Vec<KeysMenuRow> = Vec::new();
    rows.push(
        KeysMenuRow {
            left: "APPLIED".to_owned(),
            right: "".to_owned(),
            tone: Tone::Good,
            emph: false,
        },
    );
    let r = Frame { title: item.name().to_owned(), page: 0, pages: 1, rows };
    assert(r@.rows =~= applied_frame(item).rows);
    r
}

/// A directory row on its page: as stored, or, under the pick cursor, the
/// whole row toned and emphasised.
pub open spec fn directory_face(m: RowModel, picked: bool) -> RowFace {
    if picked {
        RowFace { emph: true, tone: Tone::Good, ..row::face_of(m) }
    } else {
        row::face_of(m)
    }
}

/// A directory page of an info section, with the cursor on in-section row
/// `at`, if there is one.
pub open spec fn directory_frame(
    menu: &Menu,
    sec_pages: Seq<usize>,
    sec: int,
    page: int,
    at: Option<usize>,
) -> FrameModel {
    let s = keys_menu::page_slice(menu.sec_rows@[sec] as nat, page as nat);
    FrameModel {
        title: TITLES@[sec]@,
        page: page as u16,
        pages: sec_pages[sec] as u16,
        rows: Seq::new(
            s.1,
            |i: int| directory_face(menu.section(sec)[s.0 + i], at == Some((s.0 + i) as usize)),
        ),
    }
}

/// A directory page of an info section; the row under the cursor is
/// emphasised, the settings select mode's visual.
pub fn paint_directory(
    menu: &Menu,
    sec_pages: &[usize; SECTIONS],
    sec: usize,
    page: usize,
    at: Option<usize>,
) -> (r: Frame)
    requires
        menu.wf(),
        sec < SEC_SETTINGS,
    ensures
        r@ == directory_frame(menu, sec_pages@, sec as int, page as int, at),
{
    let off: usize = menu.sec_off[sec];
    assert(menu::sec_start(sec as int) + menu::sec_cap(sec as int) <= menu::ARENA_CAP);
    let (start, count) = page_rows(menu, sec, page);
    let mut rows: Vec<KeysMenuRow> = Vec::new();
    let mut i: usize = 0;
    while i < count
        invariant
            i <= count <= 4,
            menu.wf(),
            sec < SEC_SETTINGS,
            start + count <= menu.sec_rows@[sec as int],
            off == menu.sec_off@[sec as int],
            off + menu.sec_rows@[sec as int] <= menu::ARENA_CAP,
            rows@.len() == i,
            forall|k: int|
                0 <= k < i ==> (#[trigger] rows@[k])@ == directory_face(
                    menu.section(sec as int)[start + k],
                    at == Some((start + k) as usize),
                ),
        decreases count - i,
    {
        let mut v = row_view(&menu.arena[off + start + i]);
        assert(menu.section(sec as int)[start + i] == menu.arena@[off + start + i].model());
        let here: bool = match at {
            Some(row) => row == start + i,
            None => false,
        };
        if here {
            v.emph = true;
            v.tone = Tone::Good;
        }
        rows.push(v);
        i += 1;
    }
    let r = Frame {
        title: TITLES[sec].to_owned(),
        page: page as u16,
        pages: sec_pages[sec] as u16,
        rows,
    };
    assert(r@.rows =~= directory_frame(menu, sec_pages@, sec as int, page as int, at).rows);
    r
}

/// A page of the strip.
pub open spec fn strip_frame(
    menu: &Menu,
    sec_pages: Seq<usize>,
    page: int,
    live: LiveConf,
) -> FrameModel {
    let place = menu::place_of(sec_pages, page);
    if place.0 == SEC_SETTINGS {
        settings_frame(None, live)
    } else {
        directory_frame(menu, sec_pages, place.0, place.1, None)
    }
}

/// The strip's linear `page`: resolved into its section, whose rows for this
/// page are listed. The settings draw from the live config instead.
pub fn paint_page(
    menu: &Menu,
    sec_pages: &[usize; SECTIONS],
    page: usize,
    live: &LiveConf,
) -> (r: Frame)
    requires
        menu.wf(),
    ensures
        r@ == strip_frame(menu, sec_pages@, page as int, *live),
{
    let (sec, linear) = locate(sec_pages, page);
    if sec == SEC_SETTINGS {
        return paint_settings_overview(None, live);
    }
    paint_directory(menu, sec_pages, sec, linear, None)
}

/// A PIV or passkeys directory page with the pick cursor on its row.
pub fn paint_pick(menu: &Menu, sec_pages: &[usize; SECTIONS], p: Pick) -> (r: Frame)
    requires
        menu.wf(),
        p.sec < SEC_SETTINGS,
    ensures
        r@ == directory_frame(menu, sec_pages@, p.sec as int, p.page as int, Some(p.row)),
{
    paint_directory(menu, sec_pages, p.sec, p.page, Some(p.row))
}

/// A page of an open detail group: titled with the object's name, counted
/// among the group's own pages.
pub open spec fn detail_frame(d: Detail) -> FrameModel {
    FrameModel {
        title: text::chars_of(d.title_text()),
        page: d.page as u16,
        pages: d.pages as u16,
        rows: d.shown().map_values(|m: RowModel| row::face_of(m)),
    }
}

pub fn paint_detail(d: &Detail) -> (r: Frame)
    requires
        d.wf(),
    ensures
        r@ == detail_frame(*d),
{
    let mut rows: Vec<KeysMenuRow> = Vec::new();
    let mut i: usize = 0;
    while i < d.n_rows
        invariant
            i <= d.n_rows,
            d.wf(),
            rows@.len() == i,
            forall|k: int| 0 <= k < i ==> (#[trigger] rows@[k])@ == row::face_of(d.shown()[k]),
        decreases d.n_rows - i,
    {
        assert(d.shown()[i as int] == d.rows@[i as int].model());
        rows.push(row_view(&d.rows[i]));
        i += 1;
    }
    let tl: usize = d.tl as usize;
    assert(d.title@.subrange(0, tl as int) =~= d.title_text());
    let r = Frame {
        title: str_ascii(&d.title[0..tl]).to_owned(),
        page: d.page as u16,
        pages: d.pages as u16,
        rows,
    };
    assert(r@.rows =~= detail_frame(*d).rows);
    r
}

} // verus!
