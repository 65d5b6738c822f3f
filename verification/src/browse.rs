//! The single-button browse: a ring of pages ending in the settings, and the
//! levels above it that a hold enters (the settings select and editor, a
//! directory pick and its read-only detail page).
use vstd::prelude::*;

use crate::applets::{Account, PivSlot, Snapshot, MAX_EXTRA_SLOTS};
use crate::capture;
use crate::detail;
use crate::detail::{
    detail_open, detail_source, pk_detail_load, piv_detail_load, Detail, DetailSrc, Pick,
};
use crate::gesture::Gesture;
use crate::menu;
use crate::menu::{
    count_pages, first_exp_row, locate, next_exp_row, Menu, ROWS_PER_PAGE, SECTIONS, SEC_PASSKEYS,
    SEC_PIV, SEC_SETTINGS,
};
use crate::pages;
use crate::pages::Frame;
use crate::render::keys_menu;
use crate::row;
use crate::row::RowBuf;
use crate::settings;
use crate::settings::{setting_index, LiveConf, Setting, SETTINGS_LEN, SETTINGS_LIST};
use crate::text;

verus! {

/// The mode above the strip.
#[derive(Clone, Copy, Debug)]
pub enum Mode {
    /// Taps walk the settings overview's rows.
    Select { cursor: usize },
    /// Taps cycle one setting's options; a hold confirms.
    Edit { item: Setting, cursor: usize },
    /// Taps walk a directory page's expandable rows; a hold opens one.
    Pick(Pick),
    /// Taps page through a read-only detail group.
    Detail(Detail),
}

/// What a gesture asks of the device.
#[derive(Clone, Copy, Debug)]
pub enum Effect {
    /// Nothing but a repaint.
    Nothing,
    /// A confirmed choice took effect: persist the record (and turn the panel
    /// for a screen direction), and flash the applied page.
    Applied { item: Setting, record: [u8; 2] },
    /// Read the object and hand it to [`Browser::open_piv`] or
    /// [`Browser::open_rp`].
    Open { src: DetailSrc },
    /// Read the relying party's credentials again and hand them to
    /// [`Browser::turn`].
    Turn { nth: usize, page: usize },
}

/// The browse state: the captured menu, the strip position, and the mode above
/// the strip (`None` browses the ring).
pub struct Browser {
    pub menu: Menu,
    pub sec_pages: [usize; SECTIONS],
    pub total_pages: usize,
    /// Linear page index over the whole strip.
    pub page: usize,
    pub mode: Option<Mode>,
}

/// A pick stands on an expandable row of a directory page, and that page is
/// the strip's page.
pub open spec fn pick_wf(b: Browser, p: Pick) -> bool {
    let s = keys_menu::page_slice(b.menu.sec_rows@[p.sec as int] as nat, p.page as nat);
    &&& p.sec == SEC_PIV || p.sec == SEC_PASSKEYS
    &&& p.page < b.sec_pages@[p.sec as int]
    &&& menu::pages_before(b.sec_pages@, p.sec as int) + p.page == b.page
    &&& s.0 <= p.row < s.0 + s.1
    &&& menu::expands(&b.menu, p.sec as int, p.row as int)
}

/// A browse just opened on a menu captured from `snap`: on its first page, in no
/// mode, every section as the snapshot has it and its spare slots blank.
pub open spec fn captured(b: Browser, snap: Snapshot) -> bool {
    &&& b.page == 0
    &&& b.mode is None
    &&& b.menu.sec_rows@[SEC_SETTINGS as int] == SETTINGS_LEN
    &&& b.menu.sec_off@[SEC_SETTINGS as int] == 0
    &&& forall|sec: int, i: int|
        0 <= sec < SEC_SETTINGS && b.menu.sec_rows@[sec] <= i < menu::sec_cap(sec) ==> (
        #[trigger] menu::slot_at(b.menu, sec, i)).model() == capture::blank_row()
    &&& forall|sec: int|
        0 <= sec < SEC_SETTINGS ==> #[trigger] b.menu.section(sec) == capture::section_rows(
            snap,
            sec,
        )
}

impl Browser {
    pub open spec fn wf(&self) -> bool {
        &&& self.menu.wf()
        &&& menu::are_pages_of(self.sec_pages@, &self.menu)
        &&& self.total_pages == menu::pages_before(self.sec_pages@, SECTIONS as int)
        &&& self.page < self.total_pages
        &&& self.total_pages <= SECTIONS * 16
        &&& match self.mode {
            None => true,
            Some(Mode::Select { cursor }) => {
                &&& cursor < SETTINGS_LEN
                &&& self.page == self.total_pages - 1
            },
            Some(Mode::Edit { item, cursor }) => {
                &&& cursor < settings::options_of(item).len()
                &&& self.page == self.total_pages - 1
            },
            Some(Mode::Pick(p)) => pick_wf(*self, p),
            Some(Mode::Detail(d)) => d.wf() && pick_wf(*self, d.back),
        }
    }

    /// Everything but the position and the mode.
    pub open spec fn same_menu(&self, other: &Browser) -> bool {
        &&& self.menu == other.menu
        &&& self.sec_pages == other.sec_pages
        &&& self.total_pages == other.total_pages
    }

    /// Capture the menu and open it on its first page.
    pub fn new(snap: &Snapshot) -> (r: Self)
        requires
            snap.piv_extra@.len() <= MAX_EXTRA_SLOTS,
        ensures
            r.wf(),
            captured(r, *snap),
    {
        let mut menu = Menu::new();
        capture::capture(snap, &mut menu);
        let (sec_pages, total_pages) = count_pages(&menu);
        Browser { menu, sec_pages, total_pages, page: 0, mode: None }
    }
}

/// The strip page a tap goes to: the next, past the last the first.
pub open spec fn next_page(total: int, page: int) -> int {
    after(total, page)
}

/// The place after `k` of `n` in a ring.
pub open spec fn after(n: int, k: int) -> int {
    if k + 1 == n {
        0
    } else {
        k + 1
    }
}

/// A step around a ring is a step modulo its length.
proof fn lemma_after(n: int, k: int)
    requires
        0 <= k < n,
    ensures
        (k + 1) % n == after(n, k),
{
    if k + 1 < n {
        vstd::arithmetic::div_mod::lemma_small_mod((k + 1) as nat, n as nat);
    } else {
        vstd::arithmetic::div_mod::lemma_mod_self_0(n);
    }
}

/// The strip page a double goes back to: the previous, before the first the
/// last.
pub open spec fn prev_page(total: int, page: int) -> int {
    if page == 0 {
        total - 1
    } else {
        page - 1
    }
}

/// How a browse reacts to a gesture: its next state, the settings after it,
/// and what it asks of the device.
pub open spec fn reacts(
    b: Browser,
    live: LiveConf,
    g: Gesture,
    b2: Browser,
    live2: LiveConf,
    e: Effect,
) -> bool {
    let quiet = live2 == live && e is Nothing;
    match (b.mode, g) {
        // Settings select: taps walk the rows, a hold opens the selected
        // setting's editor, a double leaves.
        (Some(Mode::Select { cursor }), Gesture::Tap) => {
            &&& quiet
            &&& b2 == Browser {
                mode: Some(
                    Mode::Select { cursor: after(SETTINGS_LEN as int, cursor as int) as usize },
                ),
                ..b
            }
        },
        (Some(Mode::Select { cursor }), Gesture::Hold) => {
            let item = SETTINGS_LIST@[cursor as int];
            &&& quiet
            &&& b2 == Browser {
                mode: Some(
                    Mode::Edit { item, cursor: settings::index_in_force(item, live) as usize },
                ),
                ..b
            }
        },
        (Some(Mode::Select { .. }), Gesture::Double) => {
            &&& quiet
            &&& b2 == Browser { mode: None, ..b }
        },
        // Option editor: taps cycle, a hold confirms, a double leaves without
        // writing.
        (Some(Mode::Edit { item, cursor }), Gesture::Tap) => {
            &&& quiet
            &&& b2 == Browser {
                mode: Some(
                    Mode::Edit {
                        item,
                        cursor: after(
                            settings::options_of(item).len() as int,
                            cursor as int,
                        ) as usize,
                    },
                ),
                ..b
            }
        },
        (Some(Mode::Edit { item, cursor }), Gesture::Hold) => {
            &&& live2 == settings::applied(item, live, cursor as int)
            &&& e matches Effect::Applied { item: i, record } && i == item && record@
                == settings::record_of(live2)
            &&& b2 == Browser {
                mode: Some(Mode::Select { cursor: settings::row_of(item) as usize }),
                ..b
            }
        },
        (Some(Mode::Edit { item, .. }), Gesture::Double) => {
            &&& quiet
            &&& b2 == Browser {
                mode: Some(Mode::Select { cursor: settings::row_of(item) as usize }),
                ..b
            }
        },
        // Pick: taps walk the page's expandable rows, a hold asks for the
        // picked object, a double leaves back to the strip.
        (Some(Mode::Pick(p)), Gesture::Tap) => {
            &&& quiet
            &&& b2.mode matches Some(Mode::Pick(q)) && {
                &&& q.sec == p.sec
                &&& q.page == p.page
                &&& menu::is_next_exp(
                    &b.menu,
                    p.sec as int,
                    p.page as nat,
                    p.row as int,
                    q.row as int,
                )
            }
            &&& b2 == Browser { mode: b2.mode, ..b }
        },
        (Some(Mode::Pick(p)), Gesture::Hold) => {
            &&& live2 == live
            &&& b2 == b
            &&& match detail::source_of(p.sec as int, p.row as int) {
                Some(src) => e == Effect::Open { src },
                None => e is Nothing,
            }
        },
        (Some(Mode::Pick(_)), Gesture::Double) => {
            &&& quiet
            &&& b2 == Browser { mode: None, ..b }
        },
        // Detail: taps turn a credential list's pages, a double returns to the
        // pick, a hold has nothing to confirm.
        (Some(Mode::Detail(d)), Gesture::Tap) => {
            &&& live2 == live
            &&& b2 == b
            &&& match d.src {
                DetailSrc::PkRp { nth } if d.pages > 1 => e == Effect::Turn {
                    nth,
                    page: ((d.page + 1) % d.pages as int) as usize,
                },
                _ => e is Nothing,
            }
        },
        (Some(Mode::Detail(d)), Gesture::Double) => {
            &&& quiet
            &&& b2 == Browser { mode: Some(Mode::Pick(d.back)), ..b }
        },
        (Some(Mode::Detail(_)), Gesture::Hold) => quiet && b2 == b,
        // The strip.
        (None, Gesture::Tap) => {
            &&& quiet
            &&& b2 == Browser {
                page: next_page(b.total_pages as int, b.page as int) as usize,
                ..b
            }
        },
        (None, Gesture::Double) => {
            &&& quiet
            &&& b2 == Browser {
                page: prev_page(b.total_pages as int, b.page as int) as usize,
                ..b
            }
        },
        (None, Gesture::Hold) => {
            let place = menu::place_of(b.sec_pages@, b.page as int);
            &&& quiet
            &&& b2 == Browser { mode: b2.mode, ..b }
            &&& if place.0 == SEC_SETTINGS {
                b2.mode == Some(Mode::Select { cursor: 0 })
            } else if place.0 == SEC_PIV || place.0 == SEC_PASSKEYS {
                starts_pick(&b.menu, place.0, place.1, b2.mode)
            } else {
                b2.mode is None
            }
        },
    }
}

/// A hold on a directory page starts the pick on its first expandable row; a
/// page without one stays put.
pub open spec fn starts_pick(menu: &Menu, sec: int, page: int, mode: Option<Mode>) -> bool {
    let s = keys_menu::page_slice(menu.sec_rows@[sec] as nat, page as nat);
    match mode {
        None => forall|k: int| s.0 <= k < s.0 + s.1 ==> !#[trigger] menu::expands(menu, sec, k),
        Some(Mode::Pick(p)) => {
            &&& p.sec == sec
            &&& p.page == page
            &&& s.0 <= p.row < s.0 + s.1
            &&& menu::expands(menu, sec, p.row as int)
            &&& forall|k: int| s.0 <= k < p.row ==> !#[trigger] menu::expands(menu, sec, k)
        },
        _ => false,
    }
}

impl Browser {
    /// A hold on the strip: the settings overview enters the select mode, a
    /// directory page that has an expandable row starts the pick on it, and
    /// anywhere else there is nothing to do.
    fn enter(&mut self)
        requires
            old(self).wf(),
            old(self).mode is None,
        ensures
            final(self).wf(),
            *final(self) == (Browser { mode: final(self).mode, ..*old(self) }),
            ({
                let place = menu::place_of(old(self).sec_pages@, old(self).page as int);
                if place.0 == SEC_SETTINGS {
                    final(self).mode == Some(Mode::Select { cursor: 0 })
                } else if place.0 == SEC_PIV || place.0 == SEC_PASSKEYS {
                    starts_pick(&old(self).menu, place.0, place.1, final(self).mode)
                } else {
                    final(self).mode is None
                }
            }),
    {
        let (sec, linear) = locate(&self.sec_pages, self.page);
        proof {
            menu::law_last_page_is_settings(&self.menu, self.sec_pages@);
        }
        if sec == SEC_SETTINGS {
            self.mode = Some(Mode::Select { cursor: 0 });
        } else if sec == SEC_PIV || sec == SEC_PASSKEYS {
            if let Some(row) = first_exp_row(&self.menu, sec, linear) {
                self.mode = Some(Mode::Pick(Pick { sec, page: linear, row }));
            }
        }
    }

    /// Take one gesture.
    pub fn on_gesture(&mut self, g: Gesture, live: &mut LiveConf) -> (e: Effect)
        requires
            old(self).wf(),
        ensures
            final(self).wf(),
            final(self).same_menu(old(self)),
            reacts(*old(self), *old(live), g, *final(self), *final(live), e),
    {
        match self.mode {
            Some(Mode::Select { cursor }) => {
                match g {
                    Gesture::Tap => {
                        proof {
                            lemma_after(SETTINGS_LEN as int, cursor as int);
                        }
                        self.mode = Some(Mode::Select { cursor: (cursor + 1) % SETTINGS_LEN });
                    },
                    Gesture::Hold => {
                        let item = SETTINGS_LIST[cursor];
                        self.mode = Some(Mode::Edit { item, cursor: item.current_index(live) });
                    },
                    Gesture::Double => {
                        self.mode = None;
                    },
                }
                Effect::Nothing
            },
            Some(Mode::Edit { item, cursor }) => {
                match g {
                    Gesture::Tap => {
                        let n: usize = item.options().len();
                        proof {
                            lemma_after(n as int, cursor as int);
                        }
                        self.mode = Some(Mode::Edit { item, cursor: (cursor + 1) % n });
                        Effect::Nothing
                    },
                    Gesture::Hold => {
                        let saved = item.apply(live, cursor);
                        self.mode = Some(Mode::Select { cursor: setting_index(item) });
                        match saved {
                            Some(record) => Effect::Applied { item, record },
                            None => Effect::Nothing,
                        }
                    },
                    Gesture::Double => {
                        self.mode = Some(Mode::Select { cursor: setting_index(item) });
                        Effect::Nothing
                    },
                }
            },
            Some(Mode::Pick(p)) => {
                match g {
                    Gesture::Tap => {
                        let row: usize = next_exp_row(&self.menu, p.sec, p.page, p.row);
                        proof {
                            menu::law_pick_stays_on_the_page(
                                &self.menu,
                                p.sec as int,
                                p.page as nat,
                                p.row as int,
                                row as int,
                            );
                        }
                        self.mode = Some(Mode::Pick(Pick { row, ..p }));
                        Effect::Nothing
                    },
                    Gesture::Hold => match detail_source(p) {
                        Some(src) => Effect::Open { src },
                        None => Effect::Nothing,
                    },
                    Gesture::Double => {
                        self.mode = None;
                        Effect::Nothing
                    },
                }
            },
            Some(Mode::Detail(d)) => {
                match g {
                    Gesture::Tap => match d.src {
                        DetailSrc::PkRp { nth } => if d.pages > 1 {
                            Effect::Turn {
                                nth,
                                page: (d.page + 1) % d.pages,
                            }
                        } else {
                            Effect::Nothing
                        },
                        _ => Effect::Nothing,
                    },
                    Gesture::Double => {
                        self.mode = Some(Mode::Pick(d.back));
                        Effect::Nothing
                    },
                    Gesture::Hold => Effect::Nothing,
                }
            },
            None => {
                match g {
                    Gesture::Tap => {
                        proof {
                            lemma_after(self.total_pages as int, self.page as int);
                        }
                        self.page = (self.page + 1) % self.total_pages;
                    },
                    Gesture::Double => {
                        self.page = if self.page == 0 {
                            self.total_pages - 1
                        } else {
                            self.page - 1
                        };
                    },
                    Gesture::Hold => {
                        self.enter();
                    },
                }
                Effect::Nothing
            },
        }
    }
}

/// The mode a hold on `p` leads to once its object was read: the detail page
/// with these rows, or, where there are none, still the pick.
pub open spec fn opened(
    menu: &Menu,
    p: Pick,
    rows: Seq<row::RowModel>,
    pages: nat,
    mode: Option<Mode>,
) -> bool {
    if rows.len() == 0 {
        mode == Some(Mode::Pick(p))
    } else {
        mode matches Some(Mode::Detail(d)) && {
            &&& Some(d.src) == detail::source_of(p.sec as int, p.row as int)
            &&& d.back == p
            &&& d.title_text() == menu.section(p.sec as int)[p.row as int].left
            &&& d.page == 0
            &&& d.pages == pages
            &&& d.shown() == rows
        }
    }
}

/// How a browse with a PIV pick goes on once the slots' table was read: the
/// policy page of the slot the pick names, or, where that slot is gone, still
/// the pick.
pub open spec fn opens_slot(b: Browser, slots: Seq<PivSlot>, b2: Browser) -> bool {
    &&& b2 == Browser { mode: b2.mode, ..b }
    &&& b.picked() matches Some(p) && {
        let rows = match detail::source_of(p.sec as int, p.row as int) {
            Some(src) => match detail::picked_slot(src, slots) {
                Some(slot) => detail::policy_rows(slot),
                None => Seq::empty(),
            },
            None => Seq::empty(),
        };
        opened(&b.menu, p, rows, 1, b2.mode)
    }
}

/// How a browse with a passkeys pick goes on once the relying party's
/// credentials were read: their first page, or, where there are none, still the
/// pick.
pub open spec fn opens_rp(b: Browser, all: Seq<Account>, b2: Browser) -> bool {
    &&& b2 == Browser { mode: b2.mode, ..b }
    &&& b.picked() matches Some(p) && {
        let rows = match detail::source_of(p.sec as int, p.row as int) {
            Some(_) => detail::accounts_on(all, 0).map_values(|a: Account| detail::account_row(a)),
            None => Seq::empty(),
        };
        opened(&b.menu, p, rows, menu::section_page_count(all.len()), b2.mode)
    }
}

/// How an open credential list goes on once `page` of it was read.
pub open spec fn turned(b: Browser, page: usize, all: Seq<Account>, b2: Browser) -> bool {
    &&& b2 == Browser { mode: b2.mode, ..b }
    &&& b.mode matches Some(Mode::Detail(d)) && b2.mode matches Some(Mode::Detail(d2)) && {
        &&& d2.src == d.src
        &&& d2.back == d.back
        &&& d2.title_text() == d.title_text()
        &&& d2.page == page
        &&& d2.pages == menu::section_page_count(all.len())
        &&& d2.shown() == detail::accounts_on(all, page as nat).map_values(
            |a: Account| detail::account_row(a),
        )
    }
}

/// The credentials that were found, none where the relying party is gone.
pub open spec fn found_accounts<'a>(found: Option<&[Account<'a>]>) -> Seq<Account<'a>> {
    match found {
        Some(all) => all@,
        None => Seq::empty(),
    }
}

impl Browser {
    /// The pick, where the browse is in that mode.
    pub open spec fn picked(&self) -> Option<Pick> {
        match self.mode {
            Some(Mode::Pick(p)) => Some(p),
            _ => None,
        }
    }

    /// Hand over the table that an [`Effect::Open`] about a PIV slot asked for.
    /// A slot that vanished since the capture leaves the pick where it is.
    pub fn open_piv(&mut self, slots: &[PivSlot])
        requires
            old(self).wf(),
            old(self).picked() matches Some(p) && p.sec == SEC_PIV,
        ensures
            final(self).wf(),
            opens_slot(*old(self), slots@, *final(self)),
    {
        if let Some(Mode::Pick(p)) = self.mode {
            if let Some(src) = detail_source(p) {
                let mut rows = [RowBuf::empty();ROWS_PER_PAGE];
                let n: usize = piv_detail_load(src, slots, &mut rows);
                assert(rows@.take(4) =~= rows@);
                if let Some(d) = detail_open(&self.menu, p, src, rows, n, 1) {
                    self.mode = Some(Mode::Detail(d));
                }
            }
        }
    }

    /// Hand over the credentials that an [`Effect::Open`] about a relying party
    /// asked for (`None` where it is gone).
    pub fn open_rp(&mut self, found: Option<&[Account]>)
        requires
            old(self).wf(),
            old(self).picked() matches Some(p) && p.sec == SEC_PASSKEYS,
        ensures
            final(self).wf(),
            opens_rp(*old(self), found_accounts(found), *final(self)),
    {
        if let Some(Mode::Pick(p)) = self.mode {
            if let Some(src) = detail_source(p) {
                let mut rows = [RowBuf::empty();ROWS_PER_PAGE];
                let (n, pages) = pk_detail_load(found, 0, &mut rows);
                if let Some(d) = detail_open(&self.menu, p, src, rows, n, pages) {
                    self.mode = Some(Mode::Detail(d));
                }
            }
        }
    }

    /// Hand over the credentials that an [`Effect::Turn`] to `page` asked for.
    pub fn turn(&mut self, page: usize, found: Option<&[Account]>)
        requires
            old(self).wf(),
            old(self).mode matches Some(Mode::Detail(d)) && page < d.pages,
        ensures
            final(self).wf(),
            turned(*old(self), page, found_accounts(found), *final(self)),
    {
        if let Some(Mode::Detail(d)) = self.mode {
            let mut rows = [RowBuf::empty();ROWS_PER_PAGE];
            let (n_rows, pages) = pk_detail_load(found, page, &mut rows);
            self.mode = Some(Mode::Detail(Detail { page, pages, rows, n_rows, ..d }));
            assert(detail::accounts_on(Seq::<Account>::empty(), page as nat).map_values(
                |a: Account| detail::account_row(a),
            ) =~= Seq::empty());
            assert(row::models(rows@.take(0)) =~= Seq::empty());
        }
    }

    /// The page to show.
    pub fn frame(&self, live: &LiveConf) -> (r: Frame)
        requires
            self.wf(),
        ensures
            r@ == frame_of(*self, *live),
    {
        match &self.mode {
            Some(Mode::Select { cursor }) => pages::paint_settings_overview(Some(*cursor), live),
            Some(Mode::Edit { item, cursor }) => pages::paint_editor(*item, *cursor),
            Some(Mode::Pick(p)) => pages::paint_pick(&self.menu, &self.sec_pages, *p),
            Some(Mode::Detail(d)) => pages::paint_detail(d),
            None => pages::paint_page(&self.menu, &self.sec_pages, self.page, live),
        }
    }
}

/// The page a browse shows: its mode's, or the strip's.
pub open spec fn frame_of(b: Browser, live: LiveConf) -> pages::FrameModel {
    match b.mode {
        Some(Mode::Select { cursor }) => pages::settings_frame(Some(cursor), live),
        Some(Mode::Edit { item, cursor }) => pages::editor_frame(item, cursor),
        Some(Mode::Pick(p)) => pages::directory_frame(
            &b.menu,
            b.sec_pages@,
            p.sec as int,
            p.page as int,
            Some(p.row),
        ),
        Some(Mode::Detail(d)) => pages::detail_frame(d),
        None => pages::strip_frame(&b.menu, b.sec_pages@, b.page as int, live),
    }
}

/// The strip is a ring: a double undoes a tap and a tap undoes a double, from
/// every page.
pub proof fn law_strip_is_a_ring(total: int, page: int)
    requires
        0 <= page < total,
    ensures
        0 <= next_page(total, page) < total,
        0 <= prev_page(total, page) < total,
        prev_page(total, next_page(total, page)) == page,
        next_page(total, prev_page(total, page)) == page,
{
}

/// The page reached by `k` taps.
pub open spec fn taps(total: int, page: int, k: nat) -> int
    decreases k,
{
    if k == 0 {
        page
    } else {
        next_page(total, taps(total, page, (k - 1) as nat))
    }
}

/// Taps alone reach every page of the strip, and a full round comes back to
/// where it began.
pub proof fn law_taps_reach_every_page(total: int, page: int, goal: int)
    requires
        0 <= page < total,
        0 <= goal < total,
    ensures
        taps(total, page, total as nat) == page,
        taps(
            total,
            page,
            (if goal >= page {
                goal - page
            } else {
                goal - page + total
            }) as nat,
        ) == goal,
{
    lemma_taps(total, page, (total - page) as nat);
    lemma_taps_compose(total, page, (total - page) as nat, page as nat);
    lemma_taps(total, 0, page as nat);
    if goal >= page {
        lemma_taps(total, page, (goal - page) as nat);
    } else {
        lemma_taps_compose(total, page, (total - page) as nat, goal as nat);
        lemma_taps(total, 0, goal as nat);
    }
}

/// Taps count up to the end of the strip and then start over.
proof fn lemma_taps(total: int, page: int, k: nat)
    requires
        0 <= page < total,
        page + k <= total,
    ensures
        taps(total, page, k) == (if page + k == total {
            0
        } else {
            page + k
        }),
    decreases k,
{
    if k > 0 {
        lemma_taps(total, page, (k - 1) as nat);
    }
}

/// Taps add up.
proof fn lemma_taps_compose(total: int, page: int, j: nat, k: nat)
    ensures
        taps(total, page, j + k) == taps(total, taps(total, page, j), k),
    decreases k,
{
    if k > 0 {
        lemma_taps_compose(total, page, j, (k - 1) as nat);
    }
}

/// The settings are one double away from the first page.
pub proof fn law_settings_are_one_double_from_the_overview(
    b: Browser,
    live: LiveConf,
    b2: Browser,
    live2: LiveConf,
    e: Effect,
)
    requires
        b.wf(),
        b.mode is None,
        b.page == 0,
        reacts(b, live, Gesture::Double, b2, live2, e),
    ensures
        menu::place_of(b2.sec_pages@, b2.page as int) == (SEC_SETTINGS as int, 0int),
        frame_of(b2, live2) == pages::settings_frame(None, live),
{
    menu::law_last_page_is_settings(&b.menu, b.sec_pages@);
    menu::lemma_settings_place(&b.menu, b.sec_pages@);
}

/// A double always climbs one level and writes nothing: out of a detail page to
/// the pick that opened it, out of an editor to the select mode with the edited
/// setting marked, out of a pick or the select mode to the strip at the same
/// page.
pub proof fn law_double_climbs_one_level(
    b: Browser,
    live: LiveConf,
    b2: Browser,
    live2: LiveConf,
    e: Effect,
)
    requires
        b.wf(),
        b.mode is Some,
        reacts(b, live, Gesture::Double, b2, live2, e),
    ensures
        live2 == live,
        e is Nothing,
        b2.page == b.page,
        match b.mode->0 {
            Mode::Detail(d) => b2.mode == Some(Mode::Pick(d.back)),
            Mode::Edit { item, .. } => b2.mode matches Some(Mode::Select { cursor })
                && SETTINGS_LIST@[cursor as int] == item,
            _ => b2.mode is None,
        },
{
}

/// Only a hold in an option editor changes the settings or asks for a write,
/// and what it then persists reloads to what is in force.
pub proof fn law_only_a_confirmed_option_writes(
    b: Browser,
    live: LiveConf,
    g: Gesture,
    b2: Browser,
    live2: LiveConf,
    e: Effect,
)
    requires
        b.wf(),
        reacts(b, live, g, b2, live2, e),
    ensures
        live2 != live || e is Applied ==> g == Gesture::Hold && b.mode matches Some(
            Mode::Edit { .. },
        ),
        e matches Effect::Applied { item, record } ==> {
            &&& b.mode matches Some(Mode::Edit { item: i, cursor }) && i == item
                && settings::index_in_force(item, live2) == cursor
            &&& settings::delay_listed(live) ==> settings::loaded(settings::fresh(), record@, 2)
                == live2
        },
{
    if let Some(Mode::Edit { item, cursor }) = b.mode {
        if g == Gesture::Hold {
            settings::law_applied_option_is_in_force(item, item, live, cursor as int);
        }
    }
}

/// A hold on the strip is inert outside the settings, PIV and passkeys
/// sections.
pub proof fn law_hold_is_inert_elsewhere(
    b: Browser,
    live: LiveConf,
    b2: Browser,
    live2: LiveConf,
    e: Effect,
)
    requires
        b.wf(),
        b.mode is None,
        reacts(b, live, Gesture::Hold, b2, live2, e),
        ({
            let sec = menu::place_of(b.sec_pages@, b.page as int).0;
            sec != SEC_SETTINGS && sec != SEC_PIV && sec != SEC_PASSKEYS
        }),
    ensures
        b2 == b,
        live2 == live,
        e is Nothing,
{
}

/// A pick on a menu captured from `s` names an object of `s`: a slot that holds
/// a key, or a relying party; and the row it stands on is that object's.
pub proof fn law_pick_names_the_rows_object(s: Snapshot, b: Browser, p: Pick)
    requires
        b.wf(),
        pick_wf(b, p),
        forall|sec: int|
            0 <= sec < SEC_SETTINGS ==> #[trigger] b.menu.section(sec) == capture::section_rows(
                s,
                sec,
            ),
    ensures
        ({
            let row = b.menu.section(p.sec as int)[p.row as int];
            match detail::source_of(p.sec as int, p.row as int) {
                Some(DetailSrc::PivPrimary { idx }) => {
                    &&& detail::picked_slot(DetailSrc::PivPrimary { idx }, s.piv.slots@) == Some(
                        s.piv.slots@[idx as int],
                    )
                    &&& row == capture::piv_primary_row(idx as int, s.piv.slots@[idx as int])
                },
                Some(DetailSrc::PivRetired { nth }) => {
                    detail::picked_slot(DetailSrc::PivRetired { nth }, s.piv_extra@) matches Some(
                        slot,
                    ) && row == capture::piv_extra_row(slot)
                },
                Some(DetailSrc::PkRp { nth }) => {
                    &&& nth < s.rps@.len()
                    &&& row == capture::rp_row(s.rps@[nth as int])
                },
                None => false,
            }
        }),
{
    let sec = p.sec as int;
    let r = p.row as int;
    assert(b.menu.section(sec) == capture::section_rows(s, sec));
    assert(r < b.menu.section(sec).len());
    capture::law_only_objects_expand(s, sec, r);
    if p.sec == SEC_PIV {
        capture::law_piv_directory_lists_every_slot(s.piv, s.piv_extra@, r);
    } else {
        capture::law_counters_own_the_first_screen(s.rps@);
        assert(capture::passkey_rows(s.rps@)[4 + (r - 4)] == capture::rp_row(s.rps@[r - 4]));
    }
}

/// A character the panel's faces can draw.
pub open spec fn drawable(c: char) -> bool {
    ' ' <= c <= '~'
}

/// A text the panel's faces can draw.
pub open spec fn all_drawable(s: Seq<char>) -> bool {
    forall|i: int| 0 <= i < s.len() ==> drawable(#[trigger] s[i])
}

proof fn lemma_titles_drawable(sec: int)
    requires
        0 <= sec < SECTIONS,
    ensures
        all_drawable(pages::TITLES@[sec]@),
{
    reveal_strlit("OVERVIEW");
    reveal_strlit("PIV");
    reveal_strlit("OPENPGP");
    reveal_strlit("OATH");
    reveal_strlit("PASSKEYS");
    reveal_strlit("BACKUP");
    reveal_strlit("FIRMWARE");
    reveal_strlit("YUBI OTP");
    reveal_strlit("SETTINGS");
}

proof fn lemma_settings_drawable(item: Setting, idx: int)
    requires
        0 <= idx,
    ensures
        all_drawable(settings::name_of(item)),
        all_drawable(text::chars_of(settings::value_text(item, idx))),
        all_drawable(text::chars_of(settings::option_text(item, idx))),
        all_drawable("*"@),
        all_drawable(""@),
{
    reveal_strlit("MENU DELAY");
    reveal_strlit("SCREEN DIRECTION");
    reveal_strlit("*");
    row::lemma_no_text();
    pages::lemma_value_text(item, idx);
}

/// No byte of an applet's data reaches the renderer unclamped: every text of
/// every page the browse shows is drawable.
pub proof fn law_shown_text_is_drawable(b: Browser, live: LiveConf)
    requires
        b.wf(),
    ensures
        all_drawable(frame_of(b, live).title),
        forall|i: int|
            0 <= i < frame_of(b, live).rows.len() ==> all_drawable(
                (#[trigger] frame_of(b, live).rows[i]).left,
            ) && all_drawable(frame_of(b, live).rows[i].right),
{
    let f = frame_of(b, live);
    match b.mode {
        Some(Mode::Select { .. }) => {
            lemma_titles_drawable(SEC_SETTINGS as int);
            lemma_settings_drawable(
                Setting::MenuDelay,
                settings::index_in_force(Setting::MenuDelay, live),
            );
            lemma_settings_drawable(
                Setting::ScreenFlip,
                settings::index_in_force(Setting::ScreenFlip, live),
            );
        },
        Some(Mode::Edit { item, cursor }) => {
            lemma_settings_drawable(item, 0);
            assert forall|i: int| 0 <= i < f.rows.len() implies all_drawable(
                (#[trigger] f.rows[i]).left,
            ) && all_drawable(f.rows[i].right) by {
                lemma_settings_drawable(item, i);
            }
        },
        Some(Mode::Pick(p)) => {
            lemma_directory_drawable(b, p.sec as int, p.page as int, Some(p.row));
        },
        Some(Mode::Detail(d)) => {
            assert forall|i: int| 0 <= i < f.rows.len() implies all_drawable(
                (#[trigger] f.rows[i]).left,
            ) && all_drawable(f.rows[i].right) by {
                assert(d.rows@[i].wf());
                assert(f.rows[i] == row::face_of(d.rows@[i].model()));
            }
        },
        None => {
            let place = menu::place_of(b.sec_pages@, b.page as int);
            menu::lemma_place_in_range(b.sec_pages@, 0, b.page as int);
            lemma_titles_drawable(SEC_SETTINGS as int);
            lemma_settings_drawable(
                Setting::MenuDelay,
                settings::index_in_force(Setting::MenuDelay, live),
            );
            lemma_settings_drawable(
                Setting::ScreenFlip,
                settings::index_in_force(Setting::ScreenFlip, live),
            );
            if place.0 != SEC_SETTINGS {
                lemma_directory_drawable(b, place.0, place.1, None);
            }
        },
    }
}

proof fn lemma_directory_drawable(b: Browser, sec: int, page: int, at: Option<usize>)
    requires
        b.wf(),
        0 <= sec < SEC_SETTINGS,
        0 <= page,
    ensures
        ({
            let f = pages::directory_frame(&b.menu, b.sec_pages@, sec, page, at);
            &&& all_drawable(f.title)
            &&& forall|i: int|
                0 <= i < f.rows.len() ==> all_drawable((#[trigger] f.rows[i]).left)
                    && all_drawable(f.rows[i].right)
        }),
{
    let f = pages::directory_frame(&b.menu, b.sec_pages@, sec, page, at);
    let s = keys_menu::page_slice(b.menu.sec_rows@[sec] as nat, page as nat);
    lemma_titles_drawable(sec);
    assert forall|i: int| 0 <= i < f.rows.len() implies all_drawable((#[trigger] f.rows[i]).left)
        && all_drawable(f.rows[i].right) by {
        assert(b.menu.sec_off@[sec] == menu::sec_start(sec));
        let k = b.menu.sec_off@[sec] + s.0 + i;
        assert(b.menu.arena@[k].wf());
        assert(b.menu.section(sec)[s.0 + i] == b.menu.arena@[k].model());
    }
}

} // verus!
