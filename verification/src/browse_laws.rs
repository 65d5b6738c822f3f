//! What a walk through the menu does, and what its pages show on the way.
use vstd::prelude::*;
use vstd::string::*;

use crate::applets::{Account, PivSlot, Snapshot};
use crate::browse;
use crate::browse::{Browser, Effect, Mode};
use crate::capture;
use crate::detail;
use crate::detail::{Detail, DetailSrc, Pick};
use crate::gesture::Gesture;
use crate::laws;
use crate::menu;
use crate::menu::Menu;
use crate::pages;
use crate::render::keys_menu;
use crate::row;
use crate::row::{RowFace, RowModel, Tone};
use crate::settings;
use crate::settings::{LiveConf, Setting};
use crate::text;

verus! {

/// A tap on an open credential list of several pages asks for the page after
/// the one shown, and for the first page exactly from the last. A single page,
/// and a slot's policy page, have nowhere to go.
pub proof fn law_detail_tap_goes_on(
    b: Browser,
    live: LiveConf,
    b2: Browser,
    live2: LiveConf,
    e: Effect,
    d: Detail,
)
    requires
        b.wf(),
        b.mode == Some(Mode::Detail(d)),
        browse::reacts(b, live, Gesture::Tap, b2, live2, e),
    ensures
        b2 == b,
        live2 == live,
        d.src matches DetailSrc::PkRp { nth } ==> {
            &&& d.pages > 1 ==> (e matches Effect::Turn { nth: k, page } && k == nth && page
                < d.pages)
            &&& d.pages > 1 && d.page + 1 < d.pages ==> e == (Effect::Turn {
                nth,
                page: (d.page + 1) as usize,
            })
            &&& d.pages > 1 && d.page + 1 == d.pages ==> e == (Effect::Turn { nth, page: 0 })
            &&& d.pages == 1 ==> e is Nothing
        },
        !(d.src is PkRp) ==> e is Nothing,
{
    let n = d.pages as int;
    vstd::arithmetic::div_mod::lemma_mod_bound(d.page + 1, n);
    if d.page + 1 < n {
        vstd::arithmetic::div_mod::lemma_small_mod((d.page + 1) as nat, n as nat);
    } else if d.page + 1 == n {
        vstd::arithmetic::div_mod::lemma_mod_self_0(n);
    }
}

/// A credential list of `n` pages is open on page `g`.
pub open spec fn list_on(b: Browser, n: nat, g: int) -> bool {
    b.mode matches Some(Mode::Detail(d)) && d.src is PkRp && d.pages == n && d.page == g
}

/// Two browses have the same object open, opened from the same pick.
pub open spec fn same_object(a: Browser, b: Browser) -> bool {
    a.mode matches Some(Mode::Detail(d)) && b.mode matches Some(Mode::Detail(d2)) && d.src == d2.src
        && d.back == d2.back && d.title_text() == d2.title_text()
}

/// A tap on an open credential list, and the page it asked for read from `all`.
pub open spec fn tap_turns(b: Browser, live: LiveConf, all: Seq<Account>, b2: Browser) -> bool {
    exists|mid: Browser, live2: LiveConf, e: Effect| #[trigger]
        browse::reacts(b, live, Gesture::Tap, mid, live2, e) && (e matches Effect::Turn {
            page,
            ..
        } && browse::turned(mid, page, all, b2))
}

/// Step `i` of a walk is a tap and the turn it asked for.
pub open spec fn taps_on(
    walk: Seq<Browser>,
    live: LiveConf,
    all: Seq<Account>,
    i: int,
) -> bool {
    tap_turns(walk[i], live, all, walk[i + 1])
}

/// The open list shows credential `k` in its row.
pub open spec fn shows_credential(b: Browser, all: Seq<Account>, k: int) -> bool {
    b.mode matches Some(Mode::Detail(d)) && k % 4 < d.shown().len() && laws::tells_account(
        d.shown()[k % 4],
        all[k],
    )
}

proof fn lemma_tap_turns(b: Browser, live: LiveConf, all: Seq<Account>, b2: Browser, g: int)
    requires
        b.wf(),
        tap_turns(b, live, all, b2),
        list_on(b, menu::section_page_count(all.len()), g),
        0 <= g < menu::section_page_count(all.len()),
        menu::section_page_count(all.len()) > 1,
    ensures
        ({
            let n = menu::section_page_count(all.len());
            let next = if g + 1 == n {
                0
            } else {
                g + 1
            };
            &&& list_on(b2, n, next)
            &&& same_object(b, b2)
            &&& forall|k: int|
                0 <= k < all.len() && k / 4 == next ==> #[trigger] shows_credential(b2, all, k)
        }),
{
    let (mid, live2, e) = choose|mid: Browser, live2: LiveConf, e: Effect| #[trigger]
        browse::reacts(b, live, Gesture::Tap, mid, live2, e) && (e matches Effect::Turn {
            page,
            ..
        } && browse::turned(mid, page, all, b2));
    let d = b.mode->0->Detail_0;
    law_detail_tap_goes_on(b, live, mid, live2, e, d);
    let next = e->Turn_page;
    let d2 = b2.mode->0->Detail_0;
    assert forall|k: int| 0 <= k < all.len() && k / 4 == next implies #[trigger] shows_credential(
        b2,
        all,
        k,
    ) by {
        laws::law_credential_has_its_place(all, k, next as nat);
        laws::law_account_row_tells_the_credential(all[k]);
        assert(d2.shown()[k % 4] == detail::account_row(all[k]));
    }
}

/// Taps on an open credential list visit every page. From the first of `n`
/// pages, `g` taps lead to page `g`, and `n` taps lead back to the first; so
/// every credential of the list is shown on the way, in its row. The title and
/// the way back stay what they were.
pub proof fn law_taps_visit_every_page_of_the_list(
    walk: Seq<Browser>,
    live: LiveConf,
    all: Seq<Account>,
    n: nat,
)
    requires
        n == menu::section_page_count(all.len()),
        n > 1,
        walk.len() == n + 1,
        list_on(walk[0], n, 0),
        forall|i: int| 0 <= i <= n ==> (#[trigger] walk[i]).wf(),
        forall|i: int| 0 <= i < n ==> #[trigger] taps_on(walk, live, all, i),
    ensures
        forall|g: int| 0 <= g < n ==> list_on(#[trigger] walk[g], n, g),
        list_on(walk[n as int], n, 0),
        forall|g: int| 0 <= g <= n ==> same_object(walk[0], #[trigger] walk[g]),
        forall|k: int|
            4 <= k < all.len() ==> #[trigger] shows_credential(walk[k / 4], all, k),
        forall|k: int|
            0 <= k < 4 ==> #[trigger] shows_credential(walk[n as int], all, k),
{
    lemma_list_walk(walk, live, all, n, n as int);
    assert forall|k: int| 4 <= k < all.len() implies #[trigger] shows_credential(
        walk[k / 4],
        all,
        k,
    ) by {
        laws::law_credential_has_its_place(all, k, 0);
        let g = k / 4;
        lemma_list_walk(walk, live, all, n, g - 1);
        assert(walk[g - 1].wf());
        assert(taps_on(walk, live, all, g - 1));
        lemma_tap_turns(walk[g - 1], live, all, walk[g], g - 1);
    }
    assert forall|k: int| 0 <= k < 4 implies #[trigger] shows_credential(walk[n as int], all, k) by {
        menu::law_pages_hold_the_rows(all.len());
        assert(walk[n - 1].wf());
        assert(taps_on(walk, live, all, n - 1));
        lemma_tap_turns(walk[n - 1], live, all, walk[n as int], n - 1);
    }
}

proof fn lemma_list_walk(
    walk: Seq<Browser>,
    live: LiveConf,
    all: Seq<Account>,
    n: nat,
    to: int,
)
    requires
        n == menu::section_page_count(all.len()),
        n > 1,
        0 <= to <= n,
        walk.len() == n + 1,
        list_on(walk[0], n, 0),
        forall|i: int| 0 <= i <= n ==> (#[trigger] walk[i]).wf(),
        forall|i: int| 0 <= i < n ==> #[trigger] taps_on(walk, live, all, i),
    ensures
        forall|g: int| 0 <= g <= to && g < n ==> list_on(#[trigger] walk[g], n, g),
        to == n ==> list_on(walk[n as int], n, 0),
        forall|g: int| 0 <= g <= to ==> same_object(walk[0], #[trigger] walk[g]),
    decreases to,
{
    if to > 0 {
        lemma_list_walk(walk, live, all, n, to - 1);
        assert(list_on(walk[to - 1], n, to - 1));
        assert(walk[to - 1].wf());
        assert(taps_on(walk, live, all, to - 1));
        lemma_tap_turns(walk[to - 1], live, all, walk[to], to - 1);
    }
}

/// The entry delay is one of the four the menu offers: three, five, ten or
/// thirty seconds.
pub open spec fn offered(live: LiveConf) -> bool {
    live.entry_ms == 3_000 || live.entry_ms == 5_000 || live.entry_ms == 10_000 || live.entry_ms
        == 30_000
}

/// Opening an editor and confirming at once changes nothing: the editor opens
/// on the option in force. The settings are as they were, and the select mode
/// stands where it stood. (A delay that the menu does not offer is replaced,
/// and only by its own editor.)
pub proof fn law_confirming_at_once_changes_nothing(
    b: Browser,
    live: LiveConf,
    b1: Browser,
    live1: LiveConf,
    e1: Effect,
    b2: Browser,
    live2: LiveConf,
    e2: Effect,
    cursor: usize,
)
    requires
        b.wf(),
        b.mode == Some(Mode::Select { cursor }),
        browse::reacts(b, live, Gesture::Hold, b1, live1, e1),
        browse::reacts(b1, live1, Gesture::Hold, b2, live2, e2),
    ensures
        live1 == live,
        e1 is Nothing,
        b1.mode matches Some(Mode::Edit { item, .. }) && item == (if cursor == 0 {
            Setting::MenuDelay
        } else {
            Setting::ScreenFlip
        }),
        offered(live) || cursor == 1 ==> live2 == live,
        live2.flip == live.flip,
        b2 == b,
{
}

/// A text is a number and a unit.
pub open spec fn shows_number(t: Seq<char>, n: nat, unit: Seq<char>) -> bool {
    exists|d: Seq<u8>| #[trigger] text::writes(d, n) && t == text::chars_of(d) + unit
}

proof fn lemma_chars(a: Seq<u8>, b: Seq<u8>)
    ensures
        text::chars_of(a + b) == text::chars_of(a) + text::chars_of(b),
{
    assert(text::chars_of(a + b) =~= text::chars_of(a) + text::chars_of(b));
}

proof fn lemma_ascii_chars(s: &str)
    requires
        is_ascii(s),
    ensures
        text::chars_of(s.spec_bytes()) == s@,
{
    assert(text::chars_of(s.spec_bytes()) =~= s@);
}

/// What the overview and the editor say of a value.
proof fn lemma_value_texts(item: Setting, idx: int)
    requires
        0 <= idx < settings::options_of(item).len(),
    ensures
        item == Setting::MenuDelay ==> {
            &&& shows_number(
                text::chars_of(settings::value_text(item, idx)),
                settings::options_of(item)[idx] as nat,
                "S"@,
            )
            &&& shows_number(
                text::chars_of(settings::option_text(item, idx)),
                settings::options_of(item)[idx] as nat,
                " SECONDS"@,
            )
        },
        item == Setting::ScreenFlip ==> {
            &&& shows_number(
                text::chars_of(settings::value_text(item, idx)),
                settings::options_of(item)[idx] as nat,
                ""@,
            )
            &&& shows_number(
                text::chars_of(settings::option_text(item, idx)),
                settings::options_of(item)[idx] as nat,
                " DEG"@,
            )
        },
{
    let n = settings::options_of(item)[idx] as nat;
    let d = text::dec(n);
    text::law_decimal_reads_back(n);
    reveal_strlit("S");
    assert(is_ascii("S"));
    assert("S".spec_bytes() =~= seq![0x53u8]);
    reveal_strlit(" SECONDS");
    assert(is_ascii(" SECONDS"));
    reveal_strlit(" DEG");
    assert(is_ascii(" DEG"));
    row::lemma_no_text();
    lemma_ascii_chars("S");
    lemma_ascii_chars(" SECONDS");
    lemma_ascii_chars(" DEG");
    lemma_chars(d, "S".spec_bytes());
    lemma_chars(d, " SECONDS".spec_bytes());
    lemma_chars(d, " DEG".spec_bytes());
    lemma_chars(d, Seq::empty());
    assert(text::chars_of(Seq::empty()) =~= ""@);
    assert(text::writes(d, n));
}

/// The settings overview shows what is in force: the delay in seconds, thirty
/// where it is none the menu offers, and the screen's direction in degrees.
/// Outside the select mode both values are toned Good; in it the cursor's row
/// alone is, and it alone is emphasised.
#[verifier::spinoff_prover]
pub proof fn law_overview_shows_what_is_in_force(cursor: Option<usize>, live: LiveConf)
    ensures
        ({
            let f = pages::settings_frame(cursor, live);
            &&& f.title == "SETTINGS"@ && f.page == 0 && f.pages == 1
            &&& f.rows.len() == 2
            &&& f.rows[0].left == "MENU DELAY"@
            &&& offered(live) ==> shows_number(
                f.rows[0].right,
                (live.entry_ms / 1000) as nat,
                "S"@,
            )
            &&& !offered(live) ==> shows_number(f.rows[0].right, 30, "S"@)
            &&& f.rows[1].left == "SCREEN DIRECTION"@
            &&& live.flip ==> shows_number(f.rows[1].right, 180, ""@)
            &&& !live.flip ==> shows_number(f.rows[1].right, 0, ""@)
            &&& f.rows[0].emph == (cursor == Some(0usize))
            &&& f.rows[1].emph == (cursor == Some(1usize))
            &&& f.rows[0].tone == Tone::Good <==> cursor is None || f.rows[0].emph
            &&& f.rows[1].tone == Tone::Good <==> cursor is None || f.rows[1].emph
            &&& f.rows[0].tone == Tone::Good || f.rows[0].tone == Tone::Plain
            &&& f.rows[1].tone == Tone::Good || f.rows[1].tone == Tone::Plain
        }),
{
    lemma_value_texts(
        Setting::MenuDelay,
        settings::index_in_force(Setting::MenuDelay, live),
    );
    lemma_value_texts(
        Setting::ScreenFlip,
        settings::index_in_force(Setting::ScreenFlip, live),
    );
}

/// The value an editor's row stands for.
pub open spec fn option_value(item: Setting, i: int) -> nat {
    match item {
        Setting::MenuDelay => if i == 0 {
            3
        } else if i == 1 {
            5
        } else if i == 2 {
            10
        } else {
            30
        },
        Setting::ScreenFlip => if i == 0 {
            0
        } else {
            180
        },
    }
}

/// The unit an editor's rows carry.
pub open spec fn option_unit(item: Setting) -> Seq<char> {
    match item {
        Setting::MenuDelay => " SECONDS"@,
        Setting::ScreenFlip => " DEG"@,
    }
}

/// An editor lists its setting's options in order, three, five, ten and thirty
/// seconds or zero and 180 degrees; the star and the tone Good are on the
/// cursor's row alone.
#[verifier::spinoff_prover]
pub proof fn law_editor_lists_the_options(item: Setting, cursor: usize)
    ensures
        ({
            let f = pages::editor_frame(item, cursor);
            &&& item == Setting::MenuDelay ==> f.title == "MENU DELAY"@ && f.rows.len() == 4
            &&& item == Setting::ScreenFlip ==> f.title == "SCREEN DIRECTION"@ && f.rows.len() == 2
            &&& f.page == 0 && f.pages == 1
            &&& forall|i: int|
                0 <= i < f.rows.len() ==> {
                    &&& shows_number(
                        (#[trigger] f.rows[i]).left,
                        option_value(item, i),
                        option_unit(item),
                    )
                    &&& f.rows[i].right == "*"@ <==> i == cursor
                    &&& f.rows[i].right.len() == 0 <==> i != cursor
                    &&& f.rows[i].tone == Tone::Good <==> i == cursor
                    &&& f.rows[i].tone == Tone::Plain <==> i != cursor
                    &&& !f.rows[i].emph
                }
        }),
{
    let f = pages::editor_frame(item, cursor);
    reveal_strlit("*");
    row::lemma_no_text();
    assert forall|i: int| 0 <= i < f.rows.len() implies shows_number(
        (#[trigger] f.rows[i]).left,
        option_value(item, i),
        option_unit(item),
    ) by {
        lemma_value_texts(item, i);
        assert(i == 0 || i == 1 || i == 2 || i == 3);
    }
}

/// The unit the overview's value carries.
pub open spec fn value_unit(item: Setting) -> Seq<char> {
    match item {
        Setting::MenuDelay => "S"@,
        Setting::ScreenFlip => ""@,
    }
}

/// The starred row of an editor and an overview row show the same number.
pub open spec fn stars(edit: pages::FrameModel, over: RowFace, item: Setting) -> bool {
    exists|i: int, n: nat|
        0 <= i < edit.rows.len() && (#[trigger] edit.rows[i]).right == "*"@
            && #[trigger] shows_number(over.right, n, value_unit(item)) && shows_number(
            edit.rows[i].left,
            n,
            option_unit(item),
        )
}

/// The editor that a hold opens is titled like the row it was opened from, and
/// stars the value that the overview shows there.
#[verifier::spinoff_prover]
pub proof fn law_star_is_the_value_shown(
    b: Browser,
    live: LiveConf,
    b1: Browser,
    live1: LiveConf,
    e1: Effect,
    cursor: usize,
)
    requires
        b.wf(),
        b.mode == Some(Mode::Select { cursor }),
        browse::reacts(b, live, Gesture::Hold, b1, live1, e1),
    ensures
        ({
            let over = browse::frame_of(b, live).rows[cursor as int];
            let edit = browse::frame_of(b1, live1);
            &&& edit.title == over.left
            &&& cursor == 0 ==> stars(edit, over, Setting::MenuDelay)
            &&& cursor == 1 ==> stars(edit, over, Setting::ScreenFlip)
        }),
{
    let item = if cursor == 0 {
        Setting::MenuDelay
    } else {
        Setting::ScreenFlip
    };
    let i = settings::index_in_force(item, live);
    let n = settings::options_of(item)[i] as nat;
    lemma_value_texts(item, i);
    let over = browse::frame_of(b, live).rows[cursor as int];
    let edit = browse::frame_of(b1, live1);
    assert(edit.rows[i].right == "*"@);
    assert(shows_number(over.right, n, value_unit(item)));
}

/// A hold in an editor puts the starred option in force and goes back to the
/// select mode on the edited setting's row: the delay to that many seconds, or
/// the flip exactly for 180 degrees; the other setting stays.
pub proof fn law_confirmed_option_takes_effect(
    b: Browser,
    live: LiveConf,
    b2: Browser,
    live2: LiveConf,
    e: Effect,
    item: Setting,
    cursor: usize,
)
    requires
        b.wf(),
        b.mode == Some(Mode::Edit { item, cursor }),
        browse::reacts(b, live, Gesture::Hold, b2, live2, e),
    ensures
        item == Setting::MenuDelay ==> {
            &&& live2.entry_ms == 1000 * option_value(item, cursor as int)
            &&& live2.flip == live.flip
            &&& b2.mode == Some(Mode::Select { cursor: 0 })
        },
        item == Setting::ScreenFlip ==> {
            &&& live2.flip <==> option_value(item, cursor as int) == 180
            &&& live2.entry_ms == live.entry_ms
            &&& b2.mode == Some(Mode::Select { cursor: 1 })
        },
        e matches Effect::Applied { item: i, record } && i == item && record@.len() == 2
            && record@[1] == (if live2.flip {
            1
        } else {
            0u8
        }) && (offered(live2) ==> record@[0] < 4 && 1000 * option_value(
            Setting::MenuDelay,
            record@[0] as int,
        ) == live2.entry_ms),
        b2.page == b.page,
{
    assert(cursor == 0 || cursor == 1 || cursor == 2 || cursor == 3);
}

/// A tap in the select mode moves to the other setting's row; a tap in an editor
/// moves to the next option, and to the first exactly from the last. Neither
/// changes a setting.
pub proof fn law_taps_cycle_the_choices(
    b: Browser,
    live: LiveConf,
    b2: Browser,
    live2: LiveConf,
    e: Effect,
)
    requires
        b.wf(),
        browse::reacts(b, live, Gesture::Tap, b2, live2, e),
    ensures
        b.mode matches Some(Mode::Select { cursor }) ==> {
            &&& cursor == 0 ==> b2.mode == Some(Mode::Select { cursor: 1 })
            &&& cursor == 1 ==> b2.mode == Some(Mode::Select { cursor: 0 })
            &&& live2 == live && e is Nothing && b2.page == b.page
        },
        b.mode matches Some(Mode::Edit { item, cursor }) ==> {
            let last = if item == Setting::MenuDelay {
                3
            } else {
                1int
            };
            &&& cursor < last ==> b2.mode == Some(
                Mode::Edit { item, cursor: (cursor + 1) as usize },
            )
            &&& cursor == last ==> b2.mode == Some(Mode::Edit { item, cursor: 0 })
            &&& cursor <= last
            &&& live2 == live && e is Nothing && b2.page == b.page
        },
{
}

/// On the strip a tap goes to the next page, from the last to the first, and a
/// double goes the other way; neither enters a mode or changes anything else.
pub proof fn law_strip_goes_page_by_page(
    b: Browser,
    live: LiveConf,
    g: Gesture,
    b2: Browser,
    live2: LiveConf,
    e: Effect,
)
    requires
        b.wf(),
        b.mode is None,
        g != Gesture::Hold,
        browse::reacts(b, live, g, b2, live2, e),
    ensures
        live2 == live,
        e is Nothing,
        b2.mode is None,
        b2.menu == b.menu,
        g == Gesture::Tap && b.page + 1 < b.total_pages ==> b2.page == b.page + 1,
        g == Gesture::Tap && b.page + 1 == b.total_pages ==> b2.page == 0,
        g == Gesture::Double && b.page > 0 ==> b2.page == b.page - 1,
        g == Gesture::Double && b.page == 0 ==> b2.page == b.total_pages - 1,
{
}

/// The strip's page `page` is page `p` of section `sec`.
pub open spec fn lies_in(b: Browser, sec: int, p: int) -> bool {
    &&& 0 <= sec < 9
    &&& 0 <= p < b.sec_pages@[sec]
    &&& b.page == menu::pages_before(b.sec_pages@, sec) + p
}

proof fn lemma_lies_in(b: Browser, sec: int, p: int)
    requires
        b.wf(),
        lies_in(b, sec, p),
    ensures
        menu::place_of(b.sec_pages@, b.page as int) == (sec, p),
{
    menu::lemma_place_walk(b.sec_pages@, 0, sec, b.page as int);
}

/// A hold on the strip enters what the page offers: the settings' select mode
/// on its first row; on a PIV or passkeys page the pick, on the first row that
/// opens a page, where there is one; and nothing anywhere else.
pub proof fn law_hold_enters_what_the_page_offers(
    b: Browser,
    live: LiveConf,
    b2: Browser,
    live2: LiveConf,
    e: Effect,
    sec: int,
    p: int,
)
    requires
        b.wf(),
        b.mode is None,
        lies_in(b, sec, p),
        browse::reacts(b, live, Gesture::Hold, b2, live2, e),
    ensures
        live2 == live,
        e is Nothing,
        b2.page == b.page,
        b2.menu == b.menu,
        sec == 8 ==> b2.mode == Some(Mode::Select { cursor: 0 }),
        sec == 1 || sec == 4 ==> {
            let rows = b.menu.section(sec);
            &&& b2.mode is None || b2.mode->0 is Pick
            &&& b2.mode matches Some(Mode::Pick(q)) ==> {
                &&& q.sec == sec && q.page == p
                &&& q.row as int / 4 == p && q.row < rows.len() && rows[q.row as int].exp
            }
            &&& forall|k: int|
                0 <= k < rows.len() && k / 4 == p && (#[trigger] rows[k]).exp ==> (b2.mode matches Some(
                    Mode::Pick(q),
                ) && q.row <= k)
        },
        sec != 8 && sec != 1 && sec != 4 ==> b2.mode is None,
{
    lemma_lies_in(b, sec, p);
    if sec == 1 || sec == 4 {
        lemma_slice(&b.menu, b.sec_pages@, sec, p);
        let rows = b.menu.section(sec);
        assert forall|k: int| 0 <= k < rows.len() && k / 4 == p && (#[trigger] rows[k]).exp implies (
        b2.mode matches Some(Mode::Pick(q)) && q.row <= k) by {
            assert(menu::expands(&b.menu, sec, k));
        }
    }
}

/// A page of a section holds the rows whose number divided by four is the
/// page's.
proof fn lemma_slice(menu: &Menu, sec_pages: Seq<usize>, sec: int, page: int)
    requires
        menu.wf(),
        menu::are_pages_of(sec_pages, menu),
        0 <= sec < 8,
        0 <= page < sec_pages[sec],
    ensures
        menu.section(sec).len() == menu.sec_rows@[sec],
        sec_pages[sec] <= 16,
        ({
            let s = keys_menu::page_slice(menu.sec_rows@[sec] as nat, page as nat);
            &&& s.1 <= 4
            &&& s.1 > 0 ==> s.0 == 4 * page
            &&& forall|k: int|
                0 <= k < menu.sec_rows@[sec] ==> (#[trigger] (k / 4) == page <==> s.0 <= k < s.0
                    + s.1)
            &&& s.0 + s.1 <= menu.sec_rows@[sec]
        }),
{
    assert(menu.sec_off@[sec] == menu::sec_start(sec));
    assert(menu::sec_start(sec) + menu::sec_cap(sec) <= menu::ARENA_CAP);
    assert(sec_pages[sec] == menu::section_page_count(menu.sec_rows@[sec] as nat));
}

/// A tap on a pick goes down the page: to the next row below that opens a page,
/// and from the last such row up to the first. The pick stays on its page, and
/// nothing else changes.
pub proof fn law_pick_tap_goes_down_the_page(
    b: Browser,
    live: LiveConf,
    b2: Browser,
    live2: LiveConf,
    e: Effect,
    p: Pick,
)
    requires
        b.wf(),
        b.mode == Some(Mode::Pick(p)),
        browse::reacts(b, live, Gesture::Tap, b2, live2, e),
    ensures
        live2 == live,
        e is Nothing,
        b2.page == b.page,
        b2.menu == b.menu,
        b2.mode matches Some(Mode::Pick(q)) && {
            let rows = b.menu.section(p.sec as int);
            &&& q.sec == p.sec && q.page == p.page
            &&& q.row < rows.len() && rows[q.row as int].exp && q.row as int / 4 == p.page
            &&& forall|k: int|
                0 <= k < rows.len() && k / 4 == p.page && (#[trigger] rows[k]).exp && k > p.row
                    ==> p.row < q.row <= k
            &&& (forall|k: int|
                0 <= k < rows.len() && k / 4 == p.page && (#[trigger] rows[k]).exp ==> k <= p.row)
                ==> forall|k: int|
                0 <= k < rows.len() && k / 4 == p.page && (#[trigger] rows[k]).exp ==> q.row <= k
        },
{
    let rows = b.menu.section(p.sec as int);
    let q = b2.mode->0->Pick_0;
    lemma_slice(&b.menu, b.sec_pages@, p.sec as int, p.page as int);
    menu::law_pick_stays_on_the_page(
        &b.menu,
        p.sec as int,
        p.page as nat,
        p.row as int,
        q.row as int,
    );
    menu::law_pick_goes_down_the_page(
        &b.menu,
        p.sec as int,
        p.page as nat,
        p.row as int,
        q.row as int,
    );
    assert(q.row as int / 4 == p.page);
    assert forall|k: int|
        0 <= k < rows.len() && k / 4 == p.page && (#[trigger] rows[k]).exp && k
            > p.row implies p.row < q.row <= k by {
        assert(menu::expands(&b.menu, p.sec as int, k));
    }
    if forall|k: int|
        0 <= k < rows.len() && k / 4 == p.page && (#[trigger] rows[k]).exp ==> k <= p.row {
        assert forall|k: int|
            menu::on_page(&b.menu, p.sec as int, p.page as nat, k) && #[trigger] menu::expands(
                &b.menu,
                p.sec as int,
                k,
            ) implies k <= p.row by {
            assert(rows[k].exp);
            assert(k / 4 == p.page);
        }
        assert forall|k: int|
            0 <= k < rows.len() && k / 4 == p.page && (#[trigger] rows[k]).exp implies q.row <= k by {
            assert(menu::expands(&b.menu, p.sec as int, k));
        }
    }
}

/// A hold on a pick asks for the object its row lists and moves nothing: rows 0
/// to 3 of the PIV section are the primary slots, its rows from 8 on the retired
/// ones, and the passkeys' rows from 4 on the relying parties.
pub proof fn law_hold_asks_for_the_rows_object(
    b: Browser,
    live: LiveConf,
    b2: Browser,
    live2: LiveConf,
    e: Effect,
    p: Pick,
)
    requires
        b.wf(),
        b.mode == Some(Mode::Pick(p)),
        browse::reacts(b, live, Gesture::Hold, b2, live2, e),
    ensures
        b2 == b,
        live2 == live,
        p.sec == 1 && p.row < 4 ==> e == (Effect::Open { src: DetailSrc::PivPrimary { idx: p.row } }),
        p.sec == 1 && p.row >= 8 ==> e == (Effect::Open {
            src: DetailSrc::PivRetired { nth: (p.row - 8) as usize },
        }),
        p.sec == 4 && p.row >= 4 ==> e == (Effect::Open {
            src: DetailSrc::PkRp { nth: (p.row - 4) as usize },
        }),
        p.sec == 1 && 4 <= p.row < 8 ==> e is Nothing,
        p.sec == 4 && p.row < 4 ==> e is Nothing,
{
}

/// A detail page has nothing to confirm: a hold there does nothing.
pub proof fn law_detail_page_is_read_only(
    b: Browser,
    live: LiveConf,
    b2: Browser,
    live2: LiveConf,
    e: Effect,
)
    requires
        b.wf(),
        b.mode matches Some(Mode::Detail(_)),
        browse::reacts(b, live, Gesture::Hold, b2, live2, e),
    ensures
        b2 == b,
        live2 == live,
        e is Nothing,
{
}

/// The pick `p` led to the policy page of `slot`, titled like its row.
pub open spec fn shows_policy(b: Browser, p: Pick, slot: PivSlot) -> bool {
    b.mode matches Some(Mode::Detail(d)) && {
        &&& d.back == p
        &&& d.title_text() == b.menu.section(p.sec as int)[p.row as int].left
        &&& d.page == 0
        &&& d.pages == 1
        &&& laws::tells_policy(d.shown(), slot)
    }
}

/// The page a PIV pick opens tells the slot of its row, and the CERTIFICATE row
/// on it is YES exactly when that slot holds a certificate. A slot that no
/// longer holds a key opens nothing, and the pick stays.
#[verifier::spinoff_prover]
pub proof fn law_opened_page_tells_the_picked_slot(
    b: Browser,
    slots: Seq<PivSlot>,
    b2: Browser,
    p: Pick,
)
    requires
        b.wf(),
        b.mode == Some(Mode::Pick(p)),
        p.sec == 1,
        browse::opens_slot(b, slots, b2),
    ensures
        b2.menu == b.menu,
        b2.page == b.page,
        p.row < 4 ==> if p.row < slots.len() && slots[p.row as int].present {
            shows_policy(b2, p, slots[p.row as int])
        } else {
            b2.mode == b.mode
        },
        p.row >= 8 ==> if p.row - 8 < capture::present_slots(slots).len() {
            shows_policy(b2, p, capture::present_slots(slots)[p.row - 8])
        } else {
            b2.mode == b.mode
        },
        4 <= p.row < 8 ==> b2.mode == b.mode,
{
    if p.row < 4 && p.row < slots.len() {
        laws::law_policy_page_tells_the_slot(slots[p.row as int]);
    }
    if p.row >= 8 && p.row - 8 < capture::present_slots(slots).len() {
        laws::law_policy_page_tells_the_slot(capture::present_slots(slots)[p.row - 8]);
    }
}

/// Two tables that differ in the picked slot's certificate alone open pages that
/// differ in the CERTIFICATE row and in no other.
#[verifier::spinoff_prover]
pub proof fn law_certificate_shows_on_the_page(
    b: Browser,
    slots: Seq<PivSlot>,
    b2: Browser,
    b3: Browser,
    p: Pick,
)
    requires
        b.wf(),
        b.mode == Some(Mode::Pick(p)),
        p.sec == 1,
        p.row < 4,
        p.row < slots.len(),
        slots[p.row as int].present,
        browse::opens_slot(b, slots, b2),
        browse::opens_slot(
            b,
            slots.update(
                p.row as int,
                PivSlot { cert: !slots[p.row as int].cert, ..slots[p.row as int] },
            ),
            b3,
        ),
    ensures
        b2.mode matches Some(Mode::Detail(d)) && b3.mode matches Some(Mode::Detail(d3)) && {
            &&& d.shown().len() == 4 && d3.shown().len() == 4
            &&& d.shown()[3].left == d3.shown()[3].left
            &&& d.shown()[3].right != d3.shown()[3].right
            &&& d.shown().take(3) == d3.shown().take(3)
        },
{
    let slot = slots[p.row as int];
    let other = PivSlot { cert: !slot.cert, ..slot };
    laws::law_policy_page_tells_the_slot(slot);
    laws::law_policy_page_tells_the_slot(other);
    assert(slots.update(p.row as int, other)[p.row as int] == other);
}

/// The list that a passkeys pick opens shows the first credentials, titled like
/// its row, and counts as many pages as the credentials fill. A relying party
/// without one opens nothing, and the pick stays.
#[verifier::spinoff_prover]
pub proof fn law_opened_list_shows_the_first_credentials(
    b: Browser,
    all: Seq<Account>,
    b2: Browser,
    p: Pick,
)
    requires
        b.wf(),
        b.mode == Some(Mode::Pick(p)),
        p.sec == 4,
        p.row >= 4,
        browse::opens_rp(b, all, b2),
    ensures
        b2.menu == b.menu,
        b2.page == b.page,
        all.len() == 0 ==> b2.mode == b.mode,
        all.len() > 0 ==> (b2.mode matches Some(Mode::Detail(d)) && {
            &&& d.src == (DetailSrc::PkRp { nth: (p.row - 4) as usize })
            &&& d.back == p
            &&& d.title_text() == b.menu.section(4)[p.row as int].left
            &&& d.page == 0
            &&& 4 * (d.pages - 1) < all.len() <= 4 * d.pages
            &&& d.shown().len() == (if all.len() < 4 {
                all.len()
            } else {
                4
            })
            &&& forall|k: int|
                0 <= k < d.shown().len() ==> laws::tells_account(#[trigger] d.shown()[k], all[k])
        }),
{
    menu::law_pages_hold_the_rows(all.len());
    let rows = detail::accounts_on(all, 0).map_values(|a: Account| detail::account_row(a));
    assert forall|k: int| 0 <= k < rows.len() implies laws::tells_account(
        #[trigger] rows[k],
        all[k],
    ) by {
        laws::law_account_row_tells_the_credential(all[k]);
    }
}

/// A text shows bytes, one character each.
pub open spec fn same_text(t: Seq<char>, bytes: Seq<u8>) -> bool {
    &&& t.len() == bytes.len()
    &&& forall|i: int| 0 <= i < t.len() ==> #[trigger] t[i] as u8 == bytes[i]
}

/// A row shows what a stored row says, in a tone.
pub open spec fn shows_row(f: RowFace, m: RowModel, tone: Tone) -> bool {
    same_text(f.left, m.left) && same_text(f.right, m.right) && f.tone == tone
}

/// The title of a section's pages.
pub open spec fn title_word(sec: int) -> Seq<char> {
    if sec == 0 {
        "OVERVIEW"@
    } else if sec == 1 {
        "PIV"@
    } else if sec == 2 {
        "OPENPGP"@
    } else if sec == 3 {
        "OATH"@
    } else if sec == 4 {
        "PASSKEYS"@
    } else if sec == 5 {
        "BACKUP"@
    } else if sec == 6 {
        "FIRMWARE"@
    } else if sec == 7 {
        "YUBI OTP"@
    } else {
        "SETTINGS"@
    }
}

/// A directory page shows its section's rows, four to a page and in order, and
/// no other: row `k` stands on page `k / 4`, in line `k % 4`. The row under the
/// cursor, and no other, is emphasised and toned Good.
#[verifier::spinoff_prover]
pub proof fn law_directory_page_shows_its_rows(
    menu: &Menu,
    sec_pages: Seq<usize>,
    sec: int,
    page: int,
    at: Option<usize>,
)
    requires
        menu.wf(),
        menu::are_pages_of(sec_pages, menu),
        0 <= sec < 8,
        0 <= page < sec_pages[sec],
    ensures
        ({
            let f = pages::directory_frame(menu, sec_pages, sec, page, at);
            let rows = menu.section(sec);
            &&& f.title == title_word(sec)
            &&& f.page == page
            &&& f.pages == sec_pages[sec]
            &&& f.rows.len() == (if rows.len() >= 4 * page + 4 {
                4int
            } else {
                rows.len() - 4 * page
            })
            &&& forall|i: int|
                0 <= i < f.rows.len() ==> {
                    &&& shows_row(
                        #[trigger] f.rows[i],
                        rows[4 * page + i],
                        if at == Some((4 * page + i) as usize) {
                            Tone::Good
                        } else {
                            rows[4 * page + i].tone
                        },
                    )
                    &&& f.rows[i].emph == (at == Some((4 * page + i) as usize))
                }
        }),
{
    lemma_slice(menu, sec_pages, sec, page);
    assert(sec_pages[sec] == menu::section_page_count(menu.sec_rows@[sec] as nat));
}

/// On the strip each page shows the section it lies in: a directory page
/// without a cursor, or the settings overview.
pub proof fn law_strip_page_shows_its_section(b: Browser, live: LiveConf, sec: int, p: int)
    requires
        b.wf(),
        b.mode is None,
        lies_in(b, sec, p),
    ensures
        sec < 8 ==> browse::frame_of(b, live) == pages::directory_frame(
            &b.menu,
            b.sec_pages@,
            sec,
            p,
            None,
        ),
        sec == 8 ==> browse::frame_of(b, live) == pages::settings_frame(None, live),
        browse::frame_of(b, live).title == title_word(sec),
{
    lemma_lies_in(b, sec, p);
}

/// In a mode the page shown is the mode's: the settings with the cursor, the
/// edited setting's options, the picked row's own page with the cursor on it, or
/// the open object's page.
pub proof fn law_mode_shows_its_page(b: Browser, live: LiveConf)
    requires
        b.wf(),
        b.mode is Some,
    ensures
        match b.mode->0 {
            Mode::Select { cursor } => {
                &&& browse::frame_of(b, live).title == "SETTINGS"@
                &&& forall|i: int|
                    0 <= i < 2 ==> ((#[trigger] browse::frame_of(b, live).rows[i]).emph <==> i
                        == cursor)
            },
            Mode::Edit { item, cursor } => {
                &&& browse::frame_of(b, live).title == (if item == Setting::MenuDelay {
                    "MENU DELAY"@
                } else {
                    "SCREEN DIRECTION"@
                })
                &&& browse::frame_of(b, live).rows[cursor as int].right == "*"@
            },
            Mode::Pick(p) => {
                &&& browse::frame_of(b, live).title == title_word(p.sec as int)
                &&& browse::frame_of(b, live).page == p.row as int / 4
                &&& browse::frame_of(b, live).rows[p.row as int % 4].emph
                &&& shows_row(
                    browse::frame_of(b, live).rows[p.row as int % 4],
                    b.menu.section(p.sec as int)[p.row as int],
                    Tone::Good,
                )
            },
            Mode::Detail(d) => {
                &&& same_text(browse::frame_of(b, live).title, d.title_text())
                &&& browse::frame_of(b, live).rows.len() == d.shown().len()
                &&& forall|i: int|
                    0 <= i < d.shown().len() ==> shows_row(
                        #[trigger] browse::frame_of(b, live).rows[i],
                        d.shown()[i],
                        d.shown()[i].tone,
                    ) && !browse::frame_of(b, live).rows[i].emph
                &&& d.page <= 65535 ==> browse::frame_of(b, live).page == d.page
                &&& d.pages <= 65535 ==> browse::frame_of(b, live).pages == d.pages
            },
        },
{
    match b.mode->0 {
        Mode::Pick(p) => {
            lemma_slice(&b.menu, b.sec_pages@, p.sec as int, p.page as int);
            law_directory_page_shows_its_rows(
                &b.menu,
                b.sec_pages@,
                p.sec as int,
                p.page as int,
                Some(p.row),
            );
            assert(p.row as int / 4 == p.page);
        },
        _ => {},
    }
}

/// The page flashed after a confirmed choice is titled with the setting and says
/// APPLIED.
pub proof fn law_applied_page_says_so(item: Setting)
    ensures
        ({
            let f = pages::applied_frame(item);
            &&& f.title == (if item == Setting::MenuDelay {
                "MENU DELAY"@
            } else {
                "SCREEN DIRECTION"@
            })
            &&& f.rows.len() == 1
            &&& f.rows[0].left == "APPLIED"@
            &&& f.rows[0].right.len() == 0
            &&& f.rows[0].tone == Tone::Good
        }),
{
    row::lemma_no_text();
}

/// A captured menu opens on the overview, the first of its two pages, with no
/// mode entered, and its last page is the settings.
pub proof fn law_menu_opens_on_the_overview(s: Snapshot, b: Browser, live: LiveConf)
    requires
        b.wf(),
        browse::captured(b, s),
    ensures
        b.mode is None,
        browse::frame_of(b, live).title == "OVERVIEW"@,
        browse::frame_of(b, live).page == 0,
        browse::frame_of(b, live).pages == 2,
        browse::frame_of(b, live).rows.len() == 4,
        forall|sec: int|
            0 <= sec < 8 ==> #[trigger] b.menu.section(sec) == capture::section_rows(s, sec),
{
    assert(b.menu.section(0) == capture::section_rows(s, 0));
    capture::law_overview_is_two_pages(s);
    assert(b.menu.sec_off@[0] == menu::sec_start(0));
    assert(b.sec_pages@[0] == menu::section_page_count(b.menu.sec_rows@[0] as nat));
    assert(lies_in(b, 0, 0));
    law_strip_page_shows_its_section(b, live, 0, 0);
    law_directory_page_shows_its_rows(&b.menu, b.sec_pages@, 0, 0, None);
}

} // verus!
