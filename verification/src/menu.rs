//! The menu's page content: a fixed row arena cut into sections, and the
//! paging, section lookup and pick walk over it.
use vstd::prelude::*;

use crate::render::keys_menu;
use crate::render::keys_menu::{keys_menu_page_slice, KEYS_MENU_ROWS_PER_PAGE};
use crate::row;
use crate::row::{RowBuf, RowModel};

verus! {

/// Rows per menu page, from the renderer (single source of truth for paging).
pub const ROWS_PER_PAGE: usize = KEYS_MENU_ROWS_PER_PAGE;

/// How many sections the browse strip has.
pub const SECTIONS: usize = 9;

/// The row arena layout: fixed per-section offsets, each section sized to its
/// worst case.
pub const ARENA_CAP: usize = 156;

pub const OV_OFF: usize = 0;

pub const PIV_OFF: usize = 7;

pub const PGP_OFF: usize = 36;

pub const OATH_OFF: usize = 44;

pub const PK_OFF: usize = 105;

pub const BACKUP_OFF: usize = 130;

pub const FW_OFF: usize = 134;

pub const OTP_OFF: usize = 137;

/// The two sections whose [`RowBuf::exp`] rows open a read-only detail page on
/// a hold (a PIV slot's policy page, a relying party's credential list).
pub const SEC_PIV: usize = 1;

pub const SEC_PASSKEYS: usize = 4;

/// The settings section: last, and without arena rows of its own.
pub const SEC_SETTINGS: usize = 8;

/// Where a section's rows start.
pub open spec fn sec_start(sec: int) -> int {
    if sec == 0 {
        OV_OFF as int
    } else if sec == 1 {
        PIV_OFF as int
    } else if sec == 2 {
        PGP_OFF as int
    } else if sec == 3 {
        OATH_OFF as int
    } else if sec == 4 {
        PK_OFF as int
    } else if sec == 5 {
        BACKUP_OFF as int
    } else if sec == 6 {
        FW_OFF as int
    } else if sec == 7 {
        OTP_OFF as int
    } else {
        ARENA_CAP as int
    }
}

/// How many rows a section has room for.
pub open spec fn sec_cap(sec: int) -> nat {
    (sec_start(sec + 1) - sec_start(sec)) as nat
}

/// The menu's page content: the row arena, each section's row count and
/// offset. Pages render from this alone.
pub struct Menu {
    pub arena: [RowBuf; ARENA_CAP],
    pub sec_rows: [usize; SECTIONS],
    pub sec_off: [usize; SECTIONS],
}

/// The arena slot of in-section row `i`, used or spare.
pub open spec fn slot_at(menu: Menu, sec: int, i: int) -> RowBuf {
    menu.arena@[sec_start(sec) + i]
}

impl Menu {
    /// Every section lies in its own stretch of the arena, and the settings
    /// fit one page.
    pub open spec fn wf(&self) -> bool {
        &&& forall|i: int| 0 <= i < ARENA_CAP ==> (#[trigger] self.arena@[i]).wf()
        &&& forall|sec: int|
            0 <= sec < SEC_SETTINGS ==> {
                &&& #[trigger] self.sec_off@[sec] == sec_start(sec)
                &&& self.sec_rows@[sec] <= sec_cap(sec)
            }
        &&& self.sec_rows@[SEC_SETTINGS as int] <= ROWS_PER_PAGE
    }

    /// What a section's rows say.
    pub open spec fn section(&self, sec: int) -> Seq<RowModel> {
        row::models(
            self.arena@.subrange(
                self.sec_off@[sec] as int,
                self.sec_off@[sec] + self.sec_rows@[sec],
            ),
        )
    }

    /// An empty menu.
    pub fn new() -> (r: Self)
        ensures
            r.wf(),
            forall|sec: int| 0 <= sec < SECTIONS ==> #[trigger] r.sec_rows@[sec] == 0,
            r.sec_off@[SEC_SETTINGS as int] == 0,
            forall|i: int|
                0 <= i < ARENA_CAP ==> (#[trigger] r.arena@[i]).model() == row::row_model(
                    Seq::empty(),
                    Seq::empty(),
                    row::Tone::Plain,
                    false,
                ),
    {
        Menu {
            arena: [RowBuf::empty();ARENA_CAP],
            sec_rows: [0;SECTIONS],
            sec_off: [
                OV_OFF,
                PIV_OFF,
                PGP_OFF,
                OATH_OFF,
                PK_OFF,
                BACKUP_OFF,
                FW_OFF,
                OTP_OFF,
                0,
            ],
        }
    }
}

/// The `(start, count)` in-section rows a menu page shows.
pub fn page_rows(menu: &Menu, sec: usize, page: usize) -> (r: (usize, usize))
    requires
        sec < SECTIONS,
    ensures
        r.0 == keys_menu::page_slice(menu.sec_rows@[sec as int] as nat, page as nat).0,
        r.1 == keys_menu::page_slice(menu.sec_rows@[sec as int] as nat, page as nat).1,
{
    keys_menu_page_slice(menu.sec_rows[sec], page)
}

/// Whether in-section row `r` opens a detail page.
pub open spec fn expands(menu: &Menu, sec: int, r: int) -> bool {
    menu.section(sec)[r].exp
}

/// The first expandable row on `page`, if the page has one (a hold elsewhere
/// has nothing to open).
pub fn first_exp_row(menu: &Menu, sec: usize, page: usize) -> (r: Option<usize>)
    requires
        menu.wf(),
        sec < SEC_SETTINGS,
    ensures
        ({
            let s = keys_menu::page_slice(menu.sec_rows@[sec as int] as nat, page as nat);
            match r {
                Some(row) => {
                    &&& s.0 <= row < s.0 + s.1
                    &&& expands(menu, sec as int, row as int)
                    &&& forall|k: int| s.0 <= k < row ==> !#[trigger] expands(menu, sec as int, k)
                },
                None => forall|k: int|
                    s.0 <= k < s.0 + s.1 ==> !#[trigger] expands(menu, sec as int, k),
            }
        }),
{
    let (start, count) = page_rows(menu, sec, page);
    let off: usize = menu.sec_off[sec];
    assert(sec_start(sec as int) + sec_cap(sec as int) <= ARENA_CAP);
    let mut r: usize = start;
    while r < start + count
        invariant
            menu.wf(),
            sec < SEC_SETTINGS,
            start <= r <= start + count,
            start == keys_menu::page_slice(menu.sec_rows@[sec as int] as nat, page as nat).0,
            count == keys_menu::page_slice(menu.sec_rows@[sec as int] as nat, page as nat).1,
            start + count <= menu.sec_rows@[sec as int] <= sec_cap(sec as int),
            off == menu.sec_off@[sec as int] == sec_start(sec as int),
            off + start + count <= ARENA_CAP,
            forall|k: int| start <= k < r ==> !#[trigger] expands(menu, sec as int, k),
        decreases start + count - r,
    {
        assert(menu.section(sec as int)[r as int] == menu.arena@[off + r].model());
        if menu.arena[off + r].exp {
            return Some(r);
        }
        r += 1;
    }
    None
}

/// The row `d` steps after `row` on a page of `count` rows from `start`,
/// wrapping within the page.
pub open spec fn stepped(start: int, count: int, row: int, d: int) -> int {
    start + (row - start + d) % count
}

/// The next expandable row after `row` on the same page, wrapping within the
/// page; a page with a single expandable row keeps the cursor put.
pub fn next_exp_row(menu: &Menu, sec: usize, page: usize, row: usize) -> (r: usize)
    requires
        menu.wf(),
        sec < SEC_SETTINGS,
        ({
            let s = keys_menu::page_slice(menu.sec_rows@[sec as int] as nat, page as nat);
            s.1 > 0 ==> s.0 <= row && row - s.0 + s.1 <= usize::MAX
        }),
    ensures
        is_next_exp(menu, sec as int, page as nat, row as int, r as int),
{
    let (start, count) = page_rows(menu, sec, page);
    let off: usize = menu.sec_off[sec];
    assert(sec_start(sec as int) + sec_cap(sec as int) <= ARENA_CAP);
    let mut d: usize = 1;
    while d <= count
        invariant
            menu.wf(),
            sec < SEC_SETTINGS,
            1 <= d <= count + 1,
            start + count <= menu.sec_rows@[sec as int] <= sec_cap(sec as int),
            start == keys_menu::page_slice(menu.sec_rows@[sec as int] as nat, page as nat).0,
            count == keys_menu::page_slice(menu.sec_rows@[sec as int] as nat, page as nat).1,
            off == menu.sec_off@[sec as int] == sec_start(sec as int),
            off + start + count <= ARENA_CAP,
            count > 0 ==> start <= row && row - start + count <= usize::MAX,
            forall|e: int|
                1 <= e < d ==> !expands(
                    menu,
                    sec as int,
                    #[trigger] stepped(start as int, count as int, row as int, e),
                ),
        decreases count + 1 - d,
    {
        let r: usize = start + (row - start + d) % count;
        assert(r == stepped(start as int, count as int, row as int, d as int));
        assert(menu.section(sec as int)[r as int] == menu.arena@[off + r].model());
        if menu.arena[off + r].exp {
            return r;
        }
        d += 1;
    }
    row
}

/// `r` is where the pick goes from `row`: the nearest expandable row after it
/// around its page, or `row` itself where the page has none.
pub open spec fn is_next_exp(menu: &Menu, sec: int, page: nat, row: int, r: int) -> bool {
    let s = keys_menu::page_slice(menu.sec_rows@[sec] as nat, page);
    let start = s.0 as int;
    let count = s.1 as int;
    ||| exists|d: int|
        1 <= d <= count && r == #[trigger] stepped(start, count, row, d) && expands(menu, sec, r)
            && forall|e: int|
            1 <= e < d ==> !expands(menu, sec, #[trigger] stepped(start, count, row, e))
    ||| r == row && forall|d: int|
        1 <= d <= count ==> !expands(menu, sec, #[trigger] stepped(start, count, row, d))
}

/// A pick that stands on an expandable row of its page moves to an expandable
/// row of that page, and stays put only when there is no other.
pub proof fn law_pick_stays_on_the_page(menu: &Menu, sec: int, page: nat, row: int, r: int)
    requires
        is_next_exp(menu, sec, page, row, r),
        ({
            let s = keys_menu::page_slice(menu.sec_rows@[sec] as nat, page);
            s.0 <= row < s.0 + s.1
        }),
        expands(menu, sec, row),
    ensures
        ({
            let s = keys_menu::page_slice(menu.sec_rows@[sec] as nat, page);
            &&& s.0 <= r < s.0 + s.1
            &&& expands(menu, sec, r)
            &&& r == row <==> forall|k: int|
                s.0 <= k < s.0 + s.1 && k != row ==> !#[trigger] expands(menu, sec, k)
        }),
{
    let s = keys_menu::page_slice(menu.sec_rows@[sec] as nat, page);
    let start = s.0 as int;
    let count = s.1 as int;
    assert(stepped(start, count, row, count) == row) by {
        lemma_turn(row - start, count);
    }
    assert forall|k: int|
        start <= k < start + count && k != row && #[trigger] expands(menu, sec, k) implies exists|
        d: int,
    | 1 <= d < count && #[trigger] stepped(start, count, row, d) == k by {
        let d = if k > row {
            k - row
        } else {
            k - row + count
        };
        if k > row {
            lemma_small(k - start, count);
        } else {
            lemma_turn(k - start, count);
        }
        assert(stepped(start, count, row, d) == k);
    }
    assert forall|d: int| 1 <= d < count implies #[trigger] stepped(start, count, row, d) != row
        && start <= stepped(start, count, row, d) < start + count by {
        if row - start + d < count {
            lemma_small(row - start + d, count);
        } else {
            lemma_turn(row - start + d - count, count);
        }
    }
}

/// Whether an in-section row is on a page.
pub open spec fn on_page(menu: &Menu, sec: int, page: nat, row: int) -> bool {
    let s = keys_menu::page_slice(menu.sec_rows@[sec] as nat, page);
    s.0 <= row < s.0 + s.1
}

/// A run of pick steps around a page: each row of it follows from the last.
pub open spec fn is_pick_walk(menu: &Menu, sec: int, page: nat, walk: Seq<int>) -> bool {
    &&& walk.len() > 0
    &&& on_page(menu, sec, page, walk[0])
    &&& expands(menu, sec, walk[0])
    &&& forall|i: int|
        0 <= i < walk.len() - 1 ==> is_next_exp(menu, sec, page, #[trigger] walk[i], walk[i + 1])
}

/// A row of the page that the pick can stand on.
#[verifier::opaque]
spec fn pickable(menu: &Menu, sec: int, page: nat, k: int) -> bool {
    on_page(menu, sec, page, k) && expands(menu, sec, k)
}

/// How far row `k` lies after `from`, going around the page.
#[verifier::opaque]
spec fn ahead(menu: &Menu, sec: int, page: nat, from: int, k: int) -> int {
    if k >= from {
        k - from
    } else {
        k - from + keys_menu::page_slice(menu.sec_rows@[sec] as nat, page).1
    }
}

/// The distance from a row tells the rows of a page apart.
proof fn lemma_ahead(menu: &Menu, sec: int, page: nat, from: int)
    requires
        pickable(menu, sec, page, from),
    ensures
        ahead(menu, sec, page, from, from) == 0,
        forall|k: int| #[trigger]
            pickable(menu, sec, page, k) ==> 0 <= ahead(menu, sec, page, from, k)
                < keys_menu::page_slice(menu.sec_rows@[sec] as nat, page).1,
        forall|k: int, l: int| #[trigger]
            pickable(menu, sec, page, k) && #[trigger] pickable(menu, sec, page, l) && ahead(
                menu,
                sec,
                page,
                from,
                k,
            ) == ahead(menu, sec, page, from, l) ==> k == l,
{
    reveal(ahead);
    reveal(pickable);
}

/// A step of `d` from row `a` lands `d` further ahead of `from`, up to a full
/// turn, which lands on `from`.
proof fn lemma_step_ahead(menu: &Menu, sec: int, page: nat, from: int, a: int, d: int)
    requires
        on_page(menu, sec, page, from),
        on_page(menu, sec, page, a),
        1 <= d,
        d <= keys_menu::page_slice(menu.sec_rows@[sec] as nat, page).1 - ahead(
            menu,
            sec,
            page,
            from,
            a,
        ),
    ensures
        ({
            let s = keys_menu::page_slice(menu.sec_rows@[sec] as nat, page);
            let b = stepped(s.0 as int, s.1 as int, a, d);
            let oa = ahead(menu, sec, page, from, a);
            &&& on_page(menu, sec, page, b)
            &&& ahead(menu, sec, page, from, b) == (if d == s.1 - oa {
                0
            } else {
                oa + d
            })
            &&& d == s.1 - oa ==> b == from
        }),
{
    reveal(ahead);
    let s = keys_menu::page_slice(menu.sec_rows@[sec] as nat, page);
    let start = s.0 as int;
    let count = s.1 as int;
    if a - start + d < count {
        lemma_small(a - start + d, count);
    } else {
        lemma_turn(a - start + d - count, count);
    }
}

/// Seen from the row `from`, a step from row `a` goes to the next pickable row
/// ahead of `a`, or, past the last one, back to `from`.
#[verifier::spinoff_prover]
proof fn lemma_pick_step(menu: &Menu, sec: int, page: nat, from: int, a: int, b: int)
    requires
        is_next_exp(menu, sec, page, a, b),
        pickable(menu, sec, page, from),
        pickable(menu, sec, page, a),
    ensures
        pickable(menu, sec, page, b),
        b != from ==> ahead(menu, sec, page, from, b) > ahead(menu, sec, page, from, a),
        forall|k: int| #[trigger]
            pickable(menu, sec, page, k) && ahead(menu, sec, page, from, k) > ahead(
                menu,
                sec,
                page,
                from,
                a,
            ) ==> b != from && ahead(menu, sec, page, from, k) >= ahead(menu, sec, page, from, b),
{
    let s = keys_menu::page_slice(menu.sec_rows@[sec] as nat, page);
    let start = s.0 as int;
    let count = s.1 as int;
    let oa = ahead(menu, sec, page, from, a);
    lemma_ahead(menu, sec, page, from);
    reveal(pickable);
    law_pick_stays_on_the_page(menu, sec, page, a, b);
    lemma_step_ahead(menu, sec, page, from, a, count - oa);
    assert(stepped(start, count, a, count) == a) by {
        lemma_turn(a - start, count);
    }
    let d = choose|d: int|
        1 <= d <= count && b == #[trigger] stepped(start, count, a, d) && expands(menu, sec, b)
            && forall|e: int|
            1 <= e < d ==> !expands(menu, sec, #[trigger] stepped(start, count, a, e));
    assert(d <= count - oa);
    lemma_step_ahead(menu, sec, page, from, a, d);
    assert forall|k: int| #[trigger]
        pickable(menu, sec, page, k) && ahead(menu, sec, page, from, k) > oa implies b != from
        && ahead(menu, sec, page, from, k) >= ahead(menu, sec, page, from, b) by {
        let e = ahead(menu, sec, page, from, k) - oa;
        lemma_step_ahead(menu, sec, page, from, a, e);
        assert(stepped(start, count, a, e) == k) by {
            reveal(ahead);
        }
    }
}

/// A walk that has not come back after `j` steps stands ever further ahead.
#[verifier::spinoff_prover]
proof fn lemma_walk_goes_ahead(menu: &Menu, sec: int, page: nat, walk: Seq<int>, j: int)
    requires
        is_pick_walk(menu, sec, page, walk),
        0 <= j < walk.len(),
        forall|i: int| 0 < i <= j ==> #[trigger] walk[i] != walk[0],
    ensures
        pickable(menu, sec, page, walk[0]),
        pickable(menu, sec, page, walk[j]),
        ahead(menu, sec, page, walk[0], walk[j]) >= j,
        forall|i: int|
            0 <= i < j ==> ahead(menu, sec, page, walk[0], #[trigger] walk[i]) < ahead(
                menu,
                sec,
                page,
                walk[0],
                walk[j],
            ),
    decreases j,
{
    assert(pickable(menu, sec, page, walk[0])) by {
        reveal(pickable);
    }
    lemma_ahead(menu, sec, page, walk[0]);
    if j > 0 {
        lemma_walk_goes_ahead(menu, sec, page, walk, j - 1);
        assert(is_next_exp(menu, sec, page, walk[j - 1], walk[j - 1 + 1]));
        lemma_pick_step(menu, sec, page, walk[0], walk[j - 1], walk[j]);
    }
}

/// Such a walk has met every pickable row up to where it stands.
#[verifier::spinoff_prover]
proof fn lemma_walk_meets(menu: &Menu, sec: int, page: nat, walk: Seq<int>, j: int, k: int)
    requires
        is_pick_walk(menu, sec, page, walk),
        0 <= j < walk.len(),
        forall|i: int| 0 < i <= j ==> #[trigger] walk[i] != walk[0],
        pickable(menu, sec, page, k),
        ahead(menu, sec, page, walk[0], k) <= ahead(menu, sec, page, walk[0], walk[j]),
    ensures
        exists|i: int| 0 <= i <= j && #[trigger] walk[i] == k,
    decreases j,
{
    lemma_walk_goes_ahead(menu, sec, page, walk, j);
    lemma_ahead(menu, sec, page, walk[0]);
    if j == 0 {
        assert(walk[0] == k);
    } else {
        lemma_walk_goes_ahead(menu, sec, page, walk, j - 1);
        if ahead(menu, sec, page, walk[0], k) > ahead(menu, sec, page, walk[0], walk[j - 1]) {
            assert(is_next_exp(menu, sec, page, walk[j - 1], walk[j - 1 + 1]));
            lemma_pick_step(menu, sec, page, walk[0], walk[j - 1], walk[j]);
            assert(walk[j] == k);
        } else {
            lemma_walk_meets(menu, sec, page, walk, j - 1, k);
            let i = choose|i: int| 0 <= i <= j - 1 && #[trigger] walk[i] == k;
            assert(walk[i] == k);
        }
    }
}

/// After how many steps a walk first comes back to where it began, looking from
/// step `j` on.
spec fn first_return(walk: Seq<int>, j: int) -> int
    decreases walk.len() - j,
{
    if j >= walk.len() || walk[j] == walk[0] {
        j
    } else {
        first_return(walk, j + 1)
    }
}

proof fn lemma_first_return(walk: Seq<int>, j: int)
    requires
        1 <= j <= walk.len(),
        forall|i: int| 0 < i < j ==> #[trigger] walk[i] != walk[0],
    ensures
        j <= first_return(walk, j) <= walk.len(),
        first_return(walk, j) < walk.len() ==> walk[first_return(walk, j)] == walk[0],
        forall|i: int| 0 < i < first_return(walk, j) ==> #[trigger] walk[i] != walk[0],
    decreases walk.len() - j,
{
    if j < walk.len() && walk[j] != walk[0] {
        lemma_first_return(walk, j + 1);
    }
}

/// Repeated from an expandable row, the pick step visits each expandable row of
/// the page once before it comes back: a walk of as many steps as the page has
/// rows comes back after some `n` of them, the rows up to there are all
/// different, and every expandable row of the page is among them.
#[verifier::spinoff_prover]
pub proof fn law_pick_visits_every_row_once(menu: &Menu, sec: int, page: nat, walk: Seq<int>)
    requires
        is_pick_walk(menu, sec, page, walk),
        walk.len() > keys_menu::page_slice(menu.sec_rows@[sec] as nat, page).1,
    ensures
        exists|n: int|
            #![trigger walk[n]]
            {
                &&& 1 <= n < walk.len()
                &&& n <= keys_menu::page_slice(menu.sec_rows@[sec] as nat, page).1
                &&& walk[n] == walk[0]
                &&& forall|i: int, j: int|
                    0 <= i < j < n ==> #[trigger] walk[i] != #[trigger] walk[j]
                &&& forall|k: int|
                    #![trigger expands(menu, sec, k)]
                    on_page(menu, sec, page, k) && expands(menu, sec, k) ==> exists|i: int|
                        0 <= i < n && #[trigger] walk[i] == k
            },
{
    let n = first_return(walk, 1);
    lemma_first_return(walk, 1);
    lemma_walk_goes_ahead(menu, sec, page, walk, n - 1);
    lemma_ahead(menu, sec, page, walk[0]);
    assert(walk[n] == walk[0]);
    assert forall|i: int, j: int| 0 <= i < j < n implies #[trigger] walk[i] != #[trigger] walk[j] by {
        lemma_walk_goes_ahead(menu, sec, page, walk, j);
    }
    assert forall|k: int|
        #![trigger expands(menu, sec, k)]
        on_page(menu, sec, page, k) && expands(menu, sec, k) implies exists|i: int|
        0 <= i < n && #[trigger] walk[i] == k by {
        assert(pickable(menu, sec, page, k)) by {
            reveal(pickable);
        }
        assert(is_next_exp(menu, sec, page, walk[n - 1], walk[n - 1 + 1]));
        lemma_pick_step(menu, sec, page, walk[0], walk[n - 1], walk[n]);
        lemma_walk_meets(menu, sec, page, walk, n - 1, k);
        let i = choose|i: int| 0 <= i <= n - 1 && #[trigger] walk[i] == k;
        assert(walk[i] == k);
    }
}

/// The pick goes down its page: to the next expandable row below, and from the
/// last one up to the first.
#[verifier::spinoff_prover]
pub proof fn law_pick_goes_down_the_page(menu: &Menu, sec: int, page: nat, row: int, r: int)
    requires
        is_next_exp(menu, sec, page, row, r),
        on_page(menu, sec, page, row),
        expands(menu, sec, row),
    ensures
        forall|k: int|
            on_page(menu, sec, page, k) && #[trigger] expands(menu, sec, k) && k > row ==> row < r
                <= k,
        (forall|k: int|
            on_page(menu, sec, page, k) && #[trigger] expands(menu, sec, k) ==> k <= row) ==> forall|
            k: int,
        |
            on_page(menu, sec, page, k) && #[trigger] expands(menu, sec, k) ==> r <= k,
{
    reveal(pickable);
    reveal(ahead);
    lemma_pick_step(menu, sec, page, row, row, r);
    assert forall|k: int|
        on_page(menu, sec, page, k) && #[trigger] expands(menu, sec, k) && k > row implies row < r
        <= k by {
        assert(pickable(menu, sec, page, k));
    }
    if forall|k: int|
        on_page(menu, sec, page, k) && #[trigger] expands(menu, sec, k) ==> k <= row {
        assert(expands(menu, sec, r));
        assert forall|k: int|
            on_page(menu, sec, page, k) && #[trigger] expands(menu, sec, k) implies r <= k by {
            assert(pickable(menu, sec, page, k));
        }
    }
}

proof fn lemma_small(x: int, n: int)
    requires
        0 <= x < n,
    ensures
        x % n == x,
{
    vstd::arithmetic::div_mod::lemma_small_mod(x as nat, n as nat);
}

proof fn lemma_turn(x: int, n: int)
    requires
        0 <= x < n,
    ensures
        (x + n) % n == x,
{
    vstd::arithmetic::div_mod::lemma_mod_add_multiples_vanish(x, n);
    lemma_small(x, n);
}

/// How many pages a section fills: an empty one still has its title page.
pub open spec fn section_page_count(rows: nat) -> nat {
    if rows == 0 {
        1
    } else {
        keys_menu::pages_of(rows)
    }
}

/// A section has as many pages as its rows fill, and one where it has none: no
/// row is left without a page, and no page but a lone one is blank.
pub proof fn law_pages_hold_the_rows(rows: nat)
    ensures
        section_page_count(rows) >= 1,
        rows <= 4 * section_page_count(rows),
        section_page_count(rows) > 1 ==> rows > 4 * (section_page_count(rows) - 1),
{
}

/// Pages before section `sec` on the strip.
pub open spec fn pages_before(sec_pages: Seq<usize>, sec: int) -> int
    decreases sec,
{
    if sec <= 0 {
        0
    } else {
        pages_before(sec_pages, sec - 1) + sec_pages[sec - 1]
    }
}

/// The page counts of a menu's sections.
pub open spec fn are_pages_of(sec_pages: Seq<usize>, menu: &Menu) -> bool {
    &&& sec_pages.len() == SECTIONS
    &&& forall|sec: int|
        0 <= sec < SECTIONS ==> #[trigger] sec_pages[sec] == section_page_count(
            menu.sec_rows@[sec] as nat,
        )
}

/// Pages per section, and the total for wrap-around navigation.
pub fn count_pages(menu: &Menu) -> (r: ([usize; SECTIONS], usize))
    requires
        menu.wf(),
    ensures
        are_pages_of(r.0@, menu),
        r.1 == pages_before(r.0@, SECTIONS as int),
        SECTIONS <= r.1 <= SECTIONS * 16,
{
    let mut sec_pages: [usize; SECTIONS] = [0;SECTIONS];
    let mut total: usize = 0;
    let mut i: usize = 0;
    while i < SECTIONS
        invariant
            i <= SECTIONS,
            menu.wf(),
            forall|sec: int|
                0 <= sec < i ==> #[trigger] sec_pages@[sec] == section_page_count(
                    menu.sec_rows@[sec] as nat,
                ),
            total == pages_before(sec_pages@, i as int),
            i <= total <= i * 16,
        decreases SECTIONS - i,
    {
        assert(menu.sec_rows@[i as int] <= 61) by {
            if i < SEC_SETTINGS {
                assert(menu.sec_off@[i as int] == sec_start(i as int));
            }
        }
        let rows: usize = menu.sec_rows[i];
        let n: usize = if rows == 0 {
            1
        } else {
            (rows - 1) / ROWS_PER_PAGE + 1
        };
        let ghost before = sec_pages@;
        sec_pages[i] = n;
        proof {
            lemma_pages_before_agree(before, sec_pages@, i as int);
        }
        total += n;
        i += 1;
    }
    (sec_pages, total)
}

proof fn lemma_pages_before_agree(a: Seq<usize>, b: Seq<usize>, n: int)
    requires
        forall|i: int| 0 <= i < n ==> a[i] == b[i],
    ensures
        pages_before(a, n) == pages_before(b, n),
    decreases n,
{
    if n > 0 {
        lemma_pages_before_agree(a, b, n - 1);
    }
}

/// Where a strip page lies, looking from section `sec` on: the first section
/// that ends past it, or the last one.
pub open spec fn place_from(sec_pages: Seq<usize>, sec: int, linear: int) -> (int, int)
    decreases SECTIONS - sec,
{
    if sec >= SEC_SETTINGS || linear < sec_pages[sec] {
        (sec, linear)
    } else {
        place_from(sec_pages, sec + 1, linear - sec_pages[sec])
    }
}

/// The section of a strip page, and the page in that section.
pub open spec fn place_of(sec_pages: Seq<usize>, page: int) -> (int, int) {
    place_from(sec_pages, 0, page)
}

/// Resolve a strip page into its section and the page in that section: the
/// first section that ends past it (the last one for a page past the end).
pub fn locate(sec_pages: &[usize; SECTIONS], page: usize) -> (r: (usize, usize))
    ensures
        (r.0 as int, r.1 as int) == place_of(sec_pages@, page as int),
        r.0 < SECTIONS,
        pages_before(sec_pages@, r.0 as int) + r.1 == page,
        r.0 < SEC_SETTINGS ==> r.1 < sec_pages@[r.0 as int],
{
    let mut linear: usize = page;
    let mut sec: usize = 0;
    while sec + 1 < SECTIONS && linear >= sec_pages[sec]
        invariant
            sec < SECTIONS,
            pages_before(sec_pages@, sec as int) + linear == page,
            place_from(sec_pages@, sec as int, linear as int) == place_of(sec_pages@, page as int),
        ensures
            sec < SECTIONS,
            (sec as int, linear as int) == place_of(sec_pages@, page as int),
            pages_before(sec_pages@, sec as int) + linear == page,
            sec < SEC_SETTINGS ==> linear < sec_pages@[sec as int],
        decreases SECTIONS - sec,
    {
        linear -= sec_pages[sec];
        sec += 1;
    }
    (sec, linear)
}

/// Every strip page lies in some section.
pub proof fn lemma_place_in_range(sec_pages: Seq<usize>, sec: int, linear: int)
    requires
        0 <= sec <= SEC_SETTINGS,
        0 <= linear,
    ensures
        sec <= place_from(sec_pages, sec, linear).0 <= SEC_SETTINGS,
        0 <= place_from(sec_pages, sec, linear).1,
    decreases SECTIONS - sec,
{
    if sec < SEC_SETTINGS && linear >= sec_pages[sec] {
        lemma_place_in_range(sec_pages, sec + 1, linear - sec_pages[sec]);
    }
}

proof fn lemma_pages_before_grows(sec_pages: Seq<usize>, a: int, b: int)
    requires
        0 <= a <= b <= sec_pages.len(),
    ensures
        pages_before(sec_pages, a) <= pages_before(sec_pages, b),
    decreases b - a,
{
    if a < b {
        lemma_pages_before_grows(sec_pages, a, b - 1);
    }
}

/// A strip page belongs to one section only: two answers for the same page
/// that both stay within their section are the same answer.
pub proof fn law_page_has_one_place(
    sec_pages: Seq<usize>,
    page: int,
    a: (int, int),
    b: (int, int),
)
    requires
        sec_pages.len() == SECTIONS,
        0 <= a.0 < SECTIONS,
        0 <= a.1 < sec_pages[a.0],
        pages_before(sec_pages, a.0) + a.1 == page,
        0 <= b.0 < SECTIONS,
        0 <= b.1 < sec_pages[b.0],
        pages_before(sec_pages, b.0) + b.1 == page,
    ensures
        a == b,
{
    if a.0 < b.0 {
        lemma_pages_before_grows(sec_pages, a.0 + 1, b.0);
    } else if b.0 < a.0 {
        lemma_pages_before_grows(sec_pages, b.0 + 1, a.0);
    }
}

/// Looking for a page past the sections before `to`, `place_from` walks there.
pub proof fn lemma_place_walk(sec_pages: Seq<usize>, sec: int, to: int, linear: int)
    requires
        sec_pages.len() == SECTIONS,
        0 <= sec <= to <= SEC_SETTINGS,
        linear >= pages_before(sec_pages, to) - pages_before(sec_pages, sec),
    ensures
        place_from(sec_pages, sec, linear) == place_from(
            sec_pages,
            to,
            linear - (pages_before(sec_pages, to) - pages_before(sec_pages, sec)),
        ),
    decreases to - sec,
{
    if sec < to {
        lemma_pages_before_grows(sec_pages, sec + 1, to);
        lemma_place_walk(sec_pages, sec + 1, to, linear - sec_pages[sec]);
    }
}

/// The strip's last page lies in the settings.
pub proof fn lemma_settings_place(menu: &Menu, sec_pages: Seq<usize>)
    requires
        menu.wf(),
        are_pages_of(sec_pages, menu),
    ensures
        place_of(sec_pages, pages_before(sec_pages, SECTIONS as int) - 1) == (
            SEC_SETTINGS as int,
            0int,
        ),
{
    law_last_page_is_settings(menu, sec_pages);
    lemma_place_walk(
        sec_pages,
        0,
        SEC_SETTINGS as int,
        pages_before(sec_pages, SECTIONS as int) - 1,
    );
}

/// The strip ends in the settings: its last page is the settings section's.
pub proof fn law_last_page_is_settings(menu: &Menu, sec_pages: Seq<usize>)
    requires
        menu.wf(),
        are_pages_of(sec_pages, menu),
    ensures
        sec_pages[SEC_SETTINGS as int] == 1,
        pages_before(sec_pages, SEC_SETTINGS as int) == pages_before(sec_pages, SECTIONS as int) - 1,
{
}

} // verus!
