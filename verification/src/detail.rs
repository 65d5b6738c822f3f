//! Detail pages: an object's read-only page group, read on demand and never
//! stored in the arena.
use vstd::prelude::*;
use vstd::string::*;

use crate::applets::{Account, PivSlot, Rp};
use crate::capture;
use crate::menu;
use crate::menu::{Menu, ROWS_PER_PAGE, SEC_PASSKEYS, SEC_PIV};
use crate::row;
use crate::row::{RowBuf, RowModel, Tone, ROW_LEFT_MAX};
use crate::text;
use crate::text::{ascii_name, put_ascii};

verus! {

/// The PIV directory's shape: the four primary slots, then the summary rows,
/// then the expandable retired and attestation rows.
pub const PIV_PRIMARY_ROWS: usize = 4;

pub const PIV_SUMMARY_ROWS: usize = 4;

pub const PIV_RETIRED_ROW0: usize = PIV_PRIMARY_ROWS + PIV_SUMMARY_ROWS;

/// The first relying party's row: the counters own the first screen.
pub const PK_RP_ROW0: usize = ROWS_PER_PAGE;

/// A strip position inside a section's directory page, plus the in-section row
/// of the picked object.
#[derive(Clone, Copy, PartialEq, Eq, Structural, Debug)]
pub struct Pick {
    pub sec: usize,
    /// Page in the section.
    pub page: usize,
    /// In-section row.
    pub row: usize,
}

/// Which object a detail page shows. Kept so that a page turn can re-read it.
#[derive(Clone, Copy, PartialEq, Eq, Structural, Debug)]
pub enum DetailSrc {
    /// Primary slot 0 to 3, in the 9A/9C/9D/9E order.
    PivPrimary { idx: usize },
    /// The `nth` retired or attestation slot that holds a key.
    PivRetired { nth: usize },
    /// The `nth` relying party.
    PkRp { nth: usize },
}

/// The object behind a directory row, if there is one.
pub open spec fn source_of(sec: int, row: int) -> Option<DetailSrc> {
    if sec == SEC_PIV && row < PIV_PRIMARY_ROWS {
        Some(DetailSrc::PivPrimary { idx: row as usize })
    } else if sec == SEC_PIV && row >= PIV_RETIRED_ROW0 {
        Some(DetailSrc::PivRetired { nth: (row - PIV_RETIRED_ROW0) as usize })
    } else if sec == SEC_PASSKEYS && row >= PK_RP_ROW0 {
        Some(DetailSrc::PkRp { nth: (row - PK_RP_ROW0) as usize })
    } else {
        None
    }
}

/// The object behind a pick.
pub fn detail_source(back: Pick) -> (r: Option<DetailSrc>)
    ensures
        r == source_of(back.sec as int, back.row as int),
{
    if back.sec == SEC_PIV && back.row < PIV_PRIMARY_ROWS {
        Some(DetailSrc::PivPrimary { idx: back.row })
    } else if back.sec == SEC_PIV && back.row >= PIV_RETIRED_ROW0 {
        Some(DetailSrc::PivRetired { nth: back.row - PIV_RETIRED_ROW0 })
    } else if back.sec == SEC_PASSKEYS && back.row >= PK_RP_ROW0 {
        Some(DetailSrc::PkRp { nth: back.row - PK_RP_ROW0 })
    } else {
        None
    }
}

/// A policy page's row: a label and an applet's name for the policy.
pub open spec fn policy_row(label: &str, name: &str) -> RowModel {
    row::row_model(
        label.spec_bytes(),
        vstd::utf8::encode_utf8(text::calm_name(name@)),
        Tone::Plain,
        false,
    )
}

/// The four policy rows of a PIV slot's detail page.
pub open spec fn policy_rows(slot: PivSlot) -> Seq<RowModel> {
    seq![
        policy_row("PIN POLICY", slot.pin_policy),
        policy_row("TOUCH POLICY", slot.touch_policy),
        policy_row("ORIGIN", slot.origin),
        capture::yes_row("CERTIFICATE", slot.cert, Tone::Plain),
    ]
}

/// Whether every row of a page buffer is well-formed.
pub open spec fn all_wf(rows: Seq<RowBuf>) -> bool {
    forall|i: int| 0 <= i < rows.len() ==> (#[trigger] rows[i]).wf()
}

/// The four policy rows shared by every PIV slot detail page; the label and
/// algorithm already sit on the directory row.
pub fn piv_policy_rows(rows: &mut [RowBuf; ROWS_PER_PAGE], slot: &PivSlot) -> (r: usize)
    ensures
        r == ROWS_PER_PAGE,
        all_wf(final(rows)@),
        row::models(final(rows)@) == policy_rows(*slot),
{
    rows[0].set("PIN POLICY".as_bytes(), ascii_name(slot.pin_policy), Tone::Plain, false);
    rows[1].set("TOUCH POLICY".as_bytes(), ascii_name(slot.touch_policy), Tone::Plain, false);
    rows[2].set("ORIGIN".as_bytes(), ascii_name(slot.origin), Tone::Plain, false);
    rows[3].set(
        "CERTIFICATE".as_bytes(),
        if slot.cert {
            "YES"
        } else {
            "NO"
        },
        Tone::Plain,
        false,
    );
    assert(row::models(rows@) =~= policy_rows(*slot));
    ROWS_PER_PAGE
}

/// The slot a source names among the slots its table reports: a primary slot
/// that holds a key, or the `nth` retired one that does.
pub open spec fn picked_slot<'a>(src: DetailSrc, slots: Seq<PivSlot<'a>>) -> Option<PivSlot<'a>> {
    match src {
        DetailSrc::PivPrimary { idx } => if idx < slots.len() && slots[idx as int].present {
            Some(slots[idx as int])
        } else {
            None
        },
        DetailSrc::PivRetired { nth } => if nth < capture::present_slots(slots).len() {
            Some(capture::present_slots(slots)[nth as int])
        } else {
            None
        },
        DetailSrc::PkRp { .. } => None,
    }
}

/// Fill `rows` with a PIV slot's policy page, from the table the source is
/// about (the primary slots, or the retired ones). Returns the rows written:
/// none when the slot is no longer there.
pub fn piv_detail_load(
    src: DetailSrc,
    slots: &[PivSlot],
    rows: &mut [RowBuf; ROWS_PER_PAGE],
) -> (r: usize)
    requires
        all_wf(old(rows)@),
    ensures
        all_wf(final(rows)@),
        match picked_slot(src, slots@) {
            Some(slot) => r == ROWS_PER_PAGE && row::models(final(rows)@) == policy_rows(slot),
            None => r == 0 && final(rows)@ == old(rows)@,
        },
{
    match src {
        DetailSrc::PivPrimary { idx } => {
            if idx < slots.len() && slots[idx].present {
                piv_policy_rows(rows, &slots[idx])
            } else {
                0
            }
        },
        DetailSrc::PivRetired { nth } => {
            // Count the slots that hold a key exactly as the directory lists
            // them: a slot with a certificate alone has no row.
            let mut seen: usize = 0;
            let mut i: usize = 0;
            proof {
                capture::lemma_filter_none(slots@, |s: PivSlot| s.present);
            }
            while i < slots.len()
                invariant
                    i <= slots@.len(),
                    seen <= i,
                    seen <= nth,
                    seen == capture::present_slots(slots@.take(i as int)).len(),
                    all_wf(rows@),
                    rows@ == old(rows)@,
                    src == (DetailSrc::PivRetired { nth }),
                decreases slots@.len() - i,
            {
                proof {
                    capture::lemma_filter_step(slots@, i as int, |s: PivSlot| s.present);
                }
                if slots[i].present {
                    if seen == nth {
                        proof {
                            lemma_filter_prefix(slots@, i + 1);
                            assert(capture::present_slots(slots@.take(i + 1))[nth as int]
                                == slots@[i as int]);
                        }
                        return piv_policy_rows(rows, &slots[i]);
                    }
                    seen += 1;
                }
                i += 1;
            }
            assert(slots@.take(i as int) =~= slots@);
            0
        },
        DetailSrc::PkRp { .. } => 0,
    }
}

/// What a filter keeps of a prefix is a prefix of what it keeps.
proof fn lemma_filter_prefix(slots: Seq<PivSlot>, k: int)
    requires
        0 <= k <= slots.len(),
    ensures
        capture::present_slots(slots.take(k)).len() <= capture::present_slots(slots).len(),
        forall|i: int|
            0 <= i < capture::present_slots(slots.take(k)).len()
                ==> #[trigger] capture::present_slots(slots.take(k))[i] == capture::present_slots(
                slots,
            )[i],
    decreases slots.len() - k,
{
    if k < slots.len() {
        capture::lemma_filter_step(slots, k, |s: PivSlot| s.present);
        lemma_filter_prefix(slots, k + 1);
        assert forall|i: int|
            0 <= i < capture::present_slots(
                slots.take(k),
            ).len() implies #[trigger] capture::present_slots(slots.take(k))[i]
            == capture::present_slots(slots)[i] by {
            assert(capture::present_slots(slots.take(k + 1))[i] == capture::present_slots(
                slots.take(k),
            )[i]);
        }
    } else {
        assert(slots.take(k) =~= slots);
    }
}

/// The rpId hash of the `nth` relying party, where there are so many.
pub open spec fn hash_of(rps: Seq<Rp>, nth: int) -> Option<[u8; 32]> {
    if nth < rps.len() {
        Some(rps[nth].rp_id_hash)
    } else {
        None
    }
}

/// The relying parties are numbered as they are listed: one that is added at the
/// end gets the next number and renumbers no other, and past the end there is
/// none.
pub proof fn law_relying_parties_are_numbered_in_order(rps: Seq<Rp>, rp: Rp, nth: int)
    requires
        0 <= nth,
    ensures
        hash_of(rps.push(rp), rps.len() as int) == Some(rp.rp_id_hash),
        nth < rps.len() ==> hash_of(rps.push(rp), nth) == hash_of(rps, nth),
        hash_of(rps, nth) is Some <==> nth < rps.len(),
{
}

/// The rpId hash of the `nth` relying party; it is looked up on every load and
/// never stored.
pub fn find_rp(rps: &[Rp], nth: usize) -> (r: Option<[u8; 32]>)
    ensures
        r == hash_of(rps@, nth as int),
{
    if nth < rps.len() {
        Some(rps[nth].rp_id_hash)
    } else {
        None
    }
}

/// A credential's row: the user name, else the display name, else a literal;
/// `UV` marks a credential that demands user verification.
pub open spec fn account_row(a: Account) -> RowModel {
    row::row_model(
        if a.user_name@.len() != 0 {
            a.user_name.spec_bytes()
        } else if a.user_display_name@.len() != 0 {
            a.user_display_name.spec_bytes()
        } else {
            "(no name)".spec_bytes()
        },
        if a.cred_protect >= 2 {
            "UV".spec_bytes()
        } else {
            Seq::empty()
        },
        Tone::Plain,
        false,
    )
}

/// The credentials on one page of a relying party's list.
pub open spec fn accounts_on<'a>(all: Seq<Account<'a>>, page: nat) -> Seq<Account<'a>> {
    if 4 * page >= all.len() {
        Seq::empty()
    } else if all.len() - 4 * page <= 4 {
        all.skip(4 * page as int)
    } else {
        all.subrange(4 * page as int, 4 * page as int + 4)
    }
}

/// Load one page of a relying party's credentials (`None` where the relying
/// party is gone). Returns the rows written and the pages there are.
pub fn pk_detail_load(
    found: Option<&[Account]>,
    page: usize,
    rows: &mut [RowBuf; ROWS_PER_PAGE],
) -> (r: (usize, usize))
    requires
        all_wf(old(rows)@),
        4 * page <= usize::MAX,
    ensures
        all_wf(final(rows)@),
        4 * (r.1 - 1) <= usize::MAX,
        match found {
            Some(all) => {
                &&& r.0 == accounts_on(all@, page as nat).len()
                &&& r.1 == menu::section_page_count(all@.len())
                &&& row::models(final(rows)@.take(r.0 as int)) == accounts_on(
                    all@,
                    page as nat,
                ).map_values(|a: Account| account_row(a))
                &&& final(rows)@.skip(r.0 as int) == old(rows)@.skip(r.0 as int)
            },
            None => r == (0usize, 1usize) && final(rows)@ == old(rows)@,
        },
{
    let all = match found {
        Some(all) => all,
        None => {
            return (0, 1);
        },
    };
    let total: usize = all.len();
    assert(page * ROWS_PER_PAGE == 4 * page) by (nonlinear_arith)
        requires
            ROWS_PER_PAGE == 4,
    ;
    let skip: usize = page * ROWS_PER_PAGE;
    let mut n: usize = 0;
    let ghost on = accounts_on(all@, page as nat);
    proof {
        row::lemma_no_text();
    }
    while n < ROWS_PER_PAGE && skip < total && n < total - skip
        invariant
            n <= ROWS_PER_PAGE,
            total == all@.len(),
            skip == 4 * page,
            "".spec_bytes() == Seq::<u8>::empty(),
            skip < total ==> n <= total - skip,
            skip >= total ==> n == 0,
            on == accounts_on(all@, page as nat),
            all_wf(rows@),
            forall|k: int| 0 <= k < n ==> (#[trigger] rows@[k]).model() == account_row(on[k]),
            forall|k: int| n <= k < ROWS_PER_PAGE ==> rows@[k] == old(rows)@[k],
        decreases ROWS_PER_PAGE - n,
    {
        let a = &all[skip + n];
        assert(on[n as int] == *a);
        let label = if !a.user_name.is_empty() {
            a.user_name
        } else if !a.user_display_name.is_empty() {
            a.user_display_name
        } else {
            "(no name)"
        };
        let uv = if a.cred_protect >= 2 {
            "UV"
        } else {
            ""
        };
        rows[n].set(label.as_bytes(), uv, Tone::Plain, false);
        n += 1;
    }
    assert(row::models(rows@.take(n as int)) =~= on.map_values(|a: Account| account_row(a)));
    assert(rows@.skip(n as int) =~= old(rows)@.skip(n as int));
    (n, if total == 0 {
        1
    } else {
        (total - 1) / ROWS_PER_PAGE + 1
    })
}

/// One open detail page group: the object's title (copied from its arena row)
/// and the current page's rows, loaded on open and on every page turn.
#[derive(Clone, Copy, Debug)]
pub struct Detail {
    pub src: DetailSrc,
    /// Where a double returns to (the pick the page was opened from).
    pub back: Pick,
    pub title: [u8; ROW_LEFT_MAX],
    pub tl: u8,
    pub page: usize,
    pub pages: usize,
    pub rows: [RowBuf; ROWS_PER_PAGE],
    pub n_rows: usize,
}

impl Detail {
    pub open spec fn wf(&self) -> bool {
        &&& self.tl <= ROW_LEFT_MAX
        &&& text::all_printable(self.title_text())
        &&& all_wf(self.rows@)
        &&& self.n_rows <= ROWS_PER_PAGE
        &&& self.pages >= 1
        &&& 4 * (self.pages - 1) <= usize::MAX
        &&& self.page < usize::MAX
        &&& source_of(self.back.sec as int, self.back.row as int) == Some(self.src)
    }

    /// The title's bytes.
    pub open spec fn title_text(&self) -> Seq<u8> {
        self.title@.take(self.tl as int)
    }

    /// What the shown rows say.
    pub open spec fn shown(&self) -> Seq<RowModel> {
        row::models(self.rows@.take(self.n_rows as int))
    }
}

/// Open the detail page of the object behind `back`, from its first page's
/// rows. `None` when there are none: the object vanished after the capture,
/// and the pick then simply stays.
pub fn detail_open(
    menu: &Menu,
    back: Pick,
    src: DetailSrc,
    rows: [RowBuf; ROWS_PER_PAGE],
    n_rows: usize,
    pages: usize,
) -> (r: Option<Detail>)
    requires
        menu.wf(),
        back.sec < menu::SEC_SETTINGS,
        back.row < menu.sec_rows@[back.sec as int],
        source_of(back.sec as int, back.row as int) == Some(src),
        all_wf(rows@),
        n_rows <= ROWS_PER_PAGE,
        pages >= 1,
        4 * (pages - 1) <= usize::MAX,
    ensures
        n_rows == 0 <==> r is None,
        r matches Some(d) ==> {
            &&& d.wf()
            &&& d.src == src
            &&& d.back == back
            &&& d.title_text() == menu.section(back.sec as int)[back.row as int].left
            &&& d.page == 0
            &&& d.pages == pages
            &&& d.rows == rows
            &&& d.n_rows == n_rows
        },
{
    if n_rows == 0 {
        return None;
    }
    assert(menu.sec_off@[back.sec as int] == menu::sec_start(back.sec as int));
    let at: usize = menu.sec_off[back.sec] + back.row;
    let row = &menu.arena[at];
    assert(menu.section(back.sec as int)[back.row as int] == row.model());
    let used: usize = row.ll as usize;
    let mut title: [u8; ROW_LEFT_MAX] = [0;ROW_LEFT_MAX];
    let mut tl: u8 = 0;
    assert(row.left@.subrange(0, used as int) =~= row.left@.take(used as int));
    put_ascii(&mut title, &mut tl, &row.left[0..used]);
    assert(title@.take(tl as int) =~= row.model().left);
    Some(Detail { src, back, title, tl, page: 0, pages, rows, n_rows })
}

} // verus!
