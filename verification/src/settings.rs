//! The settings section: the live config, the option tables, and what a
//! confirmed choice changes and persists.
use vstd::prelude::*;
use vstd::string::*;

use crate::menu_conf;
use crate::menu_conf::{DEFAULT_DELAY_IDX, DELAY_OPTIONS_S};
use crate::text;
use crate::text::write_dec;

verus! {

/// The screen-direction options, in degrees.
pub const SCREEN_FLIP_OPTIONS_DEG: [u16; 2] = [0, 180];

/// The settings as they are in force: loaded at boot, updated on every
/// confirmed change. They are the authority, so a save never reads the record
/// back.
#[derive(Clone, Copy, PartialEq, Eq, Structural, Debug)]
pub struct LiveConf {
    /// How long the panel waits for a host before the menu opens.
    pub entry_ms: u32,
    /// Whether the panel is rotated by half a turn.
    pub flip: bool,
}

/// The option index a delay is listed under; the default for one that is not
/// listed.
pub open spec fn delay_idx_of(ms: int) -> int {
    if ms == DELAY_OPTIONS_S@[0] * 1000 {
        0
    } else if ms == DELAY_OPTIONS_S@[1] * 1000 {
        1
    } else if ms == DELAY_OPTIONS_S@[2] * 1000 {
        2
    } else {
        DEFAULT_DELAY_IDX as int
    }
}

/// The live config a fresh device starts with.
pub open spec fn fresh() -> LiveConf {
    LiveConf { entry_ms: 30_000, flip: false }
}

/// `live` after a record whose first `n` bytes count was loaded over it.
pub open spec fn loaded(live: LiveConf, rec: Seq<u8>, n: nat) -> LiveConf {
    LiveConf {
        entry_ms: if n >= 1 && rec[0] < 4 {
            menu_conf::delay_ms_of(rec[0] as int) as u32
        } else {
            live.entry_ms
        },
        flip: n >= 2 && rec[1] != 0,
    }
}

/// Whether the panel is drawn turned.
pub open spec fn shows_turned(live: LiveConf) -> bool {
    live.flip
}

/// The record that persists `live`.
pub open spec fn record_of(live: LiveConf) -> Seq<u8> {
    seq![
        delay_idx_of(live.entry_ms as int) as u8,
        if live.flip {
            1
        } else {
            0
        },
    ]
}

impl LiveConf {
    /// The values in force before the record is read.
    pub fn new() -> (r: Self)
        ensures
            r == fresh(),
    {
        LiveConf { entry_ms: DELAY_OPTIONS_S[DEFAULT_DELAY_IDX] as u32 * 1000, flip: false }
    }

    /// The live entry delay.
    pub fn entry_delay_ms(&self) -> (r: u64)
        ensures
            r == self.entry_ms,
    {
        self.entry_ms as u64
    }

    /// Whether the panel should be flipped.
    pub fn screen_flip(&self) -> (r: bool)
        ensures
            r == shows_turned(*self),
    {
        self.flip
    }

    /// Take over the persisted record of `n` bytes, once, at boot. A missing
    /// record or a delay index this build does not list keeps the delay; a
    /// record without the flag clears the flip.
    pub fn load_menu_conf(&mut self, rec: &[u8; 2], n: usize)
        ensures
            *final(self) == loaded(*old(self), rec@, n as nat),
    {
        if n >= 1 && (rec[0] as usize) < DELAY_OPTIONS_S.len() {
            self.entry_ms = DELAY_OPTIONS_S[rec[0] as usize] as u32 * 1000;
        }
        self.flip = n >= 2 && rec[1] != 0;
    }

    /// The stored delay option index; the default when the live value matches
    /// no option.
    pub fn current_delay_idx(&self) -> (r: usize)
        ensures
            r == delay_idx_of(self.entry_ms as int),
            r < DELAY_OPTIONS_S@.len(),
    {
        let mut i: usize = 0;
        while i < DELAY_OPTIONS_S.len()
            invariant
                i <= 4,
                forall|k: int| 0 <= k < i ==> DELAY_OPTIONS_S@[k] * 1000 != self.entry_ms,
            decreases 4 - i,
        {
            if DELAY_OPTIONS_S[i] as u32 * 1000 == self.entry_ms {
                return i;
            }
            i += 1;
        }
        DEFAULT_DELAY_IDX
    }

    /// The record to persist for the live values.
    pub fn save_menu_conf(&self) -> (r: [u8; 2])
        ensures
            r@ == record_of(*self),
    {
        let r = [
            self.current_delay_idx() as u8,
            if self.flip {
                1
            } else {
                0
            },
        ];
        assert(r@ =~= record_of(*self));
        r
    }

    /// Apply a confirmed delay option; returns the record to persist, or `None`
    /// (and changes nothing) for an index the table does not have.
    pub fn apply_entry_delay(&mut self, idx: usize) -> (r: Option<[u8; 2]>)
        ensures
            idx >= DELAY_OPTIONS_S@.len() ==> r is None && *final(self) == *old(self),
            idx < DELAY_OPTIONS_S@.len() ==> {
                &&& *final(self) == LiveConf {
                    entry_ms: menu_conf::delay_ms_of(idx as int) as u32,
                    flip: old(self).flip,
                }
                &&& r is Some
                &&& r->0@ == record_of(*final(self))
            },
    {
        if idx >= DELAY_OPTIONS_S.len() {
            return None;
        }
        self.entry_ms = DELAY_OPTIONS_S[idx] as u32 * 1000;
        Some(self.save_menu_conf())
    }

    /// Apply a confirmed screen-direction option; returns the record to
    /// persist, or `None` (and changes nothing) for an index the table does
    /// not have.
    pub fn apply_screen_flip(&mut self, idx: usize) -> (r: Option<[u8; 2]>)
        ensures
            idx >= SCREEN_FLIP_OPTIONS_DEG@.len() ==> r is None && *final(self) == *old(self),
            idx < SCREEN_FLIP_OPTIONS_DEG@.len() ==> {
                &&& *final(self) == LiveConf { entry_ms: old(self).entry_ms, flip: idx != 0 }
                &&& r is Some
                &&& r->0@ == record_of(*final(self))
            },
    {
        if idx >= SCREEN_FLIP_OPTIONS_DEG.len() {
            return None;
        }
        self.flip = idx != 0;
        Some(self.save_menu_conf())
    }
}

/// The settings the section lists, one row each on its overview page.
#[derive(Clone, Copy, PartialEq, Eq, Structural, Debug)]
pub enum Setting {
    MenuDelay,
    /// Half-turn screen flip for the reversible plug.
    ScreenFlip,
}

/// How many settings there are.
pub const SETTINGS_LEN: usize = 2;

/// The settings, in overview order.
pub const SETTINGS_LIST: [Setting; SETTINGS_LEN] = [Setting::MenuDelay, Setting::ScreenFlip];

/// The option table of a setting.
pub open spec fn options_of(item: Setting) -> Seq<u16> {
    match item {
        Setting::MenuDelay => DELAY_OPTIONS_S@,
        Setting::ScreenFlip => SCREEN_FLIP_OPTIONS_DEG@,
    }
}

/// The value of an option; an index past the table reads as the default.
pub open spec fn value_of(item: Setting, idx: int) -> u16 {
    if idx < options_of(item).len() {
        options_of(item)[idx]
    } else {
        match item {
            Setting::MenuDelay => DELAY_OPTIONS_S@[DEFAULT_DELAY_IDX as int],
            Setting::ScreenFlip => 0,
        }
    }
}

/// The option index in force.
pub open spec fn index_in_force(item: Setting, live: LiveConf) -> int {
    match item {
        Setting::MenuDelay => delay_idx_of(live.entry_ms as int),
        Setting::ScreenFlip => if live.flip {
            1
        } else {
            0
        },
    }
}

/// An option as the overview's value text ("30S", "180").
pub open spec fn value_text(item: Setting, idx: int) -> Seq<u8> {
    text::dec(value_of(item, idx) as nat) + match item {
        Setting::MenuDelay => seq![0x53u8],
        Setting::ScreenFlip => Seq::empty(),
    }
}

/// An option as an editor row's label ("5 SECONDS", "180 DEG").
pub open spec fn option_text(item: Setting, idx: int) -> Seq<u8> {
    text::dec(value_of(item, idx) as nat) + match item {
        Setting::MenuDelay => " SECONDS".spec_bytes(),
        Setting::ScreenFlip => " DEG".spec_bytes(),
    }
}

/// Every option is below a thousand.
pub proof fn lemma_value_small(item: Setting, idx: int)
    requires
        0 <= idx,
    ensures
        value_of(item, idx) <= 180,
        text::dec(value_of(item, idx) as nat).len() <= 3,
{
    if idx < options_of(item).len() {
        assert(idx == 0 || idx == 1 || idx == 2 || idx == 3);
    }
    text::lemma_dec_width(value_of(item, idx) as nat);
}

/// Copy `src` into `buf` from `at` on; returns where it ends.
fn put_at(buf: &mut [u8], at: usize, src: &[u8]) -> (r: usize)
    requires
        at + src@.len() <= old(buf)@.len(),
    ensures
        r == at + src@.len(),
        final(buf)@ == old(buf)@.take(at as int) + src@ + old(buf)@.skip(at + src@.len()),
{
    let n: usize = buf.len();
    let mut i: usize = 0;
    while i < src.len()
        invariant
            i <= src@.len(),
            n == buf@.len(),
            at + src@.len() <= n,
            buf@.len() == old(buf)@.len(),
            forall|k: int| 0 <= k < at ==> buf@[k] == old(buf)@[k],
            forall|k: int| 0 <= k < i ==> buf@[at + k] == src@[k],
            forall|k: int| at + i <= k < buf@.len() ==> buf@[k] == old(buf)@[k],
        decreases src@.len() - i,
    {
        buf[at + i] = src[i];
        i += 1;
    }
    assert(buf@ =~= old(buf)@.take(at as int) + src@ + old(buf)@.skip(at + src@.len()));
    at + i
}

/// Decimal-format `v` into `buf`, returning the used length.
pub fn fill_number(v: u16, buf: &mut [u8]) -> (r: usize)
    requires
        text::dec(v as nat).len() <= old(buf)@.len(),
    ensures
        r == text::dec(v as nat).len(),
        final(buf)@ == text::dec(v as nat) + old(buf)@.skip(r as int),
{
    let mut n: [u8; 6] = [0;6];
    proof {
        text::lemma_dec_width(v as nat);
    }
    let dec = write_dec(&mut n, v);
    let end: usize = put_at(buf, 0, dec.as_bytes());
    assert(buf@ =~= text::dec(v as nat) + old(buf)@.skip(end as int));
    end
}

impl Setting {
    pub fn name(self) -> (r: &'static str)
        ensures
            r@ == name_of(self),
    {
        match self {
            Setting::MenuDelay => "MENU DELAY",
            Setting::ScreenFlip => "SCREEN DIRECTION",
        }
    }

    /// The option table the editor cycles (per-setting units).
    pub fn options(self) -> (r: &'static [u16])
        ensures
            r@ == options_of(self),
            r@.len() >= 1,
    {
        match self {
            Setting::MenuDelay => &DELAY_OPTIONS_S,
            Setting::ScreenFlip => &SCREEN_FLIP_OPTIONS_DEG,
        }
    }

    /// The value of option `idx`, in the setting's unit.
    pub fn value_index(self, idx: usize) -> (r: u16)
        ensures
            r == value_of(self, idx as int),
    {
        match self {
            Setting::MenuDelay => if idx < DELAY_OPTIONS_S.len() {
                DELAY_OPTIONS_S[idx]
            } else {
                DELAY_OPTIONS_S[DEFAULT_DELAY_IDX]
            },
            Setting::ScreenFlip => if idx < SCREEN_FLIP_OPTIONS_DEG.len() {
                SCREEN_FLIP_OPTIONS_DEG[idx]
            } else {
                0
            },
        }
    }

    /// The option index in force; a live value that matches no option falls
    /// back to the default index.
    pub fn current_index(self, live: &LiveConf) -> (r: usize)
        ensures
            r == index_in_force(self, *live),
            r < options_of(self).len(),
    {
        match self {
            Setting::MenuDelay => live.current_delay_idx(),
            Setting::ScreenFlip => if live.flip {
                1
            } else {
                0
            },
        }
    }

    /// Write one option as the overview row's value into `buf`, returning its
    /// length.
    pub fn fill_value(self, idx: usize, buf: &mut [u8]) -> (r: usize)
        requires
            value_text(self, idx as int).len() <= old(buf)@.len(),
        ensures
            r == value_text(self, idx as int).len(),
            final(buf)@ == value_text(self, idx as int) + old(buf)@.skip(r as int),
    {
        proof {
            lemma_value_small(self, idx as int);
        }
        let mut i: usize = fill_number(self.value_index(idx), buf);
        if self == Setting::MenuDelay {
            buf[i] = 0x53;
            i += 1;
        }
        assert(buf@ =~= value_text(self, idx as int) + old(buf)@.skip(i as int));
        i
    }

    /// Write one option as an editor row label into `buf`, returning its
    /// length.
    pub fn fill_option(self, idx: usize, buf: &mut [u8]) -> (r: usize)
        requires
            option_text(self, idx as int).len() <= old(buf)@.len(),
        ensures
            r == option_text(self, idx as int).len(),
            final(buf)@ == option_text(self, idx as int) + old(buf)@.skip(r as int),
    {
        proof {
            lemma_value_small(self, idx as int);
        }
        let i: usize = fill_number(self.value_index(idx), buf);
        let suffix = match self {
            Setting::MenuDelay => " SECONDS",
            Setting::ScreenFlip => " DEG",
        };
        let end: usize = put_at(buf, i, suffix.as_bytes());
        assert(buf@ =~= option_text(self, idx as int) + old(buf)@.skip(end as int));
        end
    }

    /// The way the panel has to be turned once the setting was confirmed, where
    /// the setting turns it at all; `live` holds the confirmed value.
    pub fn panel_turn(self, live: &LiveConf) -> (r: Option<bool>)
        ensures
            r == turn_of(self, *live),
    {
        match self {
            Setting::MenuDelay => None,
            Setting::ScreenFlip => Some(live.flip),
        }
    }

    /// Update the live value to a confirmed option; returns the record to
    /// persist, or `None` for an index the table does not have.
    pub fn apply(self, live: &mut LiveConf, idx: usize) -> (r: Option<[u8; 2]>)
        ensures
            *final(live) == applied(self, *old(live), idx as int),
            idx < options_of(self).len() <==> r is Some,
            r matches Some(rec) ==> rec@ == record_of(*final(live)),
    {
        match self {
            Setting::MenuDelay => live.apply_entry_delay(idx),
            Setting::ScreenFlip => live.apply_screen_flip(idx),
        }
    }
}

/// The way the panel has to be turned after a setting was confirmed: only the
/// screen direction turns it.
pub open spec fn turn_of(item: Setting, live: LiveConf) -> Option<bool> {
    if item == Setting::ScreenFlip {
        Some(live.flip)
    } else {
        None
    }
}

/// A setting's name.
pub open spec fn name_of(item: Setting) -> Seq<char> {
    match item {
        Setting::MenuDelay => "MENU DELAY"@,
        Setting::ScreenFlip => "SCREEN DIRECTION"@,
    }
}

/// `live` after option `idx` of a setting was confirmed.
pub open spec fn applied(item: Setting, live: LiveConf, idx: int) -> LiveConf {
    if idx >= options_of(item).len() {
        live
    } else {
        match item {
            Setting::MenuDelay => LiveConf {
                entry_ms: menu_conf::delay_ms_of(idx) as u32,
                flip: live.flip,
            },
            Setting::ScreenFlip => LiveConf { entry_ms: live.entry_ms, flip: idx != 0 },
        }
    }
}

/// A setting's row on the overview.
pub open spec fn row_of(item: Setting) -> int {
    match item {
        Setting::MenuDelay => 0,
        Setting::ScreenFlip => 1,
    }
}

/// The place of `item` in the settings list (its overview row).
pub fn setting_index(item: Setting) -> (r: usize)
    ensures
        r == row_of(item),
        r < SETTINGS_LEN,
        SETTINGS_LIST@[r as int] == item,
{
    let mut i: usize = 0;
    while i < SETTINGS_LEN
        invariant
            i <= SETTINGS_LEN,
            forall|k: int| 0 <= k < i ==> SETTINGS_LIST@[k] != item,
        decreases SETTINGS_LEN - i,
    {
        if SETTINGS_LIST[i] == item {
            return i;
        }
        i += 1;
    }
    assert(SETTINGS_LIST@[0] != item && SETTINGS_LIST@[1] != item);
    0
}

/// Whether the delay in force is one the menu lists.
pub open spec fn delay_listed(live: LiveConf) -> bool {
    exists|i: int| 0 <= i < 4 && live.entry_ms == #[trigger] DELAY_OPTIONS_S@[i] * 1000
}

/// What was persisted is what the next boot loads, whatever was live before:
/// every change the editor can make survives a restart.
pub proof fn law_saved_settings_reload(live: LiveConf, other: LiveConf)
    requires
        delay_listed(live),
    ensures
        loaded(other, record_of(live), 2) == live,
{
}

/// A confirmed option is the one in force afterwards, its record reloads to
/// it, and the other setting is left alone.
pub proof fn law_applied_option_is_in_force(item: Setting, other: Setting, live: LiveConf, idx: int)
    requires
        0 <= idx < options_of(item).len(),
    ensures
        index_in_force(item, applied(item, live, idx)) == idx,
        other != item ==> index_in_force(other, applied(item, live, idx)) == index_in_force(
            other,
            live,
        ),
        delay_listed(live) ==> delay_listed(applied(item, live, idx)),
        delay_listed(live) ==> loaded(fresh(), record_of(applied(item, live, idx)), 2) == applied(
            item,
            live,
            idx,
        ),
{
    assert(idx == 0 || idx == 1 || idx == 2 || idx == 3);
    if item == Setting::MenuDelay {
        assert(applied(item, live, idx).entry_ms == DELAY_OPTIONS_S@[idx] * 1000);
    } else if delay_listed(live) {
        let i = choose|i: int| 0 <= i < 4 && live.entry_ms == #[trigger] DELAY_OPTIONS_S@[i] * 1000;
        assert(applied(item, live, idx).entry_ms == DELAY_OPTIONS_S@[i] * 1000);
    }
}

/// A confirmed screen direction turns the panel its way, at once; no other
/// setting turns it.
pub proof fn law_only_a_direction_turns_the_panel(item: Setting, live: LiveConf, idx: int)
    requires
        0 <= idx < options_of(item).len(),
    ensures
        turn_of(item, applied(item, live, idx)) == (if item == Setting::ScreenFlip {
            Some(SCREEN_FLIP_OPTIONS_DEG@[idx] == 180)
        } else {
            None
        }),
        item == Setting::ScreenFlip ==> (shows_turned(applied(item, live, idx))
            <==> SCREEN_FLIP_OPTIONS_DEG@[idx] == 180),
        item != Setting::ScreenFlip ==> shows_turned(applied(item, live, idx)) == shows_turned(live),
{
    assert(idx == 0 || idx == 1 || idx == 2 || idx == 3);
}

/// Booting from a record and decoding it agree: the delay and the flip in
/// force are those of the decoded config, so a fresh device and a stored
/// record never disagree about the default.
pub proof fn law_boot_agrees_with_decode(rec: Seq<u8>, n: nat)
    ensures
        loaded(fresh(), rec, n).entry_ms == menu_conf::delay_ms_of(
            menu_conf::decoded(rec, n).delay_idx as int,
        ),
        loaded(fresh(), rec, n).flip == menu_conf::decoded(rec, n).flip,
        delay_listed(loaded(fresh(), rec, n)),
{
    let idx = menu_conf::decoded(rec, n).delay_idx as int;
    assert(idx == 0 || idx == 1 || idx == 2 || idx == 3);
    assert(loaded(fresh(), rec, n).entry_ms == DELAY_OPTIONS_S@[idx] * 1000);
}

/// The values the options stand for: three, five, ten and thirty seconds, and
/// zero and 180 degrees; an index past the table is the thirty seconds, or the
/// unturned screen.
pub proof fn law_options_have_their_values(idx: int)
    requires
        0 <= idx,
    ensures
        value_of(Setting::MenuDelay, 0) == 3,
        value_of(Setting::MenuDelay, 1) == 5,
        value_of(Setting::MenuDelay, 2) == 10,
        idx >= 3 ==> value_of(Setting::MenuDelay, idx) == 30,
        value_of(Setting::ScreenFlip, 1) == 180,
        idx != 1 ==> value_of(Setting::ScreenFlip, idx) == 0,
        idx < 4 ==> menu_conf::delay_ms_of(idx) == 1000 * value_of(Setting::MenuDelay, idx),
{
    assert(idx == 0 || idx == 1 || idx == 2 || idx == 3 || idx >= 4);
}

/// A boot takes from a record what it has and nothing else: no record leaves the
/// delay, a listed index sets it to its option, an unlisted one leaves it; and
/// the screen is turned exactly by a record with the flag.
pub proof fn law_boot_takes_what_the_record_has(live: LiveConf, rec: Seq<u8>, n: nat)
    ensures
        n == 0 || rec[0] > 3 ==> loaded(live, rec, n).entry_ms == live.entry_ms,
        n >= 1 && rec[0] == 0 ==> loaded(live, rec, n).entry_ms == 3_000,
        n >= 1 && rec[0] == 1 ==> loaded(live, rec, n).entry_ms == 5_000,
        n >= 1 && rec[0] == 2 ==> loaded(live, rec, n).entry_ms == 10_000,
        n >= 1 && rec[0] == 3 ==> loaded(live, rec, n).entry_ms == 30_000,
        loaded(live, rec, n).flip <==> n >= 2 && rec[1] != 0,
        shows_turned(loaded(live, rec, n)) <==> n >= 2 && rec[1] != 0,
{
}

/// The settings and the decoded config write the same record.
pub proof fn law_both_write_the_same_record(live: LiveConf)
    ensures
        menu_conf::encoded(menu_conf::decoded(record_of(live), 2)) == record_of(live),
        record_of(live).len() == 2,
        record_of(live)[0] < 4,
{
    assert(menu_conf::encoded(menu_conf::decoded(record_of(live), 2)) =~= record_of(live));
}

} // verus!
