//! The menu's persisted config: the entry delay the settings page last
//! confirmed, and whether the panel is drawn rotated for a reversible plug.
//!
//! It is a record of its own ([`EF_MENU_CONF`]) in the display-config area
//! (`0xE0xx`), so a factory reset clears it with the rest of that area.
use vstd::prelude::*;

verus! {

/// The menu's config record: two bytes, `[delay option index, flip flag]`. A
/// record from an older build may be shorter, see [`MenuConf::decode`].
pub const EF_MENU_CONF: u16 = 0xE031;

/// The selectable entry delays, in seconds, in menu order.
pub const DELAY_OPTIONS_S: [u16; 4] = [3, 5, 10, 30];

/// The delay a device with no usable record waits.
pub const DEFAULT_DELAY_IDX: usize = 3;

/// The menu's persisted settings, decoded.
#[derive(Clone, Copy, PartialEq, Eq, Structural, Debug)]
pub struct MenuConf {
    /// Index into [`DELAY_OPTIONS_S`].
    pub delay_idx: u8,
    /// Whether the panel is rotated by half a turn.
    pub flip: bool,
}

/// What a device with no usable record is set to.
pub open spec fn default_conf() -> MenuConf {
    MenuConf { delay_idx: DEFAULT_DELAY_IDX as u8, flip: false }
}

/// The settings of a record whose first `n` bytes count: field by field, and
/// the default for a field the record lacks or a delay this build does not
/// list.
pub open spec fn decoded(rec: Seq<u8>, n: nat) -> MenuConf {
    MenuConf {
        delay_idx: if n >= 1 && rec[0] < 4 {
            rec[0]
        } else {
            default_conf().delay_idx
        },
        flip: n >= 2 && rec[1] != 0,
    }
}

/// A config's record bytes.
pub open spec fn encoded(conf: MenuConf) -> Seq<u8> {
    seq![
        conf.delay_idx,
        if conf.flip {
            1
        } else {
            0
        },
    ]
}

/// A delay option in milliseconds, an index past the table reading as its
/// last (and longest) entry.
pub open spec fn delay_ms_of(idx: int) -> int {
    if idx < 4 {
        DELAY_OPTIONS_S@[idx] * 1000
    } else {
        DELAY_OPTIONS_S@[3] * 1000
    }
}

impl Default for MenuConf {
    fn default() -> (r: Self)
        ensures
            r == default_conf(),
    {
        MenuConf { delay_idx: DEFAULT_DELAY_IDX as u8, flip: false }
    }
}

impl MenuConf {
    /// Decode a record `n` bytes long. A missing record, a one-byte one from an
    /// older build, or a delay index this build does not list keeps that
    /// field's default rather than refusing the boot.
    pub fn decode(rec: &[u8], n: usize) -> (r: Self)
        requires
            n >= 1 ==> rec@.len() >= 1,
            n >= 2 ==> rec@.len() >= 2,
        ensures
            r == decoded(rec@, n as nat),
    {
        let mut out = MenuConf::default();
        if n >= 1 && (rec[0] as usize) < DELAY_OPTIONS_S.len() {
            out.delay_idx = rec[0];
        }
        out.flip = n >= 2 && rec[1] != 0;
        out
    }

    /// The record bytes, in the order [`decode`](Self::decode) reads them.
    pub fn encode(&self) -> (r: [u8; 2])
        ensures
            r@ == encoded(*self),
    {
        let r = [
            self.delay_idx,
            if self.flip {
                1
            } else {
                0
            },
        ];
        assert(r@ =~= encoded(*self));
        r
    }

    /// The delay this config selects, in milliseconds; total, so a hand-built
    /// index outside the table reads as the longest delay.
    pub fn delay_ms(&self) -> (r: u32)
        ensures
            r == delay_ms_of(self.delay_idx as int),
    {
        let last: usize = DELAY_OPTIONS_S.len() - 1;
        let idx: usize = if (self.delay_idx as usize) < last {
            self.delay_idx as usize
        } else {
            last
        };
        DELAY_OPTIONS_S[idx] as u32 * 1000
    }
}

/// A record gives back the config it was written from, for every config whose
/// delay the build lists.
pub proof fn law_record_round_trips(conf: MenuConf)
    requires
        conf.delay_idx < 4,
    ensures
        encoded(conf).len() == 2,
        encoded(conf)[0] == conf.delay_idx,
        encoded(conf)[1] == 1 <==> conf.flip,
        encoded(conf)[1] == 0 <==> !conf.flip,
        decoded(encoded(conf), 2) == conf,
{
}

/// Decoding never fails and never selects an unlisted delay, whatever the
/// record holds.
pub proof fn law_decoded_delay_is_listed(rec: Seq<u8>, n: nat)
    ensures
        decoded(rec, n).delay_idx < 4,
        n >= 1 && rec[0] < 4 ==> decoded(rec, n).delay_idx == rec[0],
        n == 0 || rec[0] >= 4 ==> delay_ms_of(decoded(rec, n).delay_idx as int) == 30_000,
        decoded(rec, n).flip <==> n >= 2 && rec[1] != 0,
        decoded(rec, 0) == default_conf(),
        !decoded(rec, 1).flip,
        n >= 2 ==> decoded(rec, n) == decoded(rec, 2),
{
}

/// No delay is longer than the one an unlisted index reads as.
pub proof fn law_unlisted_delay_is_the_longest(idx: int, other: int)
    requires
        idx >= 4,
        0 <= other,
    ensures
        delay_ms_of(other) <= delay_ms_of(idx),
{
    let k = if other < 4 {
        other
    } else {
        3
    };
    assert(k == 0 || k == 1 || k == 2 || k == 3);
}

} // verus!
