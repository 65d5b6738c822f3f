//! What the applets report about themselves, as plain values: public metadata
//! only, never a secret.
use vstd::prelude::*;

verus! {

/// The most retired and attestation slots a card reports: `0x82` to `0x95`,
/// and `0xF9`.
pub const MAX_EXTRA_SLOTS: usize = 21;

/// One PIV key slot. The names come from the applet's own mappers, whose
/// fallbacks may be non-ASCII.
#[derive(Clone, Copy, Debug)]
pub struct PivSlot<'a> {
    /// The wire reference (`0x9A`, `0x82`, ...).
    pub slot: u8,
    /// Whether the slot holds a key.
    pub present: bool,
    /// Whether the slot holds a certificate.
    pub cert: bool,
    pub algo: &'a str,
    pub pin_policy: &'a str,
    pub touch_policy: &'a str,
    pub origin: &'a str,
}

/// The PIV applet's state: the primary slots in 9A/9C/9D/9E order.
#[derive(Clone, Copy, Debug)]
pub struct PivInfo<'a> {
    pub slots: [PivSlot<'a>; 4],
    pub pin_retries: u8,
    pub puk_retries: u8,
    /// How many primary slots the applet counts as populated.
    pub populated: u8,
}

/// An OpenPGP slot's algorithm, by the applet's label for it.
#[derive(Clone, Copy, Debug)]
pub struct SlotAlgo<'a> {
    pub label: &'a str,
}

/// One OpenPGP key slot.
#[derive(Clone, Copy, Debug)]
pub struct PgpSlot<'a> {
    pub present: bool,
    pub algo: SlotAlgo<'a>,
    /// Whether the slot's key demands a touch.
    pub touch: bool,
    pub fingerprint: Option<&'a [u8]>,
}

/// The OpenPGP applet's state: the slots in SIG/DEC/AUT order, and the
/// cardholder's name as stored.
#[derive(Clone, Copy, Debug)]
pub struct PgpInfo<'a> {
    pub slots: [PgpSlot<'a>; 3],
    pub pw1_retries: u8,
    pub pw3_retries: u8,
    pub sig_count: u32,
    /// How many keys the applet counts.
    pub key_count: u8,
    pub holder: &'a [u8],
}

/// One OATH credential: its raw name, kind and shape, never a code.
#[derive(Clone, Copy, Debug)]
pub struct OathCred<'a> {
    pub name: &'a [u8],
    pub hotp: bool,
    pub digits: u8,
    /// The applet's name for the hash.
    pub algo: &'a str,
    pub touch: bool,
}

/// One relying party with resident credentials.
#[derive(Clone, Copy, Debug)]
pub struct Rp<'a> {
    pub rp_id: &'a str,
    pub nickname: Option<&'a str>,
    pub rp_id_hash: [u8; 32],
    /// How many credentials it holds.
    pub count: u8,
}

/// One resident credential of a relying party.
#[derive(Clone, Copy, Debug)]
pub struct Account<'a> {
    pub user_name: &'a str,
    pub user_display_name: &'a str,
    pub cred_protect: u8,
}

/// The seed backup's state.
#[derive(Clone, Copy, PartialEq, Eq, Structural, Debug)]
pub struct BackupStatus {
    pub has_seed: bool,
    pub sealed: bool,
    pub exportable: bool,
    pub locked: bool,
}

/// What a Yubico-OTP slot is programmed for.
#[derive(Clone, Copy, PartialEq, Eq, Structural, Debug)]
pub enum SlotKind {
    Empty,
    YubicoOtp,
    StaticPassword,
    ChallengeResponse,
    OathHotp,
}

/// One Yubico-OTP slot.
#[derive(Clone, Copy, PartialEq, Eq, Structural, Debug)]
pub struct OtpSlot {
    pub kind: SlotKind,
    pub touch: bool,
}

/// The device's identity.
#[derive(Clone, Copy, Debug)]
pub struct Identity {
    /// The build's `bcdDevice`.
    pub release: u16,
    pub serial_id: [u8; 8],
    pub secure_boot: bool,
}

/// Everything the menu shows, read once on entry.
#[derive(Clone, Copy, Debug)]
pub struct Snapshot<'a> {
    pub piv: PivInfo<'a>,
    /// The retired and attestation slots that hold a key or a certificate.
    pub piv_extra: &'a [PivSlot<'a>],
    pub pgp: PgpInfo<'a>,
    pub oath: &'a [OathCred<'a>],
    pub rps: &'a [Rp<'a>],
    pub backup: BackupStatus,
    pub otp: [OtpSlot; 4],
    pub identity: Identity,
}

} // verus!
