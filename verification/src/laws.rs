//! What the menu's sections tell, in the texts a reader of the panel sees.
use vstd::prelude::*;
use vstd::string::*;
use vstd::utf8::*;

use crate::applets::{Account, OathCred, OtpSlot, PivSlot, Rp, SlotKind, Snapshot, MAX_EXTRA_SLOTS};
use crate::capture;
use crate::detail;
use crate::menu;
use crate::row;
use crate::row::{RowModel, Tone};
use crate::text;

verus! {

/// A row reads `label` and `value`, in a tone.
pub open spec fn reads(r: RowModel, label: &str, value: &str, tone: Tone) -> bool {
    r.left == label.spec_bytes() && r.right == value.spec_bytes() && r.tone == tone
}

/// A row reads `label` and the number `n`, in a tone.
pub open spec fn counts(r: RowModel, label: &str, n: nat, tone: Tone) -> bool {
    r.left == label.spec_bytes() && text::writes(r.right, n) && r.tone == tone
}

/// A printable word that fits either column.
pub open spec fn is_word(s: &str) -> bool {
    text::all_printable(s.spec_bytes()) && 1 <= s.spec_bytes().len() <= 20
}

proof fn lemma_words_row(label: &str, value: &str, tone: Tone, exp: bool)
    requires
        is_word(label),
        is_word(value),
    ensures
        reads(
            row::row_model(label.spec_bytes(), value.spec_bytes(), tone, exp),
            label,
            value,
            tone,
        ),
{
    row::law_row_says_what_it_was_given(label.spec_bytes(), value.spec_bytes(), tone, exp);
}

proof fn lemma_count_row(label: &str, n: nat, tone: Tone)
    requires
        is_word(label),
        n <= u64::MAX,
    ensures
        counts(capture::count_row(label, n, tone), label, n, tone),
{
    text::lemma_dec_width(n);
    text::law_decimal_reads_back(n);
    row::law_row_says_what_it_was_given(label.spec_bytes(), text::dec(n), tone, false);
}

proof fn lemma_status_words()
    ensures
        is_word("SEED STORED"),
        is_word("EXPORT WINDOW"),
        is_word("EXPORTABLE"),
        is_word("SOFT LOCKED"),
        is_word("YES"),
        is_word("NO"),
        is_word("NONE"),
        is_word("SEALED"),
        is_word("OPEN"),
        is_word("BACKUP"),
        is_word("EMPTY"),
        "SEALED".spec_bytes() != "OPEN".spec_bytes(),
        "SEALED".spec_bytes() != "NONE".spec_bytes(),
        "OPEN".spec_bytes() != "NONE".spec_bytes(),
        "YES".spec_bytes() != "NO".spec_bytes(),
{
    reveal_strlit("SEED STORED");
    assert(is_ascii("SEED STORED"));
    reveal_strlit("EXPORT WINDOW");
    assert(is_ascii("EXPORT WINDOW"));
    reveal_strlit("EXPORTABLE");
    assert(is_ascii("EXPORTABLE"));
    reveal_strlit("SOFT LOCKED");
    assert(is_ascii("SOFT LOCKED"));
    reveal_strlit("YES");
    assert(is_ascii("YES"));
    reveal_strlit("NO");
    assert(is_ascii("NO"));
    reveal_strlit("NONE");
    assert(is_ascii("NONE"));
    reveal_strlit("SEALED");
    assert(is_ascii("SEALED"));
    reveal_strlit("OPEN");
    assert(is_ascii("OPEN"));
    reveal_strlit("BACKUP");
    assert(is_ascii("BACKUP"));
    reveal_strlit("EMPTY");
    assert(is_ascii("EMPTY"));
    assert("SEALED".spec_bytes()[0] == 0x53);
    assert("OPEN".spec_bytes()[0] == 0x4F);
    assert("NONE".spec_bytes()[0] == 0x4E);
    assert("YES".spec_bytes().len() == 3 && "NO".spec_bytes().len() == 2);
}

/// The backup rows tell the backup's state, each flag on its own row: a stored
/// seed, and with one a window that is SEALED exactly when the status is sealed
/// and OPEN exactly when it is not, whatever else holds; without a seed the
/// window is NONE. The overview's line says the same of the window.
#[verifier::spinoff_prover]
pub proof fn law_backup_rows_tell_the_state(s: Snapshot)
    ensures
        ({
            let rows = capture::section_rows(s, 5);
            let line = capture::section_rows(s, 0)[4];
            let b = s.backup;
            &&& rows.len() == 4
            &&& b.has_seed ==> reads(rows[0], "SEED STORED", "YES", Tone::Good)
            &&& !b.has_seed ==> reads(rows[0], "SEED STORED", "NO", Tone::Plain)
            &&& b.has_seed && b.sealed ==> reads(rows[1], "EXPORT WINDOW", "SEALED", Tone::Good)
            &&& b.has_seed && !b.sealed ==> reads(rows[1], "EXPORT WINDOW", "OPEN", Tone::Warn)
            &&& !b.has_seed ==> reads(rows[1], "EXPORT WINDOW", "NONE", Tone::Plain)
            &&& b.exportable ==> reads(rows[2], "EXPORTABLE", "YES", Tone::Plain)
            &&& !b.exportable ==> reads(rows[2], "EXPORTABLE", "NO", Tone::Plain)
            &&& b.locked ==> reads(rows[3], "SOFT LOCKED", "YES", Tone::Bad)
            &&& !b.locked ==> reads(rows[3], "SOFT LOCKED", "NO", Tone::Plain)
            &&& b.has_seed && b.sealed ==> reads(line, "BACKUP", "SEALED", Tone::Good)
            &&& b.has_seed && !b.sealed ==> reads(line, "BACKUP", "OPEN", Tone::Warn)
            &&& !b.has_seed ==> reads(line, "BACKUP", "NONE", Tone::Plain)
            &&& b.has_seed ==> (rows[1].right == "SEALED".spec_bytes() <==> b.sealed)
            &&& b.has_seed ==> (rows[1].right == "OPEN".spec_bytes() <==> !b.sealed)
        }),
{
    reveal(capture::backup_rows);
    reveal(capture::overview_rows);
    lemma_status_words();
    lemma_words_row("SEED STORED", "YES", Tone::Good, false);
    lemma_words_row("SEED STORED", "NO", Tone::Plain, false);
    lemma_words_row("EXPORT WINDOW", "SEALED", Tone::Good, false);
    lemma_words_row("EXPORT WINDOW", "OPEN", Tone::Warn, false);
    lemma_words_row("EXPORT WINDOW", "NONE", Tone::Plain, false);
    lemma_words_row("EXPORTABLE", "YES", Tone::Plain, false);
    lemma_words_row("EXPORTABLE", "NO", Tone::Plain, false);
    lemma_words_row("SOFT LOCKED", "YES", Tone::Bad, false);
    lemma_words_row("SOFT LOCKED", "NO", Tone::Plain, false);
    lemma_words_row("BACKUP", "SEALED", Tone::Good, false);
    lemma_words_row("BACKUP", "OPEN", Tone::Warn, false);
    lemma_words_row("BACKUP", "NONE", Tone::Plain, false);
}

/// A count grows by one for each object that counts, and by nothing for any
/// other: a slot with a key, a slot with a certificate, a programmed
/// Yubico-OTP slot, and a relying party by the credentials it holds.
pub proof fn law_counts_go_up_with_their_objects(
    slots: Seq<PivSlot>,
    slot: PivSlot,
    otp: Seq<OtpSlot>,
    o: OtpSlot,
    rps: Seq<Rp>,
    rp: Rp,
)
    ensures
        capture::present_slots(Seq::<PivSlot>::empty()).len() == 0,
        slot.present ==> capture::present_slots(slots.push(slot)) == capture::present_slots(
            slots,
        ).push(slot),
        !slot.present ==> capture::present_slots(slots.push(slot)) == capture::present_slots(slots),
        capture::certs_of(Seq::<PivSlot>::empty()) == 0,
        slot.cert ==> capture::certs_of(slots.push(slot)) == capture::certs_of(slots) + 1,
        !slot.cert ==> capture::certs_of(slots.push(slot)) == capture::certs_of(slots),
        capture::programmed(Seq::<OtpSlot>::empty()) == 0,
        o.kind == SlotKind::Empty ==> capture::programmed(otp.push(o)) == capture::programmed(otp),
        o.kind != SlotKind::Empty ==> capture::programmed(otp.push(o)) == capture::programmed(otp)
            + 1,
        capture::creds_of(Seq::<Rp>::empty()) == 0,
        capture::creds_of(rps.push(rp)) == capture::creds_of(rps) + rp.count,
{
    reveal(Seq::filter);
    assert(slots.push(slot).drop_last() =~= slots);
    assert(otp.push(o).drop_last() =~= otp);
    assert(rps.push(rp).drop_last() =~= rps);
}

proof fn lemma_overview_words()
    ensures
        is_word("PIV"),
        is_word("OPENPGP"),
        is_word("OATH"),
        is_word("PASSKEYS"),
        is_word("FIRMWARE"),
        is_word("YUBI OTP"),
        is_word("NONE"),
{
    reveal_strlit("PIV");
    assert(is_ascii("PIV"));
    reveal_strlit("OPENPGP");
    assert(is_ascii("OPENPGP"));
    reveal_strlit("OATH");
    assert(is_ascii("OATH"));
    reveal_strlit("PASSKEYS");
    assert(is_ascii("PASSKEYS"));
    reveal_strlit("FIRMWARE");
    assert(is_ascii("FIRMWARE"));
    reveal_strlit("YUBI OTP");
    assert(is_ascii("YUBI OTP"));
    reveal_strlit("NONE");
    assert(is_ascii("NONE"));
}

/// The value reads `0x` and four hexadecimal digits of `v`.
pub open spec fn writes_word(value: Seq<u8>, v: u16) -> bool {
    &&& value.len() == 6
    &&& value.take(2) == "0x".spec_bytes()
    &&& text::is_hex(value[2]) && text::is_hex(value[3]) && text::is_hex(value[4]) && text::is_hex(
        value[5],
    )
    &&& 4096 * text::hex_value(value[2]) + 256 * text::hex_value(value[3]) + 16 * text::hex_value(
        value[4],
    ) + text::hex_value(value[5]) == v
}

/// Every overview line carries its own section's figure: the PIV slots used,
/// the OpenPGP keys, the OATH credentials, the resident credentials (NONE where
/// there is none), the version, and the programmed Yubico-OTP slots; all plain.
#[verifier::spinoff_prover]
pub proof fn law_overview_tells_each_sections_figure(s: Snapshot)
    requires
        s.piv_extra@.len() <= MAX_EXTRA_SLOTS,
    ensures
        ({
            let rows = capture::section_rows(s, 0);
            let creds = capture::creds_of(s.rps@);
            &&& rows.len() == 7
            &&& counts(
                rows[0],
                "PIV",
                (s.piv.populated + capture::present_slots(s.piv_extra@).len()) as nat,
                Tone::Plain,
            )
            &&& counts(rows[1], "OPENPGP", s.pgp.key_count as nat, Tone::Plain)
            &&& counts(rows[2], "OATH", s.oath@.len(), Tone::Plain)
            &&& creds == 0 ==> reads(rows[3], "PASSKEYS", "NONE", Tone::Plain)
            &&& 0 < creds <= 65535 ==> counts(rows[3], "PASSKEYS", creds, Tone::Plain)
            &&& creds > 65535 ==> counts(rows[3], "PASSKEYS", 65535, Tone::Plain)
            &&& rows[5].left == "FIRMWARE".spec_bytes()
            &&& writes_word(rows[5].right, s.identity.release)
            &&& rows[5].tone == Tone::Plain
            &&& counts(rows[6], "YUBI OTP", capture::programmed(s.otp@), Tone::Plain)
        }),
{
    let creds = capture::creds_of(s.rps@);
    lemma_overview_words();
    capture::law_overview_is_two_pages(s);
    capture::law_overview_shows_the_totals(s);
    assert(s.oath.len() == s.oath@.len());
    s.piv_extra@.lemma_filter_len(|slot: PivSlot| slot.present);
    s.otp@.lemma_filter_len(|slot: OtpSlot| slot.kind != SlotKind::Empty);
    lemma_count_row(
        "PIV",
        (s.piv.populated + capture::present_slots(s.piv_extra@).len()) as nat,
        Tone::Plain,
    );
    lemma_count_row("OPENPGP", s.pgp.key_count as nat, Tone::Plain);
    lemma_count_row("OATH", s.oath@.len(), Tone::Plain);
    lemma_count_row("PASSKEYS", capture::held(creds), Tone::Plain);
    lemma_count_row("YUBI OTP", capture::programmed(s.otp@), Tone::Plain);
    lemma_words_row("PASSKEYS", "NONE", Tone::Plain, false);
    text::law_hexadecimal_word_reads_back(s.identity.release);
    text::lemma_hex_printable(Seq::empty(), s.identity.release);
    row::law_row_says_what_it_was_given(
        "FIRMWARE".spec_bytes(),
        text::hex_word(s.identity.release),
        Tone::Plain,
        false,
    );
    reveal(capture::overview_rows);
}

/// What an applet's name reads as in the value column: itself, as far as the
/// column goes, where it is printable, `--` where it is not.
pub open spec fn named(value: Seq<u8>, name: &str) -> bool {
    &&& text::all_printable(name.spec_bytes()) && name.spec_bytes().len() <= 20 ==> value
        == name.spec_bytes()
    &&& text::all_printable(name.spec_bytes()) && name.spec_bytes().len() > 20 ==> value
        == name.spec_bytes().take(20)
    &&& !text::all_printable(name.spec_bytes()) ==> value == "--".spec_bytes()
}

/// A name as the panel shows it, in bytes.
proof fn lemma_named(name: &str)
    ensures
        text::all_printable(encode_utf8(text::calm_name(name@))),
        text::all_printable(name.spec_bytes()) ==> encode_utf8(text::calm_name(name@))
            == name.spec_bytes(),
        !text::all_printable(name.spec_bytes()) ==> encode_utf8(text::calm_name(name@))
            == "--".spec_bytes(),
        named(text::fitted(encode_utf8(text::calm_name(name@)), 20), name),
        "--".spec_bytes() == seq![0x2Du8, 0x2D],
{
    capture::lemma_calm_name_printable(name@);
    text::law_field_text_is_printable(encode_utf8(text::calm_name(name@)), 20);
    if text::all_printable(name.spec_bytes()) && name.spec_bytes().len() > 20 {
        assert(text::fitted(name.spec_bytes(), 20) =~= name.spec_bytes().take(20));
    }
    reveal_strlit("--");
    assert(is_ascii("--"));
    assert("--".spec_bytes() =~= seq![0x2D, 0x2D]);
}

proof fn lemma_piv_words()
    ensures
        is_word("9A AUTH"),
        is_word("9C SIG"),
        is_word("9D MGM"),
        is_word("9E CARD"),
        is_word("PIN RETRIES"),
        is_word("PUK RETRIES"),
        is_word("CERTIFICATES"),
        is_word("RETIRED"),
        is_word("F9 ATTESTATION"),
        text::all_printable(" RETIRED".spec_bytes()),
        " RETIRED".spec_bytes().len() == 8,
{
    reveal_strlit("9A AUTH");
    assert(is_ascii("9A AUTH"));
    reveal_strlit("9C SIG");
    assert(is_ascii("9C SIG"));
    reveal_strlit("9D MGM");
    assert(is_ascii("9D MGM"));
    reveal_strlit("9E CARD");
    assert(is_ascii("9E CARD"));
    reveal_strlit("PIN RETRIES");
    assert(is_ascii("PIN RETRIES"));
    reveal_strlit("PUK RETRIES");
    assert(is_ascii("PUK RETRIES"));
    reveal_strlit("CERTIFICATES");
    assert(is_ascii("CERTIFICATES"));
    reveal_strlit("RETIRED");
    assert(is_ascii("RETIRED"));
    reveal_strlit("F9 ATTESTATION");
    assert(is_ascii("F9 ATTESTATION"));
    reveal_strlit(" RETIRED");
    assert(is_ascii(" RETIRED"));
}

/// A primary PIV slot's row: its tag, and EMPTY where it holds no key, or else
/// the applet's name for its algorithm, and then a hold opens it.
#[verifier::spinoff_prover]
pub proof fn law_piv_slot_row_tells_the_slot(s: Snapshot, i: int)
    requires
        0 <= i < 4,
    ensures
        ({
            let r = capture::section_rows(s, 1)[i];
            let slot = s.piv.slots@[i];
            &&& i == 0 ==> r.left == "9A AUTH".spec_bytes()
            &&& i == 1 ==> r.left == "9C SIG".spec_bytes()
            &&& i == 2 ==> r.left == "9D MGM".spec_bytes()
            &&& i == 3 ==> r.left == "9E CARD".spec_bytes()
            &&& !slot.present ==> r.right == "EMPTY".spec_bytes()
            &&& slot.present ==> named(r.right, slot.algo)
            &&& r.tone == Tone::Plain
            &&& r.exp == slot.present
        }),
{
    reveal(capture::piv_rows);
    let slot = s.piv.slots@[i];
    lemma_piv_words();
    lemma_status_words();
    lemma_named(slot.algo);
    let tag = capture::piv_tag(i);
    row::law_row_says_what_it_was_given(tag, "EMPTY".spec_bytes(), Tone::Plain, false);
    row::law_row_says_what_it_was_given(
        tag,
        encode_utf8(text::calm_name(slot.algo@)),
        Tone::Plain,
        true,
    );
}

/// The PIV summary rows: the two retry counters, toned Bad exactly when fewer
/// than three tries are left, the primary slots' certificates, and how many
/// retired and attestation slots are reported.
#[verifier::spinoff_prover]
pub proof fn law_piv_summary_tells_the_counters(s: Snapshot)
    requires
        s.piv_extra@.len() <= MAX_EXTRA_SLOTS,
    ensures
        ({
            let rows = capture::section_rows(s, 1);
            let pin = if s.piv.pin_retries < 3 {
                Tone::Bad
            } else {
                Tone::Plain
            };
            let puk = if s.piv.puk_retries < 3 {
                Tone::Bad
            } else {
                Tone::Plain
            };
            &&& counts(rows[4], "PIN RETRIES", s.piv.pin_retries as nat, pin)
            &&& counts(rows[5], "PUK RETRIES", s.piv.puk_retries as nat, puk)
            &&& counts(rows[6], "CERTIFICATES", capture::certs_of(s.piv.slots@), Tone::Plain)
            &&& counts(rows[7], "RETIRED", s.piv_extra@.len(), Tone::Plain)
        }),
{
    reveal(capture::piv_rows);
    lemma_piv_words();
    s.piv.slots@.lemma_filter_len(|slot: PivSlot| slot.cert);
    lemma_count_row(
        "PIN RETRIES",
        s.piv.pin_retries as nat,
        capture::retry_tone_of(s.piv.pin_retries),
    );
    lemma_count_row(
        "PUK RETRIES",
        s.piv.puk_retries as nat,
        capture::retry_tone_of(s.piv.puk_retries),
    );
    lemma_count_row("CERTIFICATES", capture::certs_of(s.piv.slots@), Tone::Plain);
    lemma_count_row("RETIRED", s.piv_extra@.len(), Tone::Plain);
}

/// A retired slot's row: its wire reference in hexadecimal and RETIRED, or, for
/// the attestation slot, its name; the algorithm beside it, and a hold opens it.
#[verifier::spinoff_prover]
pub proof fn law_retired_row_tells_the_slot(s: Snapshot, nth: int)
    requires
        0 <= nth < capture::present_slots(s.piv_extra@).len(),
    ensures
        ({
            let r = capture::section_rows(s, 1)[8 + nth];
            let slot = capture::present_slots(s.piv_extra@)[nth];
            &&& slot.slot == 0xF9 ==> r.left == "F9 ATTESTATION".spec_bytes()
            &&& slot.slot != 0xF9 ==> {
                &&& r.left.len() == 10
                &&& text::is_hex(r.left[0]) && text::is_hex(r.left[1])
                &&& 16 * text::hex_value(r.left[0]) + text::hex_value(r.left[1]) == slot.slot
                &&& r.left.skip(2) == " RETIRED".spec_bytes()
            }
            &&& named(r.right, slot.algo)
            &&& r.tone == Tone::Plain
            &&& r.exp
        }),
{
    reveal(capture::piv_rows);
    let slot = capture::present_slots(s.piv_extra@)[nth];
    lemma_piv_words();
    lemma_named(slot.algo);
    let algo = encode_utf8(text::calm_name(slot.algo@));
    let one = seq![slot.slot];
    text::law_hexadecimal_reads_back(one);
    text::lemma_hex_printable(one, 0);
    assert(one[0] == slot.slot);
    let label = text::hex_text(one) + " RETIRED".spec_bytes();
    assert(label.skip(2) =~= " RETIRED".spec_bytes());
    row::law_row_says_what_it_was_given("F9 ATTESTATION".spec_bytes(), algo, Tone::Plain, true);
    row::law_row_says_what_it_was_given(label, algo, Tone::Plain, true);
}

proof fn lemma_pgp_words()
    ensures
        is_word("SIG"),
        is_word("DEC"),
        is_word("AUT"),
        is_word("SIG FP"),
        is_word("HOLDER"),
        is_word("PW1 RETRIES"),
        is_word("PW3 RETRIES"),
        is_word("SIGNATURES"),
{
    reveal_strlit("SIG");
    assert(is_ascii("SIG"));
    reveal_strlit("DEC");
    assert(is_ascii("DEC"));
    reveal_strlit("AUT");
    assert(is_ascii("AUT"));
    reveal_strlit("SIG FP");
    assert(is_ascii("SIG FP"));
    reveal_strlit("HOLDER");
    assert(is_ascii("HOLDER"));
    reveal_strlit("PW1 RETRIES");
    assert(is_ascii("PW1 RETRIES"));
    reveal_strlit("PW3 RETRIES");
    assert(is_ascii("PW3 RETRIES"));
    reveal_strlit("SIGNATURES");
    assert(is_ascii("SIGNATURES"));
}

/// A slot label as the value column shows it: the name, `--` where the faces
/// cannot draw it, and then a star exactly where touch is demanded; a name that
/// fills the column leaves no room for the star.
pub open spec fn named_with_touch(value: Seq<u8>, name: &str, touch: bool) -> bool {
    let star = if touch {
        seq![0x2Au8]
    } else {
        Seq::empty()
    };
    &&& text::all_printable(name.spec_bytes()) && name.spec_bytes().len() < 20 ==> value
        == name.spec_bytes() + star
    &&& text::all_printable(name.spec_bytes()) && name.spec_bytes().len() >= 20 ==> value
        == name.spec_bytes().take(20)
    &&& !text::all_printable(name.spec_bytes()) ==> value == "--".spec_bytes() + star
}

/// An OpenPGP slot's row: its tag, and EMPTY where it holds no key, or else its
/// algorithm, starred exactly where the slot demands a touch.
#[verifier::spinoff_prover]
pub proof fn law_pgp_slot_row_tells_the_slot(s: Snapshot, i: int)
    requires
        0 <= i < 3,
    ensures
        ({
            let r = capture::section_rows(s, 2)[i];
            let slot = s.pgp.slots@[i];
            &&& i == 0 ==> r.left == "SIG".spec_bytes()
            &&& i == 1 ==> r.left == "DEC".spec_bytes()
            &&& i == 2 ==> r.left == "AUT".spec_bytes()
            &&& !slot.present ==> r.right == "EMPTY".spec_bytes()
            &&& slot.present ==> named_with_touch(r.right, slot.algo.label, slot.touch)
            &&& r.tone == Tone::Plain
        }),
{
    reveal(capture::pgp_rows);
    let slot = s.pgp.slots@[i];
    lemma_pgp_words();
    lemma_status_words();
    lemma_named(slot.algo.label);
    let name = encode_utf8(text::calm_name(slot.algo.label@));
    let star = if slot.touch {
        seq![0x2Au8]
    } else {
        Seq::empty()
    };
    let value = capture::starred(name, slot.touch, 20);
    if name.len() < 20 {
        assert(value =~= name + star);
    } else {
        assert(value =~= name.take(20));
    }
    assert(value.len() <= 20);
    assert(text::all_printable(value));
    row::law_row_says_what_it_was_given(capture::pgp_tag(i), value, Tone::Plain, false);
    row::law_row_says_what_it_was_given(
        capture::pgp_tag(i),
        "EMPTY".spec_bytes(),
        Tone::Plain,
        false,
    );
}

/// The value is the first four bytes of `f`, or all of a shorter one, in
/// hexadecimal, and two dots.
pub open spec fn writes_head(value: Seq<u8>, f: Seq<u8>) -> bool {
    let n = if f.len() < 4 {
        f.len() as int
    } else {
        4
    };
    &&& value.len() == 2 * n + 2
    &&& value[2 * n] == 0x2E && value[2 * n + 1] == 0x2E
    &&& forall|k: int|
        0 <= k < n ==> text::is_hex(value[2 * k]) && text::is_hex(value[2 * k + 1]) && 16
            * text::hex_value(value[2 * k]) + text::hex_value(value[2 * k + 1]) == #[trigger] f[k]
}

/// The rest of the OpenPGP section: the signing key's fingerprint exactly where
/// there is one, eight hexadecimal digits of its first four bytes and two dots;
/// the holder exactly where a name is stored; then the retry counters, toned Bad
/// exactly below three, and the signature count.
#[verifier::spinoff_prover]
pub proof fn law_pgp_section_tells_the_card(s: Snapshot)
    ensures
        ({
            let rows = capture::section_rows(s, 2);
            let n = rows.len() as int;
            let fp = s.pgp.slots@[0].fingerprint;
            let pw1 = if s.pgp.pw1_retries < 3 {
                Tone::Bad
            } else {
                Tone::Plain
            };
            let pw3 = if s.pgp.pw3_retries < 3 {
                Tone::Bad
            } else {
                Tone::Plain
            };
            &&& n == 6 + (if fp is Some {
                1int
            } else {
                0
            }) + (if s.pgp.holder@.len() > 0 {
                1int
            } else {
                0
            })
            &&& fp matches Some(f) ==> rows[3].left == "SIG FP".spec_bytes() && writes_head(
                rows[3].right,
                f@,
            )
            &&& s.pgp.holder@.len() > 0 ==> {
                &&& rows[n - 4].left == "HOLDER".spec_bytes()
                &&& rows[n - 4].right.len() == 20 || rows[n - 4].right.len() == s.pgp.holder@.len()
                &&& forall|k: int|
                    0 <= k < rows[n - 4].right.len() ==> #[trigger] rows[n - 4].right[k] == (if 0x20
                        <= s.pgp.holder@[k] <= 0x7E {
                        s.pgp.holder@[k]
                    } else {
                        0x3F
                    })
            }
            &&& counts(rows[n - 3], "PW1 RETRIES", s.pgp.pw1_retries as nat, pw1)
            &&& counts(rows[n - 2], "PW3 RETRIES", s.pgp.pw3_retries as nat, pw3)
            &&& counts(rows[n - 1], "SIGNATURES", s.pgp.sig_count as nat, Tone::Plain)
        }),
{
    reveal(capture::pgp_rows);
    lemma_pgp_words();
    lemma_count_row(
        "PW1 RETRIES",
        s.pgp.pw1_retries as nat,
        capture::retry_tone_of(s.pgp.pw1_retries),
    );
    lemma_count_row(
        "PW3 RETRIES",
        s.pgp.pw3_retries as nat,
        capture::retry_tone_of(s.pgp.pw3_retries),
    );
    lemma_count_row("SIGNATURES", s.pgp.sig_count as nat, Tone::Plain);
    let holder = text::fitted(s.pgp.holder@, 20);
    text::law_field_text_is_printable(s.pgp.holder@, 20);
    row::law_row_says_what_it_was_given("HOLDER".spec_bytes(), holder, Tone::Plain, false);
    if let Some(f) = s.pgp.slots@[0].fingerprint {
        lemma_fingerprint_row(f@);
    }
}

#[verifier::spinoff_prover]
proof fn lemma_fingerprint_row(f: Seq<u8>)
    ensures
        ({
            let r = capture::fingerprint_row(f);
            &&& r.left == "SIG FP".spec_bytes()
            &&& writes_head(r.right, f)
        }),
{
    lemma_pgp_words();
    let head = if f.len() <= 4 {
        f
    } else {
        f.take(4)
    };
    let value = text::hex_text(head) + seq![0x2Eu8, 0x2E];
    text::lemma_hex_printable(head, 0);
    text::law_hexadecimal_reads_back(head);
    assert(text::all_printable(value));
    row::law_row_says_what_it_was_given("SIG FP".spec_bytes(), value, Tone::Plain, false);
    assert forall|k: int| 0 <= k < head.len() implies text::is_hex(value[2 * k]) && text::is_hex(
        value[2 * k + 1],
    ) && 16 * text::hex_value(value[2 * k]) + text::hex_value(value[2 * k + 1])
        == #[trigger] f[k] by {
        assert(head[k] == f[k]);
    }
}

/// An OATH row: the credential's name, and its kind and digits; after them the
/// hash exactly where it is not the default, and last a star exactly where the
/// credential demands a touch. What the value column has no room for is cut off
/// at its end; where the cut leaves no readable text, the value is a question
/// mark.
#[verifier::spinoff_prover]
pub proof fn law_oath_row_tells_the_credential(s: Snapshot, k: int)
    requires
        0 <= k < s.oath@.len(),
        k < 60,
    ensures
        ({
            let r = capture::section_rows(s, 3)[k];
            let cred = s.oath@[k];
            &&& r.tone == Tone::Plain && !r.exp
            &&& r.left == text::fitted(cred.name@, 40)
            &&& exists|whole: Seq<u8>|
                {
                    let cut = if whole.len() <= 20 {
                        whole
                    } else {
                        whole.take(20)
                    };
                    &&& #[trigger] tells_credential(whole, cred)
                    &&& text::all_printable(cut) ==> r.right == cut
                    &&& valid_utf8(cut) ==> r.right == text::fitted(cut, 20)
                    &&& !valid_utf8(cut) ==> r.right == "?".spec_bytes()
                }
        }),
{
    let cred = s.oath@[k];
    assert(capture::section_rows(s, 3)[k] == capture::oath_row(cred)) by {
        capture::law_oath_tail_is_truthful(s.oath@);
    }
    lemma_oath_value(cred);
    let whole = oath_whole(cred);
    let value = capture::oath_value(cred);
    if text::all_printable(value) {
        text::lemma_ascii_is_utf8(value);
    }
    reveal_strlit("?");
    assert(is_ascii("?"));
    row::law_row_says_what_it_was_given(cred.name@, value, Tone::Plain, false);
    row::law_row_says_what_it_was_given(cred.name@, "?".spec_bytes(), Tone::Plain, false);
    assert(tells_credential(whole, cred));
}

/// A text that tells a credential in full: its head is HOTP for a counter and
/// TOTP for a clock credential, then its digits, the hash unless it is SHA1, and
/// the star of touch.
pub open spec fn tells_credential(whole: Seq<u8>, cred: OathCred) -> bool {
    let hash = if cred.algo@ == "SHA1"@ {
        Seq::empty()
    } else {
        seq![0x20u8] + cred.algo.spec_bytes()
    };
    let star = if cred.touch {
        seq![0x2Au8]
    } else {
        Seq::empty()
    };
    &&& whole.len() >= 6 + hash.len() + star.len()
    &&& cred.hotp ==> whole.take(5) == "HOTP ".spec_bytes()
    &&& !cred.hotp ==> whole.take(5) == "TOTP ".spec_bytes()
    &&& text::writes(
        whole.subrange(5, whole.len() - hash.len() - star.len()),
        cred.digits as nat,
    )
    &&& whole.skip(whole.len() - hash.len() - star.len()) == hash + star
}

spec fn oath_whole(cred: OathCred) -> Seq<u8> {
    (if cred.hotp {
        "HOTP".spec_bytes()
    } else {
        "TOTP".spec_bytes()
    }) + " ".spec_bytes() + text::dec(cred.digits as nat) + (if cred.algo@ == "SHA1"@ {
        Seq::empty()
    } else {
        " ".spec_bytes() + cred.algo.spec_bytes()
    }) + (if cred.touch {
        seq![0x2A]
    } else {
        Seq::empty()
    })
}

#[verifier::spinoff_prover]
proof fn lemma_oath_value(cred: OathCred)
    ensures
        ({
            let whole = oath_whole(cred);
            let value = capture::oath_value(cred);
            &&& tells_credential(whole, cred)
            &&& whole.len() <= 20 ==> value == whole
            &&& whole.len() > 20 ==> value == whole.take(20)
            &&& 1 <= value.len() <= 20
        }),
{
    let whole = oath_whole(cred);
    reveal_strlit("HOTP");
    assert(is_ascii("HOTP"));
    reveal_strlit("TOTP");
    assert(is_ascii("TOTP"));
    reveal_strlit("HOTP ");
    assert(is_ascii("HOTP "));
    reveal_strlit("TOTP ");
    assert(is_ascii("TOTP "));
    reveal_strlit(" ");
    assert(is_ascii(" "));
    assert(" ".spec_bytes() =~= seq![0x20u8]);
    let n = cred.digits as nat;
    text::lemma_dec_width(n);
    text::law_decimal_reads_back(n);
    let hash = if cred.algo@ == "SHA1"@ {
        Seq::empty()
    } else {
        seq![0x20u8] + cred.algo.spec_bytes()
    };
    let star = if cred.touch {
        seq![0x2Au8]
    } else {
        Seq::empty()
    };
    if cred.hotp {
        assert(whole.take(5) =~= "HOTP ".spec_bytes());
    } else {
        assert(whole.take(5) =~= "TOTP ".spec_bytes());
    }
    assert(whole.subrange(5, whole.len() - hash.len() - star.len()) =~= text::dec(n));
    assert(whole.skip(whole.len() - hash.len() - star.len()) =~= hash + star);
    assert(Seq::<u8>::empty() + whole =~= whole);
}

proof fn lemma_passkey_words()
    ensures
        is_word("SERVICES"),
        is_word("CREDENTIALS"),
{
    reveal_strlit("SERVICES");
    assert(is_ascii("SERVICES"));
    reveal_strlit("CREDENTIALS");
    assert(is_ascii("CREDENTIALS"));
}

/// The passkeys section: the service and credential counters (which stop at
/// what sixteen bits hold), two blank rows, and then each relying party by its
/// nickname, or its id where it has none, with how many credentials it holds.
#[verifier::spinoff_prover]
pub proof fn law_passkey_rows_tell_the_services(s: Snapshot, k: int)
    requires
        0 <= k < s.rps@.len(),
        k < 20,
    ensures
        ({
            let rows = capture::section_rows(s, 4);
            let r = rows[4 + k];
            let rp = s.rps@[k];
            let creds = capture::creds_of(s.rps@);
            &&& s.rps@.len() <= 65535 ==> counts(rows[0], "SERVICES", s.rps@.len(), Tone::Plain)
            &&& s.rps@.len() > 65535 ==> counts(rows[0], "SERVICES", 65535, Tone::Plain)
            &&& creds <= 65535 ==> counts(rows[1], "CREDENTIALS", creds, Tone::Plain)
            &&& creds > 65535 ==> counts(rows[1], "CREDENTIALS", 65535, Tone::Plain)
            &&& rows[2].left.len() == 0 && rows[2].right.len() == 0
            &&& rows[3].left.len() == 0 && rows[3].right.len() == 0
            &&& rp.nickname matches Some(name) ==> r.left == text::fitted(name.spec_bytes(), 40)
            &&& rp.nickname is None ==> r.left == text::fitted(rp.rp_id.spec_bytes(), 40)
            &&& text::writes(r.right, rp.count as nat)
            &&& r.tone == Tone::Plain
            &&& r.exp
        }),
{
    let rp = s.rps@[k];
    lemma_passkey_words();
    capture::law_counters_own_the_first_screen(s.rps@);
    let rows = capture::passkey_rows(s.rps@);
    assert(rows[4 + k] == capture::rp_row(rp));
    let head = rows.take(4);
    assert(rows[0] == head[0] && rows[1] == head[1] && rows[2] == head[2] && rows[3] == head[3]);
    lemma_count_row("SERVICES", capture::held(s.rps@.len()), Tone::Plain);
    lemma_count_row("CREDENTIALS", capture::held(capture::creds_of(s.rps@)), Tone::Plain);
    row::law_row_says_what_it_was_given(Seq::empty(), Seq::empty(), Tone::Plain, false);
    text::lemma_dec_width(rp.count as nat);
    text::law_decimal_reads_back(rp.count as nat);
    row::law_row_says_what_it_was_given(
        Seq::empty(),
        text::dec(rp.count as nat),
        Tone::Plain,
        true,
    );
}

proof fn lemma_firmware_words()
    ensures
        is_word("VERSION"),
        is_word("CHIP ID"),
        is_word("SECURE BOOT"),
        is_word("ON"),
        is_word("OFF"),
{
    reveal_strlit("VERSION");
    assert(is_ascii("VERSION"));
    reveal_strlit("CHIP ID");
    assert(is_ascii("CHIP ID"));
    reveal_strlit("SECURE BOOT");
    assert(is_ascii("SECURE BOOT"));
    reveal_strlit("ON");
    assert(is_ascii("ON"));
    reveal_strlit("OFF");
    assert(is_ascii("OFF"));
}

/// The firmware rows: the version and the chip's id in hexadecimal, and secure
/// boot ON (Good) exactly where it is on, OFF (Warn) where it is not.
#[verifier::spinoff_prover]
pub proof fn law_firmware_rows_tell_the_identity(s: Snapshot)
    ensures
        ({
            let rows = capture::section_rows(s, 6);
            let dev = s.identity;
            &&& rows.len() == 3
            &&& rows[0].left == "VERSION".spec_bytes()
            &&& writes_word(rows[0].right, dev.release)
            &&& rows[0].tone == Tone::Plain
            &&& rows[1].left == "CHIP ID".spec_bytes()
            &&& rows[1].right.len() == 16
            &&& forall|i: int|
                0 <= i < 8 ==> text::is_hex(rows[1].right[2 * i]) && text::is_hex(
                    rows[1].right[2 * i + 1],
                ) && 16 * text::hex_value(rows[1].right[2 * i]) + text::hex_value(
                    rows[1].right[2 * i + 1],
                ) == #[trigger] dev.serial_id@[i]
            &&& rows[1].tone == Tone::Plain
            &&& dev.secure_boot ==> reads(rows[2], "SECURE BOOT", "ON", Tone::Good)
            &&& !dev.secure_boot ==> reads(rows[2], "SECURE BOOT", "OFF", Tone::Warn)
        }),
{
    reveal(capture::firmware_rows);
    let dev = s.identity;
    lemma_firmware_words();
    text::law_hexadecimal_word_reads_back(dev.release);
    text::lemma_hex_printable(dev.serial_id@, dev.release);
    text::law_hexadecimal_reads_back(dev.serial_id@);
    row::law_row_says_what_it_was_given(
        "VERSION".spec_bytes(),
        text::hex_word(dev.release),
        Tone::Plain,
        false,
    );
    row::law_row_says_what_it_was_given(
        "CHIP ID".spec_bytes(),
        text::hex_text(dev.serial_id@),
        Tone::Plain,
        false,
    );
    lemma_words_row("SECURE BOOT", "ON", Tone::Good, false);
    lemma_words_row("SECURE BOOT", "OFF", Tone::Warn, false);
}

proof fn lemma_otp_words()
    ensures
        is_word("SLOT 1"),
        is_word("SLOT 2"),
        is_word("SLOT 3"),
        is_word("SLOT 4"),
        is_word("EMPTY"),
        is_word("YUBICO OTP"),
        is_word("STATIC"),
        is_word("CHAL RESP"),
        is_word("OATH HOTP"),
{
    reveal_strlit("SLOT 1");
    assert(is_ascii("SLOT 1"));
    reveal_strlit("SLOT 2");
    assert(is_ascii("SLOT 2"));
    reveal_strlit("SLOT 3");
    assert(is_ascii("SLOT 3"));
    reveal_strlit("SLOT 4");
    assert(is_ascii("SLOT 4"));
    reveal_strlit("EMPTY");
    assert(is_ascii("EMPTY"));
    reveal_strlit("YUBICO OTP");
    assert(is_ascii("YUBICO OTP"));
    reveal_strlit("STATIC");
    assert(is_ascii("STATIC"));
    reveal_strlit("CHAL RESP");
    assert(is_ascii("CHAL RESP"));
    reveal_strlit("OATH HOTP");
    assert(is_ascii("OATH HOTP"));
}

/// A Yubico-OTP slot's row: its number, what it is programmed for, and a star
/// exactly where it demands the press.
#[verifier::spinoff_prover]
pub proof fn law_otp_row_tells_the_slot(s: Snapshot, i: int)
    requires
        0 <= i < 4,
    ensures
        ({
            let r = capture::section_rows(s, 7)[i];
            let slot = s.otp@[i];
            let star = if slot.touch {
                seq![0x2Au8]
            } else {
                Seq::empty()
            };
            &&& capture::section_rows(s, 7).len() == 4
            &&& i == 0 ==> r.left == "SLOT 1".spec_bytes()
            &&& i == 1 ==> r.left == "SLOT 2".spec_bytes()
            &&& i == 2 ==> r.left == "SLOT 3".spec_bytes()
            &&& i == 3 ==> r.left == "SLOT 4".spec_bytes()
            &&& slot.kind == SlotKind::Empty ==> r.right == "EMPTY".spec_bytes() + star
            &&& slot.kind == SlotKind::YubicoOtp ==> r.right == "YUBICO OTP".spec_bytes() + star
            &&& slot.kind == SlotKind::StaticPassword ==> r.right == "STATIC".spec_bytes() + star
            &&& slot.kind == SlotKind::ChallengeResponse ==> r.right == "CHAL RESP".spec_bytes()
                + star
            &&& slot.kind == SlotKind::OathHotp ==> r.right == "OATH HOTP".spec_bytes() + star
            &&& r.tone == Tone::Plain
        }),
{
    let slot = s.otp@[i];
    let star = if slot.touch {
        seq![0x2Au8]
    } else {
        Seq::empty()
    };
    lemma_otp_words();
    let name = capture::kind_text(slot.kind);
    let value = name + star;
    assert(name + Seq::<u8>::empty() =~= name);
    assert(text::all_printable(name));
    assert(text::all_printable(value));
    assert(name.len() <= 10) by {
        reveal_strlit("EMPTY");
        reveal_strlit("YUBICO OTP");
        reveal_strlit("STATIC");
        reveal_strlit("CHAL RESP");
        reveal_strlit("OATH HOTP");
        assert(is_ascii("EMPTY"));
        assert(is_ascii("YUBICO OTP"));
        assert(is_ascii("STATIC"));
        assert(is_ascii("CHAL RESP"));
        assert(is_ascii("OATH HOTP"));
    }
    row::law_row_says_what_it_was_given(capture::otp_tag(i), value, Tone::Plain, false);
}

proof fn lemma_policy_words()
    ensures
        is_word("PIN POLICY"),
        is_word("TOUCH POLICY"),
        is_word("ORIGIN"),
        is_word("CERTIFICATE"),
        is_word("YES"),
        is_word("NO"),
        "YES".spec_bytes() != "NO".spec_bytes(),
{
    reveal_strlit("PIN POLICY");
    assert(is_ascii("PIN POLICY"));
    reveal_strlit("TOUCH POLICY");
    assert(is_ascii("TOUCH POLICY"));
    reveal_strlit("ORIGIN");
    assert(is_ascii("ORIGIN"));
    reveal_strlit("CERTIFICATE");
    assert(is_ascii("CERTIFICATE"));
    reveal_strlit("YES");
    assert(is_ascii("YES"));
    reveal_strlit("NO");
    assert(is_ascii("NO"));
    assert("YES".spec_bytes().len() == 3 && "NO".spec_bytes().len() == 2);
}

/// The rows tell a slot's policy: the applet's names for its PIN policy, touch
/// policy and origin, and whether it holds a certificate, YES exactly when it
/// does.
pub open spec fn tells_policy(rows: Seq<RowModel>, slot: PivSlot) -> bool {
    &&& rows.len() == 4
    &&& rows[0].left == "PIN POLICY".spec_bytes() && named(rows[0].right, slot.pin_policy)
    &&& rows[1].left == "TOUCH POLICY".spec_bytes() && named(rows[1].right, slot.touch_policy)
    &&& rows[2].left == "ORIGIN".spec_bytes() && named(rows[2].right, slot.origin)
    &&& rows[3].left == "CERTIFICATE".spec_bytes()
    &&& rows[3].right == "YES".spec_bytes() <==> slot.cert
    &&& rows[3].right == "NO".spec_bytes() <==> !slot.cert
    &&& forall|k: int| 0 <= k < 4 ==> (#[trigger] rows[k]).tone == Tone::Plain
}

/// A slot's policy page tells the slot, and two slots that differ in the
/// certificate alone have pages that differ in the last row.
#[verifier::spinoff_prover]
pub proof fn law_policy_page_tells_the_slot(slot: PivSlot)
    ensures
        tells_policy(detail::policy_rows(slot), slot),
        detail::policy_rows(PivSlot { cert: !slot.cert, ..slot })[3] != detail::policy_rows(
            slot,
        )[3],
        detail::policy_rows(PivSlot { cert: !slot.cert, ..slot }).take(3) == detail::policy_rows(
            slot,
        ).take(3),
{
    let other = PivSlot { cert: !slot.cert, ..slot };
    let rows = detail::policy_rows(slot);
    lemma_policy_words();
    lemma_named(slot.pin_policy);
    lemma_named(slot.touch_policy);
    lemma_named(slot.origin);
    row::law_row_says_what_it_was_given(
        "PIN POLICY".spec_bytes(),
        encode_utf8(text::calm_name(slot.pin_policy@)),
        Tone::Plain,
        false,
    );
    row::law_row_says_what_it_was_given(
        "TOUCH POLICY".spec_bytes(),
        encode_utf8(text::calm_name(slot.touch_policy@)),
        Tone::Plain,
        false,
    );
    row::law_row_says_what_it_was_given(
        "ORIGIN".spec_bytes(),
        encode_utf8(text::calm_name(slot.origin@)),
        Tone::Plain,
        false,
    );
    lemma_words_row("CERTIFICATE", "YES", Tone::Plain, false);
    lemma_words_row("CERTIFICATE", "NO", Tone::Plain, false);
    assert(rows[3].right == "YES".spec_bytes() <==> slot.cert);
    assert(detail::policy_rows(other)[3].right == "YES".spec_bytes() <==> other.cert);
    assert(detail::policy_rows(other).take(3) =~= rows.take(3));
}

/// A row tells a resident credential: the user's name, the display name where
/// there is none, and a literal where there is neither; UV beside it exactly
/// where the credential demands user verification.
pub open spec fn tells_account(r: RowModel, a: Account) -> bool {
    &&& a.user_name@.len() > 0 ==> r.left == text::fitted(a.user_name.spec_bytes(), 40)
    &&& a.user_name@.len() == 0 && a.user_display_name@.len() > 0 ==> r.left == text::fitted(
        a.user_display_name.spec_bytes(),
        40,
    )
    &&& a.user_name@.len() == 0 && a.user_display_name@.len() == 0 ==> r.left
        == "(no name)".spec_bytes()
    &&& a.cred_protect >= 2 ==> r.right == "UV".spec_bytes()
    &&& a.cred_protect < 2 ==> r.right.len() == 0
    &&& r.tone == Tone::Plain
}

/// A credential's row tells the credential.
pub proof fn law_account_row_tells_the_credential(a: Account)
    ensures
        tells_account(detail::account_row(a), a),
{
    reveal_strlit("(no name)");
    assert(is_ascii("(no name)"));
    reveal_strlit("UV");
    assert(is_ascii("UV"));
    text::law_field_text_is_printable("(no name)".spec_bytes(), 40);
    text::law_field_text_is_printable("UV".spec_bytes(), 20);
}

/// Every credential of a list has its place: number `k` is row `k % 4` of page
/// `k / 4`, a page has four rows at most, and there is no page without its
/// credentials.
pub proof fn law_credential_has_its_place(all: Seq<Account>, k: int, page: nat)
    requires
        0 <= k < all.len(),
    ensures
        k / 4 < menu::section_page_count(all.len()),
        k % 4 < detail::accounts_on(all, (k / 4) as nat).len(),
        detail::accounts_on(all, (k / 4) as nat)[k % 4] == all[k],
        detail::accounts_on(all, page).len() <= 4,
        page < menu::section_page_count(all.len()) ==> detail::accounts_on(all, page).len() >= 1,
        page + 1 < menu::section_page_count(all.len()) ==> detail::accounts_on(all, page).len() == 4,
{
}

/// A row is a tail: it says how many entries the list left out.
pub open spec fn tells_more(r: RowModel, more: nat) -> bool {
    &&& r.left.len() >= 9
    &&& r.left.take(8) == "+ MORE: ".spec_bytes()
    &&& text::writes(r.left.skip(8), more)
    &&& r.right.len() == 0
    &&& !r.exp
}

proof fn lemma_tail_row(more: nat)
    requires
        more <= u64::MAX,
    ensures
        tells_more(
            row::row_model(
                "+ MORE: ".spec_bytes() + text::dec(more),
                Seq::empty(),
                Tone::Plain,
                false,
            ),
            more,
        ),
{
    reveal_strlit("+ MORE: ");
    assert(is_ascii("+ MORE: "));
    text::lemma_dec_width(more);
    text::law_decimal_reads_back(more);
    let t = "+ MORE: ".spec_bytes() + text::dec(more);
    assert(t.take(8) =~= "+ MORE: ".spec_bytes());
    assert(t.skip(8) =~= text::dec(more));
    row::law_row_says_what_it_was_given(t, Seq::empty(), Tone::Plain, false);
}

/// A list tells what it left out: past sixty OATH credentials, or twenty relying
/// parties, the last row is a tail with the number of the rest; up to there every
/// entry has its row and there is no tail. An empty OATH list says so.
#[verifier::spinoff_prover]
pub proof fn law_lists_tell_what_they_left_out(s: Snapshot)
    ensures
        ({
            let oath = capture::section_rows(s, 3);
            let keys = capture::section_rows(s, 4);
            &&& s.oath@.len() == 0 ==> oath.len() == 1 && oath[0].left
                == "NO CREDENTIALS".spec_bytes()
            &&& 0 < s.oath@.len() <= 60 ==> oath.len() == s.oath@.len()
            &&& s.oath@.len() > 60 ==> oath.len() == 61 && tells_more(
                oath[60],
                (s.oath@.len() - 60) as nat,
            )
            &&& s.rps@.len() <= 20 ==> keys.len() == 4 + s.rps@.len()
            &&& s.rps@.len() > 20 ==> keys.len() == 25 && tells_more(
                keys[24],
                (s.rps@.len() - 20) as nat,
            )
        }),
{
    capture::law_oath_tail_is_truthful(s.oath@);
    capture::law_passkey_tail_is_truthful(s.rps@);
    assert(s.oath.len() == s.oath@.len());
    assert(s.rps.len() == s.rps@.len());
    reveal_strlit("NO CREDENTIALS");
    assert(is_ascii("NO CREDENTIALS"));
    row::law_row_says_what_it_was_given(
        "NO CREDENTIALS".spec_bytes(),
        Seq::empty(),
        Tone::Plain,
        false,
    );
    if s.oath@.len() > 60 {
        lemma_tail_row((s.oath@.len() - 60) as nat);
    }
    if s.rps@.len() > 20 {
        lemma_tail_row((s.rps@.len() - 20) as nat);
    }
}

} // verus!
