//! Capture: formats the applets' metadata into the menu's rows, once, on menu
//! entry.
use vstd::prelude::*;
use vstd::string::*;
use vstd::utf8::*;

use crate::applets::{
    BackupStatus, Identity, OathCred, OtpSlot, PgpInfo, PgpSlot, PivInfo, PivSlot, Rp, SlotAlgo, SlotKind,
    Snapshot, MAX_EXTRA_SLOTS,
};
use crate::menu;
use crate::menu::Menu;
use crate::render::keys_menu;
use crate::row;
use crate::row::{Cursor, RowBuf, RowModel, Tone};
use crate::settings::SETTINGS_LEN;
use crate::text;
use crate::text::{
    ascii_name, hex_byte_tag, hex_bytes, hex_digit, hex_u16, put_ascii, same_text, str_ascii,
    write_dec, write_dec_u32, write_dec_u64,
};

verus! {

/// How a retry counter reads: a pristine device reports at least three, and
/// anything below is spent.
pub open spec fn retry_tone_of(left: u8) -> Tone {
    if left < 3 {
        Tone::Bad
    } else {
        Tone::Plain
    }
}

pub fn retry_tone(left: u8) -> (r: Tone)
    ensures
        r == retry_tone_of(left),
{
    if left < 3 {
        Tone::Bad
    } else {
        Tone::Plain
    }
}

/// `head` and then as much of `tail` as a field of `cap` bytes has room for.
pub open spec fn joined(head: Seq<u8>, tail: Seq<u8>, cap: nat) -> Seq<u8> {
    let all = head + tail;
    if all.len() <= cap {
        all
    } else {
        all.take(cap as int)
    }
}

/// Append `src` to the first `len` bytes of `buf`, stopping at its end;
/// returns the new length.
fn append(buf: &mut [u8], len: usize, src: &[u8]) -> (r: usize)
    requires
        len <= old(buf)@.len(),
    ensures
        final(buf)@.len() == old(buf)@.len(),
        r <= final(buf)@.len(),
        final(buf)@.take(r as int) == joined(old(buf)@.take(len as int), src@, old(buf)@.len()),
{
    let n: usize = buf.len();
    let mut at: usize = len;
    let mut i: usize = 0;
    while i < src.len() && at < n
        invariant
            i <= src@.len(),
            at == len + i,
            at <= n,
            n == buf@.len(),
            n == old(buf)@.len(),
            buf@.take(at as int) == old(buf)@.take(len as int) + src@.take(i as int),
        decreases src@.len() - i,
    {
        let ghost before = buf@;
        buf[at] = src[i];
        at += 1;
        i += 1;
        assert(buf@.take(at as int) =~= before.take(at - 1).push(src@[i - 1]));
        assert(src@.take(i as int) =~= src@.take(i - 1).push(src@[i - 1]));
    }
    assert(buf@.take(at as int) =~= joined(old(buf)@.take(len as int), src@, n as nat));
    at
}

/// One more element is kept by a filter exactly when it passes.
pub proof fn lemma_filter_step<A>(s: Seq<A>, k: int, pred: spec_fn(A) -> bool)
    requires
        0 <= k < s.len(),
    ensures
        s.take(k + 1).filter(pred) == (if pred(s[k]) {
            s.take(k).filter(pred).push(s[k])
        } else {
            s.take(k).filter(pred)
        }),
{
    reveal(Seq::filter);
    assert(s.take(k + 1).drop_last() =~= s.take(k));
}

/// A filter keeps nothing of nothing.
pub proof fn lemma_filter_none<A>(s: Seq<A>, pred: spec_fn(A) -> bool)
    ensures
        s.take(0).filter(pred) == Seq::<A>::empty(),
{
    reveal(Seq::filter);
}

/// A primary slot's tag.
pub open spec fn piv_tag(i: int) -> Seq<u8> {
    if i == 0 {
        "9A AUTH".spec_bytes()
    } else if i == 1 {
        "9C SIG".spec_bytes()
    } else if i == 2 {
        "9D MGM".spec_bytes()
    } else {
        "9E CARD".spec_bytes()
    }
}

/// A primary slot's row: its algorithm and expandable, or EMPTY.
pub open spec fn piv_primary_row(i: int, slot: PivSlot) -> RowModel {
    if slot.present {
        row::row_model(piv_tag(i), encode_utf8(text::calm_name(slot.algo@)), Tone::Plain, true)
    } else {
        row::row_model(piv_tag(i), "EMPTY".spec_bytes(), Tone::Plain, false)
    }
}

/// A retired or attestation slot's row.
pub open spec fn piv_extra_row(slot: PivSlot) -> RowModel {
    row::row_model(
        if slot.slot == 0xF9 {
            "F9 ATTESTATION".spec_bytes()
        } else {
            text::hex_text(seq![slot.slot]) + " RETIRED".spec_bytes()
        },
        encode_utf8(text::calm_name(slot.algo@)),
        Tone::Plain,
        true,
    )
}

/// The slots that hold a key.
pub open spec fn present_slots(slots: Seq<PivSlot>) -> Seq<PivSlot> {
    slots.filter(|s: PivSlot| s.present)
}

/// One row per retired or attestation slot that holds a key.
pub open spec fn piv_extra_rows(extra: Seq<PivSlot>) -> Seq<RowModel> {
    present_slots(extra).map_values(|s: PivSlot| piv_extra_row(s))
}

/// How many slots hold a certificate.
pub open spec fn certs_of(slots: Seq<PivSlot>) -> nat {
    slots.filter(|s: PivSlot| s.cert).len()
}

/// A plain row with a number for its value.
pub open spec fn count_row(label: &str, n: nat, tone: Tone) -> RowModel {
    row::row_model(label.spec_bytes(), text::dec(n), tone, false)
}

/// The PIV section, in browse order.
#[verifier::opaque]
pub open spec fn piv_rows(info: PivInfo, extra: Seq<PivSlot>) -> Seq<RowModel> {
    Seq::new(4, |i: int| piv_primary_row(i, info.slots@[i])) + seq![
        count_row("PIN RETRIES", info.pin_retries as nat, retry_tone_of(info.pin_retries)),
        count_row("PUK RETRIES", info.puk_retries as nat, retry_tone_of(info.puk_retries)),
        count_row("CERTIFICATES", certs_of(info.slots@), Tone::Plain),
        count_row("RETIRED", extra.len(), Tone::Plain),
    ] + piv_extra_rows(extra)
}

/// PIV rows: the four primary-slot one-liners, the summary rows (retries,
/// certificates, retired count), then one row per retired or attestation slot
/// that holds a key. A primary slot with a key and every retired row are
/// expandable. Returns the "slots used" figure the overview counts: the
/// populated primary slots plus the retired and attestation slots that hold a
/// key; one with a certificate alone has no row and is not counted.
pub fn cap_piv(info: &PivInfo, extra: &[PivSlot], c: &mut Cursor) -> (r: usize)
    requires
        old(c).wf(),
        info.populated + present_slots(extra@).len() <= usize::MAX,
    ensures
        final(c).wf(),
        final(c).log@ == old(c).log@ + piv_rows(*info, extra@),
        final(c).rows@.len() == old(c).rows@.len(),
        row::kept_but(old(c).rows@, final(c).rows@, old(c).next as int, final(c).next as int),
        final(final(c).rows)@ == final(old(c).rows)@,
        r == info.populated + present_slots(extra@).len(),
{
    let tags = ["9A AUTH", "9C SIG", "9D MGM", "9E CARD"];
    let ghost start = c.log@;
    let mut certs: u16 = 0;
    let mut i: usize = 0;
    proof {
        lemma_filter_none(info.slots@, |s: PivSlot| s.cert);
        lemma_filter_none(extra@, |s: PivSlot| s.present);
    }
    while i < 4
        invariant
            i <= 4,
            tags@ == seq!["9A AUTH", "9C SIG", "9D MGM", "9E CARD"],
            c.wf(),
            c.log@ == start + Seq::new(i as nat, |k: int| piv_primary_row(k, info.slots@[k])),
            c.rows@.len() == old(c).rows@.len(),
            row::kept_but(old(c).rows@, c.rows@, old(c).next as int, c.next as int),
            old(c).next <= c.next,
            final(c.rows)@ == final(old(c).rows)@,
            certs == certs_of(info.slots@.take(i as int)),
            certs <= i,
        decreases 4 - i,
    {
        let slot = &info.slots[i];
        let ghost before = c.log@;
        if slot.present {
            c.put_exp(tags[i].as_bytes(), ascii_name(slot.algo), Tone::Plain);
        } else {
            c.put(tags[i].as_bytes(), "EMPTY", Tone::Plain);
        }
        if slot.cert {
            certs += 1;
        }
        proof {
            lemma_filter_step(info.slots@, i as int, |s: PivSlot| s.cert);
        }
        i += 1;
        assert(c.log@ =~= start + Seq::new(
            i as nat,
            |k: int| piv_primary_row(k, info.slots@[k]),
        ));
    }
    assert(info.slots@.take(4) =~= info.slots@);
    let mut n: [u8; 20] = [0;20];
    proof {
        text::lemma_dec_width(info.pin_retries as nat);
        text::lemma_dec_width(info.puk_retries as nat);
        text::lemma_dec_width(certs as nat);
        text::lemma_dec_width(extra@.len());
    }
    c.put(
        "PIN RETRIES".as_bytes(),
        write_dec(&mut n, info.pin_retries as u16),
        retry_tone(info.pin_retries),
    );
    c.put(
        "PUK RETRIES".as_bytes(),
        write_dec(&mut n, info.puk_retries as u16),
        retry_tone(info.puk_retries),
    );
    c.put("CERTIFICATES".as_bytes(), write_dec(&mut n, certs), Tone::Plain);
    c.put("RETIRED".as_bytes(), write_dec_u64(&mut n, extra.len() as u64), Tone::Plain);
    let ghost head = c.log@;
    let mut occupied: usize = 0;
    let mut k: usize = 0;
    assert(head =~= head + piv_extra_rows(extra@.take(0)));
    while k < extra.len()
        invariant
            k <= extra@.len(),
            occupied <= k,
            occupied == present_slots(extra@.take(k as int)).len(),
            c.wf(),
            c.log@ == head + piv_extra_rows(extra@.take(k as int)),
            c.rows@.len() == old(c).rows@.len(),
            row::kept_but(old(c).rows@, c.rows@, old(c).next as int, c.next as int),
            old(c).next <= c.next,
            final(c.rows)@ == final(old(c).rows)@,
        decreases extra@.len() - k,
    {
        let slot = &extra[k];
        proof {
            lemma_filter_step(extra@, k as int, |s: PivSlot| s.present);
        }
        if slot.present {
            put_extra(slot, c);
            occupied += 1;
            assert(c.log@ =~= head + piv_extra_rows(extra@.take(k + 1)));
        }
        k += 1;
    }
    assert(extra@.take(k as int) =~= extra@);
    reveal(piv_rows);
    assert(c.log@ =~= start + piv_rows(*info, extra@));
    info.populated as usize + occupied
}

/// A retired or attestation slot's row, named so a bare wire reference cannot
/// puzzle the reader: `0xF9` is the attestation slot, the others are retired
/// key slots.
fn put_extra(slot: &PivSlot, c: &mut Cursor)
    requires
        old(c).wf(),
    ensures
        final(c).wf(),
        final(c).log@ == old(c).log@.push(piv_extra_row(*slot)),
        final(c).rows@.len() == old(c).rows@.len(),
        row::kept_but(old(c).rows@, final(c).rows@, old(c).next as int, final(c).next as int),
        final(final(c).rows)@ == final(old(c).rows)@,
{
    let algo = ascii_name(slot.algo);
    if slot.slot == 0xF9 {
        c.put_exp("F9 ATTESTATION".as_bytes(), algo, Tone::Plain);
        return ;
    }
    let mut tag: [u8; 16] = [0;16];
    let ghost blank = tag@;
    let digits = hex_byte_tag(slot.slot);
    let len: usize = append(&mut tag, 0, &digits);
    assert(tag@.take(len as int) =~= digits@) by {
        assert(blank.take(0) + digits@ =~= digits@);
    }
    let len: usize = append(&mut tag, len, " RETIRED".as_bytes());
    assert(tag@.take(len as int) =~= digits@ + " RETIRED".spec_bytes()) by {
        reveal_strlit(" RETIRED");
        assert(is_ascii(" RETIRED"));
    }
    assert(tag@.subrange(0, len as int) =~= tag@.take(len as int));
    c.put_exp(&tag[0..len], algo, Tone::Plain);
}

/// A slot's algorithm label, ASCII-safe.
pub fn slot_algo_ascii<'a>(algo: &SlotAlgo<'a>) -> (r: &'a str)
    ensures
        r@ == text::calm_name(algo.label@),
{
    ascii_name(algo.label)
}

/// An OpenPGP slot's tag.
pub open spec fn pgp_tag(i: int) -> Seq<u8> {
    if i == 0 {
        "SIG".spec_bytes()
    } else if i == 1 {
        "DEC".spec_bytes()
    } else {
        "AUT".spec_bytes()
    }
}

/// A label with the `*` that marks touch protection, in a field of `cap`.
pub open spec fn starred(name: Seq<u8>, touch: bool, cap: nat) -> Seq<u8> {
    joined(
        joined(Seq::empty(), name, cap),
        if touch {
            seq![0x2A]
        } else {
            Seq::empty()
        },
        cap,
    )
}

/// An OpenPGP slot's row.
pub open spec fn pgp_slot_row(i: int, slot: PgpSlot) -> RowModel {
    row::row_model(
        pgp_tag(i),
        if slot.present {
            starred(encode_utf8(text::calm_name(slot.algo.label@)), slot.touch, 20)
        } else {
            "EMPTY".spec_bytes()
        },
        Tone::Plain,
        false,
    )
}

/// The signing key's fingerprint row: the first four bytes, and two dots.
pub open spec fn fingerprint_row(fp: Seq<u8>) -> RowModel {
    row::row_model(
        "SIG FP".spec_bytes(),
        text::hex_text(
            if fp.len() <= 4 {
                fp
            } else {
                fp.take(4)
            },
        ) + seq![0x2E, 0x2E],
        Tone::Plain,
        false,
    )
}

/// The OpenPGP section, in browse order.
#[verifier::opaque]
pub open spec fn pgp_rows(info: PgpInfo) -> Seq<RowModel> {
    Seq::new(3, |i: int| pgp_slot_row(i, info.slots@[i])) + (match info.slots@[0].fingerprint {
        Some(fp) => seq![fingerprint_row(fp@)],
        None => Seq::empty(),
    }) + (if info.holder@.len() == 0 {
        Seq::empty()
    } else {
        seq![
            row::row_model(
                "HOLDER".spec_bytes(),
                text::fitted(info.holder@, 20),
                Tone::Plain,
                false,
            ),
        ]
    }) + seq![
        count_row("PW1 RETRIES", info.pw1_retries as nat, retry_tone_of(info.pw1_retries)),
        count_row("PW3 RETRIES", info.pw3_retries as nat, retry_tone_of(info.pw3_retries)),
        count_row("SIGNATURES", info.sig_count as nat, Tone::Plain),
    ]
}

/// OpenPGP rows: the SIG/DEC/AUT slots, the signing key's fingerprint, the
/// holder, the retries and the signature count. A `*` on a slot marks touch
/// protection. Returns the key count for the overview.
pub fn cap_openpgp(info: &PgpInfo, c: &mut Cursor) -> (r: usize)
    requires
        old(c).wf(),
    ensures
        final(c).wf(),
        final(c).log@ == old(c).log@ + pgp_rows(*info),
        final(c).rows@.len() == old(c).rows@.len(),
        row::kept_but(old(c).rows@, final(c).rows@, old(c).next as int, final(c).next as int),
        final(final(c).rows)@ == final(old(c).rows)@,
        r == info.key_count,
{
    let tags = ["SIG", "DEC", "AUT"];
    let ghost start = c.log@;
    let mut i: usize = 0;
    while i < 3
        invariant
            i <= 3,
            tags@ == seq!["SIG", "DEC", "AUT"],
            c.wf(),
            c.log@ == start + Seq::new(i as nat, |k: int| pgp_slot_row(k, info.slots@[k])),
            c.rows@.len() == old(c).rows@.len(),
            row::kept_but(old(c).rows@, c.rows@, old(c).next as int, c.next as int),
            old(c).next <= c.next,
            final(c.rows)@ == final(old(c).rows)@,
        decreases 3 - i,
    {
        let slot = &info.slots[i];
        if slot.present {
            let algo = slot_algo_ascii(&slot.algo);
            let mut value: [u8; 20] = [0;20];
            let len: usize = append_starred(&mut value, algo.as_bytes(), slot.touch);
            assert(text::all_printable(value@.take(len as int))) by {
                lemma_calm_name_printable(slot.algo.label@);
            }
            assert(value@.subrange(0, len as int) =~= value@.take(len as int));
            c.put(tags[i].as_bytes(), str_ascii(&value[0..len]), Tone::Plain);
        } else {
            c.put(tags[i].as_bytes(), "EMPTY", Tone::Plain);
        }
        i += 1;
        assert(c.log@ =~= start + Seq::new(i as nat, |k: int| pgp_slot_row(k, info.slots@[k])));
    }
    if let Some(fp) = info.slots[0].fingerprint {
        put_fingerprint(fp, c);
    }
    if info.holder.len() != 0 {
        let mut buf: [u8; 20] = [0;20];
        let mut len: u8 = 0;
        put_ascii(&mut buf, &mut len, info.holder);
        let used: usize = len as usize;
        assert(buf@.subrange(0, used as int) =~= buf@.take(used as int));
        c.put("HOLDER".as_bytes(), str_ascii(&buf[0..used]), Tone::Plain);
    }
    let mut n: [u8; 12] = [0;12];
    proof {
        text::lemma_dec_width(info.pw1_retries as nat);
        text::lemma_dec_width(info.pw3_retries as nat);
        text::lemma_dec_width(info.sig_count as nat);
    }
    c.put(
        "PW1 RETRIES".as_bytes(),
        write_dec(&mut n, info.pw1_retries as u16),
        retry_tone(info.pw1_retries),
    );
    c.put(
        "PW3 RETRIES".as_bytes(),
        write_dec(&mut n, info.pw3_retries as u16),
        retry_tone(info.pw3_retries),
    );
    c.put("SIGNATURES".as_bytes(), write_dec_u32(&mut n, info.sig_count), Tone::Plain);
    reveal(pgp_rows);
    assert(c.log@ =~= start + pgp_rows(*info));
    info.key_count as usize
}

/// A name the panel shows is printable.
pub proof fn lemma_calm_name_printable(s: Seq<char>)
    ensures
        text::all_printable(encode_utf8(text::calm_name(s))),
{
    reveal_strlit("--");
    assert(is_ascii("--"));
    assert("--".spec_bytes() =~= seq![0x2D, 0x2D]);
}

/// Write a name and its touch mark from the start of `buf`; returns the used
/// length.
fn append_starred(buf: &mut [u8], name: &[u8], touch: bool) -> (r: usize)
    ensures
        final(buf)@.len() == old(buf)@.len(),
        r <= final(buf)@.len(),
        final(buf)@.take(r as int) == starred(name@, touch, old(buf)@.len()),
{
    let len: usize = append(buf, 0, name);
    assert(old(buf)@.take(0) =~= Seq::empty());
    if touch {
        let star: [u8; 1] = [0x2A];
        assert(star@ =~= seq![0x2A]);
        append(buf, len, &star)
    } else {
        assert(buf@.take(len as int) =~= starred(name@, touch, old(buf)@.len()));
        len
    }
}

/// The signing key's fingerprint, first eight hex digits: enough to tell two
/// keys apart at a glance.
fn put_fingerprint(fp: &[u8], c: &mut Cursor)
    requires
        old(c).wf(),
    ensures
        final(c).wf(),
        final(c).log@ == old(c).log@.push(fingerprint_row(fp@)),
        final(c).rows@.len() == old(c).rows@.len(),
        row::kept_but(old(c).rows@, final(c).rows@, old(c).next as int, final(c).next as int),
        final(final(c).rows)@ == final(old(c).rows)@,
{
    let n: usize = if fp.len() <= 4 {
        fp.len()
    } else {
        4
    };
    let ghost head = fp@.take(n as int);
    let mut hex: [u8; 10] = [0;10];
    let mut i: usize = 0;
    while i < n
        invariant
            i <= n <= 4,
            n <= fp@.len(),
            head == fp@.take(n as int),
            forall|k: int| 0 <= k < 2 * i ==> hex@[k] == text::hex_text(head)[k],
        decreases n - i,
    {
        let b: u8 = fp[i];
        assert(b >> 4 == b / 16) by (bit_vector);
        assert(b & 0xF == b % 16) by (bit_vector);
        hex[i * 2] = hex_digit(b >> 4);
        hex[i * 2 + 1] = hex_digit(b & 0xF);
        i += 1;
    }
    hex[n * 2] = 0x2E;
    hex[n * 2 + 1] = 0x2E;
    let len: usize = n * 2 + 2;
    assert(hex@.subrange(0, len as int) =~= text::hex_text(head) + seq![0x2E, 0x2E]);
    assert(head =~= if fp@.len() <= 4 {
        fp@
    } else {
        fp@.take(4)
    });
    proof {
        text::lemma_hex_printable(head, 0);
    }
    c.put("SIG FP".as_bytes(), str_ascii(&hex[0..len]), Tone::Plain);
}

/// How many OATH rows are kept as pages; any spill becomes a tail row and the
/// overview count carries the total.
pub const OATH_PAGE_CAP: usize = 60;

/// The tail row of a capped list, so the visible rows never lie about the
/// rest.
pub open spec fn more_row(more: nat) -> RowModel {
    row::row_model(
        "+ MORE: ".spec_bytes() + text::dec(more),
        Seq::empty(),
        Tone::Plain,
        false,
    )
}

/// Put the tail row that tells how many were left out.
pub fn put_more(c: &mut Cursor, more: usize)
    requires
        old(c).wf(),
    ensures
        final(c).wf(),
        final(c).log@ == old(c).log@.push(more_row(more as nat)),
        final(c).rows@.len() == old(c).rows@.len(),
        forall|i: int|
            0 <= i < old(c).rows@.len() && i != old(c).next ==>
                #[trigger] final(c).rows@[i] == old(c).rows@[i],
        final(final(c).rows)@ == final(old(c).rows)@,
{
    let mut line: [u8; row::ROW_LEFT_MAX] = [0;row::ROW_LEFT_MAX];
    let ghost blank = line@;
    let len: usize = append(&mut line, 0, "+ MORE: ".as_bytes());
    proof {
        reveal_strlit("+ MORE: ");
        assert(is_ascii("+ MORE: "));
        assert(blank.take(0) + "+ MORE: ".spec_bytes() =~= "+ MORE: ".spec_bytes());
        text::lemma_dec_width(more as nat);
        row::lemma_no_text();
    }
    let mut n: [u8; 20] = [0;20];
    let rest = write_dec_u64(&mut n, more as u64);
    let len: usize = append(&mut line, len, rest.as_bytes());
    assert(line@.subrange(0, len as int) =~= "+ MORE: ".spec_bytes() + text::dec(more as nat));
    c.put(&line[0..len], "", Tone::Plain);
}

/// A credential's value text: its kind and digits, the hash unless it is the
/// default, and a `*` for touch; as much as the column holds.
pub open spec fn oath_value(cred: OathCred) -> Seq<u8> {
    joined(
        Seq::empty(),
        (if cred.hotp {
            "HOTP".spec_bytes()
        } else {
            "TOTP".spec_bytes()
        }) + " ".spec_bytes() + text::dec(cred.digits as nat) + (if cred.algo@ == "SHA1"@ {
            Seq::empty()
        } else {
            " ".spec_bytes() + cred.algo.spec_bytes()
        }) + (if cred.touch {
            seq![0x2A]
        } else {
            Seq::empty()
        }),
        20,
    )
}

/// A credential's row: its name, and its value text.
pub open spec fn oath_row(cred: OathCred) -> RowModel {
    row::row_model(cred.name@, text::utf8_or_mark(oath_value(cred)), Tone::Plain, false)
}

/// How many of `total` credentials are listed by a cursor that has put `done`
/// rows into a section of `cap`.
pub open spec fn oath_listed(total: nat, done: nat, cap: nat) -> nat {
    if cap < OATH_PAGE_CAP || done + total <= OATH_PAGE_CAP {
        total
    } else if done >= OATH_PAGE_CAP {
        0
    } else {
        (OATH_PAGE_CAP - done) as nat
    }
}

/// The OATH rows a cursor adds: the listed credentials, then the tail.
#[verifier::opaque]
pub open spec fn oath_rows(creds: Seq<OathCred>, done: nat, cap: nat) -> Seq<RowModel> {
    let k = oath_listed(creds.len(), done, cap);
    let next = if done + k <= cap {
        done + k
    } else {
        cap
    };
    creds.take(k as int).map_values(|cred: OathCred| oath_row(cred)) + (if creds.len() == 0 {
        seq![row::row_model("NO CREDENTIALS".spec_bytes(), Seq::empty(), Tone::Plain, false)]
    } else if creds.len() > next {
        seq![more_row((creds.len() - next) as nat)]
    } else {
        Seq::empty()
    })
}

proof fn lemma_joined(a: Seq<u8>, b: Seq<u8>, c: Seq<u8>, cap: nat)
    ensures
        joined(joined(a, b, cap), c, cap) == joined(a, b + c, cap),
{
    assert(joined(joined(a, b, cap), c, cap) =~= joined(a, b + c, cap));
}

/// Write a credential's value text from the start of `buf`; returns the used
/// length. Deliberately no code, no secret.
fn write_oath_value(buf: &mut [u8; 20], cred: &OathCred) -> (r: usize)
    ensures
        r <= 20,
        final(buf)@.take(r as int) == oath_value(*cred),
{
    let kind = if cred.hotp {
        "HOTP"
    } else {
        "TOTP"
    };
    let ghost t0 = kind.spec_bytes();
    let len: usize = append(buf, 0, kind.as_bytes());
    assert(buf@.take(len as int) == joined(Seq::empty(), t0, 20)) by {
        assert(old(buf)@.take(0) =~= Seq::empty());
    }
    let len: usize = append(buf, len, " ".as_bytes());
    let ghost t1 = t0 + " ".spec_bytes();
    let mut d: [u8; 4] = [0;4];
    let digits = write_dec(&mut d, cred.digits as u16);
    let len: usize = append(buf, len, digits.as_bytes());
    let ghost t2 = t1 + text::dec(cred.digits as nat);
    proof {
        lemma_joined(Seq::empty(), t0, " ".spec_bytes(), 20);
        text::lemma_dec_width(cred.digits as nat);
        lemma_joined(Seq::empty(), t1, text::dec(cred.digits as nat), 20);
    }
    let ghost mut t3 = t2;
    let mut used: usize = len;
    if !same_text(cred.algo, "SHA1") {
        used = append(buf, used, " ".as_bytes());
        used = append(buf, used, cred.algo.as_bytes());
        proof {
            lemma_joined(Seq::empty(), t2, " ".spec_bytes(), 20);
            lemma_joined(Seq::empty(), t2 + " ".spec_bytes(), cred.algo.spec_bytes(), 20);
            t3 = t2 + (" ".spec_bytes() + cred.algo.spec_bytes());
            assert(t3 =~= t2 + " ".spec_bytes() + cred.algo.spec_bytes());
        }
    } else {
        assert(t3 =~= t2 + Seq::<u8>::empty());
    }
    if cred.touch {
        let star: [u8; 1] = [0x2A];
        used = append(buf, used, &star);
        proof {
            assert(star@ =~= seq![0x2A]);
            lemma_joined(Seq::empty(), t3, seq![0x2A], 20);
        }
    } else {
        assert(t3 =~= t3 + Seq::<u8>::empty());
    }
    used
}

/// OATH rows: one per credential, at most [`OATH_PAGE_CAP`] of them with a
/// tail row for the rest. Returns the total.
pub fn cap_oath(creds: &[OathCred], c: &mut Cursor) -> (r: usize)
    requires
        old(c).wf(),
    ensures
        final(c).wf(),
        final(c).log@ == old(c).log@ + oath_rows(
            creds@,
            old(c).log@.len(),
            old(c).rows@.len(),
        ),
        final(c).rows@.len() == old(c).rows@.len(),
        row::kept_but(old(c).rows@, final(c).rows@, old(c).next as int, final(c).next as int),
        final(final(c).rows)@ == final(old(c).rows)@,
        r == creds@.len(),
{
    let ghost start = c.log@;
    let ghost cap = c.rows@.len();
    let total: usize = creds.len();
    let mut i: usize = 0;
    proof {
        assert(c.log@ =~= start + creds@.take(0).map_values(|cred: OathCred| oath_row(cred)));
    }
    while i < total
        invariant
            i <= total,
            total == creds@.len(),
            c.wf(),
            c.log@ == start + creds@.take(
                oath_listed(i as nat, start.len(), cap) as int,
            ).map_values(|cred: OathCred| oath_row(cred)),
            cap == c.rows@.len(),
            cap == old(c).rows@.len(),
            row::kept_but(old(c).rows@, c.rows@, old(c).next as int, c.next as int),
            old(c).next <= c.next,
            final(c.rows)@ == final(old(c).rows)@,
        decreases total - i,
    {
        if c.next < OATH_PAGE_CAP {
            let cred = &creds[i];
            let mut value: [u8; 20] = [0;20];
            let len: usize = write_oath_value(&mut value, cred);
            assert(value@.subrange(0, len as int) =~= value@.take(len as int));
            c.put(cred.name, str_ascii(&value[0..len]), Tone::Plain);
            assert(c.log@ =~= start + creds@.take(i + 1).map_values(
                |cred: OathCred| oath_row(cred),
            ));
        }
        i += 1;
    }
    proof {
        row::lemma_no_text();
    }
    if total == 0 {
        c.put("NO CREDENTIALS".as_bytes(), "", Tone::Plain);
    } else if total > c.next {
        let more: usize = total - c.next;
        put_more(c, more);
    }
    reveal(oath_rows);
    assert(c.log@ =~= start + oath_rows(creds@, start.len(), cap));
    total
}

/// Passkeys: how many relying-party rows are kept as pages; a longer set gets
/// a tail row (the counters above always carry the totals).
pub const RP_PAGE_CAP: usize = 20;

/// The counter rows that own the passkeys section's first screen.
pub const PK_COUNTERS: usize = 2;

/// A relying party's row: its nickname, else its id, and its credential count.
pub open spec fn rp_row(rp: Rp) -> RowModel {
    row::row_model(
        match rp.nickname {
            Some(name) => name.spec_bytes(),
            None => rp.rp_id.spec_bytes(),
        },
        text::dec(rp.count as nat),
        Tone::Plain,
        true,
    )
}

/// `n`, held to what a `u16` counter can show.
pub open spec fn held(n: nat) -> nat {
    if n <= u16::MAX {
        n
    } else {
        u16::MAX as nat
    }
}

/// How many credentials the relying parties hold in all.
pub open spec fn creds_of(rps: Seq<Rp>) -> nat
    decreases rps.len(),
{
    if rps.len() == 0 {
        0
    } else {
        creds_of(rps.drop_last()) + rps.last().count as nat
    }
}

/// A row with nothing on it.
pub open spec fn blank_row() -> RowModel {
    row::row_model(Seq::empty(), Seq::empty(), Tone::Plain, false)
}

/// The passkeys section: the counters and two blank rows on the first screen,
/// then the relying parties and the tail.
#[verifier::opaque]
pub open spec fn passkey_rows(rps: Seq<Rp>) -> Seq<RowModel> {
    seq![
        count_row("SERVICES", held(rps.len()), Tone::Plain),
        count_row("CREDENTIALS", held(creds_of(rps)), Tone::Plain),
        blank_row(),
        blank_row(),
    ] + (if rps.len() <= RP_PAGE_CAP {
        rps
    } else {
        rps.take(RP_PAGE_CAP as int)
    }).map_values(|rp: Rp| rp_row(rp)) + (if rps.len() <= RP_PAGE_CAP {
        Seq::empty()
    } else {
        seq![more_row((rps.len() - RP_PAGE_CAP) as nat)]
    })
}

/// Passkeys rows: the two counters alone on the first screen, then one
/// expandable row per relying party, at most [`RP_PAGE_CAP`] of them with a
/// tail row for the rest. Returns the service and credential counts.
pub fn cap_passkeys(rps: &[Rp], c: &mut Cursor) -> (r: (u16, u16))
    requires
        old(c).wf(),
    ensures
        final(c).wf(),
        final(c).log@ == old(c).log@ + passkey_rows(rps@),
        final(c).rows@.len() == old(c).rows@.len(),
        row::kept_but(old(c).rows@, final(c).rows@, old(c).next as int, final(c).next as int),
        final(final(c).rows)@ == final(old(c).rows)@,
        r.0 == held(rps@.len()),
        r.1 == held(creds_of(rps@)),
{
    let ghost start = c.log@;
    let mut services: u16 = 0;
    let mut creds: u16 = 0;
    let mut i: usize = 0;
    while i < rps.len()
        invariant
            i <= rps@.len(),
            services == held(i as nat),
            creds == held(creds_of(rps@.take(i as int))),
        decreases rps@.len() - i,
    {
        assert(rps@.take(i + 1).drop_last() =~= rps@.take(i as int));
        services = services.saturating_add(1);
        creds = creds.saturating_add(rps[i].count as u16);
        i += 1;
    }
    assert(rps@.take(i as int) =~= rps@);
    proof {
        text::lemma_dec_width(services as nat);
        text::lemma_dec_width(creds as nat);
        row::lemma_no_text();
    }
    let mut n: [u8; 6] = [0;6];
    c.put("SERVICES".as_bytes(), write_dec(&mut n, services), Tone::Plain);
    c.put("CREDENTIALS".as_bytes(), write_dec(&mut n, creds), Tone::Plain);
    // Pad to the page boundary, so the list starts on a page of its own.
    let ghost counters = c.log@;
    let mut pad: usize = PK_COUNTERS;
    while pad < menu::ROWS_PER_PAGE
        invariant
            PK_COUNTERS <= pad <= menu::ROWS_PER_PAGE,
            "".spec_bytes() == Seq::<u8>::empty(),
            c.wf(),
            c.log@ == counters + Seq::new((pad - PK_COUNTERS) as nat, |k: int| blank_row()),
            c.rows@.len() == old(c).rows@.len(),
            row::kept_but(old(c).rows@, c.rows@, old(c).next as int, c.next as int),
            old(c).next <= c.next,
            final(c.rows)@ == final(old(c).rows)@,
        decreases menu::ROWS_PER_PAGE - pad,
    {
        c.put("".as_bytes(), "", Tone::Plain);
        pad += 1;
        assert(c.log@ =~= counters + Seq::new((pad - PK_COUNTERS) as nat, |k: int| blank_row()));
    }
    let ghost head = c.log@;
    let mut shown: usize = 0;
    assert(head =~= head + rps@.take(0).map_values(|rp: Rp| rp_row(rp)));
    while shown < rps.len() && shown < RP_PAGE_CAP
        invariant
            shown <= rps@.len(),
            shown <= RP_PAGE_CAP,
            c.wf(),
            c.log@ == head + rps@.take(shown as int).map_values(|rp: Rp| rp_row(rp)),
            c.rows@.len() == old(c).rows@.len(),
            row::kept_but(old(c).rows@, c.rows@, old(c).next as int, c.next as int),
            old(c).next <= c.next,
            final(c.rows)@ == final(old(c).rows)@,
        decreases RP_PAGE_CAP - shown,
    {
        let rp = &rps[shown];
        let mut d: [u8; 4] = [0;4];
        proof {
            text::lemma_dec_width(rp.count as nat);
        }
        let name = match rp.nickname {
            Some(name) => name,
            None => rp.rp_id,
        };
        c.put_exp(name.as_bytes(), write_dec(&mut d, rp.count as u16), Tone::Plain);
        shown += 1;
        assert(c.log@ =~= head + rps@.take(shown as int).map_values(|rp: Rp| rp_row(rp)));
    }
    assert(rps@.len() <= RP_PAGE_CAP ==> rps@.take(shown as int) =~= rps@);
    if rps.len() > RP_PAGE_CAP {
        put_more(c, rps.len() - RP_PAGE_CAP);
    }
    reveal(passkey_rows);
    assert(c.log@ =~= start + passkey_rows(rps@));
    (services, creds)
}

/// How the backup's export window reads, with its tone.
pub open spec fn window_of(b: BackupStatus) -> (Seq<u8>, Tone) {
    if !b.has_seed {
        ("NONE".spec_bytes(), Tone::Plain)
    } else if b.sealed {
        ("SEALED".spec_bytes(), Tone::Good)
    } else {
        ("OPEN".spec_bytes(), Tone::Warn)
    }
}

fn backup_window(b: &BackupStatus) -> (r: (&'static str, Tone))
    ensures
        r.0.spec_bytes() == window_of(*b).0,
        r.1 == window_of(*b).1,
{
    if !b.has_seed {
        ("NONE", Tone::Plain)
    } else if b.sealed {
        ("SEALED", Tone::Good)
    } else {
        ("OPEN", Tone::Warn)
    }
}

/// A plain row that says YES or NO.
pub open spec fn yes_row(label: &str, yes: bool, tone: Tone) -> RowModel {
    row::row_model(
        label.spec_bytes(),
        if yes {
            "YES".spec_bytes()
        } else {
            "NO".spec_bytes()
        },
        tone,
        false,
    )
}

/// The backup section.
#[verifier::opaque]
pub open spec fn backup_rows(b: BackupStatus) -> Seq<RowModel> {
    seq![
        yes_row(
            "SEED STORED",
            b.has_seed,
            if b.has_seed {
                Tone::Good
            } else {
                Tone::Plain
            },
        ),
        row::row_model("EXPORT WINDOW".spec_bytes(), window_of(b).0, window_of(b).1, false),
        yes_row("EXPORTABLE", b.exportable, Tone::Plain),
        yes_row(
            "SOFT LOCKED",
            b.locked,
            if b.locked {
                Tone::Bad
            } else {
                Tone::Plain
            },
        ),
    ]
}

/// Backup state rows.
pub fn cap_backup(b: &BackupStatus, c: &mut Cursor)
    requires
        old(c).wf(),
    ensures
        final(c).wf(),
        final(c).log@ == old(c).log@ + backup_rows(*b),
        final(c).rows@.len() == old(c).rows@.len(),
        row::kept_but(old(c).rows@, final(c).rows@, old(c).next as int, final(c).next as int),
        final(final(c).rows)@ == final(old(c).rows)@,
{
    let ghost start = c.log@;
    c.put(
        "SEED STORED".as_bytes(),
        if b.has_seed {
            "YES"
        } else {
            "NO"
        },
        if b.has_seed {
            Tone::Good
        } else {
            Tone::Plain
        },
    );
    let (window, tone) = backup_window(b);
    c.put("EXPORT WINDOW".as_bytes(), window, tone);
    c.put(
        "EXPORTABLE".as_bytes(),
        if b.exportable {
            "YES"
        } else {
            "NO"
        },
        Tone::Plain,
    );
    c.put(
        "SOFT LOCKED".as_bytes(),
        if b.locked {
            "YES"
        } else {
            "NO"
        },
        if b.locked {
            Tone::Bad
        } else {
            Tone::Plain
        },
    );
    reveal(backup_rows);
    assert(c.log@ =~= start + backup_rows(*b));
}

/// A Yubico-OTP slot's tag.
pub open spec fn otp_tag(i: int) -> Seq<u8> {
    if i == 0 {
        "SLOT 1".spec_bytes()
    } else if i == 1 {
        "SLOT 2".spec_bytes()
    } else if i == 2 {
        "SLOT 3".spec_bytes()
    } else {
        "SLOT 4".spec_bytes()
    }
}

/// A slot kind's name.
pub open spec fn kind_text(kind: SlotKind) -> Seq<u8> {
    match kind {
        SlotKind::Empty => "EMPTY".spec_bytes(),
        SlotKind::YubicoOtp => "YUBICO OTP".spec_bytes(),
        SlotKind::StaticPassword => "STATIC".spec_bytes(),
        SlotKind::ChallengeResponse => "CHAL RESP".spec_bytes(),
        SlotKind::OathHotp => "OATH HOTP".spec_bytes(),
    }
}

fn kind_name(kind: SlotKind) -> (r: &'static str)
    ensures
        r.spec_bytes() == kind_text(kind),
        r.spec_bytes().len() <= 10,
        text::all_printable(r.spec_bytes()),
{
    proof {
        reveal_strlit("EMPTY");
        reveal_strlit("YUBICO OTP");
        reveal_strlit("STATIC");
        reveal_strlit("CHAL RESP");
        reveal_strlit("OATH HOTP");
        assert(is_ascii("EMPTY"));
        assert(is_ascii("YUBICO OTP"));
        assert(is_ascii("STATIC"));
        assert(is_ascii("CHAL RESP"));
        assert(is_ascii("OATH HOTP"));
    }
    match kind {
        SlotKind::Empty => "EMPTY",
        SlotKind::YubicoOtp => "YUBICO OTP",
        SlotKind::StaticPassword => "STATIC",
        SlotKind::ChallengeResponse => "CHAL RESP",
        SlotKind::OathHotp => "OATH HOTP",
    }
}

/// A Yubico-OTP slot's row: its kind, with a `*` where it demands the press.
pub open spec fn otp_row(i: int, slot: OtpSlot) -> RowModel {
    row::row_model(
        otp_tag(i),
        if slot.touch {
            kind_text(slot.kind) + seq![0x2A]
        } else {
            kind_text(slot.kind)
        },
        Tone::Plain,
        false,
    )
}

/// How many slots are programmed.
pub open spec fn programmed(slots: Seq<OtpSlot>) -> nat {
    slots.filter(|s: OtpSlot| s.kind != SlotKind::Empty).len()
}

/// Yubico-OTP rows, one per slot; an unprogrammed slot reads EMPTY. Returns how
/// many slots are programmed.
pub fn cap_yubiotp(slots: &[OtpSlot; 4], c: &mut Cursor) -> (r: usize)
    requires
        old(c).wf(),
    ensures
        final(c).wf(),
        final(c).log@ == old(c).log@ + Seq::new(4, |i: int| otp_row(i, slots@[i])),
        final(c).rows@.len() == old(c).rows@.len(),
        row::kept_but(old(c).rows@, final(c).rows@, old(c).next as int, final(c).next as int),
        final(final(c).rows)@ == final(old(c).rows)@,
        r == programmed(slots@),
        r <= 4,
{
    let tags = ["SLOT 1", "SLOT 2", "SLOT 3", "SLOT 4"];
    let ghost start = c.log@;
    let mut used: usize = 0;
    let mut i: usize = 0;
    proof {
        lemma_filter_none(slots@, |s: OtpSlot| s.kind != SlotKind::Empty);
    }
    while i < 4
        invariant
            i <= 4,
            tags@ == seq!["SLOT 1", "SLOT 2", "SLOT 3", "SLOT 4"],
            c.wf(),
            c.log@ == start + Seq::new(i as nat, |k: int| otp_row(k, slots@[k])),
            c.rows@.len() == old(c).rows@.len(),
            row::kept_but(old(c).rows@, c.rows@, old(c).next as int, c.next as int),
            old(c).next <= c.next,
            final(c.rows)@ == final(old(c).rows)@,
            used == programmed(slots@.take(i as int)),
            used <= i,
        decreases 4 - i,
    {
        let slot = slots[i];
        let kind = kind_name(slot.kind);
        if slot.touch {
            let mut v: [u8; 12] = [0;12];
            let len: usize = append_starred(&mut v, kind.as_bytes(), true);
            assert(v@.subrange(0, len as int) =~= kind.spec_bytes() + seq![0x2A]);
            c.put(tags[i].as_bytes(), str_ascii(&v[0..len]), Tone::Plain);
        } else {
            c.put(tags[i].as_bytes(), kind, Tone::Plain);
        }
        if slot.kind != SlotKind::Empty {
            used += 1;
        }
        proof {
            lemma_filter_step(slots@, i as int, |s: OtpSlot| s.kind != SlotKind::Empty);
        }
        i += 1;
        assert(c.log@ =~= start + Seq::new(i as nat, |k: int| otp_row(k, slots@[k])));
    }
    assert(slots@.take(4) =~= slots@);
    used
}

/// The firmware section.
#[verifier::opaque]
pub open spec fn firmware_rows(dev: Identity) -> Seq<RowModel> {
    seq![
        row::row_model("VERSION".spec_bytes(), text::hex_word(dev.release), Tone::Plain, false),
        row::row_model(
            "CHIP ID".spec_bytes(),
            text::hex_text(dev.serial_id@),
            Tone::Plain,
            false,
        ),
        row::row_model(
            "SECURE BOOT".spec_bytes(),
            if dev.secure_boot {
                "ON".spec_bytes()
            } else {
                "OFF".spec_bytes()
            },
            if dev.secure_boot {
                Tone::Good
            } else {
                Tone::Warn
            },
            false,
        ),
    ]
}

/// Firmware identity rows: version, chip id, secure boot.
pub fn cap_firmware(dev: &Identity, c: &mut Cursor)
    requires
        old(c).wf(),
    ensures
        final(c).wf(),
        final(c).log@ == old(c).log@ + firmware_rows(*dev),
        final(c).rows@.len() == old(c).rows@.len(),
        row::kept_but(old(c).rows@, final(c).rows@, old(c).next as int, final(c).next as int),
        final(final(c).rows)@ == final(old(c).rows)@,
{
    let ghost start = c.log@;
    let mut v: [u8; 6] = [0;6];
    c.put("VERSION".as_bytes(), hex_u16(dev.release, &mut v), Tone::Plain);
    let mut chip: [u8; 17] = [0;17];
    hex_bytes(&dev.serial_id, &mut chip);
    assert(chip@.subrange(0, 16) =~= text::hex_text(dev.serial_id@));
    proof {
        text::lemma_hex_printable(dev.serial_id@, 0);
    }
    c.put("CHIP ID".as_bytes(), str_ascii(&chip[0..16]), Tone::Plain);
    c.put(
        "SECURE BOOT".as_bytes(),
        if dev.secure_boot {
            "ON"
        } else {
            "OFF"
        },
        if dev.secure_boot {
            Tone::Good
        } else {
            Tone::Warn
        },
    );
    reveal(firmware_rows);
    assert(c.log@ =~= start + firmware_rows(*dev));
}

/// What the sections count up to, for the overview.
#[derive(Clone, Copy, Debug)]
pub struct Totals {
    pub piv_used: usize,
    pub pgp_keys: usize,
    pub oath_total: usize,
    /// Services and credentials.
    pub passkeys: (u16, u16),
    pub yubi_used: usize,
}

/// The overview section: one summary row per info section.
#[verifier::opaque]
pub open spec fn overview_rows(t: Totals, dev: Identity, backup: BackupStatus) -> Seq<RowModel> {
    seq![
        count_row("PIV", t.piv_used as nat, Tone::Plain),
        count_row("OPENPGP", t.pgp_keys as nat, Tone::Plain),
        count_row("OATH", t.oath_total as nat, Tone::Plain),
        if t.passkeys.1 == 0 {
            row::row_model("PASSKEYS".spec_bytes(), "NONE".spec_bytes(), Tone::Plain, false)
        } else {
            count_row("PASSKEYS", t.passkeys.1 as nat, Tone::Plain)
        },
        row::row_model("BACKUP".spec_bytes(), window_of(backup).0, window_of(backup).1, false),
        row::row_model("FIRMWARE".spec_bytes(), text::hex_word(dev.release), Tone::Plain, false),
        count_row("YUBI OTP", t.yubi_used as nat, Tone::Plain),
    ]
}

/// Overview counts, filled from the section captures.
pub fn cap_overview(t: &Totals, dev: &Identity, backup: &BackupStatus, c: &mut Cursor)
    requires
        old(c).wf(),
    ensures
        final(c).wf(),
        final(c).log@ == old(c).log@ + overview_rows(*t, *dev, *backup),
        final(c).rows@.len() == old(c).rows@.len(),
        row::kept_but(old(c).rows@, final(c).rows@, old(c).next as int, final(c).next as int),
        final(final(c).rows)@ == final(old(c).rows)@,
{
    let ghost start = c.log@;
    let mut n: [u8; 20] = [0;20];
    proof {
        text::lemma_dec_width(t.piv_used as nat);
        text::lemma_dec_width(t.pgp_keys as nat);
        text::lemma_dec_width(t.oath_total as nat);
        text::lemma_dec_width(t.passkeys.1 as nat);
        text::lemma_dec_width(t.yubi_used as nat);
    }
    c.put("PIV".as_bytes(), write_dec_u64(&mut n, t.piv_used as u64), Tone::Plain);
    c.put("OPENPGP".as_bytes(), write_dec_u64(&mut n, t.pgp_keys as u64), Tone::Plain);
    c.put("OATH".as_bytes(), write_dec_u64(&mut n, t.oath_total as u64), Tone::Plain);
    if t.passkeys.1 == 0 {
        c.put("PASSKEYS".as_bytes(), "NONE", Tone::Plain);
    } else {
        c.put("PASSKEYS".as_bytes(), write_dec(&mut n, t.passkeys.1), Tone::Plain);
    }
    let (window, tone) = backup_window(backup);
    c.put("BACKUP".as_bytes(), window, tone);
    let mut v: [u8; 6] = [0;6];
    c.put("FIRMWARE".as_bytes(), hex_u16(dev.release, &mut v), Tone::Plain);
    c.put("YUBI OTP".as_bytes(), write_dec_u64(&mut n, t.yubi_used as u64), Tone::Plain);
    reveal(overview_rows);
    assert(c.log@ =~= start + overview_rows(*t, *dev, *backup));
}

/// What a device's sections count up to.
pub open spec fn totals_of(s: Snapshot) -> Totals {
    Totals {
        piv_used: (s.piv.populated + present_slots(s.piv_extra@).len()) as usize,
        pgp_keys: s.pgp.key_count as usize,
        oath_total: s.oath@.len() as usize,
        passkeys: (held(s.rps@.len()) as u16, held(creds_of(s.rps@)) as u16),
        yubi_used: programmed(s.otp@) as usize,
    }
}

/// The rows of each info section, in strip order.
pub open spec fn section_rows(s: Snapshot, sec: int) -> Seq<RowModel> {
    if sec == 0 {
        overview_rows(totals_of(s), s.identity, s.backup)
    } else if sec == 1 {
        piv_rows(s.piv, s.piv_extra@)
    } else if sec == 2 {
        pgp_rows(s.pgp)
    } else if sec == 3 {
        oath_rows(s.oath@, 0, menu::sec_cap(3))
    } else if sec == 4 {
        passkey_rows(s.rps@)
    } else if sec == 5 {
        backup_rows(s.backup)
    } else if sec == 6 {
        firmware_rows(s.identity)
    } else {
        Seq::new(4, |i: int| otp_row(i, s.otp@[i]))
    }
}

proof fn lemma_overview_rows(t: Totals, dev: Identity, backup: BackupStatus)
    ensures
        overview_rows(t, dev, backup).len() == 7,
        forall|r: int| 0 <= r < 7 ==> !(#[trigger] overview_rows(t, dev, backup)[r]).exp,
{
    reveal(overview_rows);
}

proof fn lemma_piv_rows(info: PivInfo, extra: Seq<PivSlot>)
    ensures
        8 <= piv_rows(info, extra).len() <= 8 + extra.len(),
        forall|r: int|
            0 <= r < piv_rows(info, extra).len() ==> (#[trigger] piv_rows(info, extra)[r]).exp == (r
                >= 8 || r < 4 && info.slots@[r].present),
{
    reveal(piv_rows);
    extra.lemma_filter_len(|s: PivSlot| s.present);
}

proof fn lemma_pgp_rows(info: PgpInfo)
    ensures
        6 <= pgp_rows(info).len() <= 8,
        forall|r: int| 0 <= r < pgp_rows(info).len() ==> !(#[trigger] pgp_rows(info)[r]).exp,
{
    reveal(pgp_rows);
}

proof fn lemma_oath_rows(creds: Seq<OathCred>)
    ensures
        1 <= oath_rows(creds, 0, menu::sec_cap(3)).len() <= OATH_PAGE_CAP + 1,
        forall|r: int|
            0 <= r < oath_rows(creds, 0, menu::sec_cap(3)).len() ==> !(#[trigger] oath_rows(
                creds,
                0,
                menu::sec_cap(3),
            )[r]).exp,
{
    reveal(oath_rows);
}

proof fn lemma_passkey_rows(rps: Seq<Rp>)
    ensures
        4 <= passkey_rows(rps).len() <= 4 + RP_PAGE_CAP + 1,
        forall|r: int|
            0 <= r < passkey_rows(rps).len() ==> (#[trigger] passkey_rows(rps)[r]).exp == (4 <= r
                < 4 + rps.len() && r < 4 + RP_PAGE_CAP),
{
    reveal(passkey_rows);
}

proof fn lemma_backup_rows(b: BackupStatus, dev: Identity)
    ensures
        backup_rows(b).len() == 4,
        firmware_rows(dev).len() == 3,
        forall|r: int| 0 <= r < 4 ==> !(#[trigger] backup_rows(b)[r]).exp,
        forall|r: int| 0 <= r < 3 ==> !(#[trigger] firmware_rows(dev)[r]).exp,
{
    reveal(backup_rows);
    reveal(firmware_rows);
}

/// No section outgrows its stretch of the arena, whatever the device holds.
pub proof fn law_sections_fit(s: Snapshot, sec: int)
    requires
        0 <= sec < menu::SEC_SETTINGS,
        s.piv_extra@.len() <= MAX_EXTRA_SLOTS,
    ensures
        1 <= section_rows(s, sec).len() <= menu::sec_cap(sec),
{
    lemma_overview_rows(totals_of(s), s.identity, s.backup);
    lemma_piv_rows(s.piv, s.piv_extra@);
    lemma_pgp_rows(s.pgp);
    lemma_oath_rows(s.oath@);
    lemma_passkey_rows(s.rps@);
    lemma_backup_rows(s.backup, s.identity);
}

/// The rows a hold opens a detail page for are the primary PIV slots that hold
/// a key, the retired and attestation slots, and the relying parties; no
/// counter, tail or other section's row is.
pub proof fn law_only_objects_expand(s: Snapshot, sec: int, r: int)
    requires
        0 <= sec < menu::SEC_SETTINGS,
        0 <= r < section_rows(s, sec).len(),
    ensures
        section_rows(s, sec)[r].exp <==> {
            ||| sec == menu::SEC_PIV && r < 4 && s.piv.slots@[r].present
            ||| sec == menu::SEC_PIV && r >= 8
            ||| sec == menu::SEC_PASSKEYS && 4 <= r < 4 + s.rps@.len() && r < 4 + RP_PAGE_CAP
        },
{
    lemma_overview_rows(totals_of(s), s.identity, s.backup);
    lemma_piv_rows(s.piv, s.piv_extra@);
    lemma_pgp_rows(s.pgp);
    lemma_oath_rows(s.oath@);
    lemma_passkey_rows(s.rps@);
    lemma_backup_rows(s.backup, s.identity);
}

/// The PIV directory lists the primary slots first and, after the summary rows,
/// the retired and attestation slots that hold a key, each once and in order.
pub proof fn law_piv_directory_lists_every_slot(info: PivInfo, extra: Seq<PivSlot>, r: int)
    requires
        0 <= r < piv_rows(info, extra).len(),
    ensures
        r < 4 ==> piv_rows(info, extra)[r] == piv_primary_row(r, info.slots@[r]),
        r >= 8 ==> {
            &&& r - 8 < present_slots(extra).len()
            &&& piv_rows(info, extra)[r] == piv_extra_row(present_slots(extra)[r - 8])
        },
        piv_rows(info, extra).len() == 8 + present_slots(extra).len(),
{
    reveal(piv_rows);
}

/// The passkeys' counters own the first screen alone: it holds the two counts
/// and blanks, and the relying parties start on the next page, in order.
pub proof fn law_counters_own_the_first_screen(rps: Seq<Rp>)
    ensures
        keys_menu::page_slice(passkey_rows(rps).len(), 0) == (0nat, 4nat),
        passkey_rows(rps).take(4) == seq![
            count_row("SERVICES", held(rps.len()), Tone::Plain),
            count_row("CREDENTIALS", held(creds_of(rps)), Tone::Plain),
            blank_row(),
            blank_row(),
        ],
        rps.len() > 0 ==> keys_menu::page_slice(passkey_rows(rps).len(), 1).0 == 4,
        forall|k: int|
            0 <= k < rps.len() && k < RP_PAGE_CAP ==> #[trigger] passkey_rows(rps)[4 + k]
                == rp_row(rps[k]),
{
    reveal(passkey_rows);
    assert(passkey_rows(rps).take(4) =~= seq![
        count_row("SERVICES", held(rps.len()), Tone::Plain),
        count_row("CREDENTIALS", held(creds_of(rps)), Tone::Plain),
        blank_row(),
        blank_row(),
    ]);
}

/// The OATH list never lies about the rest: it lists every credential, or the
/// first [`OATH_PAGE_CAP`] and a tail with the number left out.
pub proof fn law_oath_tail_is_truthful(creds: Seq<OathCred>)
    ensures
        ({
            let rows = oath_rows(creds, 0, menu::sec_cap(3));
            &&& forall|k: int|
                0 <= k < creds.len() && k < OATH_PAGE_CAP ==> #[trigger] rows[k] == oath_row(
                    creds[k],
                )
            &&& 0 < creds.len() <= OATH_PAGE_CAP ==> rows.len() == creds.len()
            &&& creds.len() == 0 ==> rows == seq![
                row::row_model("NO CREDENTIALS".spec_bytes(), Seq::empty(), Tone::Plain, false),
            ]
            &&& creds.len() > OATH_PAGE_CAP ==> {
                &&& rows.len() == OATH_PAGE_CAP + 1
                &&& rows[OATH_PAGE_CAP as int] == row::row_model(
                    "+ MORE: ".spec_bytes() + text::dec((creds.len() - OATH_PAGE_CAP) as nat),
                    Seq::empty(),
                    Tone::Plain,
                    false,
                )
            }
        }),
{
    reveal(oath_rows);
    let rows = oath_rows(creds, 0, menu::sec_cap(3));
    if creds.len() == 0 {
        assert(rows =~= seq![
            row::row_model("NO CREDENTIALS".spec_bytes(), Seq::empty(), Tone::Plain, false),
        ]);
    }
}

/// An OATH list stops at the cap and not before: a section with room for the cap
/// lists every credential or goes on to its sixtieth row, and no further; a
/// smaller section lists them all, and what it has no room for is dropped.
pub proof fn law_oath_list_goes_on_to_the_cap(total: nat, done: nat, cap: nat)
    ensures
        oath_listed(total, done, cap) <= total,
        cap < 60 ==> oath_listed(total, done, cap) == total,
        cap >= 60 && oath_listed(total, done, cap) < total ==> done + oath_listed(total, done, cap)
            >= 60,
        cap >= 60 && oath_listed(total, done, cap) > 0 ==> done + oath_listed(total, done, cap)
            <= 60,
{
}

/// The passkeys list never lies about the rest: it lists every relying party,
/// or the first [`RP_PAGE_CAP`] and a tail with the number left out; the count
/// on the first screen is the whole, as far as its sixteen bits go.
pub proof fn law_passkey_tail_is_truthful(rps: Seq<Rp>)
    ensures
        rps.len() <= u16::MAX ==> passkey_rows(rps)[0] == count_row(
            "SERVICES",
            rps.len(),
            Tone::Plain,
        ),
        rps.len() <= RP_PAGE_CAP ==> passkey_rows(rps).len() == 4 + rps.len(),
        rps.len() > RP_PAGE_CAP ==> {
            &&& passkey_rows(rps).len() == 4 + RP_PAGE_CAP + 1
            &&& passkey_rows(rps)[4 + RP_PAGE_CAP] == row::row_model(
                "+ MORE: ".spec_bytes() + text::dec((rps.len() - RP_PAGE_CAP) as nat),
                Seq::empty(),
                Tone::Plain,
                false,
            )
        },
{
    reveal(passkey_rows);
}

/// The overview is the whole menu on two pages: one row per info section.
pub proof fn law_overview_is_two_pages(s: Snapshot)
    ensures
        section_rows(s, 0).len() == menu::SEC_SETTINGS - 1,
        menu::section_page_count(section_rows(s, 0).len()) == 2,
{
    lemma_overview_rows(totals_of(s), s.identity, s.backup);
}

/// The overview's counts are the sections' own totals, whatever their pages had
/// room for. (The passkeys counter stops at what sixteen bits hold.)
pub proof fn law_overview_shows_the_totals(s: Snapshot)
    requires
        s.piv_extra@.len() <= MAX_EXTRA_SLOTS,
    ensures
        section_rows(s, 0)[0] == count_row(
            "PIV",
            (s.piv.populated + present_slots(s.piv_extra@).len()) as nat,
            Tone::Plain,
        ),
        section_rows(s, 0)[1] == count_row("OPENPGP", s.pgp.key_count as nat, Tone::Plain),
        section_rows(s, 0)[2] == count_row("OATH", s.oath@.len(), Tone::Plain),
        creds_of(s.rps@) > 0 ==> section_rows(s, 0)[3] == count_row(
            "PASSKEYS",
            held(creds_of(s.rps@)),
            Tone::Plain,
        ),
        section_rows(s, 0)[6] == count_row("YUBI OTP", programmed(s.otp@), Tone::Plain),
{
    reveal(overview_rows);
    assert(s.oath.len() == s.oath@.len());
    s.piv_extra@.lemma_filter_len(|slot: PivSlot| slot.present);
    s.otp@.lemma_filter_len(|slot: OtpSlot| slot.kind != SlotKind::Empty);
}

/// Snapshot every section's rows into `menu`; the slots a section leaves spare
/// stay as they were.
#[verifier::rlimit(60)]
#[verifier::spinoff_prover]
pub fn capture(snap: &Snapshot, menu: &mut Menu)
    requires
        old(menu).wf(),
        snap.piv_extra@.len() <= MAX_EXTRA_SLOTS,
    ensures
        final(menu).wf(),
        final(menu).sec_off == old(menu).sec_off,
        forall|sec: int|
            0 <= sec < menu::SEC_SETTINGS ==> #[trigger] final(menu).section(sec) == section_rows(
                *snap,
                sec,
            ),
        final(menu).sec_rows@[menu::SEC_SETTINGS as int] == SETTINGS_LEN,
        forall|sec: int, i: int|
            0 <= sec < menu::SEC_SETTINGS && final(menu).sec_rows@[sec] <= i < menu::sec_cap(sec)
                ==> #[trigger] menu::slot_at(*final(menu), sec, i) == menu::slot_at(
                *old(menu),
                sec,
                i,
            ),
{
    proof {
        assert forall|sec: int| 0 <= sec < menu::SEC_SETTINGS implies #[trigger] section_rows(
            *snap,
            sec,
        ).len() <= menu::sec_cap(sec) by {
            law_sections_fit(*snap, sec);
        }
    }
    let ghost before = menu.arena@;
    let whole: &mut [RowBuf] = &mut menu.arena;
    let (s0, rest) = whole.split_at_mut(menu::PIV_OFF);
    let (s1, rest) = rest.split_at_mut(menu::PGP_OFF - menu::PIV_OFF);
    let (s2, rest) = rest.split_at_mut(menu::OATH_OFF - menu::PGP_OFF);
    let (s3, rest) = rest.split_at_mut(menu::PK_OFF - menu::OATH_OFF);
    let (s4, rest) = rest.split_at_mut(menu::BACKUP_OFF - menu::PK_OFF);
    let (s5, rest) = rest.split_at_mut(menu::FW_OFF - menu::BACKUP_OFF);
    let (s6, s7) = rest.split_at_mut(menu::OTP_OFF - menu::FW_OFF);
    let mut c = Cursor::new(s1);
    let piv_used: usize = cap_piv(&snap.piv, snap.piv_extra, &mut c);
    let n1: usize = c.finish();
    let mut c = Cursor::new(s2);
    let pgp_keys: usize = cap_openpgp(&snap.pgp, &mut c);
    let n2: usize = c.finish();
    let mut c = Cursor::new(s3);
    let oath_total: usize = cap_oath(snap.oath, &mut c);
    let n3: usize = c.finish();
    let mut c = Cursor::new(s4);
    let passkeys: (u16, u16) = cap_passkeys(snap.rps, &mut c);
    let n4: usize = c.finish();
    let mut c = Cursor::new(s5);
    cap_backup(&snap.backup, &mut c);
    let n5: usize = c.finish();
    let mut c = Cursor::new(s6);
    cap_firmware(&snap.identity, &mut c);
    let n6: usize = c.finish();
    let mut c = Cursor::new(s7);
    let yubi_used: usize = cap_yubiotp(&snap.otp, &mut c);
    let n7: usize = c.finish();
    let mut c = Cursor::new(s0);
    let totals = Totals { piv_used, pgp_keys, oath_total, passkeys, yubi_used };
    cap_overview(&totals, &snap.identity, &snap.backup, &mut c);
    let n0: usize = c.finish();
    menu.sec_rows[0] = n0;
    menu.sec_rows[1] = n1;
    menu.sec_rows[2] = n2;
    menu.sec_rows[3] = n3;
    menu.sec_rows[4] = n4;
    menu.sec_rows[5] = n5;
    menu.sec_rows[6] = n6;
    menu.sec_rows[7] = n7;
    menu.sec_rows[menu::SEC_SETTINGS] = SETTINGS_LEN;
    let ghost arena = menu.arena@;
    assert(arena.subrange(0, n0 as int) =~= arena.subrange(0, 7).take(n0 as int));
    assert(arena.subrange(7, 7 + n1) =~= arena.subrange(7, 36).take(n1 as int));
    assert(arena.subrange(36, 36 + n2) =~= arena.subrange(36, 44).take(n2 as int));
    assert(arena.subrange(44, 44 + n3) =~= arena.subrange(44, 105).take(n3 as int));
    assert(arena.subrange(105, 105 + n4) =~= arena.subrange(105, 130).take(n4 as int));
    assert(arena.subrange(130, 130 + n5) =~= arena.subrange(130, 134).take(n5 as int));
    assert(arena.subrange(134, 134 + n6) =~= arena.subrange(134, 137).take(n6 as int));
    assert(arena.subrange(137, 137 + n7) =~= arena.subrange(137, 156).take(n7 as int));
    assert forall|sec: int, i: int|
        0 <= sec < menu::SEC_SETTINGS && menu.sec_rows@[sec] <= i < menu::sec_cap(
            sec,
        ) implies #[trigger] menu::slot_at(*menu, sec, i) == menu::slot_at(*old(menu), sec, i) by {
        let start = menu::sec_start(sec);
        let end = start + menu::sec_cap(sec);
        assert(arena.subrange(start, end)[i] == arena[start + i]);
        assert(before.subrange(start, end)[i] == before[start + i]);
    }
}

} // verus!
