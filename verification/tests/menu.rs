use rsk_keys::applets::{
    Account, BackupStatus, Identity, OathCred, OtpSlot, PgpInfo, PgpSlot, PivInfo, PivSlot, Rp,
    SlotAlgo, SlotKind, Snapshot, MAX_EXTRA_SLOTS,
};
use rsk_keys::browse::{Browser, Effect, Mode};
use rsk_keys::capture::{put_more, OATH_PAGE_CAP, PK_COUNTERS, RP_PAGE_CAP};
use rsk_keys::detail::{find_rp, DetailSrc, PIV_PRIMARY_ROWS, PIV_SUMMARY_ROWS, PK_RP_ROW0};
use rsk_keys::gesture::Gesture;
use rsk_keys::menu::{
    count_pages, first_exp_row, locate, next_exp_row, Menu, ARENA_CAP, BACKUP_OFF, FW_OFF,
    OATH_OFF, OTP_OFF, OV_OFF, PGP_OFF, PIV_OFF, PK_OFF, ROWS_PER_PAGE,
};
use rsk_keys::row::{row_view, Cursor, RowBuf, Tone};
use rsk_keys::settings::{LiveConf, Setting};

const EMPTY_SLOT: PivSlot<'static> = PivSlot {
    slot: 0x9A,
    present: false,
    cert: false,
    algo: "\u{2014}",
    pin_policy: "\u{2014}",
    touch_policy: "\u{2014}",
    origin: "\u{2014}",
};

const EMPTY_PGP: PgpSlot<'static> = PgpSlot {
    present: false,
    algo: SlotAlgo { label: "\u{2014}" },
    touch: false,
    fingerprint: None,
};

fn key_slot(slot: u8, algo: &'static str) -> PivSlot<'static> {
    PivSlot {
        slot,
        present: true,
        cert: false,
        algo,
        pin_policy: "ONCE",
        touch_policy: "ALWAYS",
        origin: "GENERATED",
    }
}

/// A device with nothing on it.
fn blank() -> Snapshot<'static> {
    Snapshot {
        piv: PivInfo {
            slots: [EMPTY_SLOT; 4],
            pin_retries: 3,
            puk_retries: 3,
            populated: 0,
        },
        piv_extra: &[],
        pgp: PgpInfo {
            slots: [EMPTY_PGP; 3],
            pw1_retries: 3,
            pw3_retries: 3,
            sig_count: 0,
            key_count: 0,
            holder: &[],
        },
        oath: &[],
        rps: &[],
        backup: BackupStatus {
            has_seed: false,
            sealed: false,
            exportable: false,
            locked: false,
        },
        otp: [OtpSlot {
            kind: SlotKind::Empty,
            touch: false,
        }; 4],
        identity: Identity {
            release: 0x0107,
            serial_id: [0xDE, 0xAD, 0xBE, 0xEF, 0x00, 0x11, 0x22, 0x33],
            secure_boot: false,
        },
    }
}

/// A section's rows as `(label, value, tone, expandable)`.
fn section(b: &Browser, sec: usize) -> Vec<(String, String, Tone, bool)> {
    let off = b.menu.sec_off[sec];
    b.menu.arena[off..off + b.menu.sec_rows[sec]]
        .iter()
        .map(|r| {
            let v = row_view(r);
            (v.left, v.right, v.tone, r.exp)
        })
        .collect()
}

fn plain(left: &str, right: &str) -> (String, String, Tone, bool) {
    (left.to_string(), right.to_string(), Tone::Plain, false)
}

fn toned(left: &str, right: &str, tone: Tone) -> (String, String, Tone, bool) {
    (left.to_string(), right.to_string(), tone, false)
}

fn object(left: &str, right: &str) -> (String, String, Tone, bool) {
    (left.to_string(), right.to_string(), Tone::Plain, true)
}

#[test]
fn the_arena_is_laid_out_for_the_worst_case() {
    assert!(OV_OFF + 7 <= PIV_OFF);
    assert!(PIV_OFF + PIV_PRIMARY_ROWS + PIV_SUMMARY_ROWS + MAX_EXTRA_SLOTS <= PGP_OFF);
    assert!(PGP_OFF + 8 <= OATH_OFF);
    assert!(OATH_OFF + OATH_PAGE_CAP + 1 <= PK_OFF);
    assert!(PK_OFF + 4 + RP_PAGE_CAP < BACKUP_OFF);
    assert!(PK_COUNTERS <= ROWS_PER_PAGE);
    assert!(BACKUP_OFF + 4 <= FW_OFF);
    assert!(FW_OFF + 3 <= OTP_OFF);
    assert!(OTP_OFF + 4 <= ARENA_CAP);
    // The whole arena stays inside its stack budget.
    assert!(core::mem::size_of::<RowBuf>() * ARENA_CAP <= 10_240);
}

#[test]
fn a_blank_device_lists_every_section() {
    let b = Browser::new(&blank());
    assert_eq!(
        section(&b, 0),
        vec![
            plain("PIV", "0"),
            plain("OPENPGP", "0"),
            plain("OATH", "0"),
            plain("PASSKEYS", "NONE"),
            plain("BACKUP", "NONE"),
            plain("FIRMWARE", "0x0107"),
            plain("YUBI OTP", "0"),
        ]
    );
    assert_eq!(
        section(&b, 1),
        vec![
            plain("9A AUTH", "EMPTY"),
            plain("9C SIG", "EMPTY"),
            plain("9D MGM", "EMPTY"),
            plain("9E CARD", "EMPTY"),
            plain("PIN RETRIES", "3"),
            plain("PUK RETRIES", "3"),
            plain("CERTIFICATES", "0"),
            plain("RETIRED", "0"),
        ]
    );
    assert_eq!(
        section(&b, 2),
        vec![
            plain("SIG", "EMPTY"),
            plain("DEC", "EMPTY"),
            plain("AUT", "EMPTY"),
            plain("PW1 RETRIES", "3"),
            plain("PW3 RETRIES", "3"),
            plain("SIGNATURES", "0"),
        ]
    );
    assert_eq!(section(&b, 3), vec![plain("NO CREDENTIALS", "")]);
    assert_eq!(
        section(&b, 4),
        vec![
            plain("SERVICES", "0"),
            plain("CREDENTIALS", "0"),
            plain("", ""),
            plain("", ""),
        ]
    );
    assert_eq!(
        section(&b, 5),
        vec![
            plain("SEED STORED", "NO"),
            plain("EXPORT WINDOW", "NONE"),
            plain("EXPORTABLE", "NO"),
            plain("SOFT LOCKED", "NO"),
        ]
    );
    assert_eq!(
        section(&b, 6),
        vec![
            plain("VERSION", "0x0107"),
            plain("CHIP ID", "DEADBEEF00112233"),
            toned("SECURE BOOT", "OFF", Tone::Warn),
        ]
    );
    assert_eq!(
        section(&b, 7),
        vec![
            plain("SLOT 1", "EMPTY"),
            plain("SLOT 2", "EMPTY"),
            plain("SLOT 3", "EMPTY"),
            plain("SLOT 4", "EMPTY"),
        ]
    );
}

#[test]
fn piv_lists_its_slots_and_counts_them() {
    let mut s = blank();
    s.piv.slots[0] = key_slot(0x9A, "RSA-2048");
    s.piv.slots[0].cert = true;
    s.piv.slots[3] = key_slot(0x9E, "\u{2014}");
    s.piv.populated = 2;
    s.piv.pin_retries = 2;
    let mut cert_only = EMPTY_SLOT;
    cert_only.slot = 0x83;
    cert_only.cert = true;
    let extra = [
        key_slot(0x82, "EC-P256"),
        cert_only,
        key_slot(0xF9, "EC-P384"),
    ];
    s.piv_extra = &extra;
    let b = Browser::new(&s);
    assert_eq!(
        section(&b, 1),
        vec![
            object("9A AUTH", "RSA-2048"),
            plain("9C SIG", "EMPTY"),
            plain("9D MGM", "EMPTY"),
            object("9E CARD", "--"),
            toned("PIN RETRIES", "2", Tone::Bad),
            plain("PUK RETRIES", "3"),
            plain("CERTIFICATES", "1"),
            plain("RETIRED", "3"),
            object("82 RETIRED", "EC-P256"),
            object("F9 ATTESTATION", "EC-P384"),
        ]
    );
    // Two populated primary slots and two retired ones that hold a key; the
    // certificate alone is not counted.
    assert_eq!(section(&b, 0)[0], plain("PIV", "4"));
}

#[test]
fn openpgp_marks_touch_and_shows_the_fingerprint() {
    let mut s = blank();
    let fp = [0x12u8, 0xAB, 0xCD, 0xEF, 0x99, 0x99];
    s.pgp.slots[0] = PgpSlot {
        present: true,
        algo: SlotAlgo { label: "ED25519" },
        touch: true,
        fingerprint: Some(&fp),
    };
    s.pgp.slots[1] = PgpSlot {
        present: true,
        algo: SlotAlgo { label: "\u{2014}" },
        touch: false,
        fingerprint: None,
    };
    s.pgp.key_count = 2;
    s.pgp.holder = b"Doe<<Jo\xC3\xABlle";
    s.pgp.pw1_retries = 0;
    s.pgp.sig_count = 70_000;
    let b = Browser::new(&s);
    assert_eq!(
        section(&b, 2),
        vec![
            plain("SIG", "ED25519*"),
            plain("DEC", "--"),
            plain("AUT", "EMPTY"),
            plain("SIG FP", "12ABCDEF.."),
            plain("HOLDER", "Doe<<Jo??lle"),
            toned("PW1 RETRIES", "0", Tone::Bad),
            plain("PW3 RETRIES", "3"),
            plain("SIGNATURES", "70000"),
        ]
    );
    assert_eq!(section(&b, 0)[1], plain("OPENPGP", "2"));
}

fn cred(name: &'static [u8], hotp: bool, digits: u8, algo: &'static str, touch: bool) -> OathCred<'static> {
    OathCred {
        name,
        hotp,
        digits,
        algo,
        touch,
    }
}

#[test]
fn oath_rows_show_the_kind_never_a_code() {
    let mut s = blank();
    let creds = [
        cred(b"GitHub:alice", false, 6, "SHA1", false),
        cred(b"raw\xFFname", true, 8, "SHA256", true),
        cred(b"x", false, 255, "SHA512-LONG-NAME-INDEED", true),
    ];
    s.oath = &creds;
    let b = Browser::new(&s);
    assert_eq!(
        section(&b, 3),
        vec![
            plain("GitHub:alice", "TOTP 6"),
            plain("raw?name", "HOTP 8 SHA256*"),
            plain("x", "TOTP 255 SHA512-LONG"),
        ]
    );
    assert_eq!(section(&b, 0)[2], plain("OATH", "3"));
}

#[test]
fn a_long_oath_list_tells_how_much_is_left_out() {
    let mut s = blank();
    let creds = [cred(b"c", false, 6, "SHA1", false); 75];
    s.oath = &creds[..60];
    assert_eq!(section(&Browser::new(&s), 3).len(), 60);
    s.oath = &creds;
    let b = Browser::new(&s);
    let rows = section(&b, 3);
    assert_eq!(rows.len(), 61);
    assert_eq!(rows[60], plain("+ MORE: 15", ""));
    assert_eq!(section(&b, 0)[2], plain("OATH", "75"));
}

#[test]
fn counts_past_sixteen_bits_are_still_true() {
    let mut s = blank();
    let creds = vec![cred(b"c", false, 6, "SHA1", false); 65_536];
    s.oath = &creds;
    let rps = vec![rp("a.example", None, 0); 65_556];
    s.rps = &rps;
    let b = Browser::new(&s);
    assert_eq!(section(&b, 0)[2], plain("OATH", "65536"));
    assert_eq!(section(&b, 3)[60], plain("+ MORE: 65476", ""));
    // The services counter stops at its sixteen bits; the tail does not.
    assert_eq!(section(&b, 4)[0], plain("SERVICES", "65535"));
    assert_eq!(section(&b, 4)[24], plain("+ MORE: 65536", ""));
    let mut rows = [RowBuf::empty(); 1];
    let mut c = Cursor::new(&mut rows);
    put_more(&mut c, 65_536);
    assert_eq!(c.finish(), 1);
    assert_eq!(row_view(&rows[0]).left, "+ MORE: 65536");
}

fn rp(rp_id: &'static str, nickname: Option<&'static str>, count: u8) -> Rp<'static> {
    Rp {
        rp_id,
        nickname,
        rp_id_hash: [count; 32],
        count,
    }
}

#[test]
fn passkeys_start_below_their_counters_screen() {
    let mut s = blank();
    let rps = [rp("example.com", None, 2), rp("id.test", Some("Work"), 250)];
    s.rps = &rps;
    let b = Browser::new(&s);
    assert_eq!(
        section(&b, 4),
        vec![
            plain("SERVICES", "2"),
            plain("CREDENTIALS", "252"),
            plain("", ""),
            plain("", ""),
            object("example.com", "2"),
            object("Work", "250"),
        ]
    );
    assert_eq!(section(&b, 0)[3], plain("PASSKEYS", "252"));
    assert_eq!(PK_RP_ROW0, 4);
    assert_eq!(find_rp(&rps, 1), Some([250; 32]));
    assert_eq!(find_rp(&rps, 2), None);
}

#[test]
fn a_long_passkey_list_tells_how_much_is_left_out() {
    let mut s = blank();
    let rps = [rp("a.example", None, 1); 23];
    s.rps = &rps[..20];
    assert_eq!(section(&Browser::new(&s), 4).len(), 24);
    s.rps = &rps;
    let rows = section(&Browser::new(&s), 4);
    assert_eq!(rows.len(), 25);
    assert_eq!(rows[0], plain("SERVICES", "23"));
    assert_eq!(rows[24], plain("+ MORE: 3", ""));
}

#[test]
fn backup_and_otp_rows_follow_their_state() {
    let mut s = blank();
    s.backup = BackupStatus {
        has_seed: true,
        sealed: false,
        exportable: true,
        locked: true,
    };
    s.otp[0] = OtpSlot {
        kind: SlotKind::YubicoOtp,
        touch: true,
    };
    s.otp[1] = OtpSlot {
        kind: SlotKind::StaticPassword,
        touch: false,
    };
    s.otp[2] = OtpSlot {
        kind: SlotKind::ChallengeResponse,
        touch: true,
    };
    s.otp[3] = OtpSlot {
        kind: SlotKind::OathHotp,
        touch: false,
    };
    s.identity.secure_boot = true;
    let b = Browser::new(&s);
    assert_eq!(
        section(&b, 5),
        vec![
            toned("SEED STORED", "YES", Tone::Good),
            toned("EXPORT WINDOW", "OPEN", Tone::Warn),
            plain("EXPORTABLE", "YES"),
            toned("SOFT LOCKED", "YES", Tone::Bad),
        ]
    );
    assert_eq!(section(&b, 0)[4], toned("BACKUP", "OPEN", Tone::Warn));
    assert_eq!(
        section(&b, 7),
        vec![
            plain("SLOT 1", "YUBICO OTP*"),
            plain("SLOT 2", "STATIC"),
            plain("SLOT 3", "CHAL RESP*"),
            plain("SLOT 4", "OATH HOTP"),
        ]
    );
    assert_eq!(section(&b, 0)[6], plain("YUBI OTP", "4"));
    assert_eq!(section(&b, 6)[2], toned("SECURE BOOT", "ON", Tone::Good));
    s.backup.sealed = true;
    let b = Browser::new(&s);
    assert_eq!(section(&b, 5)[1], toned("EXPORT WINDOW", "SEALED", Tone::Good));
}

#[test]
fn the_strip_counts_and_locates_its_pages() {
    let b = Browser::new(&blank());
    let (pages, total) = count_pages(&b.menu);
    assert_eq!(pages, [2, 2, 2, 1, 1, 1, 1, 1, 1]);
    assert_eq!(total, 12);
    assert_eq!(b.total_pages, 12);
    assert_eq!(locate(&pages, 0), (0, 0));
    assert_eq!(locate(&pages, 1), (0, 1));
    assert_eq!(locate(&pages, 2), (1, 0));
    assert_eq!(locate(&pages, 11), (8, 0));
    // An empty menu still has a page per section.
    let empty = Menu::new();
    assert_eq!(count_pages(&empty), ([1; 9], 9));
    assert_eq!(empty.sec_off, [0, 7, 36, 44, 105, 130, 134, 137, 0]);
    assert!(empty.arena.iter().all(|r| r.ll == 0 && r.rl == 0 && !r.exp));
    assert_eq!(b.menu.sec_off, empty.sec_off);
    assert_eq!(b.menu.sec_rows[8], 2);
}

fn tap(b: &mut Browser, live: &mut LiveConf) {
    assert!(matches!(b.on_gesture(Gesture::Tap, live), Effect::Nothing));
}

#[test]
fn the_strip_is_a_ring_in_both_directions() {
    let mut live = LiveConf::new();
    let mut b = Browser::new(&blank());
    for k in 0..12 {
        assert_eq!(b.page, k);
        tap(&mut b, &mut live);
    }
    assert_eq!(b.page, 0);
    // One double from the overview lies the settings page.
    b.on_gesture(Gesture::Double, &mut live);
    assert_eq!(b.page, 11);
    assert_eq!(b.frame(&live).title, "SETTINGS");
    b.on_gesture(Gesture::Double, &mut live);
    assert_eq!(b.frame(&live).title, "YUBI OTP");
}

#[test]
fn pages_show_four_rows_and_their_place() {
    let live = LiveConf::new();
    let mut b = Browser::new(&blank());
    let f = b.frame(&live);
    assert_eq!((f.title.as_str(), f.page, f.pages, f.rows.len()), ("OVERVIEW", 0, 2, 4));
    b.page = 1;
    let f = b.frame(&live);
    assert_eq!((f.title.as_str(), f.page, f.pages, f.rows.len()), ("OVERVIEW", 1, 2, 3));
    assert_eq!(f.rows[0].left, "BACKUP");
}

#[test]
fn a_confirmed_option_is_the_only_write() {
    let mut live = LiveConf::new();
    let mut b = Browser::new(&blank());
    b.on_gesture(Gesture::Double, &mut live);
    b.on_gesture(Gesture::Hold, &mut live);
    assert!(matches!(b.mode, Some(Mode::Select { cursor: 0 })));
    // Walk the rows around.
    tap(&mut b, &mut live);
    assert!(matches!(b.mode, Some(Mode::Select { cursor: 1 })));
    tap(&mut b, &mut live);
    // Open the delay editor on the option in force.
    b.on_gesture(Gesture::Hold, &mut live);
    assert!(matches!(
        b.mode,
        Some(Mode::Edit {
            item: Setting::MenuDelay,
            cursor: 3
        })
    ));
    tap(&mut b, &mut live);
    tap(&mut b, &mut live);
    assert_eq!(live, LiveConf::new());
    match b.on_gesture(Gesture::Hold, &mut live) {
        Effect::Applied { item, record } => {
            assert_eq!(item, Setting::MenuDelay);
            assert_eq!(record, [1, 0]);
        }
        other => panic!("not applied: {other:?}"),
    }
    assert_eq!(live.entry_delay_ms(), 5_000);
    assert!(matches!(b.mode, Some(Mode::Select { cursor: 0 })));
    // A double climbs out of the editor without writing, then out of the select.
    b.on_gesture(Gesture::Hold, &mut live);
    tap(&mut b, &mut live);
    b.on_gesture(Gesture::Double, &mut live);
    assert!(matches!(b.mode, Some(Mode::Select { cursor: 0 })));
    b.on_gesture(Gesture::Double, &mut live);
    assert!(b.mode.is_none());
    assert_eq!(live.entry_delay_ms(), 5_000);
}

#[test]
fn a_screen_direction_flips_on_confirmation() {
    let mut live = LiveConf::new();
    let mut b = Browser::new(&blank());
    b.on_gesture(Gesture::Double, &mut live);
    b.on_gesture(Gesture::Hold, &mut live);
    tap(&mut b, &mut live);
    b.on_gesture(Gesture::Hold, &mut live);
    tap(&mut b, &mut live);
    assert!(matches!(
        b.on_gesture(Gesture::Hold, &mut live),
        Effect::Applied {
            item: Setting::ScreenFlip,
            record: [3, 1]
        }
    ));
    assert!(live.screen_flip());
}

#[test]
fn a_hold_without_anything_to_enter_is_inert() {
    let mut live = LiveConf::new();
    let mut b = Browser::new(&blank());
    for page in 0..11 {
        b.page = page;
        assert!(matches!(b.on_gesture(Gesture::Hold, &mut live), Effect::Nothing));
        assert!(b.mode.is_none(), "page {page}");
    }
}

#[test]
fn a_pick_walks_its_page_and_opens_the_slot() {
    let mut live = LiveConf::new();
    let mut s = blank();
    s.piv.slots[1] = key_slot(0x9C, "RSA-2048");
    s.piv.slots[3] = key_slot(0x9E, "EC-P256");
    s.piv.slots[3].cert = true;
    s.piv.slots[3].origin = "\u{2014}";
    s.piv.populated = 2;
    let mut b = Browser::new(&s);
    assert_eq!(first_exp_row(&b.menu, 1, 0), Some(1));
    assert_eq!(next_exp_row(&b.menu, 1, 0, 1), 3);
    assert_eq!(next_exp_row(&b.menu, 1, 0, 3), 1);
    // Around the page once, and back.
    let mut walk = vec![1];
    while walk.len() < 5 {
        walk.push(next_exp_row(&b.menu, 1, 0, walk[walk.len() - 1]));
    }
    assert_eq!(walk, vec![1, 3, 1, 3, 1]);
    b.page = 2;
    b.on_gesture(Gesture::Hold, &mut live);
    let f = b.frame(&live);
    assert!(f.rows[1].emph && f.rows[1].tone == Tone::Good);
    assert!(!f.rows[3].emph);
    tap(&mut b, &mut live);
    match b.on_gesture(Gesture::Hold, &mut live) {
        Effect::Open { src } => assert_eq!(src, DetailSrc::PivPrimary { idx: 3 }),
        other => panic!("nothing opened: {other:?}"),
    }
    b.open_piv(&s.piv.slots);
    let f = b.frame(&live);
    assert_eq!((f.title.as_str(), f.page, f.pages), ("9E CARD", 0, 1));
    let rows: Vec<(&str, &str)> = f
        .rows
        .iter()
        .map(|r| (r.left.as_str(), r.right.as_str()))
        .collect();
    assert_eq!(
        rows,
        vec![
            ("PIN POLICY", "ONCE"),
            ("TOUCH POLICY", "ALWAYS"),
            ("ORIGIN", "--"),
            ("CERTIFICATE", "YES"),
        ]
    );
    // A policy page is a single frame, and a hold confirms nothing.
    tap(&mut b, &mut live);
    assert!(matches!(b.on_gesture(Gesture::Hold, &mut live), Effect::Nothing));
    b.on_gesture(Gesture::Double, &mut live);
    assert!(matches!(&b.mode, Some(Mode::Pick(p)) if p.row == 3));
    b.on_gesture(Gesture::Double, &mut live);
    assert!(b.mode.is_none());
    assert_eq!(b.page, 2);
}

#[test]
fn a_vanished_object_leaves_the_pick_where_it_is() {
    let mut live = LiveConf::new();
    let mut s = blank();
    s.piv.slots[0] = key_slot(0x9A, "RSA-2048");
    let mut b = Browser::new(&s);
    b.page = 2;
    b.on_gesture(Gesture::Hold, &mut live);
    b.open_piv(&[EMPTY_SLOT; 4]);
    assert!(matches!(&b.mode, Some(Mode::Pick(p)) if p.row == 0));
    // Fewer slots than the row counts on are no slot either.
    b.open_piv(&[]);
    assert!(matches!(&b.mode, Some(Mode::Pick(p)) if p.row == 0));
}

#[test]
fn a_retired_row_opens_the_slot_it_names() {
    let mut live = LiveConf::new();
    let mut s = blank();
    let mut cert_only = EMPTY_SLOT;
    cert_only.cert = true;
    let mut second = key_slot(0x95, "EC-P256");
    second.touch_policy = "NEVER";
    let extra = [key_slot(0x82, "RSA-2048"), cert_only, second];
    s.piv_extra = &extra;
    let mut b = Browser::new(&s);
    b.page = 4;
    b.on_gesture(Gesture::Hold, &mut live);
    tap(&mut b, &mut live);
    assert!(matches!(
        b.on_gesture(Gesture::Hold, &mut live),
        Effect::Open {
            src: DetailSrc::PivRetired { nth: 1 }
        }
    ));
    b.open_piv(&extra);
    let f = b.frame(&live);
    assert_eq!(f.title, "95 RETIRED");
    assert_eq!(f.rows[1].right, "NEVER");
}

fn account(user_name: &'static str, display: &'static str, cred_protect: u8) -> Account<'static> {
    Account {
        user_name,
        user_display_name: display,
        cred_protect,
    }
}

#[test]
fn a_relying_party_opens_its_credential_pages() {
    let mut live = LiveConf::new();
    let mut s = blank();
    let rps = [rp("example.com", None, 6)];
    s.rps = &rps;
    let accounts = [
        account("alice", "Alice", 1),
        account("", "Bob B.", 2),
        account("", "", 3),
        account("dora", "", 0),
        account("eve", "", 0),
        account("fay", "", 2),
    ];
    let mut b = Browser::new(&s);
    // Overview, PIV and OpenPGP take two pages each, OATH one; the counters
    // screen comes first.
    b.page = 8;
    b.on_gesture(Gesture::Hold, &mut live);
    assert!(matches!(
        b.on_gesture(Gesture::Hold, &mut live),
        Effect::Open {
            src: DetailSrc::PkRp { nth: 0 }
        }
    ));
    b.open_rp(Some(&accounts));
    let f = b.frame(&live);
    assert_eq!((f.title.as_str(), f.page, f.pages), ("example.com", 0, 2));
    let rows: Vec<(&str, &str)> = f
        .rows
        .iter()
        .map(|r| (r.left.as_str(), r.right.as_str()))
        .collect();
    assert_eq!(
        rows,
        vec![("alice", ""), ("Bob B.", "UV"), ("(no name)", "UV"), ("dora", "")]
    );
    let page = match b.on_gesture(Gesture::Tap, &mut live) {
        Effect::Turn { nth: 0, page } => page,
        other => panic!("no page turn: {other:?}"),
    };
    b.turn(page, Some(&accounts));
    let f = b.frame(&live);
    assert_eq!((f.page, f.pages, f.rows.len()), (1, 2, 2));
    assert_eq!(f.rows[1].left, "fay");
    // The last page turns to the first.
    assert!(matches!(
        b.on_gesture(Gesture::Tap, &mut live),
        Effect::Turn { nth: 0, page: 0 }
    ));
    // A relying party that is gone shows an empty page.
    b.turn(0, None);
    let f = b.frame(&live);
    assert_eq!((f.page, f.pages, f.rows.len()), (0, 1, 0));
    b.on_gesture(Gesture::Double, &mut live);
    b.open_rp(None);
    assert!(matches!(b.mode, Some(Mode::Pick(_))));
    b.open_rp(Some(&[]));
    assert!(matches!(b.mode, Some(Mode::Pick(_))));
}

#[test]
fn every_shown_text_is_printable() {
    let mut s = blank();
    let rps = [rp("b\u{fc}cher.example", Some("\u{1F511} key"), 1)];
    s.rps = &rps;
    s.pgp.holder = &[0, 1, 2, 0x80];
    let live = LiveConf::new();
    let mut b = Browser::new(&s);
    for page in 0..b.total_pages {
        b.page = page;
        let f = b.frame(&live);
        for text in f.rows.iter().flat_map(|r| [&r.left, &r.right]) {
            assert!(text.bytes().all(|c| (0x20..=0x7E).contains(&c)), "{text}");
        }
    }
}
