use rsk_keys::menu_conf::{MenuConf, DELAY_OPTIONS_S};
use rsk_keys::pages::{paint_applied, paint_editor, paint_settings_overview};
use rsk_keys::row::Tone;
use rsk_keys::settings::{
    fill_number, setting_index, LiveConf, Setting, SCREEN_FLIP_OPTIONS_DEG, SETTINGS_LIST,
};

#[test]
fn a_fresh_device_waits_half_a_minute_unflipped() {
    let live = LiveConf::new();
    assert_eq!(live.entry_delay_ms(), 30_000);
    assert!(!live.screen_flip());
    assert_eq!(live.save_menu_conf(), [3, 0]);
}

#[test]
fn a_record_loads_field_by_field() {
    let mut live = LiveConf::new();
    live.load_menu_conf(&[1, 1], 2);
    assert_eq!((live.entry_delay_ms(), live.screen_flip()), (5_000, true));
    // A one-byte record carries no flip.
    live.load_menu_conf(&[2, 1], 1);
    assert_eq!((live.entry_delay_ms(), live.screen_flip()), (10_000, false));
    // An unlisted index keeps the delay in force; the flip still counts.
    live.load_menu_conf(&[9, 1], 2);
    assert_eq!((live.entry_delay_ms(), live.screen_flip()), (10_000, true));
    live.load_menu_conf(&[0, 1], 0);
    assert_eq!((live.entry_delay_ms(), live.screen_flip()), (10_000, false));
}

#[test]
fn boot_and_decode_agree() {
    for rec in [[0u8, 0], [1, 1], [3, 0], [4, 1], [200, 7]] {
        for n in 0..3usize {
            let mut live = LiveConf::new();
            live.load_menu_conf(&rec, n);
            let conf = MenuConf::decode(&rec, n);
            assert_eq!(live.entry_delay_ms(), u64::from(conf.delay_ms()));
            assert_eq!(live.screen_flip(), conf.flip);
        }
    }
}

#[test]
fn an_applied_option_survives_a_restart() {
    for item in SETTINGS_LIST {
        for idx in 0..item.options().len() {
            let mut live = LiveConf::new();
            let record = item.apply(&mut live, idx).expect("a listed option");
            assert_eq!(item.current_index(&live), idx);
            let mut next = LiveConf::new();
            next.load_menu_conf(&record, 2);
            assert_eq!(next, live);
        }
    }
}

#[test]
fn only_a_screen_direction_turns_the_panel() {
    let mut live = LiveConf::new();
    Setting::MenuDelay.apply(&mut live, 0);
    assert_eq!(Setting::MenuDelay.panel_turn(&live), None);
    Setting::ScreenFlip.apply(&mut live, 1);
    assert_eq!(Setting::ScreenFlip.panel_turn(&live), Some(true));
    assert_eq!(Setting::MenuDelay.panel_turn(&live), None);
    Setting::ScreenFlip.apply(&mut live, 0);
    assert_eq!(Setting::ScreenFlip.panel_turn(&live), Some(false));
}

#[test]
fn an_option_past_the_table_changes_nothing() {
    let mut live = LiveConf::new();
    assert_eq!(live.apply_entry_delay(4), None);
    assert_eq!(live.apply_screen_flip(2), None);
    assert_eq!(Setting::ScreenFlip.apply(&mut live, 9), None);
    assert_eq!(live, LiveConf::new());
}

#[test]
fn an_unlisted_live_delay_reads_as_the_default_option() {
    let live = LiveConf {
        entry_ms: 7_000,
        flip: true,
    };
    assert_eq!(live.current_delay_idx(), 3);
    assert_eq!(Setting::MenuDelay.current_index(&live), 3);
    assert_eq!(live.save_menu_conf(), [3, 1]);
}

#[test]
fn options_carry_their_units() {
    let mut buf = [0u8; 12];
    let n = Setting::MenuDelay.fill_value(3, &mut buf);
    assert_eq!(&buf[..n], b"30S");
    let n = Setting::ScreenFlip.fill_value(1, &mut buf);
    assert_eq!(&buf[..n], b"180");
    let n = Setting::MenuDelay.fill_option(1, &mut buf);
    assert_eq!(&buf[..n], b"5 SECONDS");
    let n = Setting::ScreenFlip.fill_option(1, &mut buf);
    assert_eq!(&buf[..n], b"180 DEG");
    // An index past the table reads as the default.
    let n = Setting::MenuDelay.fill_value(9, &mut buf);
    assert_eq!(&buf[..n], b"30S");
    assert_eq!(Setting::ScreenFlip.value_index(9), 0);
    let n = fill_number(42, &mut buf);
    assert_eq!(&buf[..n], b"42");
    let mut eight = [0u8; 8];
    assert_eq!(fill_number(12345, &mut eight), 5);
    assert_eq!(&eight, b"12345\0\0\0");
}

#[test]
fn settings_know_their_rows() {
    assert_eq!(setting_index(Setting::MenuDelay), 0);
    assert_eq!(setting_index(Setting::ScreenFlip), 1);
    assert_eq!(Setting::MenuDelay.name(), "MENU DELAY");
    assert_eq!(Setting::ScreenFlip.name(), "SCREEN DIRECTION");
    assert_eq!(Setting::MenuDelay.options(), &DELAY_OPTIONS_S);
    assert_eq!(Setting::ScreenFlip.options(), &SCREEN_FLIP_OPTIONS_DEG);
}

#[test]
fn the_overview_lists_the_values_in_force() {
    let live = LiveConf {
        entry_ms: 5_000,
        flip: true,
    };
    let f = paint_settings_overview(None, &live);
    assert_eq!((f.title.as_str(), f.page, f.pages), ("SETTINGS", 0, 1));
    assert_eq!(f.rows.len(), 2);
    assert_eq!((f.rows[0].left.as_str(), f.rows[0].right.as_str()), ("MENU DELAY", "5S"));
    assert_eq!(
        (f.rows[1].left.as_str(), f.rows[1].right.as_str()),
        ("SCREEN DIRECTION", "180")
    );
    assert!(f.rows.iter().all(|r| r.tone == Tone::Good && !r.emph));
    // In the select mode only the cursor row keeps the tone.
    let f = paint_settings_overview(Some(1), &live);
    assert_eq!((f.rows[0].tone, f.rows[0].emph), (Tone::Plain, false));
    assert_eq!((f.rows[1].tone, f.rows[1].emph), (Tone::Good, true));
}

#[test]
fn the_editor_stars_the_cursor_option() {
    let f = paint_editor(Setting::MenuDelay, 2);
    assert_eq!(f.title, "MENU DELAY");
    let rows: Vec<(&str, &str, Tone)> = f
        .rows
        .iter()
        .map(|r| (r.left.as_str(), r.right.as_str(), r.tone))
        .collect();
    assert_eq!(
        rows,
        vec![
            ("3 SECONDS", "", Tone::Plain),
            ("5 SECONDS", "", Tone::Plain),
            ("10 SECONDS", "*", Tone::Good),
            ("30 SECONDS", "", Tone::Plain),
        ]
    );
    let f = paint_applied(Setting::ScreenFlip);
    assert_eq!((f.title.as_str(), f.rows[0].left.as_str()), ("SCREEN DIRECTION", "APPLIED"));
    assert_eq!(f.rows[0].tone, Tone::Good);
}
