use rsk_keys::entry::EntryWait;
use rsk_keys::render::keys::StatusKind;
use rsk_keys::settings::LiveConf;

fn live(entry_ms: u32) -> LiveConf {
    LiveConf {
        entry_ms,
        flip: false,
    }
}

/// The first tick, polled every 100 ms from `from`, at which the menu opens.
fn opens(w: &mut EntryWait, from: u64, conf: &LiveConf) -> u64 {
    let mut now = from;
    while !w.tick(StatusKind::Boot, now, conf) {
        now += 100;
        assert!(now < from + 100_000, "the menu never opened");
    }
    now
}

#[test]
fn the_menu_opens_after_the_entry_delay() {
    assert_eq!(opens(&mut EntryWait::new(), 700, &LiveConf::new()), 30_700);
    assert_eq!(opens(&mut EntryWait::new(), 700, &live(3_000)), 3_700);
    assert_eq!(opens(&mut EntryWait::new(), 700, &live(0)), 700);
}

#[test]
fn a_host_starts_the_count_anew() {
    let conf = live(3_000);
    let mut w = EntryWait::new();
    assert!(!w.tick(StatusKind::Boot, 0, &conf));
    assert!(!w.tick(StatusKind::Boot, 2_900, &conf));
    for kind in [StatusKind::Idle, StatusKind::Processing, StatusKind::Touch] {
        assert!(!w.tick(kind, 5_000, &conf));
        assert_eq!(w.since, None);
    }
    assert_eq!(opens(&mut w, 6_000, &conf), 9_000);
    // It stays due while nothing else happens.
    assert!(w.tick(StatusKind::Boot, 9_100, &conf));
}

#[test]
fn a_changed_delay_counts_at_once() {
    let mut w = EntryWait::new();
    assert!(!w.tick(StatusKind::Boot, 0, &live(30_000)));
    assert!(!w.tick(StatusKind::Boot, 4_000, &live(30_000)));
    assert!(w.tick(StatusKind::Boot, 4_100, &live(3_000)));
}
