use home_dashboard::clock::Clock;
use home_dashboard::tz::Tz;

#[test]
fn fresh_clock_reports_monotonic_time() {
    let clock = Clock::new(Tz::utc());
    assert_eq!(clock.now(12345), 12345);
}

#[test]
fn sync_sets_reported_time_to_the_source() {
    let mut clock = Clock::new(Tz::utc());
    clock.sync(5000, 1_700_000_000);
    assert_eq!(clock.now(5000), 1_700_000_000);
    assert_eq!(clock.now(5010), 1_700_000_010);
}

#[test]
fn sync_ahead_of_source_clamps_to_zero() {
    let mut clock = Clock::new(Tz::utc());
    clock.sync(9000, 100);
    assert_eq!(clock.now(9000), 9000);
}

#[test]
fn sync_one_thousand_ahead_advances_now_by_one_thousand() {
    let mut clock = Clock::new(Tz::utc());
    let monotonic_now = 5000u64;
    let before = clock.now(monotonic_now);
    clock.sync(monotonic_now, monotonic_now + 1000);
    let after = clock.now(monotonic_now);
    assert_eq!(after, before + 1000);
}

#[test]
fn resync_replaces_the_offset() {
    let mut clock = Clock::new(Tz::utc());
    clock.sync(100, 1000);
    clock.sync(200, 5200);
    assert_eq!(clock.now(200), 5200);
}

#[test]
fn local_time_shifts_by_zone_offset() {
    let mut clock = Clock::new(Tz::fixed(3600));
    clock.sync(0, 1_700_000_000);
    assert_eq!(clock.now_local(0), 1_700_003_600);
    let west = Clock::new(Tz::fixed(-3600));
    assert_eq!(west.now_local(10_000), 6_400);
}

#[test]
fn current_minute_follows_the_local_clock() {
    // 2024-01-01 00:00:00 UTC is epoch 1704067200: minute 0 in UTC.
    let mut clock = Clock::new(Tz::utc());
    clock.sync(0, 1_704_067_200);
    assert_eq!(clock.current_minute(0), 0);
    assert_eq!(clock.current_minute(59), 0);
    assert_eq!(clock.current_minute(60), 1);
    assert_eq!(clock.current_minute(35 * 60), 35);
    // With a +30 minute zone the local minute runs half an hour ahead.
    let mut shifted = Clock::new(Tz::fixed(1800));
    shifted.sync(0, 1_704_067_200);
    assert_eq!(shifted.current_minute(0), 30);
}

#[test]
fn zone_lookup_finds_utc() {
    let tz = Tz::lookup("UTC", 0).unwrap();
    assert_eq!(tz.offset_sec, 0);
}

#[test]
fn zone_lookup_rejects_unknown_names() {
    assert!(Tz::lookup("Nowhere/Imaginary", 0).is_none());
}

#[test]
fn zone_lookup_knows_berlin_offsets() {
    // 2024-01-10 12:00 UTC: Berlin standard time, +1 hour.
    let winter = Tz::lookup("Europe/Berlin", 1_704_888_000).unwrap();
    assert_eq!(winter.offset_sec, 3600);
    // 2024-07-10 12:00 UTC: Berlin daylight saving time, +2 hours.
    let summer = Tz::lookup("Europe/Berlin", 1_720_612_800).unwrap();
    assert_eq!(summer.offset_sec, 7200);
}
