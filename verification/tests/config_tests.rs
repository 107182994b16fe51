use motion_desk::config::{standing_threshold, Config, StoredConfig, DEFAULT_STANDING_HEIGHT};

fn stored(f: [Option<u32>; 3], sit: Option<u32>, stand: Option<u32>) -> StoredConfig {
    StoredConfig { fav1: f[0], fav2: f[1], fav3: f[2], sit, stand }
}

#[test]
fn legacy_presets_move_to_favourites() {
    let c = Config::from_stored(stored([None, None, None], Some(7500), Some(11000)));
    assert_eq!(c.favs(), [Some(7500), Some(11000), None]);
}

#[test]
fn favourites_win_over_legacy() {
    let c = Config::from_stored(stored([None, None, Some(9000)], Some(7500), Some(11000)));
    assert_eq!(c.favs(), [None, None, Some(9000)]);
}

#[test]
fn save_load_round_trip() {
    let mut c = Config::new();
    c.set_fav(1, 8000);
    assert_eq!(Config::from_stored(c.to_stored()), c);
    let empty = Config::default();
    assert_eq!(Config::from_stored(empty.to_stored()), empty);
    assert_eq!(empty.to_stored().sit, None);
}

#[test]
fn set_then_read() {
    let mut c = Config::new();
    c.set_fav(0, 7200);
    c.set_fav(2, 11500);
    assert_eq!(c.favs(), [Some(7200), None, Some(11500)]);
    assert_eq!(c.fav(2), Some(11500));
    assert_eq!(c.fav(1), None);
    assert_eq!(c.fav(3), None);
    c.set_fav(3, 9999);
    assert_eq!(c.favs(), [Some(7200), None, Some(11500)]);
}

#[test]
fn threshold_midpoint() {
    let mut c = Config::new();
    c.set_fav(0, 7500);
    c.set_fav(1, 11000);
    assert_eq!(standing_threshold(&c), 18500);
    c.set_fav(2, 12000);
    assert_eq!(standing_threshold(&c), 19500);
}

#[test]
fn threshold_exact_half() {
    // 72.00 and 110.01 cm: the midpoint is 91.005 cm.
    let mut c = Config::new();
    c.set_fav(0, 7200);
    c.set_fav(2, 11001);
    assert_eq!(standing_threshold(&c), 18201);
}

#[test]
fn threshold_default_with_fewer_than_two() {
    let mut c = Config::new();
    assert_eq!(standing_threshold(&c), 2 * DEFAULT_STANDING_HEIGHT as u64);
    c.set_fav(1, 7000);
    assert_eq!(standing_threshold(&c), 18000);
}
