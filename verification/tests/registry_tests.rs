use antgrid::color::Color;
use antgrid::registry::Registry;
use antgrid::tile::{false_v, ConfigError, NextGen, TileRecord};

fn record(name: &str, color: &str, limit: usize) -> TileRecord {
    TileRecord {
        name: String::from(name),
        color: String::from(color),
        inner_color: None,
        village: false_v(),
        tower: false_v(),
        corruption: false_v(),
        nextgen: Vec::new(),
        limit,
    }
}

fn basic_records() -> Vec<TileRecord> {
    let mut village = record("village", "#AA0000", 5);
    village.village = true;
    let mut tower = record("tower", "#00BB00", 3);
    tower.tower = true;
    let mut corruption = record("corruption", "#0000CC", 1000);
    corruption.inner_color = Some(String::from("#111111"));
    corruption.corruption = true;
    vec![village, tower, corruption]
}

#[test]
fn builds_and_resolves_roles_and_colors() {
    let reg = Registry::new(basic_records()).unwrap();
    assert_eq!(reg.tiles.len(), 3);
    assert_eq!(reg.village, 0);
    assert_eq!(reg.tower, 1);
    assert_eq!(reg.corruption, 2);
    assert_eq!(reg.tiles[0].color, Color { r: 0xaa, g: 0, b: 0 });
    // inner color defaults to the outer color when unspecified
    assert_eq!(reg.tiles[0].inner_color, Color { r: 0xaa, g: 0, b: 0 });
    assert_eq!(reg.tiles[2].color, Color { r: 0, g: 0, b: 0xcc });
    assert_eq!(reg.tiles[2].inner_color, Color { r: 0x11, g: 0x11, b: 0x11 });
    assert_eq!(reg.tiles[0].limit, 5);
}

#[test]
fn lookup_finds_by_name_and_reports_unknown() {
    let reg = Registry::new(basic_records()).unwrap();
    assert_eq!(reg.lookup(&String::from("tower")), Ok(1));
    assert_eq!(
        reg.lookup(&String::from("swamp")),
        Err(ConfigError::UnknownTile)
    );
}

#[test]
fn transition_targets_resolve_to_indices() {
    let mut recs = basic_records();
    recs[0].nextgen.push(NextGen { name: String::from("corruption"), lower: 2, upper: 10 });
    recs[0].nextgen.push(NextGen { name: String::from("tower"), lower: 5, upper: 19 });
    let reg = Registry::new(recs).unwrap();
    assert_eq!(reg.tiles[0].table.len(), 2);
    assert_eq!(reg.tiles[0].table[0].target, 2);
    assert_eq!(reg.tiles[0].table[0].lower, 2);
    assert_eq!(reg.tiles[0].table[0].upper, 10);
    assert_eq!(reg.tiles[0].table[1].target, 1);
}

#[test]
fn bad_color_is_fatal() {
    let mut recs = basic_records();
    recs[1].color = String::from("00BB00");
    assert!(matches!(Registry::new(recs), Err(ConfigError::BadColor)));
    let mut recs2 = basic_records();
    recs2[2].inner_color = Some(String::from("#12345"));
    assert!(matches!(Registry::new(recs2), Err(ConfigError::BadColor)));
}

#[test]
fn duplicate_names_are_fatal() {
    let mut recs = basic_records();
    recs.push(record("tower", "#123456", 1));
    assert!(matches!(Registry::new(recs), Err(ConfigError::DuplicateTile)));
}

#[test]
fn unknown_transition_target_is_fatal() {
    let mut recs = basic_records();
    recs[0].nextgen.push(NextGen { name: String::from("swamp"), lower: 2, upper: 10 });
    assert!(matches!(Registry::new(recs), Err(ConfigError::UnknownTile)));
}

#[test]
fn missing_role_tile_is_fatal() {
    let mut recs = basic_records();
    recs[0].village = false;
    assert!(matches!(Registry::new(recs), Err(ConfigError::MissingRoleTile)));
    let mut recs2 = basic_records();
    recs2[2].corruption = false;
    assert!(matches!(Registry::new(recs2), Err(ConfigError::MissingRoleTile)));
}

#[test]
fn quota_decrements_stop_at_zero() {
    let mut reg = Registry::new(basic_records()).unwrap();
    assert_eq!(reg.tiles[1].limit, 3);
    reg.decrement_quota(1);
    reg.decrement_quota(1);
    reg.decrement_quota(1);
    assert_eq!(reg.tiles[1].limit, 0);
    // a remaining count never goes below zero
    reg.decrement_quota(1);
    assert_eq!(reg.tiles[1].limit, 0);
    // nothing else changed
    assert_eq!(reg.tiles[0].limit, 5);
    assert_eq!(reg.tiles[1].name, "tower");
}

#[test]
fn snapshot_copies_identity_and_colors() {
    let reg = Registry::new(basic_records()).unwrap();
    let t = reg.tiles[2].snapshot();
    assert_eq!(t.name, "corruption");
    assert_eq!(t.color, Color { r: 0, g: 0, b: 0xcc });
    assert_eq!(t.inner_color, Color { r: 0x11, g: 0x11, b: 0x11 });
}
