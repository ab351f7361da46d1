use antgrid::registry::Registry;
use antgrid::resolver::{next_target, roll_next, table_target};
use antgrid::tile::{Entry, NextGen, TileRecord};

fn entry(target: usize, lower: usize, upper: usize) -> Entry {
    Entry { target, lower, upper }
}

#[test]
fn scan_returns_last_matching_entry_on_overlap() {
    // entries A:[5,15], B:[10,20]; a roll of 12 matches both and resolves to B
    let table = vec![entry(0, 5, 15), entry(1, 10, 20)];
    assert_eq!(table_target(&table, 12, 99), 1);
    assert_eq!(table_target(&table, 7, 99), 0);
    assert_eq!(table_target(&table, 18, 99), 1);
}

#[test]
fn scan_without_match_keeps_previous_target() {
    let table = vec![entry(0, 5, 15), entry(1, 10, 20)];
    assert_eq!(table_target(&table, 3, 99), 99);
    assert_eq!(table_target(&Vec::new(), 12, 7), 7);
}

#[test]
fn rolls_of_one_and_twenty_ignore_the_table() {
    let table = vec![entry(0, 1, 20)];
    // every roll in between follows the table
    for r in 2..=19usize {
        assert_eq!(next_target(&table, r, 5, 9), 0);
    }
    // 1 and 20 take the wildcard draw, whatever the table says
    assert_eq!(next_target(&table, 1, 5, 9), 5);
    assert_eq!(next_target(&table, 20, 5, 9), 5);
    assert_eq!(next_target(&Vec::new(), 1, 3, 9), 3);
    assert_eq!(next_target(&Vec::new(), 20, 3, 9), 3);
}

fn record(name: &str, limit: usize) -> TileRecord {
    TileRecord {
        name: String::from(name),
        color: String::from("#808080"),
        inner_color: None,
        village: false,
        tower: false,
        corruption: false,
        nextgen: Vec::new(),
        limit,
    }
}

#[test]
fn resolver_skips_exhausted_quotas_and_falls_back_to_corruption() {
    // the source's whole table points at a tile with no quota left, so every
    // non-wildcard roll must decay to the corruption tile
    let mut village = record("village", 5);
    village.village = true;
    let mut tower = record("tower", 0);
    tower.tower = true;
    let mut corruption = record("corruption", 1000);
    corruption.corruption = true;
    let mut source = record("source", 1);
    source.nextgen.push(NextGen { name: String::from("tower"), lower: 1, upper: 20 });
    let mut reg = Registry::new(vec![village, tower, corruption, source]).unwrap();
    // exhaust the village too, so a wildcard draw can only land on a tile
    // with remaining quota or decay to corruption
    for _ in 0..5 {
        reg.decrement_quota(0);
    }
    let mut rng = rand::rng();
    for _ in 0..200 {
        let t = roll_next(&reg, 3, &mut rng);
        assert!(t < reg.tiles.len());
        assert!(reg.tiles[t].limit != 0 || t == reg.corruption);
        // tower has no quota left and may never come out
        assert_ne!(t, reg.tower);
    }
}
