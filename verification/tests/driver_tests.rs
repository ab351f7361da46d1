use antgrid::color::Color;
use antgrid::driver::{find_empty_cell, generate, place_city, seed_villages};
use antgrid::grid::Grid;
use antgrid::registry::Registry;
use antgrid::render::pixel_color;
use antgrid::tile::{Tile, TileRecord};

fn record(name: &str, limit: usize) -> TileRecord {
    TileRecord {
        name: String::from(name),
        color: String::from("#224466"),
        inner_color: None,
        village: false,
        tower: false,
        corruption: false,
        nextgen: Vec::new(),
        limit,
    }
}

/// One village tile (quota 5, no transitions) and one corruption tile with a
/// large quota, which also stands in as the tower tile.
fn small_config() -> Vec<TileRecord> {
    let mut village = record("village", 5);
    village.village = true;
    let mut corruption = record("corruption", 100000);
    corruption.corruption = true;
    corruption.tower = true;
    vec![village, corruption]
}

fn count_named(grid: &Grid, name: &str) -> usize {
    let mut n = 0;
    for y in 1..=20usize {
        for x in 1..=20usize {
            if let Some(Some(t)) = grid.get(x, y) {
                if t.name == name {
                    n += 1;
                }
            }
        }
    }
    n
}

#[test]
fn city_block_places_nine_village_cells() {
    let reg = Registry::new(small_config()).unwrap();
    let mut grid = Grid::new();
    let mut rng = rand::rng();
    place_city(&mut grid, &reg, &mut rng);
    assert_eq!(count_named(&grid, "village"), 9);
    // no quota accounting for the city block
    assert_eq!(reg.tiles[reg.village].limit, 5);
}

#[test]
fn seeding_places_villages_spawns_ants_and_spends_quota() {
    let mut reg = Registry::new(small_config()).unwrap();
    let mut grid = Grid::new();
    let mut rng = rand::rng();
    let ants = seed_villages(&mut grid, &mut reg, &mut rng, 3);
    assert_eq!(ants.len(), 3);
    assert_eq!(count_named(&grid, "village"), 3);
    assert_eq!(reg.tiles[reg.village].limit, 2);
    for a in &ants {
        assert!(grid.get(a.x, a.y).unwrap().is_some());
    }
}

#[test]
fn find_empty_cell_reports_an_empty_cell_or_fullness() {
    let mut grid = Grid::new();
    let mut rng = rand::rng();
    let (x, y) = find_empty_cell(&grid, &mut rng).unwrap();
    assert!(grid.get(x, y).unwrap().is_none());
    let filler = Tile {
        name: String::from("t"),
        color: Color { r: 0, g: 0, b: 0 },
        inner_color: Color { r: 0, g: 0, b: 0 },
    };
    for y in 1..=20usize {
        for x in 1..=20usize {
            grid.try_place(x, y, filler.clone());
        }
    }
    assert!(find_empty_cell(&grid, &mut rng).is_none());
}

#[test]
fn generation_terminates_full_and_respects_the_village_budget() {
    let mut reg = Registry::new(small_config()).unwrap();
    let mut rng = rand::rng();
    let (grid, complete) = generate(&mut reg, &mut rng, 1);
    assert!(complete);
    assert!(grid.is_full());
    for y in 1..=20usize {
        for x in 1..=20usize {
            assert!(grid.get(x, y).unwrap().is_some());
        }
    }
    // at most the 9 city cells plus the configured quota of 5 are villages
    assert!(count_named(&grid, "village") <= 9 + 5);
    assert_eq!(
        count_named(&grid, "village") + count_named(&grid, "corruption"),
        400
    );
}

#[test]
fn pixel_colors_split_border_from_center() {
    let t = Tile {
        name: String::from("t"),
        color: Color { r: 1, g: 2, b: 3 },
        inner_color: Color { r: 7, g: 8, b: 9 },
    };
    assert_eq!(pixel_color(&t, 0, 0), Color { r: 1, g: 2, b: 3 });
    assert_eq!(pixel_color(&t, 9, 9), Color { r: 1, g: 2, b: 3 });
    assert_eq!(pixel_color(&t, 3, 3), Color { r: 7, g: 8, b: 9 });
    assert_eq!(pixel_color(&t, 6, 6), Color { r: 7, g: 8, b: 9 });
    assert_eq!(pixel_color(&t, 2, 4), Color { r: 1, g: 2, b: 3 });
    assert_eq!(pixel_color(&t, 4, 7), Color { r: 1, g: 2, b: 3 });
}
