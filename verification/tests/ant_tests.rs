use antgrid::ant::Ant;
use antgrid::dice::{d4_to_dx, d4_to_dy, pick_index, roll_d20, roll_d4};

#[test]
fn d4_offsets_follow_the_cyclic_order() {
    assert_eq!((d4_to_dx(1), d4_to_dy(1)), (0, 1));
    assert_eq!((d4_to_dx(2), d4_to_dy(2)), (1, 0));
    assert_eq!((d4_to_dx(3), d4_to_dy(3)), (0, -1));
    assert_eq!((d4_to_dx(4), d4_to_dy(4)), (-1, 0));
}

#[test]
fn dice_rolls_stay_in_their_ranges() {
    let mut rng = rand::rng();
    for _ in 0..1000 {
        let d20 = roll_d20(&mut rng);
        assert!((1..=20).contains(&d20));
        let d4 = roll_d4(&mut rng);
        assert!((1..=4).contains(&d4));
        let i = pick_index(&mut rng, 7);
        assert!(i < 7);
    }
}

#[test]
fn rolls_are_not_constant() {
    let mut rng = rand::rng();
    let mut seen = [false; 21];
    for _ in 0..2000 {
        seen[roll_d20(&mut rng)] = true;
    }
    let distinct: usize = seen.iter().filter(|b| **b).count();
    assert!(distinct >= 15);
}

#[test]
fn ant_new_keeps_the_given_cell() {
    let a = Ant::new(4, 17);
    assert_eq!(a.x, 4);
    assert_eq!(a.y, 17);
}

#[test]
fn movement_never_leaves_the_grid() {
    let mut rng = rand::rng();
    // corners are where rejection sampling matters most
    for &(sx, sy) in &[(1usize, 1usize), (20, 20), (1, 20), (20, 1), (10, 10)] {
        let mut a = Ant::new(sx, sy);
        for _ in 0..5000 {
            let (px, py) = (a.x, a.y);
            a.update(&mut rng);
            assert!((1..=20).contains(&a.x));
            assert!((1..=20).contains(&a.y));
            // one step along exactly one axis
            let dx = a.x as isize - px as isize;
            let dy = a.y as isize - py as isize;
            assert_eq!(dx.abs() + dy.abs(), 1);
        }
    }
}
