use modelc::fixed::Fixed;
use modelc::types::{Direction, Display, DisplayTransformation};

const ALL: [Direction; 6] = [
    Direction::Down,
    Direction::Up,
    Direction::North,
    Direction::South,
    Direction::West,
    Direction::East,
];

#[test]
fn index_follows_the_fixed_order() {
    for (i, d) in ALL.iter().enumerate() {
        assert_eq!(d.index(), i);
    }
}

#[test]
fn cycle_steps_through_the_fixed_order_and_wraps() {
    for (i, d) in ALL.iter().enumerate() {
        assert_eq!(d.cycle(), ALL[(i + 1) % 6]);
        assert_eq!(d.cycle().index(), (d.index() + 1) % 6);
    }
    let mut d = Direction::South;
    for _ in 0..6 {
        d = d.cycle();
    }
    assert_eq!(d, Direction::South);
}

#[test]
fn negative_axis_holds_for_down_north_west() {
    assert!(Direction::Down.negative_axis());
    assert!(!Direction::Up.negative_axis());
    assert!(Direction::North.negative_axis());
    assert!(!Direction::South.negative_axis());
    assert!(Direction::West.negative_axis());
    assert!(!Direction::East.negative_axis());
}

#[test]
fn vectors_are_the_six_axis_unit_vectors() {
    let o = Fixed::zero();
    let p = Fixed::one();
    let m = Fixed::from_raw(-65536);
    assert_eq!(Direction::Down.vector(), [o, m, o]);
    assert_eq!(Direction::Up.vector(), [o, p, o]);
    assert_eq!(Direction::North.vector(), [o, o, m]);
    assert_eq!(Direction::South.vector(), [o, o, p]);
    assert_eq!(Direction::West.vector(), [m, o, o]);
    assert_eq!(Direction::East.vector(), [p, o, o]);
}

#[test]
fn vectors_are_distinct_and_negative_exactly_on_negative_axes() {
    for a in ALL.iter() {
        for b in ALL.iter() {
            assert_eq!(a.vector() == b.vector(), a == b);
        }
        let v = a.vector();
        let sum = v[0].raw() + v[1].raw() + v[2].raw();
        assert_eq!(sum < 0, a.negative_axis());
        assert_eq!(sum.abs(), 65536);
    }
}

#[test]
fn default_transformation_is_the_identity() {
    let t = DisplayTransformation::default();
    assert_eq!(t.rotation, [Fixed::zero(); 3]);
    assert_eq!(t.translation, [Fixed::zero(); 3]);
    assert_eq!(t.scale, [Fixed::one(); 3]);
}

#[test]
fn default_display_is_all_identity() {
    let d = Display::default();
    let t = DisplayTransformation::default();
    assert_eq!(d.thirdperson_righthand, t);
    assert_eq!(d.thirdperson_lefthand, t);
    assert_eq!(d.firstperson_righthand, t);
    assert_eq!(d.firstperson_lefthand, t);
    assert_eq!(d.gui, t);
    assert_eq!(d.head, t);
    assert_eq!(d.ground, t);
    assert_eq!(d.fixed, t);
}
