use snake::{Coordinate, Direction, Turn};

const ALL: [Direction; 4] = [
    Direction::North,
    Direction::South,
    Direction::East,
    Direction::West,
];

#[test]
fn turn_changes_direction() {
    for d in ALL {
        assert_ne!(d.turn(&Turn::Left), d);
    }
}

#[test]
fn turn_left_then_right() {
    for d in ALL {
        assert_eq!(d.turn(&Turn::Left).turn(&Turn::Right), d);
    }
}

#[test]
fn turn_left_four_times() {
    for d in ALL {
        assert_eq!(
            d.turn(&Turn::Left)
                .turn(&Turn::Left)
                .turn(&Turn::Left)
                .turn(&Turn::Left),
            d
        );
    }
}

#[test]
fn turn_table_from_east() {
    assert_eq!(Direction::East.turn(&Turn::Left), Direction::North);
    assert_eq!(Direction::East.turn(&Turn::Right), Direction::South);
    assert_eq!(Direction::North.turn(&Turn::Left), Direction::West);
    assert_eq!(Direction::West.turn(&Turn::Left), Direction::South);
    assert_eq!(Direction::South.turn(&Turn::Left), Direction::East);
}

#[test]
fn advance_changes_coordinate_by_one() {
    for d in ALL {
        let c = Coordinate { x: 100, y: 200 };
        let advanced = c.advance(&d);
        assert_ne!(advanced, c);
        assert_eq!((c.x - advanced.x).abs() + (c.y - advanced.y).abs(), 1);
    }
}

#[test]
fn advance_deltas() {
    let c = Coordinate { x: 5, y: 7 };
    assert_eq!(c.advance(&Direction::North), Coordinate { x: 5, y: 6 });
    assert_eq!(c.advance(&Direction::South), Coordinate { x: 5, y: 8 });
    assert_eq!(c.advance(&Direction::East), Coordinate { x: 6, y: 7 });
    assert_eq!(c.advance(&Direction::West), Coordinate { x: 4, y: 7 });
}

#[test]
fn advance_north_east_south_west() {
    assert_eq!(
        Coordinate { x: 100, y: 200 }
            .advance(&Direction::North)
            .advance(&Direction::East)
            .advance(&Direction::South)
            .advance(&Direction::West),
        Coordinate { x: 100, y: 200 }
    )
}
