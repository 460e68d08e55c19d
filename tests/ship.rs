use slagskip::{Direction, Ship};

#[test]
fn ship_ships_for_grid() {
    assert_eq!(
        Ship::for_grid(10),
        vec![
            Ship::Carrier,
            Ship::Battleship,
            Ship::Cruiser,
            Ship::Submarine,
            Ship::Destroyer
        ]
    );
    assert_eq!(
        Ship::for_grid(5),
        vec![
            Ship::Carrier,
            Ship::Battleship,
            Ship::Cruiser,
            Ship::Submarine,
            Ship::Destroyer
        ]
    );
    assert_eq!(
        Ship::for_grid(4),
        vec![
            Ship::Battleship,
            Ship::Cruiser,
            Ship::Submarine,
            Ship::Destroyer
        ]
    );
    assert_eq!(
        Ship::for_grid(3),
        vec![Ship::Cruiser, Ship::Submarine, Ship::Destroyer]
    );
    assert_eq!(Ship::for_grid(2), vec![Ship::Destroyer]);
    assert_eq!(Ship::for_grid(1), vec![]);
}

#[test]
fn for_grid_of_empty_grid_is_empty() {
    assert_eq!(Ship::for_grid(0), vec![]);
}

#[test]
fn ship_lengths() {
    assert_eq!(Ship::Carrier.length(), 5);
    assert_eq!(Ship::Battleship.length(), 4);
    assert_eq!(Ship::Cruiser.length(), 3);
    assert_eq!(Ship::Submarine.length(), 3);
    assert_eq!(Ship::Destroyer.length(), 2);
}

#[test]
fn direction_steps() {
    assert_eq!(Direction::Horizontal.step(), (1, 0));
    assert_eq!(Direction::Vertical.step(), (0, 1));
}

#[test]
fn random_direction_is_either() {
    for _ in 0..20 {
        let d = Direction::random();
        assert!(d == Direction::Horizontal || d == Direction::Vertical);
    }
}
