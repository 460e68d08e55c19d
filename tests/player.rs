use slagskip::{Direction, Error, Fire, Player, Point, Ship};

#[test]
fn place_ship_horizontal() {
    let mut player = Player::new("Alice", 3);

    player
        .place_ship(Ship::Destroyer, Point(0, 0), Direction::Horizontal)
        .unwrap();

    assert_eq!(player.grid.to_string(), ["OO.", "...", "..."].join("\n"));
}

#[test]
fn place_ship_vertical() {
    let mut player = Player::new("Alice", 3);

    player
        .place_ship(Ship::Destroyer, Point(1, 1), Direction::Vertical)
        .unwrap();

    assert_eq!(player.grid.to_string(), ["...", ".O.", ".O."].join("\n"));
}

#[test]
fn place_ship_out_of_bounds() {
    let mut player = Player::new("Alice", 10);

    // When a destroyer of length two is placed on the last cell on a row
    let result = player.place_ship(Ship::Destroyer, Point(9, 0), Direction::Horizontal);

    assert!(result.is_err());
}

#[test]
fn place_ship_overlapping_existing_ship() {
    let mut player = Player::new("Alice", 10);
    // Given a carrier in the first five cells: CCCCC.....
    player
        .place_ship(Ship::Carrier, Point(0, 0), Direction::Horizontal)
        .unwrap();

    // When a destroyer is placed overlapping the carrier: CCCCDD....
    let result = player.place_ship(Ship::Destroyer, Point(4, 0), Direction::Horizontal);

    assert!(result.is_err());
}

#[test]
fn place_same_ship_twice() {
    let mut player = Player::new("Alice", 10);
    player
        .place_ship(Ship::Destroyer, Point(0, 0), Direction::Horizontal)
        .unwrap();

    let result = player.place_ship(Ship::Destroyer, Point(0, 1), Direction::Horizontal);

    assert!(result.is_err());
}

#[test]
fn fire_at() {
    // Given a destroyer: DD/..
    let mut new_player = Player::new("Alice", 2);
    new_player
        .place_ship(Ship::Destroyer, Point(0, 0), Direction::Horizontal)
        .unwrap();
    let mut player = new_player.ready().unwrap();

    // DD/x. is a miss
    assert_eq!(player.fire_at(Point(0, 1)), Ok(Fire::Miss));

    // XD/x. is a hit
    assert_eq!(player.fire_at(Point(0, 0)), Ok(Fire::Hit(Ship::Destroyer)));

    // Another shot at the same spot hits nothing and changes nothing
    assert_eq!(player.fire_at(Point(0, 0)), Ok(Fire::Miss));
    assert_eq!(player.grid.to_string(), ["XO", "_."].join("\n"));
}

#[test]
fn status_checks_if_any_ships_remain() {
    let mut new_player = Player::new("Alice", 3);
    new_player
        .place_ship(Ship::Submarine, Point(0, 0), Direction::Horizontal)
        .unwrap();

    // There are more ships to place
    assert!(!new_player.is_ready());

    new_player
        .place_ship(Ship::Cruiser, Point(0, 1), Direction::Horizontal)
        .unwrap();
    new_player
        .place_ship(Ship::Destroyer, Point(0, 2), Direction::Horizontal)
        .unwrap();

    // All ships have been placed
    let mut player = new_player.ready().unwrap();

    // A miss
    let _ = player.fire_at(Point(2, 2));
    assert!(player.is_alive());

    // Sink Submarine
    let _ = player.fire_at(Point(0, 0));
    let _ = player.fire_at(Point(1, 0));
    let _ = player.fire_at(Point(2, 0));
    assert!(player.is_alive());

    // Sink Cruiser
    let _ = player.fire_at(Point(0, 1));
    let _ = player.fire_at(Point(1, 1));
    let _ = player.fire_at(Point(2, 1));
    assert!(player.is_alive());

    // Sink Destroyer
    let _ = player.fire_at(Point(0, 2));
    let _ = player.fire_at(Point(1, 2));
    assert!(!player.is_alive());
}

#[test]
fn new_player_has_catalog_queue() {
    let player = Player::new("Alice", 4);
    assert_eq!(player.name, "Alice");
    assert_eq!(player.grid.size, 4);
    assert_eq!(
        player.to_place,
        vec![
            Ship::Battleship,
            Ship::Cruiser,
            Ship::Submarine,
            Ship::Destroyer
        ]
    );
    assert_eq!(player.get_ship_to_place(), Some(Ship::Battleship));
}

#[test]
fn unexpected_ship_is_refused() {
    let mut player = Player::new("Alice", 3);
    assert_eq!(
        player.place_ship(Ship::Carrier, Point(0, 0), Direction::Horizontal),
        Err(Error::UnexpectedShip(Ship::Carrier))
    );
    assert_eq!(player.grid.to_string(), ["...", "...", "..."].join("\n"));
}

#[test]
fn failed_placement_keeps_ship_in_queue() {
    let mut player = Player::new("Alice", 3);
    assert_eq!(
        player.place_ship(Ship::Cruiser, Point(1, 0), Direction::Horizontal),
        Err(Error::OutOfBounds)
    );
    assert_eq!(
        player.to_place,
        vec![Ship::Cruiser, Ship::Submarine, Ship::Destroyer]
    );
    player
        .place_ship(Ship::Cruiser, Point(0, 0), Direction::Horizontal)
        .unwrap();
    assert_eq!(player.to_place, vec![Ship::Submarine, Ship::Destroyer]);
}

#[test]
fn ready_with_ships_left_is_refused() {
    let mut player = Player::new("Alice", 3);
    player
        .place_ship(Ship::Cruiser, Point(0, 0), Direction::Horizontal)
        .unwrap();
    match player.ready() {
        Err(Error::NotReady(left)) => {
            assert_eq!(left, vec![Ship::Submarine, Ship::Destroyer])
        }
        _ => panic!("expected NotReady"),
    }
}

#[test]
fn random_placement_places_every_ship() {
    let mut player = Player::new("Alice", 10);
    assert_eq!(player.place_ships_randomly(), Ok(()));
    assert!(player.is_ready());
    let player = player.ready().unwrap();
    assert_eq!(player.num_ships_total(), 5 + 4 + 3 + 3 + 2);
    assert_eq!(player.num_ships_alive(), 17);
}

#[test]
fn random_placement_fills_a_tight_grid() {
    // Every ship that fits a 3 x 3 grid takes one full row or column.
    let mut player = Player::new("Alice", 3);
    assert_eq!(player.place_ships_randomly(), Ok(()));
    let player = player.ready().unwrap();
    assert_eq!(player.num_ships_total(), 8);
}

#[test]
fn random_placement_reports_no_room() {
    let mut player = Player::new("Alice", 2);
    // Two crossing destroyers are impossible, so block the grid by hand.
    player.grid.cells[0].ship = Some(Ship::Carrier);
    player.grid.cells[3].ship = Some(Ship::Carrier);
    assert_eq!(
        player.place_ships_randomly(),
        Err(Error::NoRoom(Ship::Destroyer))
    );
    assert_eq!(player.to_place, vec![Ship::Destroyer]);
}

#[test]
fn ship_counts_are_cell_counts() {
    let mut new_player = Player::new("Alice", 3);
    new_player
        .place_ship(Ship::Cruiser, Point(0, 0), Direction::Vertical)
        .unwrap();
    new_player
        .place_ship(Ship::Submarine, Point(1, 0), Direction::Vertical)
        .unwrap();
    new_player
        .place_ship(Ship::Destroyer, Point(2, 0), Direction::Vertical)
        .unwrap();
    let mut player = new_player.ready().unwrap();
    assert_eq!(player.num_ships_total(), 8);
    assert_eq!(player.fire_at(Point(0, 0)), Ok(Fire::Hit(Ship::Cruiser)));
    assert_eq!(player.fire_at(Point(2, 2)), Ok(Fire::Miss));
    assert_eq!(player.num_ships_total(), 8);
    assert_eq!(player.num_ships_alive(), 7);
}

#[test]
fn fire_at_random_hits_every_cell_once() {
    let mut new_player = Player::new("Alice", 2);
    new_player
        .place_ship(Ship::Destroyer, Point(0, 1), Direction::Horizontal)
        .unwrap();
    let mut player = new_player.ready().unwrap();
    let mut seen = Vec::new();
    for _ in 0..4 {
        let (point, _) = player.fire_at_random().unwrap();
        assert!(point.0 < 2 && point.1 < 2);
        assert!(!seen.contains(&point));
        seen.push(point);
    }
    assert_eq!(player.fire_at_random(), None);
    assert_eq!(player.grid.to_string(), ["__", "XX"].join("\n"));
    assert!(!player.is_alive());
}
