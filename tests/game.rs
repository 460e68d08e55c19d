use slagskip::{App, Direction, Error, Game, GameResult, Key, Point, Ship};

#[test]
fn game_setup() {
    let mut new_game = Game::new(10);

    let alice = new_game.add_player("Alice");
    assert_eq!(alice.name, "Alice");
    assert_eq!(alice.grid.size, 10);
    alice.place_ships_randomly().unwrap();
    assert!(alice.is_ready());
    assert!(!new_game.is_ready());

    let bob = new_game.add_player("Bob");
    assert_eq!(bob.name, "Bob");
    assert_eq!(bob.grid.size, 10);
    bob.place_ships_randomly().unwrap();
    assert!(bob.is_ready());
    assert!(new_game.is_ready());
}

#[test]
fn game_round_pairs_each_player_with_opponents() {
    let mut new_game = Game::new(10);
    let alice = new_game.add_player("Alice");
    alice.place_ships_randomly().unwrap();
    let bob = new_game.add_player("Bob");
    bob.place_ships_randomly().unwrap();
    let cecil = new_game.add_player("Cecil");
    cecil.place_ships_randomly().unwrap();

    let game = new_game.start().unwrap();
    let turns = game.round();

    assert_eq!(turns.len(), game.players.len());
    assert_eq!(turns[0].player, 0);
    assert_eq!(turns[0].opponents[0], 1);
    assert_eq!(turns[0].opponents[1], 2);
    assert_eq!(turns[1].player, 1);
    assert_eq!(turns[1].opponents[0], 0);
    assert_eq!(turns[1].opponents[1], 2);
    assert_eq!(turns[2].player, 2);
    assert_eq!(turns[2].opponents[0], 0);
    assert_eq!(turns[2].opponents[1], 1);
}

#[test]
fn new_inits_players_and_grids() {
    let mut game = Game::new(10);
    game.add_player("Alice");
    game.add_player("Bob");

    assert_eq!(game.players.len(), 2);
    assert_eq!(game.players[0].name, "Alice");
    assert_eq!(game.players[0].grid.size, 10);
    assert_eq!(game.players[1].name, "Bob");
    assert_eq!(game.players[1].grid.size, 10);
}

fn two_destroyer_game() -> Game<slagskip::Active> {
    let mut game = Game::new(2);
    game.add_player("Alice")
        .place_ship(Ship::Destroyer, Point(0, 0), Direction::Horizontal)
        .unwrap();
    game.add_player("Bob")
        .place_ship(Ship::Destroyer, Point(1, 0), Direction::Vertical)
        .unwrap();
    game.start().unwrap()
}

#[test]
fn one_ship_game() {
    let mut game = two_destroyer_game();

    assert!(game.players[0].is_alive());
    assert!(game.players[1].is_alive());

    // Let everyone have 2 turns
    for i in 0..2 {
        for turn in game.round() {
            for &opponent in turn.opponents.iter() {
                let _ = game.players[opponent].fire_at(Point(0, i));
            }
        }
    }

    assert_eq!(game.players[0].grid.to_string(), ["XO", "_."].join("\n"));
    assert_eq!(game.players[1].grid.to_string(), ["_O", "_O"].join("\n"));
    assert!(game.players[0].is_alive());
    assert!(game.players[1].is_alive());
    assert!(game.result().is_none());

    // Let everyone have another turn
    for turn in game.round() {
        for &opponent in turn.opponents.iter() {
            let _ = game.players[opponent].fire_at(Point(1, 0));
        }
    }

    assert_eq!(game.players[0].grid.to_string(), ["XX", "_."].join("\n"));
    assert_eq!(game.players[1].grid.to_string(), ["_X", "_O"].join("\n"));
    assert!(!game.players[0].is_alive());
    assert!(game.players[1].is_alive());
    match game.result().unwrap() {
        GameResult::Winner(winner) => {
            assert_eq!(game.players[winner].name, "Bob");
        }
        GameResult::Draw => {
            panic!("Game should end with a winner, but ended in a tie.")
        }
    }
}

#[test]
fn whole_fleets_lost_in_one_round_is_a_draw() {
    let mut game = two_destroyer_game();
    let shots = [Point(0, 0), Point(1, 0), Point(1, 1)];
    for turn in game.round() {
        for &opponent in turn.opponents.iter() {
            for &p in shots.iter() {
                let _ = game.players[opponent].fire_at(p);
            }
        }
    }
    assert!(!game.players[0].is_alive());
    assert!(!game.players[1].is_alive());
    assert_eq!(game.result(), Some(GameResult::Draw));
}

#[test]
fn start_needs_two_ready_players() {
    let mut game = Game::new(3);
    game.add_player("Alice").place_ships_randomly().unwrap();
    game.add_player("Bob");
    assert!(!game.is_ready());
    match game.start() {
        Err(Error::NotReady(left)) => assert!(left.is_empty()),
        _ => panic!("expected NotReady"),
    }
}

#[test]
fn start_drops_players_who_are_not_ready() {
    let mut game = Game::new(3);
    game.add_player("Alice").place_ships_randomly().unwrap();
    game.add_player("Bob");
    game.add_player("Cecil").place_ships_randomly().unwrap();
    let game = game.start().unwrap();
    assert_eq!(game.grid_size, 3);
    assert_eq!(game.players.len(), 2);
    assert_eq!(game.players[0].name, "Alice");
    assert_eq!(game.players[1].name, "Cecil");
    assert!(game.players.iter().all(|p| p.to_place.is_empty()));
}

#[test]
fn eliminated_players_leave_the_opponent_lists() {
    let mut new_game = Game::new(2);
    for name in ["Alice", "Bob", "Cecil"] {
        new_game
            .add_player(name)
            .place_ship(Ship::Destroyer, Point(0, 0), Direction::Horizontal)
            .unwrap();
    }
    let mut game = new_game.start().unwrap();
    assert_eq!(game.result(), None);

    let _ = game.players[1].fire_at(Point(0, 0));
    let _ = game.players[1].fire_at(Point(1, 0));
    let turns = game.round();
    assert_eq!(turns.len(), 3);
    assert_eq!(turns[0].opponents, vec![2]);
    assert_eq!(turns[1].opponents, vec![0, 2]);
    assert_eq!(turns[2].opponents, vec![0]);
    assert_eq!(game.result(), None);

    let _ = game.players[2].fire_at(Point(0, 0));
    let _ = game.players[2].fire_at(Point(1, 0));
    assert_eq!(game.result(), Some(GameResult::Winner(0)));
    assert_eq!(game.round()[0].opponents, Vec::<usize>::new());
}

fn two_player_app() -> App {
    let mut game = Game::new(10);
    game.add_player("Player").place_ships_randomly().unwrap();
    game.add_player("Bot").place_ships_randomly().unwrap();
    App::new(game.start().unwrap())
}

#[test]
fn quit() {
    let mut app = two_player_app();

    app.handle_key(Key::Quit);

    assert_eq!(app.exit, true);
}

#[test]
fn cursor_keys_move_within_the_board() {
    let mut app = two_player_app();
    assert_eq!(app.cursor.point, Point(5, 5));
    app.handle_key(Key::Up);
    app.handle_key(Key::Left);
    assert_eq!(app.cursor.point, Point(4, 4));
    for _ in 0..20 {
        app.handle_key(Key::Right);
        app.handle_key(Key::Down);
    }
    assert_eq!(app.cursor.point, Point(9, 9));
    assert!(!app.exit);
}

#[test]
fn firing_trades_shots_once_per_new_cell() {
    let mut app = two_player_app();
    app.handle_key(Key::Fire);
    assert!(app.game.players[1].grid.at(Point(5, 5)).unwrap().is_hit());
    let hits_on_player = |app: &App| app.game.players[0].grid.cells().iter().filter(|c| c.is_hit()).count();
    assert_eq!(hits_on_player(&app), 1);
    // The same cell again is no move: the computer does not answer.
    app.handle_key(Key::Fire);
    assert_eq!(hits_on_player(&app), 1);
    app.handle_key(Key::Left);
    app.handle_key(Key::Fire);
    assert_eq!(hits_on_player(&app), 2);
    assert_eq!(app.message, None);
}
