use sea_battle::board::{Point2d, ShotOutcome};
use sea_battle::dto::{GameStatus, PlayerAction, ShipsRaw, WsEvent};
use sea_battle::error::{FleetError, GameError};
use sea_battle::session::{do_turn_user, Client, Game, GameFlow};

fn fleet() -> ShipsRaw {
    vec![
        vec![(0, 0), (0, 1), (0, 2), (0, 3)],
        vec![(2, 0), (2, 1), (2, 2)],
        vec![(2, 4), (2, 5), (2, 6)],
        vec![(4, 0), (4, 1)],
        vec![(4, 3), (4, 4)],
        vec![(4, 6), (4, 7)],
        vec![(6, 0)],
        vec![(6, 2)],
        vec![(6, 4)],
        vec![(6, 6)],
    ]
}

fn ship_cells() -> Vec<(usize, usize)> {
    fleet().into_iter().flatten().collect()
}

/// A started game in which alice shoots first.
fn started() -> Game {
    let mut game = Game::with_id("game01".to_string());
    game.join_with("alice".to_string(), fleet(), 0).unwrap();
    game.join_with("bob".to_string(), fleet(), 0).unwrap();
    game
}

fn client(id: &str) -> Client {
    let (sender, _receiver) = tokio::sync::mpsc::channel::<WsEvent>(4);
    Client::new(id.to_string(), sender)
}

fn shoot(game: &mut Game, who: &str, x: usize, y: usize) -> ShotOutcome {
    do_turn_user(Point2d::new(x, y), who.to_string(), game).unwrap().shot.outcome
}

#[test]
fn new_game_waits_with_a_random_id_of_six_letters_and_digits() {
    let mut seen = Vec::new();
    for _ in 0..20 {
        let game = Game::new();
        assert_eq!(game.id.len(), 6);
        assert!(game.id.chars().all(|c| c.is_ascii_alphanumeric()));
        assert_eq!(game.status, GameStatus::WaitingPlayers);
        assert!(game.slot1.is_none());
        assert!(game.slot2.is_none());
        assert!(game.client1.is_none());
        assert!(game.client2.is_none());
        assert_eq!(game.current_turn, "");
        seen.push(game.id);
    }
    seen.sort();
    seen.dedup();
    assert!(seen.len() > 1);
}

#[test]
fn game_with_id_keeps_the_id() {
    let game = Game::with_id("abc123".to_string());
    assert_eq!(game.id, "abc123");
    assert_eq!(game.status, GameStatus::WaitingPlayers);
    assert!(!game.is_over());
}

#[test]
fn alice_and_bob_play_a_whole_game() {
    let mut game = Game::new();
    assert_eq!(game.join("alice".to_string(), fleet()), Ok(()));
    assert_eq!(game.status, GameStatus::WaitingPlayers);
    assert_eq!(game.current_turn, "");
    assert_eq!(game.join("bob".to_string(), fleet()), Ok(()));
    assert_eq!(game.status, GameStatus::Progress);
    assert!(game.current_turn == "alice" || game.current_turn == "bob");
    if game.current_turn == "bob" {
        // bob misses, and the turn passes to alice
        assert_eq!(shoot(&mut game, "bob", 9, 9), ShotOutcome::Miss);
    }
    assert_eq!(game.current_turn, "alice");
    let cells = ship_cells();
    let report = do_turn_user(Point2d::new(0, 0), "alice".to_string(), &mut game).unwrap();
    assert_eq!(report.shot.outcome, ShotOutcome::Hit);
    assert_eq!(report.flow, GameFlow::NextTurn);
    assert_eq!(game.current_turn, "alice");
    for (n, (x, y)) in cells.iter().enumerate().skip(1) {
        assert_eq!(game.status, GameStatus::Progress);
        let report = do_turn_user(Point2d::new(*x, *y), "alice".to_string(), &mut game).unwrap();
        assert!(matches!(report.shot.outcome, ShotOutcome::Hit | ShotOutcome::Sunk));
        assert_eq!(game.current_turn, "alice");
        if n == 19 {
            assert_eq!(report.shot.outcome, ShotOutcome::Sunk);
            assert_eq!(report.flow, GameFlow::GameOver);
        } else {
            assert_eq!(report.flow, GameFlow::NextTurn);
        }
    }
    assert_eq!(game.status, GameStatus::GameOver);
    assert!(game.is_over());
    assert!(game.slot2.as_ref().unwrap().is_all_destroyed());
    assert!(!game.slot1.as_ref().unwrap().is_all_destroyed());
}

#[test]
fn first_join_takes_the_first_seat_and_the_second_starts_the_game() {
    let mut game = Game::with_id("g".to_string());
    game.join_with("alice".to_string(), fleet(), 1).unwrap();
    assert_eq!(game.slot1.as_ref().unwrap().name, "alice");
    assert!(game.slot2.is_none());
    assert_eq!(game.status, GameStatus::WaitingPlayers);
    assert_eq!(game.current_turn, "");
    game.join_with("bob".to_string(), fleet(), 1).unwrap();
    assert_eq!(game.slot1.as_ref().unwrap().name, "alice");
    assert_eq!(game.slot2.as_ref().unwrap().name, "bob");
    assert_eq!(game.status, GameStatus::Progress);
    assert_eq!(game.current_turn, "bob");
    assert_eq!(started().current_turn, "alice");
}

#[test]
fn who_shoots_first_is_drawn_between_the_two_players() {
    let mut alice = 0;
    let mut bob = 0;
    for _ in 0..200 {
        let mut game = Game::with_id("g".to_string());
        game.join("alice".to_string(), fleet()).unwrap();
        game.join("bob".to_string(), fleet()).unwrap();
        match game.current_turn.as_str() {
            "alice" => alice += 1,
            "bob" => bob += 1,
            other => panic!("turn given to {other}"),
        }
    }
    assert_eq!(alice + bob, 200);
    assert!(alice > 0);
    assert!(bob > 0);
}

#[test]
fn third_join_is_refused() {
    let mut game = started();
    assert_eq!(game.join("carol".to_string(), fleet()), Err(GameError::SessionFull));
    assert_eq!(game.join_with("carol".to_string(), fleet(), 0), Err(GameError::SessionFull));
    assert_eq!(game.slot1.as_ref().unwrap().name, "alice");
    assert_eq!(game.slot2.as_ref().unwrap().name, "bob");
    assert_eq!(game.status, GameStatus::Progress);
    assert_eq!(game.current_turn, "alice");
}

#[test]
fn join_with_a_bad_fleet_leaves_the_game_as_it_was() {
    let mut bad = fleet();
    bad.pop();
    let mut game = Game::with_id("g".to_string());
    assert_eq!(
        game.join("alice".to_string(), bad.clone()),
        Err(GameError::FleetError(FleetError::InvalidComposition))
    );
    assert!(game.slot1.is_none());
    assert_eq!(game.status, GameStatus::WaitingPlayers);
    game.join("alice".to_string(), fleet()).unwrap();
    let mut off = fleet();
    off[0][0] = (10, 10);
    assert_eq!(game.join("bob".to_string(), off), Err(GameError::BadRequest));
    assert_eq!(
        game.join("bob".to_string(), bad.clone()),
        Err(GameError::FleetError(FleetError::InvalidComposition))
    );
    assert!(game.slot2.is_none());
    assert_eq!(game.status, GameStatus::WaitingPlayers);
    assert_eq!(game.current_turn, "");
    // the composition is reported before a cell off the board
    let mut both = fleet();
    both.pop();
    both[0][0] = (10, 10);
    assert_eq!(
        game.join("bob".to_string(), both),
        Err(GameError::FleetError(FleetError::InvalidComposition))
    );
    assert!(game.slot2.is_none());
    assert_eq!(game.status, GameStatus::WaitingPlayers);
    assert_eq!(game.current_turn, "");
    // a bad fleet is reported before a full game
    let mut game = started();
    assert_eq!(
        game.join("carol".to_string(), bad),
        Err(GameError::FleetError(FleetError::InvalidComposition))
    );
}

#[test]
fn miss_passes_the_turn_and_anything_else_keeps_it() {
    let mut game = started();
    assert_eq!(shoot(&mut game, "alice", 0, 0), ShotOutcome::Hit);
    assert_eq!(game.current_turn, "alice");
    assert_eq!(shoot(&mut game, "alice", 6, 0), ShotOutcome::Sunk);
    assert_eq!(game.current_turn, "alice");
    assert_eq!(shoot(&mut game, "alice", 0, 0), ShotOutcome::AlreadyResolved);
    assert_eq!(game.current_turn, "alice");
    assert_eq!(shoot(&mut game, "alice", 9, 9), ShotOutcome::Miss);
    assert_eq!(game.current_turn, "bob");
    assert_eq!(shoot(&mut game, "bob", 9, 9), ShotOutcome::Miss);
    assert_eq!(game.current_turn, "alice");
    assert_eq!(shoot(&mut game, "alice", 9, 9), ShotOutcome::AlreadyResolved);
    assert_eq!(game.current_turn, "alice");
    assert_eq!(game.status, GameStatus::Progress);
}

#[test]
fn a_shot_goes_to_the_board_of_the_opponent() {
    let mut game = started();
    shoot(&mut game, "alice", 0, 0);
    let alice = game.slot1.as_ref().unwrap();
    let bob = game.slot2.as_ref().unwrap();
    assert_eq!(alice.ships[0].health, 4);
    assert_eq!(bob.ships[0].health, 3);
    shoot(&mut game, "alice", 9, 9);
    shoot(&mut game, "bob", 2, 0);
    assert_eq!(game.slot1.as_ref().unwrap().ships[1].health, 2);
    assert_eq!(game.slot2.as_ref().unwrap().ships[1].health, 3);
}

#[test]
fn sinking_shot_reports_the_zone_around_the_ship() {
    let mut game = started();
    let report = do_turn_user(Point2d::new(6, 6), "alice".to_string(), &mut game).unwrap();
    assert_eq!(report.shot.outcome, ShotOutcome::Sunk);
    assert_eq!(report.shot.no_ship_zone.len(), 8);
}

#[test]
fn turn_of_the_player_who_does_not_hold_it_is_refused() {
    let mut game = started();
    let refused = do_turn_user(Point2d::new(0, 0), "bob".to_string(), &mut game);
    assert_eq!(refused.unwrap_err(), GameError::NotYourTurn);
    let refused = do_turn_user(Point2d::new(0, 0), "carol".to_string(), &mut game);
    assert_eq!(refused.unwrap_err(), GameError::NotYourTurn);
    assert_eq!(game.slot1.as_ref().unwrap().ships[0].health, 4);
    assert_eq!(game.slot2.as_ref().unwrap().ships[0].health, 4);
    assert_eq!(game.current_turn, "alice");
}

#[test]
fn turn_in_a_game_that_has_not_started_is_refused() {
    let mut game = Game::with_id("g".to_string());
    let refused = do_turn_user(Point2d::new(0, 0), "".to_string(), &mut game);
    assert_eq!(refused.unwrap_err(), GameError::NotYourTurn);
    game.join("alice".to_string(), fleet()).unwrap();
    let refused = do_turn_user(Point2d::new(0, 0), "alice".to_string(), &mut game);
    assert_eq!(refused.unwrap_err(), GameError::NotYourTurn);
}

#[test]
fn turn_at_a_cell_off_the_board_is_a_bad_request() {
    let mut game = started();
    for (x, y) in [(10, 0), (0, 10), (usize::MAX, usize::MAX)] {
        let refused = do_turn_user(Point2d::new(x, y), "alice".to_string(), &mut game);
        assert_eq!(refused.unwrap_err(), GameError::BadRequest);
    }
    // off the board is reported before the turn
    let refused = do_turn_user(Point2d::new(10, 0), "bob".to_string(), &mut game);
    assert_eq!(refused.unwrap_err(), GameError::BadRequest);
    assert_eq!(game.current_turn, "alice");
}

#[test]
fn finished_game_accepts_neither_turn_nor_join() {
    let mut game = started();
    for (x, y) in ship_cells() {
        shoot(&mut game, "alice", x, y);
    }
    assert_eq!(game.status, GameStatus::GameOver);
    let refused = do_turn_user(Point2d::new(9, 9), "alice".to_string(), &mut game);
    assert_eq!(refused.unwrap_err(), GameError::NotYourTurn);
    let refused = do_turn_user(Point2d::new(9, 9), "bob".to_string(), &mut game);
    assert_eq!(refused.unwrap_err(), GameError::NotYourTurn);
    assert_eq!(game.join("carol".to_string(), fleet()), Err(GameError::SessionFull));
    assert_eq!(game.status, GameStatus::GameOver);
}

#[test]
fn waiting_game_shows_its_status_only() {
    let mut game = Game::with_id("g".to_string());
    game.join("alice".to_string(), fleet()).unwrap();
    let shown = game.view_state(&"alice".to_string());
    assert_eq!(shown.status, GameStatus::WaitingPlayers);
    assert_eq!(shown.action, None);
    assert_eq!(shown.me, None);
    assert_eq!(shown.enemy, None);
    assert!(shown.grid.is_empty());
}

#[test]
fn started_game_shows_each_player_the_own_ships_only() {
    let mut game = started();
    shoot(&mut game, "alice", 0, 0);
    shoot(&mut game, "alice", 9, 9);
    let cells = ship_cells();
    for (who, action) in [("alice", PlayerAction::Wait), ("bob", PlayerAction::Shoot)] {
        let shown = game.view_state(&who.to_string());
        assert_eq!(shown.status, GameStatus::Progress);
        assert_eq!(shown.action, Some(action));
        assert_eq!(shown.grid.len(), 2);
        assert_eq!(shown.grid[0].0, "alice");
        assert_eq!(shown.grid[1].0, "bob");
        for (name, grid) in &shown.grid {
            for x in 0..10usize {
                for y in 0..10usize {
                    let expected = if name == "bob" && (x, y) == (0, 0) {
                        "x"
                    } else if name == "bob" && (x, y) == (9, 9) {
                        "_"
                    } else if cells.contains(&(x, y)) && name == who {
                        "#"
                    } else {
                        "."
                    };
                    assert_eq!(grid[x][y], expected);
                }
            }
        }
    }
    // somebody else sees no ship at all
    let shown = game.view_state(&"carol".to_string());
    assert_eq!(shown.action, Some(PlayerAction::Wait));
    for (_, grid) in &shown.grid {
        assert!(grid.iter().flatten().all(|s| s != "#"));
    }
}

#[test]
fn connections_are_bound_in_the_order_they_come() {
    let mut game = Game::with_id("g".to_string());
    assert!(game.clients().is_none());
    assert_eq!(game.attach_client(client("c1")), Ok(()));
    assert_eq!(game.client1.as_ref().unwrap().id, "c1");
    assert!(game.client2.is_none());
    assert!(game.clients().is_none());
    assert_eq!(game.attach_client(client("c2")), Ok(()));
    assert_eq!(game.client1.as_ref().unwrap().id, "c1");
    assert_eq!(game.client2.as_ref().unwrap().id, "c2");
    let (a, b) = game.clients().unwrap();
    assert_eq!((a.id.as_str(), b.id.as_str()), ("c1", "c2"));
    assert_eq!(game.attach_client(client("c3")), Err(GameError::SessionFull));
    let (a, b) = game.clients().unwrap();
    assert_eq!((a.id.as_str(), b.id.as_str()), ("c1", "c2"));
}

#[test]
fn bound_connection_keeps_its_channel() {
    let (sender, mut receiver) = tokio::sync::mpsc::channel::<WsEvent>(4);
    let mut game = Game::with_id("g".to_string());
    game.attach_client(Client::new("c1".to_string(), sender)).unwrap();
    game.attach_client(client("c2")).unwrap();
    let (a, _) = game.clients().unwrap();
    a.sender.try_send(WsEvent::GameOver).unwrap();
    assert_eq!(receiver.try_recv().unwrap(), WsEvent::GameOver);
}

#[test]
fn game_has_a_broadcast_channel_of_its_own() {
    let game = Game::new();
    let mut listener = game.room_sender.subscribe();
    assert_eq!(game.room_sender.send("hello".to_string()).unwrap(), 1);
    assert_eq!(listener.try_recv().unwrap(), "hello");
    // it holds sixteen messages
    for n in 0..16 {
        game.room_sender.send(format!("{n}")).unwrap();
    }
    assert_eq!(listener.try_recv().unwrap(), "0");
}
