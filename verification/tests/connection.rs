use sea_battle::connection::{
    join_game, join_game_with, open_game, open_game_with, play_turn, serve_entry,
    serve_entry_with, serve_turn,
};
use sea_battle::dto::{
    CreateGameRequest, GameStatus, JoinGameRequest, PlayerAction, QueueRequest, ShipsRaw,
    StateRequest, TurnRequest, WsEvent,
};
use sea_battle::engine::error_event;
use sea_battle::error::{FleetError, GameError};
use sea_battle::registry::MyState;
use tokio::sync::mpsc::{channel, Sender};

fn fleet() -> ShipsRaw {
    vec![
        vec![(0, 0), (0, 1), (0, 2), (0, 3)],
        vec![(2, 0), (2, 1), (2, 2)],
        vec![(2, 4), (2, 5), (2, 6)],
        vec![(4, 0), (4, 1)],
        vec![(4, 3), (4, 4)],
        vec![(4, 6), (4, 7)],
        vec![(6, 0)],
        vec![(6, 2)],
        vec![(6, 4)],
        vec![(6, 6)],
    ]
}

fn s(text: &str) -> String {
    text.to_string()
}

fn sender() -> Sender<WsEvent> {
    channel::<WsEvent>(4).0
}

fn create(name: &str) -> CreateGameRequest {
    CreateGameRequest { username: s(name), ships: fleet() }
}

fn join(id: &str, name: &str) -> JoinGameRequest {
    JoinGameRequest { game_id: s(id), username: s(name), ships: fleet() }
}

fn turn(id: &str, name: &str, x: usize, y: usize) -> TurnRequest {
    TurnRequest { game_id: s(id), username: s(name), x, y }
}

fn playing() -> MyState {
    let mut state = MyState::new();
    open_game_with(&mut state, create("alice"), sender(), s("g1")).unwrap();
    join_game_with(&mut state, join("g1", "bob"), sender(), 0).unwrap();
    state
}

#[test]
fn opening_a_game_binds_the_connection_of_the_player() {
    let mut state = MyState::new();
    let (tx, mut rx) = channel::<WsEvent>(4);
    let event = open_game_with(&mut state, create("alice"), tx, s("g1")).unwrap();
    assert_eq!(
        event,
        WsEvent::CreateGameRs { game_id: s("g1"), status: GameStatus::WaitingPlayers }
    );
    let game = state.game(&s("g1")).unwrap();
    assert_eq!(game.slot1.as_ref().unwrap().name, "alice");
    let bound = game.client1.as_ref().unwrap();
    assert_eq!(bound.id, "alice");
    bound.sender.try_send(WsEvent::GameOver).unwrap();
    assert_eq!(rx.try_recv().unwrap(), WsEvent::GameOver);
    assert!(game.client2.is_none());
}

#[test]
fn opening_a_game_draws_its_id() {
    let mut state = MyState::new();
    let event = open_game(&mut state, create("alice"), sender()).unwrap();
    match event {
        WsEvent::CreateGameRs { game_id, status } => {
            assert_eq!(status, GameStatus::WaitingPlayers);
            assert_eq!(game_id.len(), 6);
            assert!(game_id.chars().all(|c| c.is_ascii_alphanumeric()));
            assert_eq!(state.game(&game_id).unwrap().client1.as_ref().unwrap().id, "alice");
        }
        other => panic!("unexpected {other:?}"),
    }
}

#[test]
fn refused_opening_binds_nothing() {
    let mut state = MyState::new();
    let mut raw = fleet();
    raw.pop();
    let rq = CreateGameRequest { username: s("alice"), ships: raw };
    assert_eq!(
        open_game_with(&mut state, rq, sender(), s("g1")),
        Err(GameError::FleetError(FleetError::InvalidComposition))
    );
    assert!(state.game(&s("g1")).is_none());
    open_game_with(&mut state, create("alice"), sender(), s("g1")).unwrap();
    assert_eq!(
        open_game(&mut state, create("alice"), sender()),
        Err(GameError::AlreadyInSession)
    );
    assert_eq!(
        open_game_with(&mut state, create("bob"), sender(), s("g1")),
        Err(GameError::IdInUse)
    );
    let game = state.game(&s("g1")).unwrap();
    assert_eq!(game.client1.as_ref().unwrap().id, "alice");
    assert!(game.client2.is_none());
}

#[test]
fn joining_a_game_answers_and_pushes_the_state_to_both() {
    let mut state = MyState::new();
    open_game_with(&mut state, create("alice"), sender(), s("g1")).unwrap();
    let pushes = join_game_with(&mut state, join("g1", "bob"), sender(), 1).unwrap();
    assert_eq!(pushes.len(), 3);
    assert_eq!(pushes[0].0, "bob");
    match &pushes[0].1 {
        WsEvent::JoinRs(shown, host) => {
            assert_eq!(shown.status, GameStatus::Progress);
            assert_eq!(shown.action, None);
            assert!(shown.grid.is_empty());
            assert_eq!(host, "alice");
        }
        other => panic!("unexpected {other:?}"),
    }
    for (n, name, action) in [(1, "alice", PlayerAction::Wait), (2, "bob", PlayerAction::Shoot)] {
        assert_eq!(pushes[n].0, name);
        match &pushes[n].1 {
            WsEvent::StateRs(shown) => {
                assert_eq!(shown.status, GameStatus::Progress);
                assert_eq!(shown.action, Some(action));
            }
            other => panic!("unexpected {other:?}"),
        }
    }
    let (a, b) = state.get_clients("g1").unwrap();
    assert_eq!((a.id.as_str(), b.id.as_str()), ("alice", "bob"));
}

#[test]
fn joining_a_game_draws_who_shoots_first() {
    let mut alice = 0;
    for _ in 0..200 {
        let mut state = MyState::new();
        open_game_with(&mut state, create("alice"), sender(), s("g1")).unwrap();
        join_game(&mut state, join("g1", "bob"), sender()).unwrap();
        if state.game(&s("g1")).unwrap().current_turn == "alice" {
            alice += 1;
        }
    }
    assert!(alice > 0);
    assert!(alice < 200);
}

#[test]
fn refused_join_binds_nothing() {
    let mut state = MyState::new();
    assert_eq!(
        join_game(&mut state, join("g1", "bob"), sender()),
        Err(GameError::SessionNotFound)
    );
    open_game_with(&mut state, create("alice"), sender(), s("g1")).unwrap();
    assert_eq!(
        join_game(&mut state, join("g1", "alice"), sender()),
        Err(GameError::AlreadyInSession)
    );
    assert!(state.game(&s("g1")).unwrap().client2.is_none());
    join_game(&mut state, join("g1", "bob"), sender()).unwrap();
    assert_eq!(join_game(&mut state, join("g1", "carol"), sender()), Err(GameError::SessionFull));
    let (a, b) = state.get_clients("g1").unwrap();
    assert_eq!((a.id.as_str(), b.id.as_str()), ("alice", "bob"));
}

#[test]
fn turn_pushes_the_state_to_both_players() {
    let mut state = playing();
    let pushes = play_turn(&mut state, turn("g1", "alice", 0, 0)).unwrap();
    assert_eq!(pushes.len(), 2);
    assert_eq!(pushes[0].0, "alice");
    assert_eq!(pushes[1].0, "bob");
    match (&pushes[0].1, &pushes[1].1) {
        (WsEvent::StateRs(mine), WsEvent::StateRs(theirs)) => {
            assert_eq!(mine.action, Some(PlayerAction::Shoot));
            assert_eq!(theirs.action, Some(PlayerAction::Wait));
            assert_eq!(mine.grid[1].1[0][0], "x");
            assert_eq!(theirs.grid[1].1[0][0], "x");
            assert_eq!(mine.grid[1].1[0][1], ".");
            assert_eq!(theirs.grid[1].1[0][1], "#");
        }
        other => panic!("unexpected {other:?}"),
    }
}

#[test]
fn last_turn_pushes_the_end_of_the_game() {
    let mut state = playing();
    let cells: Vec<(usize, usize)> = fleet().into_iter().flatten().collect();
    for (n, (x, y)) in cells.into_iter().enumerate() {
        let pushes = play_turn(&mut state, turn("g1", "alice", x, y)).unwrap();
        if n < 19 {
            assert_eq!(pushes.len(), 2);
        } else {
            assert_eq!(pushes.len(), 6);
            assert_eq!(pushes[2], (s("alice"), WsEvent::GameOver));
            assert_eq!(pushes[3], (s("bob"), WsEvent::GameOver));
            assert_eq!(pushes[4], (s("alice"), WsEvent::Disconnect));
            assert_eq!(pushes[5], (s("bob"), WsEvent::Disconnect));
        }
    }
    assert!(state.is_game_over("g1"));
}

#[test]
fn refused_turn_pushes_nothing() {
    let mut state = playing();
    assert_eq!(play_turn(&mut state, turn("g1", "bob", 0, 0)), Err(GameError::NotYourTurn));
    assert_eq!(play_turn(&mut state, turn("g1", "alice", 0, 10)), Err(GameError::BadRequest));
    assert_eq!(play_turn(&mut state, turn("g2", "alice", 0, 0)), Err(GameError::SessionNotFound));
    assert_eq!(state.game(&s("g1")).unwrap().slot2.as_ref().unwrap().ships[0].health, 4);
}

#[test]
fn each_error_has_its_message_and_its_event() {
    let mendable = [
        (GameError::FleetError(FleetError::InvalidComposition), "Incorrect number of ships"),
        (GameError::BadRequest, "Incorrect coordinates"),
        (GameError::NotYourTurn, "Not your turn"),
    ];
    for (error, text) in mendable {
        assert_eq!(error.message(), text);
        assert_eq!(error_event(error), WsEvent::BadRequestRs(s(text)));
    }
    let others = [
        (GameError::SessionNotFound, "No such game"),
        (GameError::SessionFull, "The game is full"),
        (GameError::AlreadyInSession, "Already in a game"),
        (GameError::IdInUse, "No free game id"),
    ];
    for (error, text) in others {
        assert_eq!(error.message(), text);
        assert_eq!(error_event(error), WsEvent::ServerAbort);
        assert_eq!(error.ends_connection(), error == GameError::SessionNotFound);
    }
    assert!(!GameError::NotYourTurn.ends_connection());
}

fn entry(state: &mut MyState, who: &str, event: WsEvent) -> (Vec<(String, WsEvent)>, bool) {
    serve_entry(state, &s(who), sender(), event)
}

#[test]
fn connection_is_told_its_name() {
    let mut state = MyState::new();
    let (pushes, entered) = entry(&mut state, "c1", WsEvent::ConnectRq { player_id: s("me") });
    assert_eq!(pushes, vec![(s("c1"), WsEvent::ConnectRs { player_id: s("c1") })]);
    assert!(!entered);
}

#[test]
fn player_of_a_request_is_the_connection_that_makes_it() {
    let mut state = MyState::new();
    let (pushes, entered) =
        serve_entry_with(&mut state, &s("c1"), sender(), WsEvent::CreateGameRq(create("mallory")), s("g1"), 0);
    assert!(entered);
    assert_eq!(
        pushes,
        vec![(s("c1"), WsEvent::CreateGameRs { game_id: s("g1"), status: GameStatus::WaitingPlayers })]
    );
    let game = state.game(&s("g1")).unwrap();
    assert_eq!(game.slot1.as_ref().unwrap().name, "c1");
    assert_eq!(game.client1.as_ref().unwrap().id, "c1");
    assert!(!state.client_games.contains_key(&s("mallory")));
    let (pushes, entered) =
        serve_entry_with(&mut state, &s("c2"), sender(), WsEvent::JoinRq(join("g1", "c1")), s("g9"), 1);
    assert!(entered);
    assert_eq!(pushes.len(), 3);
    let to: Vec<&str> = pushes.iter().map(|p| p.0.as_str()).collect();
    assert_eq!(to, vec!["c2", "c1", "c2"]);
    assert!(matches!(&pushes[0].1, WsEvent::JoinRs(shown, host)
        if shown.status == GameStatus::Progress && host == "c1"));
    let game = state.game(&s("g1")).unwrap();
    assert_eq!(game.slot2.as_ref().unwrap().name, "c2");
    assert_eq!(game.current_turn, "c2");
    let (pushes, entered) =
        entry(&mut state, "c3", WsEvent::QueueRq(QueueRequest { username: s("c1"), ships: fleet() }));
    assert!(entered);
    assert_eq!(pushes, vec![(s("c3"), WsEvent::QueueRs { player_id: s("c3") })]);
    assert_eq!(state.queue[0].player, "c3");
    // a turn is the turn of the connection, too
    let pushes = serve_turn(&mut state, &s("c2"), WsEvent::TurnRq(turn("g1", "c1", 0, 0))).unwrap();
    assert_eq!(pushes.len(), 2);
    assert_eq!(state.game(&s("g1")).unwrap().slot1.as_ref().unwrap().ships[0].health, 3);
}

#[test]
fn opening_through_the_step_draws_the_id() {
    let mut state = MyState::new();
    let (pushes, entered) = entry(&mut state, "c1", WsEvent::CreateGameRq(create("x")));
    assert!(entered);
    assert_eq!(pushes.len(), 1);
    match &pushes[0].1 {
        WsEvent::CreateGameRs { game_id, status } => {
            assert_eq!(game_id.len(), 6);
            assert_eq!(*status, GameStatus::WaitingPlayers);
            assert_eq!(state.client_games.get(&s("c1")), Some(game_id));
        }
        other => panic!("unexpected {other:?}"),
    }
}

#[test]
fn refused_connection_has_not_entered_and_may_ask_again() {
    let mut state = MyState::new();
    let mut raw = fleet();
    raw.pop();
    let rq = CreateGameRequest { username: s("x"), ships: raw };
    let (pushes, entered) = entry(&mut state, "c1", WsEvent::CreateGameRq(rq));
    assert!(!entered);
    assert_eq!(pushes, vec![(s("c1"), WsEvent::BadRequestRs(s("Incorrect number of ships")))]);
    let (pushes, entered) = entry(&mut state, "c1", WsEvent::JoinRq(join("nope", "x")));
    assert!(!entered);
    assert_eq!(pushes, vec![(s("c1"), WsEvent::ServerAbort)]);
    assert!(!state.client_games.contains_key(&s("c1")));
    let (_, entered) = entry(&mut state, "c1", WsEvent::CreateGameRq(create("x")));
    assert!(entered);
}

#[test]
fn other_events_ask_for_nothing() {
    let mut state = playing();
    for event in [
        WsEvent::GameOver,
        WsEvent::Disconnect,
        WsEvent::Debug(s("x")),
        WsEvent::TurnRq(turn("g1", "alice", 0, 0)),
        WsEvent::StateRq(StateRequest::new(s("g1"), s("alice"))),
    ] {
        let (pushes, entered) = entry(&mut state, "alice", event);
        assert!(pushes.is_empty());
        assert!(!entered);
    }
    for event in [
        WsEvent::GameOver,
        WsEvent::ConnectRq { player_id: s("x") },
        WsEvent::CreateGameRq(create("zed")),
        WsEvent::JoinRq(join("g1", "zed")),
    ] {
        assert_eq!(serve_turn(&mut state, &s("alice"), event), Some(vec![]));
    }
    assert_eq!(state.game(&s("g1")).unwrap().slot2.as_ref().unwrap().ships[0].health, 4);
    assert!(!state.client_games.contains_key(&s("zed")));
}

#[test]
fn turn_through_the_step_pushes_or_answers_or_ends() {
    let mut state = playing();
    let pushes = serve_turn(&mut state, &s("alice"), WsEvent::TurnRq(turn("g1", "x", 9, 9))).unwrap();
    assert_eq!(pushes.len(), 2);
    assert_eq!(state.game(&s("g1")).unwrap().current_turn, "bob");
    let refused = serve_turn(&mut state, &s("alice"), WsEvent::TurnRq(turn("g1", "x", 0, 0)));
    assert_eq!(refused, Some(vec![(s("alice"), WsEvent::BadRequestRs(s("Not your turn")))]));
    let refused = serve_turn(&mut state, &s("bob"), WsEvent::TurnRq(turn("g1", "x", 0, 10)));
    assert_eq!(refused, Some(vec![(s("bob"), WsEvent::BadRequestRs(s("Incorrect coordinates")))]));
    // the game is gone: the connection ends
    state.disconnect(&s("alice"));
    assert_eq!(serve_turn(&mut state, &s("bob"), WsEvent::TurnRq(turn("g1", "x", 0, 0))), None);
}
