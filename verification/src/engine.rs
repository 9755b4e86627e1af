//! The requests that clients make, served on the registry.

use vstd::prelude::*;
use crate::board::{Point2d, BOARD_SIDE};
use crate::dto::{
    ClientId, CreateGameRequest, GameId, GameStatus, GridResponse, JoinGameRequest, QueueRequest,
    ShipsRaw, StateRequest, TurnRequest, WsEvent,
};
use crate::error::{FleetError, GameError};
use crate::fleet::{fresh_ships, BoardView};
use crate::player::{fleet_of, fleet_verdict, has_valid_composition, is_fleet_on_board};
use crate::registry::{
    lemma_same_index, lemma_with_same_seats, seated_names, GameClients, MyState, QueuedPlayer,
    QueuedView, RegistryView,
};
use crate::session::{
    do_turn_user, is_game_id, shows_state, Client, ClientView, Game, GameView, GAME_ID_LEN,
};
use crate::trusted::{random_alphanumeric, random_index};

verus! {

/// Whether `r` is what is shown of a game that does not exist: it is
/// reported as over, with nothing else.
pub open spec fn shows_gone(r: GridResponse) -> bool {
    &&& r.status == GameStatus::GameOver
    &&& r.action is None
    &&& r.me is None
    &&& r.enemy is None
    &&& r.grid@.len() == 0
}

/// Whether `push` sends to `to` the state of `g` as `to` may see it.
pub open spec fn is_state_push(push: (ClientId, WsEvent), to: Seq<char>, g: GameView) -> bool {
    &&& push.0@ == to
    &&& push.1 matches WsEvent::StateRs(r)
    &&& shows_state(r, g, to)
}

impl RegistryView {
    /// Why a turn is refused, if it is: for a cell off the board, for a
    /// game that does not exist, or by the game itself.
    pub open spec fn turn_error(self, id: Seq<char>, player: Seq<char>, p: Point2d) -> Option<
        GameError,
    > {
        if !p.on_board() {
            Some(GameError::BadRequest)
        } else if !self.games.contains_key(id) {
            Some(GameError::SessionNotFound)
        } else {
            self.games[id].turn_error(player, p)
        }
    }

    /// The registry after `player` has shot at `p` in the game `id`.
    pub open spec fn take_turn(self, id: Seq<char>, player: Seq<char>, p: Point2d) -> RegistryView {
        self.with_game(id, self.games[id].take_turn(player, p))
    }

    /// Whether both connections of the game `id` are bound.
    pub open spec fn is_bound(self, id: Seq<char>) -> bool {
        &&& self.games.contains_key(id)
        &&& self.games[id].client1 is Some
        &&& self.games[id].client2 is Some
    }
}

/// Whether `pushes` is what the two bound connections of the game `id` are
/// sent after a change: to each the state as it may see it, first binding
/// first; and when the game is over, to each that the game is over, and
/// then to each that it is disconnected. Nothing is sent while the game
/// does not exist or a connection is not bound.
pub open spec fn are_state_pushes(
    pushes: Seq<(ClientId, WsEvent)>,
    s: RegistryView,
    id: Seq<char>,
) -> bool {
    if !s.is_bound(id) {
        pushes.len() == 0
    } else {
        let g = s.games[id];
        let a = g.client1.unwrap().id;
        let b = g.client2.unwrap().id;
        &&& pushes.len() == if g.status == GameStatus::GameOver {
            6nat
        } else {
            2nat
        }
        &&& is_state_push(pushes[0], a, g)
        &&& is_state_push(pushes[1], b, g)
        &&& g.status == GameStatus::GameOver ==> {
            &&& pushes[2].0@ == a && pushes[2].1 is GameOver
            &&& pushes[3].0@ == b && pushes[3].1 is GameOver
            &&& pushes[4].0@ == a && pushes[4].1 is Disconnect
            &&& pushes[5].0@ == b && pushes[5].1 is Disconnect
        }
    }
}

/// The state of a game as the player who asks may see it. A game that does
/// not exist is reported as over.
pub fn game_state(state: &MyState, rq: StateRequest) -> (event: WsEvent)
    requires
        state.wf(),
    ensures
        event matches WsEvent::StateRs(r) && if state@.games.contains_key(rq.game_id@) {
            shows_state(r, state@.games[rq.game_id@], rq.username@)
        } else {
            shows_gone(r)
        },
{
    match state.game(&rq.game_id) {
        Some(game) => WsEvent::StateRs(game.view_state(&rq.username)),
        None => WsEvent::StateRs(GridResponse::new(GameStatus::GameOver, None)),
    }
}

/// What is pushed to the two bound connections of a game after a change.
pub fn state_pushes(state: &MyState, game_id: &String) -> (pushes: Vec<(ClientId, WsEvent)>)
    requires
        state.wf(),
    ensures
        are_state_pushes(pushes@, state@, game_id@),
{
    let mut pushes: Vec<(ClientId, WsEvent)> = Vec::new();
    let game = match state.game(game_id) {
        Some(game) => game,
        None => {
            return pushes;
        },
    };
    let (a, b) = match game.clients() {
        Some(pair) => pair,
        None => {
            return pushes;
        },
    };
    pushes.push((a.id.clone(), WsEvent::StateRs(game.view_state(&a.id))));
    pushes.push((b.id.clone(), WsEvent::StateRs(game.view_state(&b.id))));
    if game.is_over() {
        pushes.push((a.id.clone(), WsEvent::GameOver));
        pushes.push((b.id.clone(), WsEvent::GameOver));
        pushes.push((a.id.clone(), WsEvent::Disconnect));
        pushes.push((b.id.clone(), WsEvent::Disconnect));
    }
    pushes
}

/// Lets the player shoot in a game, and answers with the state of the
/// game as that player may see it afterwards. A refused turn changes
/// nothing.
pub fn game_turn(state: &mut MyState, rq: TurnRequest) -> (r: Result<WsEvent, GameError>)
    requires
        old(state).wf(),
    ensures
        final(state).wf(),
        match r {
            Ok(event) => {
                &&& old(state)@.turn_error(rq.game_id@, rq.username@, rq.cell()) is None
                &&& final(state)@ == old(state)@.take_turn(
                    rq.game_id@,
                    rq.username@,
                    rq.cell(),
                )
                &&& event matches WsEvent::StateRs(shown)
                &&& shows_state(shown, final(state)@.games[rq.game_id@], rq.username@)
            },
            Err(e) => {
                &&& old(state)@.turn_error(rq.game_id@, rq.username@, rq.cell()) == Some(e)
                &&& final(state)@ == old(state)@
            },
        },
{
    let p = Point2d::new(rq.x, rq.y);
    if rq.x >= BOARD_SIDE || rq.y >= BOARD_SIDE {
        return Err(GameError::BadRequest);
    }
    let mut game = match state.games.remove(&rq.game_id) {
        Some(game) => game,
        None => {
            assert(state@.games =~= old(state)@.games);
            return Err(GameError::SessionNotFound);
        },
    };
    assert(old(state)@.games.contains_key(rq.game_id@));
    let turn = do_turn_user(p, rq.username.clone(), &mut game);
    let shown = game.view_state(&rq.username);
    state.games.insert(rq.game_id, game);
    match turn {
        Ok(_) => {
            proof {
                let after = old(state)@.take_turn(rq.game_id@, rq.username@, p);
                assert(state@.games =~= after.games);
                lemma_with_same_seats(old(state)@, rq.game_id@, after.games[rq.game_id@]);
            }
            Ok(WsEvent::StateRs(shown))
        },
        Err(e) => {
            assert(state@.games =~= old(state)@.games);
            Err(e)
        },
    }
}

impl RegistryView {
    /// Why `player` cannot be seated with `fleet`, whatever the game: the
    /// player takes part in a game, or the fleet is refused.
    pub open spec fn admission_error(self, player: Seq<char>, fleet: Seq<Seq<Point2d>>) -> Option<
        GameError,
    > {
        if self.client_games.contains_key(player) {
            Some(GameError::AlreadyInSession)
        } else {
            fleet_verdict(fleet)
        }
    }

    /// No game has an id of the form that is drawn for a new game, so that
    /// whatever id is drawn is free.
    pub open spec fn no_drawn_id_in_use(self) -> bool {
        forall|id: Seq<char>| is_game_id(id) ==> !#[trigger] self.games.contains_key(id)
    }

    /// Why `player` cannot open a game under `id`, if so.
    pub open spec fn new_session_error(
        self,
        player: Seq<char>,
        fleet: Seq<Seq<Point2d>>,
        id: Seq<char>,
    ) -> Option<GameError> {
        if self.admission_error(player, fleet) is Some {
            self.admission_error(player, fleet)
        } else if self.games.contains_key(id) {
            Some(GameError::IdInUse)
        } else {
            None
        }
    }

    /// The registry with the game `game` stored under `id` and `player`
    /// recorded as one of its players.
    pub open spec fn seated(self, id: Seq<char>, game: GameView, player: Seq<char>) -> RegistryView {
        RegistryView {
            games: self.games.insert(id, game),
            game_clients: self.game_clients.insert(id, seated_names(game)),
            client_games: self.client_games.insert(player, id),
            queue: self.queue,
        }
    }

    /// The registry after `player` has opened the game `id` and taken its
    /// first seat.
    pub open spec fn new_session(
        self,
        player: Seq<char>,
        fleet: Seq<Seq<Point2d>>,
        id: Seq<char>,
    ) -> RegistryView {
        self.seated(
            id,
            GameView::fresh(id).join(BoardView::fresh(player, fresh_ships(fleet)), 0),
            player,
        )
    }

    /// Why `player` cannot join the game `id`, if so: the game does not
    /// exist, the player takes part in a game, or the game refuses.
    pub open spec fn join_session_error(
        self,
        id: Seq<char>,
        player: Seq<char>,
        fleet: Seq<Seq<Point2d>>,
    ) -> Option<GameError> {
        if !self.games.contains_key(id) {
            Some(GameError::SessionNotFound)
        } else if self.client_games.contains_key(player) {
            Some(GameError::AlreadyInSession)
        } else {
            self.games[id].join_error(fleet)
        }
    }

    /// The registry after `player` has joined the game `id`.
    pub open spec fn join_session(
        self,
        id: Seq<char>,
        player: Seq<char>,
        fleet: Seq<Seq<Point2d>>,
        first: int,
    ) -> RegistryView {
        self.seated(
            id,
            self.games[id].join(BoardView::fresh(player, fresh_ships(fleet)), first),
            player,
        )
    }
}

/// Seating a player who takes part in no game keeps the indices in
/// agreement with the games.
pub proof fn lemma_seated(s: RegistryView, id: Seq<char>, game: GameView, player: Seq<char>)
    requires
        s.index_ok(),
        !s.client_games.contains_key(player),
        game.has_player(player),
        forall|q: Seq<char>|
            q != player ==> (#[trigger] game.has_player(q) <==> s.games.contains_key(id)
                && s.games[id].has_player(q)),
        game.slot2 is Some ==> game.slot1.unwrap().name != game.slot2.unwrap().name,
    ensures
        s.seated(id, game, player).index_ok(),
{
    let a = s.seated(id, game, player);
    assert forall|p: Seq<char>| #[trigger] a.client_games.contains_key(p) implies a.games.contains_key(
        a.client_games[p],
    ) && a.games[a.client_games[p]].has_player(p) by {
        if p != player {
            assert(s.client_games.contains_key(p));
            assert(s.games[s.client_games[p]].has_player(p));
            if s.client_games[p] == id {
                assert(game.has_player(p));
            }
        }
    }
    assert forall|g: Seq<char>, p: Seq<char>|
        a.games.contains_key(g) && #[trigger] a.games[g].has_player(p) implies a.client_games.contains_key(
        p,
    ) && a.client_games[p] == g by {
        if g == id {
            if p != player {
                assert(game.has_player(p));
                assert(s.games[id].has_player(p));
            }
        } else {
            assert(s.games[g].has_player(p));
        }
    }
    assert forall|g: Seq<char>| #[trigger]
        a.games.contains_key(g) && a.games[g].slot2 is Some implies a.games[g].slot1.unwrap().name
        != a.games[g].slot2.unwrap().name by {
        if g != id {
            assert(s.games.contains_key(g));
        }
    }
    assert forall|g: Seq<char>| #[trigger] a.game_clients.contains_key(g) implies a.games.contains_key(
        g,
    ) && a.game_clients[g] == seated_names(a.games[g]) by {
        if g != id {
            assert(s.game_clients.contains_key(g));
        }
    }
}

/// Opening a game, and joining one, keep the invariant of the registry's
/// indices: the player was in no game before, and is in this one after.
pub proof fn lemma_sessions_keep_index(
    s: RegistryView,
    id: Seq<char>,
    player: Seq<char>,
    fleet: Seq<Seq<Point2d>>,
    first: int,
)
    requires
        s.wf(),
    ensures
        s.new_session_error(player, fleet, id) is None ==> s.new_session(
            player,
            fleet,
            id,
        ).index_ok(),
        s.join_session_error(id, player, fleet) is None ==> s.join_session(
            id,
            player,
            fleet,
            first,
        ).index_ok(),
{
    let board = BoardView::fresh(player, fresh_ships(fleet));
    if s.new_session_error(player, fleet, id) is None {
        let game = GameView::fresh(id).join(board, 0);
        assert forall|q: Seq<char>| q != player implies (#[trigger] game.has_player(q)
            <==> s.games.contains_key(id) && s.games[id].has_player(q)) by {}
        lemma_seated(s, id, game, player);
    }
    if s.join_session_error(id, player, fleet) is None {
        let before = s.games[id];
        let game = before.join(board, first);
        assert(before.wf());
        assert forall|q: Seq<char>| q != player implies (#[trigger] game.has_player(q)
            <==> s.games.contains_key(id) && s.games[id].has_player(q)) by {}
        if before.slot1 is Some {
            assert(before.has_player(before.slot1.unwrap().name));
        }
        lemma_seated(s, id, game, player);
    }
}

/// Records in the registry that `game`, stored under its id, has `player`
/// among its players.
fn seat(state: &mut MyState, game: Game, player: String)
    requires
        old(state).maps_wf(),
        old(state)@.games_ok(),
        game.wf(),
    ensures
        final(state).maps_wf(),
        final(state)@.games_ok(),
        final(state)@ == old(state)@.seated(game@.id, game@, player@),
{
    let names = GameClients(
        match &game.slot1 {
            Some(p) => p.name.clone(),
            None => String::new(),
        },
        match &game.slot2 {
            Some(p) => p.name.clone(),
            None => String::new(),
        },
    );
    let id = game.id.clone();
    state.game_clients.insert(id.clone(), names);
    state.client_games.insert(player, id.clone());
    state.games.insert(id, game);
    proof {
        let want = old(state)@.seated(game@.id, game@, player@);
        assert(state@.games =~= want.games);
        assert(state@.game_clients =~= want.game_clients);
        assert(state@.client_games =~= want.client_games);
    }
}

/// Opens a game under `id` for the player of the request, who takes the
/// first seat with the fleet of the request. Nothing changes when the
/// request is refused.
pub fn game_new_with(state: &mut MyState, rq: CreateGameRequest, id: String) -> (r: Result<
    WsEvent,
    GameError,
>)
    requires
        old(state).wf(),
    ensures
        final(state).wf(),
        match r {
            Ok(event) => {
                &&& old(state)@.new_session_error(rq.username@, fleet_of(rq.ships@), id@) is None
                &&& final(state)@ == old(state)@.new_session(
                    rq.username@,
                    fleet_of(rq.ships@),
                    id@,
                )
                &&& event matches WsEvent::CreateGameRs { game_id, status }
                &&& game_id@ == id@
                &&& status == GameStatus::WaitingPlayers
            },
            Err(e) => {
                &&& old(state)@.new_session_error(rq.username@, fleet_of(rq.ships@), id@) == Some(e)
                &&& final(state)@ == old(state)@
            },
        },
{
    if state.client_games.contains_key(&rq.username) {
        return Err(GameError::AlreadyInSession);
    }
    let mut game = Game::with_id(id.clone());
    match game.join_with(rq.username.clone(), rq.ships, 0) {
        Ok(_) => {},
        Err(e) => {
            return Err(e);
        },
    }
    if state.games.contains_key(&id) {
        return Err(GameError::IdInUse);
    }
    seat(state, game, rq.username);
    proof {
        lemma_sessions_keep_index(old(state)@, id@, rq.username@, fleet_of(rq.ships@), 0);
    }
    Ok(WsEvent::CreateGameRs { game_id: id, status: GameStatus::WaitingPlayers })
}

/// Opens a game for the player of the request under a random id of six
/// letters and digits. It is refused as [`game_new_with`] refuses it for
/// some such id: because the player cannot be seated, or because the id
/// drawn is in use. Where the player can be seated and no game has such an
/// id, the game is opened.
pub fn game_new(state: &mut MyState, rq: CreateGameRequest) -> (r: Result<WsEvent, GameError>)
    requires
        old(state).wf(),
    ensures
        final(state).wf(),
        old(state)@.admission_error(rq.username@, fleet_of(rq.ships@)) is None
            && old(state)@.no_drawn_id_in_use() ==> r is Ok,
        match r {
            Ok(event) => {
                &&& event matches WsEvent::CreateGameRs { game_id, status }
                &&& status == GameStatus::WaitingPlayers
                &&& is_game_id(game_id@)
                &&& old(state)@.new_session_error(rq.username@, fleet_of(rq.ships@), game_id@)
                    is None
                &&& final(state)@ == old(state)@.new_session(
                    rq.username@,
                    fleet_of(rq.ships@),
                    game_id@,
                )
            },
            Err(e) => {
                &&& final(state)@ == old(state)@
                &&& exists|id: Seq<char>|
                    is_game_id(id) && #[trigger] old(state)@.new_session_error(
                        rq.username@,
                        fleet_of(rq.ships@),
                        id,
                    ) == Some(e)
            },
        },
{
    let id = random_alphanumeric(GAME_ID_LEN);
    let ghost drawn = id@;
    let r = game_new_with(state, rq, id);
    proof {
        if r is Err {
            assert(is_game_id(drawn) && old(state)@.new_session_error(
                rq.username@,
                fleet_of(rq.ships@),
                drawn,
            ) == Some(r->Err_0));
        }
    }
    r
}

/// Seats the player of the request in the game of the request, and
/// answers with the status of the game and the name of the player of its
/// first seat. `first` decides who shoots first when the game starts.
/// Nothing changes when the request is refused.
pub fn game_join_with(state: &mut MyState, rq: JoinGameRequest, first: usize) -> (r: Result<
    WsEvent,
    GameError,
>)
    requires
        old(state).wf(),
    ensures
        final(state).wf(),
        match r {
            Ok(event) => {
                let after = final(state)@.games[rq.game_id@];
                &&& old(state)@.join_session_error(rq.game_id@, rq.username@, fleet_of(rq.ships@))
                    is None
                &&& final(state)@ == old(state)@.join_session(
                    rq.game_id@,
                    rq.username@,
                    fleet_of(rq.ships@),
                    first as int,
                )
                &&& event matches WsEvent::JoinRs(shown, host)
                &&& shown.status == after.status
                &&& shown.action is None
                &&& shown.me is None
                &&& shown.enemy is None
                &&& shown.grid@.len() == 0
                &&& host@ == after.slot1.unwrap().name
            },
            Err(e) => {
                &&& old(state)@.join_session_error(rq.game_id@, rq.username@, fleet_of(rq.ships@))
                    == Some(e)
                &&& final(state)@ == old(state)@
            },
        },
{
    if !state.games.contains_key(&rq.game_id) {
        return Err(GameError::SessionNotFound);
    }
    if state.client_games.contains_key(&rq.username) {
        return Err(GameError::AlreadyInSession);
    }
    assert(state@.games.contains_key(rq.game_id@));
    let mut game = state.games.remove(&rq.game_id).unwrap();
    match game.join_with(rq.username.clone(), rq.ships, first) {
        Ok(_) => {},
        Err(e) => {
            state.games.insert(rq.game_id, game);
            assert(state@.games =~= old(state)@.games);
            return Err(e);
        },
    }
    let shown = GridResponse::new(game.status, None);
    let host = game.slot1.as_ref().unwrap().name.clone();
    proof {
        assert(state@.games =~= old(state)@.games.remove(rq.game_id@));
    }
    seat(state, game, rq.username);
    proof {
        let want = old(state)@.join_session(
            rq.game_id@,
            rq.username@,
            fleet_of(rq.ships@),
            first as int,
        );
        assert(state@.games =~= want.games);
        lemma_sessions_keep_index(
            old(state)@,
            rq.game_id@,
            rq.username@,
            fleet_of(rq.ships@),
            first as int,
        );
    }
    Ok(WsEvent::JoinRs(shown, host))
}

/// Seats the player of the request in the game of the request, as
/// [`game_join_with`] does. When the game starts with this join, who
/// shoots first is drawn at random between the two players.
pub fn game_join(state: &mut MyState, rq: JoinGameRequest) -> (r: Result<WsEvent, GameError>)
    requires
        old(state).wf(),
    ensures
        final(state).wf(),
        match r {
            Ok(event) => {
                let after = final(state)@.games[rq.game_id@];
                &&& old(state)@.join_session_error(rq.game_id@, rq.username@, fleet_of(rq.ships@))
                    is None
                &&& exists|first: int|
                    0 <= first < 2 && final(state)@ == #[trigger] old(state)@.join_session(
                        rq.game_id@,
                        rq.username@,
                        fleet_of(rq.ships@),
                        first,
                    )
                &&& event matches WsEvent::JoinRs(shown, host)
                &&& shown.status == after.status
                &&& shown.action is None
                &&& shown.me is None
                &&& shown.enemy is None
                &&& shown.grid@.len() == 0
                &&& host@ == after.slot1.unwrap().name
            },
            Err(e) => {
                &&& old(state)@.join_session_error(rq.game_id@, rq.username@, fleet_of(rq.ships@))
                    == Some(e)
                &&& final(state)@ == old(state)@
            },
        },
{
    let first = random_index(2);
    game_join_with(state, rq, first)
}

/// Puts the player of the request at the tail of the queue, with the
/// channel on which the match will be announced. Nobody is refused here: a
/// player who waits twice, or who takes part in a game, is refused when
/// the turn to be matched comes.
pub fn enqueue(
    state: &mut MyState,
    rq: QueueRequest,
    sender: tokio::sync::mpsc::Sender<WsEvent>,
) -> (event: WsEvent)
    requires
        old(state).wf(),
    ensures
        final(state).wf(),
        final(state)@ == old(state)@.enqueue(
            (QueuedView { player: rq.username@, sender, fleet: fleet_of(rq.ships@) }),
        ),
        event matches WsEvent::QueueRs { player_id } && player_id@ == rq.username@,
{
    let player_id = rq.username.clone();
    let entry = QueuedPlayer { player: rq.username, sender, ships: rq.ships };
    state.queue.push_back(entry);
    proof {
        assert(state@.queue =~= old(state)@.queue.push(entry@));
        lemma_same_index(old(state)@, state@);
    }
    WsEvent::QueueRs { player_id }
}

/// What a round of matchmaking did.
#[derive(Debug)]
pub enum MatchOutcome {
    /// Fewer than two players were waiting; nothing was done.
    Idle,
    /// The two oldest waiting players now play the game `game_id`.
    /// `pushes` is what their connections are to be sent, in this order.
    Matched { game_id: GameId, pushes: Vec<(ClientId, WsEvent)> },
    /// One of the two oldest waiting players cannot be seated, for the
    /// reason given, and has left the queue. The other keeps the place.
    Refused { client: Client, error: GameError },
    /// The id for the new game is in use. Nothing was done; the two keep
    /// their places for the next round.
    Postponed,
}

/// The connection of a waiting player.
pub open spec fn client_of(entry: QueuedView) -> ClientView {
    ClientView { id: entry.player, sender: entry.sender }
}

impl RegistryView {
    /// The registry with the two oldest waiting players taken out of the queue.
    pub open spec fn popped(self) -> RegistryView {
        RegistryView { queue: self.queue.skip(2), ..self }
    }

    /// The registry with the waiting player at position `i` taken out of
    /// the queue.
    pub open spec fn without_waiting(self, i: int) -> RegistryView {
        RegistryView { queue: self.queue.remove(i), ..self }
    }

    /// Which of the two oldest waiting players is refused when they cannot
    /// be given a game under `id`: the older one (0) who cannot be seated,
    /// else nobody when the id is in use, else the other one (1).
    pub open spec fn refused_seat(self, id: Seq<char>) -> Option<int> {
        if self.admission_error(self.queue[0].player, self.queue[0].fleet) is Some {
            Some(0)
        } else if self.games.contains_key(id) || self.pairing_error(id) is None {
            None
        } else {
            Some(1)
        }
    }

    /// Whether, with `id` for the new game, one of the two oldest waiting
    /// players is refused with `error`: that player is `client`, and
    /// `after` is the registry without that player in the queue.
    pub open spec fn refuses(
        self,
        id: Seq<char>,
        error: GameError,
        client: ClientView,
        after: RegistryView,
    ) -> bool {
        &&& self.pairing_error(id) == Some(error)
        &&& self.refused_seat(id) matches Some(i)
        &&& after == self.without_waiting(i)
        &&& client == client_of(self.queue[i])
    }

    /// The two oldest waiting players are two, and each can be seated.
    pub open spec fn can_pair(self) -> bool {
        &&& self.queue.len() >= 2
        &&& self.queue[0].player != self.queue[1].player
        &&& self.admission_error(self.queue[0].player, self.queue[0].fleet) is None
        &&& self.admission_error(self.queue[1].player, self.queue[1].fleet) is None
    }

    /// Why the two oldest waiting players cannot be given a game under
    /// `id`, if so: the first cannot open it, or the second cannot join it.
    pub open spec fn pairing_error(self, id: Seq<char>) -> Option<GameError> {
        let a = self.queue[0];
        let b = self.queue[1];
        if self.new_session_error(a.player, a.fleet, id) is Some {
            self.new_session_error(a.player, a.fleet, id)
        } else {
            self.new_session(a.player, a.fleet, id).join_session_error(id, b.player, b.fleet)
        }
    }

    /// The registry after the two oldest waiting players have been given
    /// the game `id`: they leave the queue, the older one opens the game,
    /// the other joins it, and their connections are bound in that order.
    pub open spec fn paired(self, id: Seq<char>, first: int) -> RegistryView {
        let a = self.queue[0];
        let b = self.queue[1];
        let joined = self.popped().new_session(a.player, a.fleet, id).join_session(
            id,
            b.player,
            b.fleet,
            first,
        );
        joined.with_game(id, joined.games[id].attach(client_of(a)).attach(client_of(b)))
    }
}

/// Whether `pushes` announces the game `g` to its two players `a` and
/// `b`: to each that the game has started, then to each the state of the
/// game as that player may see it.
pub open spec fn are_match_pushes(
    pushes: Seq<(ClientId, WsEvent)>,
    g: GameView,
    a: Seq<char>,
    b: Seq<char>,
) -> bool {
    &&& pushes.len() == 4
    &&& pushes[0].0@ == a
    &&& pushes[0].1 matches WsEvent::GameStart { game_id }
    &&& game_id@ == g.id
    &&& pushes[1].0@ == b
    &&& pushes[1].1 matches WsEvent::GameStart { game_id }
    &&& game_id@ == g.id
    &&& is_state_push(pushes[2], a, g)
    &&& is_state_push(pushes[3], b, g)
}

/// Why `player` cannot be seated with the fleet `ships`, whatever the game.
fn admission_check(state: &MyState, player: &String, ships: &ShipsRaw) -> (r: Option<
    GameError,
>)
    ensures
        r == state@.admission_error(player@, fleet_of(ships@)),
{
    if state.client_games.contains_key(player) {
        Some(GameError::AlreadyInSession)
    } else if !has_valid_composition(ships) {
        Some(GameError::FleetError(FleetError::InvalidComposition))
    } else if !is_fleet_on_board(ships) {
        Some(GameError::BadRequest)
    } else {
        None
    }
}

/// One round of matchmaking with the id `id` for the new game. With
/// fewer than two waiting players nothing is done. Otherwise the two
/// oldest are looked at. When both can be seated and `id` is free, they
/// leave the queue, the older one opens the game and the other joins it,
/// `first` deciding who shoots first, and their connections are bound.
/// When `id` is in use nothing changes. When one of them cannot be seated,
/// that one leaves the queue and the other keeps the place.
pub fn match_players_with(state: &mut MyState, id: String, first: usize) -> (r: MatchOutcome)
    requires
        old(state).wf(),
    ensures
        final(state).wf(),
        old(state)@.queue.len() < 2 ==> r is Idle && final(state)@ == old(state)@,
        old(state)@.queue.len() >= 2 ==> match old(state)@.pairing_error(id@) {
            Some(e) => match old(state)@.refused_seat(id@) {
                Some(i) => {
                    &&& final(state)@ == old(state)@.without_waiting(i)
                    &&& r matches MatchOutcome::Refused { client, error }
                    &&& error == e
                    &&& client@ == client_of(old(state)@.queue[i])
                },
                None => r is Postponed && final(state)@ == old(state)@,
            },
            None => {
                &&& final(state)@ == old(state)@.paired(id@, first as int)
                &&& r matches MatchOutcome::Matched { game_id, pushes }
                &&& game_id@ == id@
                &&& are_match_pushes(
                    pushes@,
                    final(state)@.games[id@],
                    old(state)@.queue[0].player,
                    old(state)@.queue[1].player,
                )
            },
        },
{
    if state.queue.len() < 2 {
        return MatchOutcome::Idle;
    }
    let ghost start = state@;
    proof {
        assert(start.queue[0] == state.queue@[0]@);
        assert(start.queue[1] == state.queue@[1]@);
        let mid = start.new_session(start.queue[0].player, start.queue[0].fleet, id@);
        assert(mid.games.contains_key(id@));
        assert(mid.client_games.contains_key(start.queue[1].player) <==> (start.queue[1].player
            == start.queue[0].player || start.client_games.contains_key(start.queue[1].player)));
    }
    if let Some(e) = admission_check(state, &state.queue[0].player, &state.queue[0].ships) {
        let a = state.queue.pop_front().unwrap();
        proof {
            assert(state@.queue =~= start.queue.remove(0));
            lemma_same_index(start, state@);
        }
        return MatchOutcome::Refused { client: Client::new(a.player, a.sender), error: e };
    }
    if state.games.contains_key(&id) {
        return MatchOutcome::Postponed;
    }
    let second = if state.queue[0].player == state.queue[1].player {
        Some(GameError::AlreadyInSession)
    } else {
        admission_check(state, &state.queue[1].player, &state.queue[1].ships)
    };
    if let Some(e) = second {
        let b = state.queue.remove(1).unwrap();
        proof {
            assert(state@.queue =~= start.queue.remove(1));
            lemma_same_index(start, state@);
        }
        return MatchOutcome::Refused { client: Client::new(b.player, b.sender), error: e };
    }
    let a = state.queue.pop_front().unwrap();
    let b = state.queue.pop_front().unwrap();
    proof {
        assert(state@.queue =~= start.queue.skip(2));
        assert(state@ == start.popped());
    }
    let mut game = Game::with_id(id.clone());
    let first_name = a.player.clone();
    let second_name = b.player.clone();
    // Both players were found fit to be seated, so none of these steps is refused.
    let _ = game.join_with(a.player.clone(), a.ships, 0);
    seat(state, game, a.player.clone());
    let ghost opened = state@;
    let mut game = state.games.remove(&id).unwrap();
    assert(state@.games =~= opened.games.remove(id@));
    let _ = game.join_with(b.player.clone(), b.ships, first);
    let _ = game.attach_client(Client::new(a.player, a.sender));
    let _ = game.attach_client(Client::new(b.player.clone(), b.sender));
    let mut pushes: Vec<(ClientId, WsEvent)> = Vec::new();
    pushes.push((first_name.clone(), WsEvent::GameStart { game_id: id.clone() }));
    pushes.push((second_name.clone(), WsEvent::GameStart { game_id: id.clone() }));
    pushes.push((first_name.clone(), WsEvent::StateRs(game.view_state(&first_name))));
    pushes.push((second_name.clone(), WsEvent::StateRs(game.view_state(&second_name))));
    seat(state, game, b.player);
    proof {
        let want = start.paired(id@, first as int);
        assert(state@.games =~= want.games);
        assert(state@.game_clients =~= want.game_clients);
        assert(state@.client_games =~= want.client_games);
    }
    MatchOutcome::Matched { game_id: id, pushes }
}

/// One round of matchmaking, as [`match_players_with`] does it, with a
/// random id of six letters and digits for the new game, and with the
/// player who shoots first drawn at random. Two players who can be seated
/// are given a game unless the id drawn is in use; then nothing changes,
/// and the next round draws again.
pub fn match_players(state: &mut MyState) -> (r: MatchOutcome)
    requires
        old(state).wf(),
    ensures
        final(state).wf(),
        old(state)@.queue.len() < 2 ==> r is Idle && final(state)@ == old(state)@,
        old(state)@.can_pair() ==> r is Matched || r is Postponed,
        old(state)@.can_pair() && old(state)@.no_drawn_id_in_use() ==> r is Matched,
        old(state)@.queue.len() >= 2 ==> match r {
            MatchOutcome::Idle => false,
            MatchOutcome::Postponed => {
                &&& final(state)@ == old(state)@
                &&& exists|id: Seq<char>|
                    is_game_id(id) && #[trigger] old(state)@.games.contains_key(id)
                &&& old(state)@.admission_error(
                    old(state)@.queue[0].player,
                    old(state)@.queue[0].fleet,
                ) is None
            },
            MatchOutcome::Refused { client, error } => {
                exists|id: Seq<char>|
                    is_game_id(id) && #[trigger] old(state)@.refuses(
                        id,
                        error,
                        client@,
                        final(state)@,
                    )
            },
            MatchOutcome::Matched { game_id, pushes } => {
                &&& is_game_id(game_id@)
                &&& old(state)@.pairing_error(game_id@) is None
                &&& exists|first: int|
                    0 <= first < 2 && final(state)@ == #[trigger] old(state)@.paired(
                        game_id@,
                        first,
                    )
                &&& are_match_pushes(
                    pushes@,
                    final(state)@.games[game_id@],
                    old(state)@.queue[0].player,
                    old(state)@.queue[1].player,
                )
            },
        },
{
    if state.queue.len() < 2 {
        return MatchOutcome::Idle;
    }
    let id = random_alphanumeric(GAME_ID_LEN);
    let first = random_index(2);
    let ghost drawn = id@;
    let r = match_players_with(state, id, first);
    proof {
        if r is Refused {
            assert(old(state)@.refuses(drawn, r->error, r->client@, state@));
        }
        if r is Postponed {
            assert(old(state)@.games.contains_key(drawn));
        }
    }
    r
}

/// Matchmaking is first in, first out. A round gives a game to the two
/// oldest waiting players, the older one in the first seat, and leaves the
/// others waiting in their order. Whoever enters the queue stands behind
/// those who wait already: when one player was left waiting, the next
/// round pairs that player with the next to arrive; when two or more were
/// left, it pairs the two oldest of them.
pub proof fn lemma_matchmaking_is_fifo(
    s: RegistryView,
    id: Seq<char>,
    first: int,
    late: QueuedView,
)
    requires
        s.queue.len() >= 2,
        s.pairing_error(id) is None,
    ensures
        ({
            let after = s.paired(id, first);
            let game = after.games[id];
            &&& after.queue == s.queue.skip(2)
            &&& game.status == GameStatus::Progress
            &&& game.slot1.unwrap().name == s.queue[0].player
            &&& game.slot2.unwrap().name == s.queue[1].player
            &&& game.client1 == Some(client_of(s.queue[0]))
            &&& game.client2 == Some(client_of(s.queue[1]))
            &&& after.client_games[s.queue[0].player] == id
            &&& after.client_games[s.queue[1].player] == id
            &&& after.enqueue(late).queue == s.queue.skip(2).push(late)
            &&& s.queue.len() == 3 ==> after.enqueue(late).queue[0] == s.queue[2]
                && after.enqueue(late).queue[1] == late
            &&& s.queue.len() >= 4 ==> after.enqueue(late).queue[0] == s.queue[2]
                && after.enqueue(late).queue[1] == s.queue[3]
        }),
{
}

/// Whether `event` tells a caller that a request was refused with
/// `error`: with the reason where the caller can mend the request, and
/// else by an abort.
pub open spec fn is_error_event(event: WsEvent, error: GameError) -> bool {
    if error.is_mendable() {
        &&& event matches WsEvent::BadRequestRs(text)
        &&& text@ == error.text()
    } else {
        event is ServerAbort
    }
}

/// The event that tells a caller that a request was refused.
pub fn error_event(error: GameError) -> (event: WsEvent)
    ensures
        is_error_event(event, error),
{
    match error {
        GameError::FleetError(_) | GameError::BadRequest | GameError::NotYourTurn => {
            WsEvent::BadRequestRs(error.message())
        },
        _ => WsEvent::ServerAbort,
    }
}

/// Whoever can be seated is refused a new game only for its id, and two
/// waiting players who can be seated are refused a game together only for
/// its id: exactly when a game has that id already.
pub proof fn lemma_refused_only_for_id(
    s: RegistryView,
    player: Seq<char>,
    fleet: Seq<Seq<Point2d>>,
    id: Seq<char>,
)
    ensures
        s.admission_error(player, fleet) is None ==> s.new_session_error(player, fleet, id) == if s.games.contains_key(
            id,
        ) {
            Some(GameError::IdInUse)
        } else {
            None
        },
        s.can_pair() ==> s.pairing_error(id) == if s.games.contains_key(id) {
            Some(GameError::IdInUse)
        } else {
            None
        },
{
}

} // verus!
