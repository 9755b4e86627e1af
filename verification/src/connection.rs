//! What the request of a connection does to the registry, together with
//! the binding of the connection and with what is pushed afterwards.

use vstd::prelude::*;
use crate::board::Point2d;
use crate::dto::{
    ClientId, CreateGameRequest, GameStatus, JoinGameRequest, QueueRequest, TurnRequest, WsEvent,
};
use crate::engine::{
    are_state_pushes, enqueue, error_event, game_join_with, game_new_with, game_turn,
    is_error_event, state_pushes,
};
use crate::error::GameError;
use crate::player::fleet_of;
use crate::registry::{MyState, QueuedView, RegistryView};
use crate::session::{is_game_id, Client, ClientView, GAME_ID_LEN};
use crate::trusted::{random_alphanumeric, random_index};

verus! {

impl RegistryView {
    /// The registry with `client` bound to the game `id`, if the game has
    /// a free binding.
    pub open spec fn bound(self, id: Seq<char>, client: ClientView) -> RegistryView {
        if self.attach_error(id) is None {
            self.with_game(id, self.games[id].attach(client))
        } else {
            self
        }
    }

    /// The registry after `player` has opened the game `id` on the
    /// connection `sender`.
    pub open spec fn opened(
        self,
        player: Seq<char>,
        fleet: Seq<Seq<Point2d>>,
        id: Seq<char>,
        sender: tokio::sync::mpsc::Sender<WsEvent>,
    ) -> RegistryView {
        self.new_session(player, fleet, id).bound(id, ClientView { id: player, sender })
    }

    /// The registry after `player` has joined the game `id` on the
    /// connection `sender`.
    pub open spec fn joined(
        self,
        id: Seq<char>,
        player: Seq<char>,
        fleet: Seq<Seq<Point2d>>,
        first: int,
        sender: tokio::sync::mpsc::Sender<WsEvent>,
    ) -> RegistryView {
        self.join_session(id, player, fleet, first).bound(id, ClientView { id: player, sender })
    }
}

/// Whether `pushes` is what follows a join of `player` to the game `id`:
/// the answer to the player, with the status of the game and the name of
/// the player of its first seat, and then the state of the game to each
/// bound connection.
pub open spec fn are_join_pushes(
    pushes: Seq<(ClientId, WsEvent)>,
    s: RegistryView,
    id: Seq<char>,
    player: Seq<char>,
) -> bool {
    &&& pushes.len() >= 1
    &&& pushes[0].0@ == player
    &&& pushes[0].1 matches WsEvent::JoinRs(shown, host)
    &&& shown.status == s.games[id].status
    &&& shown.action is None
    &&& shown.me is None
    &&& shown.enemy is None
    &&& shown.grid@.len() == 0
    &&& host@ == s.games[id].slot1.unwrap().name
    &&& are_state_pushes(pushes.skip(1), s, id)
}

/// Opens a game under `id` for the player of the request and binds
/// `sender` to it as the connection of that player. Nothing changes when
/// the request is refused.
pub fn open_game_with(
    state: &mut MyState,
    rq: CreateGameRequest,
    sender: tokio::sync::mpsc::Sender<WsEvent>,
    id: String,
) -> (r: Result<WsEvent, GameError>)
    requires
        old(state).wf(),
    ensures
        final(state).wf(),
        match r {
            Ok(event) => {
                &&& old(state)@.new_session_error(rq.username@, fleet_of(rq.ships@), id@) is None
                &&& final(state)@ == old(state)@.opened(
                    rq.username@,
                    fleet_of(rq.ships@),
                    id@,
                    sender,
                )
                &&& event matches WsEvent::CreateGameRs { game_id, status }
                &&& game_id@ == id@
                &&& status == GameStatus::WaitingPlayers
            },
            Err(e) => {
                &&& old(state)@.new_session_error(rq.username@, fleet_of(rq.ships@), id@) == Some(e)
                &&& final(state)@ == old(state)@
            },
        },
{
    let player = rq.username.clone();
    let key = id.clone();
    let event = match game_new_with(state, rq, id) {
        Ok(event) => event,
        Err(e) => {
            return Err(e);
        },
    };
    let _ = state.attach_client(key.as_str(), Client::new(player, sender));
    Ok(event)
}

/// Opens a game for the player of the request under a random id of six
/// letters and digits, and binds `sender` to it. It is refused as
/// [`open_game_with`] refuses it for some such id: because the player
/// cannot be seated, or because the id drawn is in use. Where the player
/// can be seated and no game has such an id, the game is opened.
pub fn open_game(
    state: &mut MyState,
    rq: CreateGameRequest,
    sender: tokio::sync::mpsc::Sender<WsEvent>,
) -> (r: Result<WsEvent, GameError>)
    requires
        old(state).wf(),
    ensures
        final(state).wf(),
        old(state)@.admission_error(rq.username@, fleet_of(rq.ships@)) is None
            && old(state)@.no_drawn_id_in_use() ==> r is Ok,
        match r {
            Ok(event) => {
                &&& event matches WsEvent::CreateGameRs { game_id, status }
                &&& status == GameStatus::WaitingPlayers
                &&& is_game_id(game_id@)
                &&& old(state)@.new_session_error(rq.username@, fleet_of(rq.ships@), game_id@)
                    is None
                &&& final(state)@ == old(state)@.opened(
                    rq.username@,
                    fleet_of(rq.ships@),
                    game_id@,
                    sender,
                )
            },
            Err(e) => {
                &&& final(state)@ == old(state)@
                &&& exists|id: Seq<char>|
                    is_game_id(id) && #[trigger] old(state)@.new_session_error(
                        rq.username@,
                        fleet_of(rq.ships@),
                        id,
                    ) == Some(e)
            },
        },
{
    let id = random_alphanumeric(GAME_ID_LEN);
    let ghost drawn = id@;
    let r = open_game_with(state, rq, sender, id);
    proof {
        if r is Err {
            assert(is_game_id(drawn) && old(state)@.new_session_error(
                rq.username@,
                fleet_of(rq.ships@),
                drawn,
            ) == Some(r->Err_0));
        }
    }
    r
}

/// Seats the player of the request in the game of the request, binds
/// `sender` to the game as the connection of that player if a binding is
/// free, and says what is to be pushed: the answer to the player, then the
/// state of the game to each bound connection. `first` decides who shoots
/// first when the game starts. Nothing changes when the request is
/// refused.
pub fn join_game_with(
    state: &mut MyState,
    rq: JoinGameRequest,
    sender: tokio::sync::mpsc::Sender<WsEvent>,
    first: usize,
) -> (r: Result<Vec<(ClientId, WsEvent)>, GameError>)
    requires
        old(state).wf(),
    ensures
        final(state).wf(),
        match r {
            Ok(pushes) => {
                &&& old(state)@.join_session_error(rq.game_id@, rq.username@, fleet_of(rq.ships@))
                    is None
                &&& final(state)@ == old(state)@.joined(
                    rq.game_id@,
                    rq.username@,
                    fleet_of(rq.ships@),
                    first as int,
                    sender,
                )
                &&& are_join_pushes(pushes@, final(state)@, rq.game_id@, rq.username@)
            },
            Err(e) => {
                &&& old(state)@.join_session_error(rq.game_id@, rq.username@, fleet_of(rq.ships@))
                    == Some(e)
                &&& final(state)@ == old(state)@
            },
        },
{
    let player = rq.username.clone();
    let id = rq.game_id.clone();
    let answer = match game_join_with(state, rq, first) {
        Ok(event) => event,
        Err(e) => {
            return Err(e);
        },
    };
    let _ = state.attach_client(id.as_str(), Client::new(player.clone(), sender));
    let mut pushes: Vec<(ClientId, WsEvent)> = Vec::new();
    pushes.push((player, answer));
    let mut states = state_pushes(state, &id);
    let ghost states_view = states@;
    pushes.append(&mut states);
    assert(pushes@.skip(1) =~= states_view);
    Ok(pushes)
}

/// Seats the player of the request as [`join_game_with`] does. When the
/// game starts with this join, who shoots first is drawn at random between
/// the two players.
pub fn join_game(
    state: &mut MyState,
    rq: JoinGameRequest,
    sender: tokio::sync::mpsc::Sender<WsEvent>,
) -> (r: Result<Vec<(ClientId, WsEvent)>, GameError>)
    requires
        old(state).wf(),
    ensures
        final(state).wf(),
        match r {
            Ok(pushes) => {
                &&& old(state)@.join_session_error(rq.game_id@, rq.username@, fleet_of(rq.ships@))
                    is None
                &&& exists|first: int|
                    0 <= first < 2 && final(state)@ == #[trigger] old(state)@.joined(
                        rq.game_id@,
                        rq.username@,
                        fleet_of(rq.ships@),
                        first,
                        sender,
                    )
                &&& are_join_pushes(pushes@, final(state)@, rq.game_id@, rq.username@)
            },
            Err(e) => {
                &&& old(state)@.join_session_error(rq.game_id@, rq.username@, fleet_of(rq.ships@))
                    == Some(e)
                &&& final(state)@ == old(state)@
            },
        },
{
    let first = random_index(2);
    join_game_with(state, rq, sender, first)
}

/// Lets the player of the request shoot, and says what is to be pushed
/// afterwards: the state of the game to each bound connection, and, when
/// the shot ended the game, its end and the disconnection to each. Nothing
/// changes, and nothing is pushed, when the turn is refused.
pub fn play_turn(state: &mut MyState, rq: TurnRequest) -> (r: Result<
    Vec<(ClientId, WsEvent)>,
    GameError,
>)
    requires
        old(state).wf(),
    ensures
        final(state).wf(),
        match r {
            Ok(pushes) => {
                &&& old(state)@.turn_error(rq.game_id@, rq.username@, rq.cell()) is None
                &&& final(state)@ == old(state)@.take_turn(
                    rq.game_id@,
                    rq.username@,
                    rq.cell(),
                )
                &&& are_state_pushes(pushes@, final(state)@, rq.game_id@)
            },
            Err(e) => {
                &&& old(state)@.turn_error(rq.game_id@, rq.username@, rq.cell()) == Some(e)
                &&& final(state)@ == old(state)@
            },
        },
{
    let id = rq.game_id.clone();
    match game_turn(state, rq) {
        Ok(_) => Ok(state_pushes(state, &id)),
        Err(e) => Err(e),
    }
}

/// Whether the event asks to enter a game or the queue.
pub open spec fn asks_to_enter(event: WsEvent) -> bool {
    event is CreateGameRq || event is JoinRq || event is QueueRq
}

/// Whether `pushes` is one event, for `to`.
pub open spec fn is_answer(pushes: Seq<(ClientId, WsEvent)>, to: Seq<char>) -> bool {
    pushes.len() == 1 && pushes[0].0@ == to
}

impl RegistryView {
    /// Why the request that `event` makes for the connection `connection`
    /// is refused, if it is. The player of a request is always the
    /// connection that makes it, whatever name the request carries.
    pub open spec fn entry_error(self, connection: Seq<char>, event: WsEvent, id: Seq<char>) -> Option<
        GameError,
    > {
        match event {
            WsEvent::CreateGameRq(rq) => self.new_session_error(
                connection,
                fleet_of(rq.ships@),
                id,
            ),
            WsEvent::JoinRq(rq) => self.join_session_error(
                rq.game_id@,
                connection,
                fleet_of(rq.ships@),
            ),
            _ => None,
        }
    }

    /// The registry after the request that `event` makes for `connection`:
    /// a game opened under `id`, a game joined, the queue entered; and
    /// nothing changed by a refused request or any other event.
    pub open spec fn after_entry(
        self,
        connection: Seq<char>,
        sender: tokio::sync::mpsc::Sender<WsEvent>,
        event: WsEvent,
        id: Seq<char>,
        first: int,
    ) -> RegistryView {
        if self.entry_error(connection, event, id) is Some {
            self
        } else {
            match event {
                WsEvent::CreateGameRq(rq) => self.opened(
                    connection,
                    fleet_of(rq.ships@),
                    id,
                    sender,
                ),
                WsEvent::JoinRq(rq) => self.joined(
                    rq.game_id@,
                    connection,
                    fleet_of(rq.ships@),
                    first,
                    sender,
                ),
                WsEvent::QueueRq(rq) => self.enqueue(
                    QueuedView { player: connection, sender, fleet: fleet_of(rq.ships@) },
                ),
                _ => self,
            }
        }
    }
}

/// Whether `pushes` is what follows `event` of the connection `connection`
/// when the registry is `after`: the refusal to the connection; or the
/// answer to it, and after a join the state of the game to each bound
/// connection; or nothing for an event that asks for nothing.
pub open spec fn are_entry_pushes(
    pushes: Seq<(ClientId, WsEvent)>,
    after: RegistryView,
    connection: Seq<char>,
    event: WsEvent,
    id: Seq<char>,
    error: Option<GameError>,
) -> bool {
    match error {
        Some(e) => is_answer(pushes, connection) && is_error_event(pushes[0].1, e),
        None => match event {
            WsEvent::ConnectRq { .. } => {
                &&& is_answer(pushes, connection)
                &&& pushes[0].1 matches WsEvent::ConnectRs { player_id }
                &&& player_id@ == connection
            },
            WsEvent::CreateGameRq(_) => {
                &&& is_answer(pushes, connection)
                &&& pushes[0].1 matches WsEvent::CreateGameRs { game_id, status }
                &&& game_id@ == id
                &&& status == GameStatus::WaitingPlayers
            },
            WsEvent::JoinRq(rq) => are_join_pushes(pushes, after, rq.game_id@, connection),
            WsEvent::QueueRq(_) => {
                &&& is_answer(pushes, connection)
                &&& pushes[0].1 matches WsEvent::QueueRs { player_id }
                &&& player_id@ == connection
            },
            _ => pushes.len() == 0,
        },
    }
}

/// Whether `after`, `pushes` and `entered` are what `event` of the
/// connection `connection` leads to from the registry `before`, with `id`
/// for a new game and `first` for who shoots first. The connection has
/// entered exactly when it asked to enter a game or the queue and was not
/// refused; a refused connection may ask again.
pub open spec fn is_entry_step(
    before: RegistryView,
    after: RegistryView,
    connection: Seq<char>,
    sender: tokio::sync::mpsc::Sender<WsEvent>,
    event: WsEvent,
    id: Seq<char>,
    first: int,
    pushes: Seq<(ClientId, WsEvent)>,
    entered: bool,
) -> bool {
    let error = before.entry_error(connection, event, id);
    &&& after == before.after_entry(connection, sender, event, id, first)
    &&& entered == (asks_to_enter(event) && error is None)
    &&& are_entry_pushes(pushes, after, connection, event, id, error)
}

/// Serves what a connection asks before it plays: to be told its name, to
/// open a game under `id`, to join a game, or to wait for an opponent. The
/// player is the connection itself. The result is what is to be pushed,
/// and whether the connection has entered a game or the queue.
pub fn serve_entry_with(
    state: &mut MyState,
    connection_id: &String,
    sender: tokio::sync::mpsc::Sender<WsEvent>,
    event: WsEvent,
    id: String,
    first: usize,
) -> (r: (Vec<(ClientId, WsEvent)>, bool))
    requires
        old(state).wf(),
    ensures
        final(state).wf(),
        is_entry_step(
            old(state)@,
            final(state)@,
            connection_id@,
            sender,
            event,
            id@,
            first as int,
            r.0@,
            r.1,
        ),
{
    let mut pushes: Vec<(ClientId, WsEvent)> = Vec::new();
    match event {
        WsEvent::ConnectRq { .. } => {
            pushes.push(
                (connection_id.clone(), WsEvent::ConnectRs { player_id: connection_id.clone() }),
            );
            (pushes, false)
        },
        WsEvent::CreateGameRq(rq) => {
            let rq = CreateGameRequest { username: connection_id.clone(), ships: rq.ships };
            match open_game_with(state, rq, sender, id) {
                Ok(answer) => {
                    pushes.push((connection_id.clone(), answer));
                    (pushes, true)
                },
                Err(e) => {
                    pushes.push((connection_id.clone(), error_event(e)));
                    (pushes, false)
                },
            }
        },
        WsEvent::JoinRq(rq) => {
            let rq = JoinGameRequest {
                game_id: rq.game_id,
                username: connection_id.clone(),
                ships: rq.ships,
            };
            match join_game_with(state, rq, sender, first) {
                Ok(pushes) => (pushes, true),
                Err(e) => {
                    pushes.push((connection_id.clone(), error_event(e)));
                    (pushes, false)
                },
            }
        },
        WsEvent::QueueRq(rq) => {
            let rq = QueueRequest { username: connection_id.clone(), ships: rq.ships };
            let answer = enqueue(state, rq, sender);
            pushes.push((connection_id.clone(), answer));
            (pushes, true)
        },
        _ => (pushes, false),
    }
}

/// Serves what a connection asks before it plays, as [`serve_entry_with`]
/// does, with a random id of six letters and digits for a new game and
/// with the player who shoots first drawn at random.
pub fn serve_entry(
    state: &mut MyState,
    connection_id: &String,
    sender: tokio::sync::mpsc::Sender<WsEvent>,
    event: WsEvent,
) -> (r: (Vec<(ClientId, WsEvent)>, bool))
    requires
        old(state).wf(),
    ensures
        final(state).wf(),
        asks_to_enter(event) && (forall|id: Seq<char>|
            is_game_id(id) ==> #[trigger] old(state)@.entry_error(connection_id@, event, id)
                is None) ==> r.1,
        exists|id: Seq<char>, first: int|
            is_game_id(id) && 0 <= first < 2 && #[trigger] is_entry_step(
                old(state)@,
                final(state)@,
                connection_id@,
                sender,
                event,
                id,
                first,
                r.0@,
                r.1,
            ),
{
    let id = random_alphanumeric(GAME_ID_LEN);
    let first = random_index(2);
    let ghost drawn = id@;
    let r = serve_entry_with(state, connection_id, sender, event, id, first);
    proof {
        assert(is_game_id(drawn) && is_entry_step(
            old(state)@,
            state@,
            connection_id@,
            sender,
            event,
            drawn,
            first as int,
            r.0@,
            r.1,
        ));
    }
    r
}

/// The pushes of a result, if there are any.
pub open spec fn pushes_view(r: Option<Vec<(ClientId, WsEvent)>>) -> Option<
    Seq<(ClientId, WsEvent)>,
> {
    match r {
        Some(pushes) => Some(pushes@),
        None => None,
    }
}

/// Whether `after` and `r` are what `event` of the playing connection
/// `connection` leads to from the registry `before`. A turn is the turn of
/// the connection itself. After it the state is pushed to both players;
/// a refused turn is answered to the connection alone; and the turn in a
/// game that is gone ends the connection, which `r` says by being `None`.
/// Any other event asks for nothing.
pub open spec fn is_turn_step(
    before: RegistryView,
    after: RegistryView,
    connection: Seq<char>,
    event: WsEvent,
    r: Option<Seq<(ClientId, WsEvent)>>,
) -> bool {
    match event {
        WsEvent::TurnRq(rq) => match before.turn_error(rq.game_id@, connection, rq.cell()) {
            None => {
                &&& after == before.take_turn(rq.game_id@, connection, rq.cell())
                &&& r matches Some(pushes)
                &&& are_state_pushes(pushes, after, rq.game_id@)
            },
            Some(e) => {
                &&& after == before
                &&& e is SessionNotFound ==> r is None
                &&& !(e is SessionNotFound) ==> {
                    &&& r matches Some(pushes)
                    &&& is_answer(pushes, connection)
                    &&& is_error_event(pushes[0].1, e)
                }
            },
        },
        _ => {
            &&& after == before
            &&& r matches Some(pushes)
            &&& pushes.len() == 0
        },
    }
}

/// Serves what a connection asks while it plays: a turn.
pub fn serve_turn(state: &mut MyState, connection_id: &String, event: WsEvent) -> (r: Option<
    Vec<(ClientId, WsEvent)>,
>)
    requires
        old(state).wf(),
    ensures
        final(state).wf(),
        is_turn_step(old(state)@, final(state)@, connection_id@, event, pushes_view(r)),
{
    match event {
        WsEvent::TurnRq(rq) => {
            let rq = TurnRequest {
                game_id: rq.game_id,
                username: connection_id.clone(),
                x: rq.x,
                y: rq.y,
            };
            match play_turn(state, rq) {
                Ok(pushes) => Some(pushes),
                Err(e) => {
                    if e.ends_connection() {
                        None
                    } else {
                        let mut pushes: Vec<(ClientId, WsEvent)> = Vec::new();
                        pushes.push((connection_id.clone(), error_event(e)));
                        Some(pushes)
                    }
                },
            }
        },
        _ => Some(Vec::new()),
    }
}

} // verus!
