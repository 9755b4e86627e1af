//! One game between two players: who has joined, whose turn it is, and
//! whether the game is waiting, in progress or over.

use vstd::prelude::*;
use crate::board::{in_no_ship_zone, CellType, Point2d, ShotOutcome, BOARD_SIDE};
use crate::dto::{GameStatus, GridResponse, PlayerAction, ShipsRaw, WsEvent};
use crate::error::GameError;
use crate::fleet::{fresh_ships, lemma_shoot_hit_cells, BoardView};
use crate::player::{fleet_of, fleet_verdict, Player, ShotReport};
use crate::render::{concealed, grid_as_json_single, grid_view, lemma_fog_of_war, rendered};
use crate::trusted::{is_alphanumeric, new_room_sender, random_alphanumeric, random_index};

verus! {

/// Length of the id of a game.
pub const GAME_ID_LEN: usize = 6;

/// Whether `id` has the form of the id of a game: six letters and digits.
pub open spec fn is_game_id(id: Seq<char>) -> bool {
    &&& id.len() == GAME_ID_LEN
    &&& forall|i: int| 0 <= i < id.len() ==> is_alphanumeric(#[trigger] id[i])
}

/// Capacity of the broadcast channel of a game.
pub const ROOM_CAPACITY: usize = 16;

/// A connection bound to a game: the player it belongs to and the channel
/// on which events are pushed to it.
#[derive(Debug)]
pub struct Client {
    pub id: String,
    pub sender: tokio::sync::mpsc::Sender<WsEvent>,
}

/// Mathematical value of a bound connection.
pub struct ClientView {
    pub id: Seq<char>,
    pub sender: tokio::sync::mpsc::Sender<WsEvent>,
}

impl View for Client {
    type V = ClientView;

    open spec fn view(&self) -> ClientView {
        ClientView { id: self.id@, sender: self.sender }
    }
}

impl Client {
    /// The connection of the player `id`, with the channel to push events on.
    pub fn new(id: String, sender: tokio::sync::mpsc::Sender<WsEvent>) -> (client: Self)
        ensures
            client.id == id,
            client.sender == sender,
    {
        Self { id, sender }
    }
}

/// The mathematical value of a binding.
pub open spec fn binding_view(binding: Option<Client>) -> Option<ClientView> {
    match binding {
        Some(c) => Some(c@),
        None => None,
    }
}

/// Whether a turn left the game running or ended it.
#[derive(PartialEq, Eq, Structural, Debug, Clone, Copy)]
pub enum GameFlow {
    NextTurn,
    GameOver,
}

/// What a turn did: the shot, and whether the game goes on.
#[derive(Debug)]
pub struct TurnReport {
    pub shot: ShotReport,
    pub flow: GameFlow,
}

/// Mathematical value of a game.
pub struct GameView {
    pub id: Seq<char>,
    pub slot1: Option<BoardView>,
    pub slot2: Option<BoardView>,
    pub current_turn: Seq<char>,
    pub status: GameStatus,
    pub client1: Option<ClientView>,
    pub client2: Option<ClientView>,
}

/// Whether `r` shows the game `g` as `requester` may see it. While the game
/// waits for players that is the status alone. Afterwards it is the
/// status, what the requester may do next, and the board of each player
/// under that player's name, first seat first; the board of another
/// player is rendered without the ships that were not hit.
pub open spec fn shows_state(r: GridResponse, g: GameView, requester: Seq<char>) -> bool {
    &&& r.status == g.status
    &&& r.me is None
    &&& r.enemy is None
    &&& g.status == GameStatus::WaitingPlayers ==> r.action is None && r.grid@.len() == 0
    &&& g.status != GameStatus::WaitingPlayers ==> {
        &&& r.action == Some(g.action_of(requester))
        &&& r.grid@.len() == 2
        &&& r.grid@[0].0@ == g.slot1.unwrap().name
        &&& grid_view(r.grid@[0].1) == rendered(
            g.slot1.unwrap().cells,
            requester != g.slot1.unwrap().name,
        )
        &&& r.grid@[1].0@ == g.slot2.unwrap().name
        &&& grid_view(r.grid@[1].1) == rendered(
            g.slot2.unwrap().cells,
            requester != g.slot2.unwrap().name,
        )
    }
}

impl GameView {
    /// A new game: nobody has joined, nobody is bound, nobody holds the turn.
    pub open spec fn fresh(id: Seq<char>) -> GameView {
        GameView {
            id,
            slot1: None,
            slot2: None,
            current_turn: Seq::empty(),
            status: GameStatus::WaitingPlayers,
            client1: None,
            client2: None,
        }
    }

    /// Whether `name` is the name of a seated player.
    pub open spec fn has_player(self, name: Seq<char>) -> bool {
        ||| self.slot1 is Some && self.slot1.unwrap().name == name
        ||| self.slot2 is Some && self.slot2.unwrap().name == name
    }

    /// Whether the fleet of one of the seated players is destroyed.
    pub open spec fn has_destroyed_fleet(self) -> bool {
        ||| self.slot1 is Some && self.slot1.unwrap().is_destroyed()
        ||| self.slot2 is Some && self.slot2.unwrap().is_destroyed()
    }

    /// The invariant of a game. It waits until both boards are there, it is
    /// over exactly when one of the two fleets is destroyed, and once it
    /// has started one of the two players holds the turn.
    pub open spec fn wf(self) -> bool {
        &&& self.slot1 matches Some(b) ==> b.wf()
        &&& self.slot2 matches Some(b) ==> b.wf()
        &&& self.slot2 is Some ==> self.slot1 is Some
        &&& self.client2 is Some ==> self.client1 is Some
        &&& self.status == GameStatus::WaitingPlayers <==> self.slot2 is None
        &&& self.status == GameStatus::WaitingPlayers ==> self.current_turn == Seq::<char>::empty()
        &&& self.status == GameStatus::GameOver <==> self.has_destroyed_fleet()
        &&& self.slot2 is Some ==> self.current_turn == self.slot1.unwrap().name || self.current_turn
            == self.slot2.unwrap().name
    }

    /// Why a join with this fleet is refused, if it is: first for the fleet
    /// itself, then because both seats are taken.
    pub open spec fn join_error(self, fleet: Seq<Seq<Point2d>>) -> Option<GameError> {
        if fleet_verdict(fleet) is Some {
            fleet_verdict(fleet)
        } else if self.slot2 is Some {
            Some(GameError::SessionFull)
        } else {
            None
        }
    }

    /// The game after `board` has taken the first free seat. With the second
    /// seat the game starts, and `first` says who shoots first: 0 for the
    /// first seat, anything else for the second.
    pub open spec fn join(self, board: BoardView, first: int) -> GameView {
        if self.slot1 is None {
            GameView { slot1: Some(board), ..self }
        } else {
            GameView {
                slot2: Some(board),
                status: GameStatus::Progress,
                current_turn: if first == 0 {
                    self.slot1.unwrap().name
                } else {
                    board.name
                },
                ..self
            }
        }
    }

    /// Why a turn is refused, if it is: first for a cell off the board, then
    /// because the game is not in progress or another player holds the turn.
    pub open spec fn turn_error(self, name: Seq<char>, p: Point2d) -> Option<GameError> {
        if !p.on_board() {
            Some(GameError::BadRequest)
        } else if self.status != GameStatus::Progress || name != self.current_turn {
            Some(GameError::NotYourTurn)
        } else {
            None
        }
    }

    /// Whether `name` shoots at the second seat: the player of the first
    /// seat does, the other shoots at the first.
    pub open spec fn shoots_second(self, name: Seq<char>) -> bool {
        name == self.slot1.unwrap().name
    }

    /// The board that `name` shoots at.
    pub open spec fn target(self, name: Seq<char>) -> BoardView {
        if self.shoots_second(name) {
            self.slot2.unwrap()
        } else {
            self.slot1.unwrap()
        }
    }

    /// The game after `name` has shot at `p`. After a miss the turn passes
    /// to the owner of the board shot at; otherwise it stays. The game is
    /// over as soon as that board's fleet is destroyed.
    pub open spec fn take_turn(self, name: Seq<char>, p: Point2d) -> GameView {
        let target = self.target(name);
        let after = target.shoot(p);
        GameView {
            slot1: if self.shoots_second(name) {
                self.slot1
            } else {
                Some(after)
            },
            slot2: if self.shoots_second(name) {
                Some(after)
            } else {
                self.slot2
            },
            current_turn: if target.outcome(p) == ShotOutcome::Miss {
                target.name
            } else {
                self.current_turn
            },
            status: if after.is_destroyed() {
                GameStatus::GameOver
            } else {
                GameStatus::Progress
            },
            ..self
        }
    }

    /// Why a connection cannot be bound, if it cannot.
    pub open spec fn attach_error(self) -> Option<GameError> {
        if self.client2 is Some {
            Some(GameError::SessionFull)
        } else {
            None
        }
    }

    /// The game after `client` has taken the first free binding.
    pub open spec fn attach(self, client: ClientView) -> GameView {
        if self.client1 is None {
            GameView { client1: Some(client), ..self }
        } else {
            GameView { client2: Some(client), ..self }
        }
    }

    /// What `requester` may do next.
    pub open spec fn action_of(self, requester: Seq<char>) -> PlayerAction {
        if requester == self.current_turn {
            PlayerAction::Shoot
        } else {
            PlayerAction::Wait
        }
    }
}

/// The mathematical value of a seat.
pub open spec fn seat_view(seat: Option<Player>) -> Option<BoardView> {
    match seat {
        Some(p) => Some(p@),
        None => None,
    }
}

/// A game between two players.
#[derive(Debug)]
pub struct Game {
    pub id: String,
    pub slot1: Option<Player>,
    pub slot2: Option<Player>,
    pub current_turn: String,
    pub status: GameStatus,
    pub room_sender: tokio::sync::broadcast::Sender<String>,
    pub client1: Option<Client>,
    pub client2: Option<Client>,
}

impl View for Game {
    type V = GameView;

    open spec fn view(&self) -> GameView {
        GameView {
            id: self.id@,
            slot1: seat_view(self.slot1),
            slot2: seat_view(self.slot2),
            current_turn: self.current_turn@,
            status: self.status,
            client1: binding_view(self.client1),
            client2: binding_view(self.client2),
        }
    }
}

impl Game {
    /// The invariant of a game.
    pub open spec fn wf(&self) -> bool {
        self@.wf()
    }

    /// A new game with the given id.
    pub fn with_id(id: String) -> (game: Self)
        ensures
            game@ == GameView::fresh(id@),
            game.wf(),
    {
        Self {
            slot1: None,
            slot2: None,
            client1: None,
            client2: None,
            room_sender: new_room_sender(ROOM_CAPACITY),
            current_turn: String::new(),
            status: GameStatus::WaitingPlayers,
            id,
        }
    }

    /// A new game with a random id of six letters and digits.
    pub fn new() -> (game: Self)
        ensures
            game@ == GameView::fresh(game@.id),
            game.wf(),
            is_game_id(game@.id),
    {
        Self::with_id(random_alphanumeric(GAME_ID_LEN))
    }

    /// Seats `name` with the fleet `ships`, when the fleet is acceptable
    /// and a seat is free. `first` decides who shoots first when this
    /// join fills the second seat. A refused join changes nothing.
    pub fn join_with(&mut self, name: String, ships: ShipsRaw, first: usize) -> (r: Result<
        (),
        GameError,
    >)
        requires
            old(self).wf(),
        ensures
            final(self).wf(),
            match r {
                Ok(_) => {
                    &&& old(self)@.join_error(fleet_of(ships@)) is None
                    &&& final(self)@ == old(self)@.join(
                        BoardView::fresh(name@, fresh_ships(fleet_of(ships@))),
                        first as int,
                    )
                },
                Err(e) => {
                    &&& old(self)@.join_error(fleet_of(ships@)) == Some(e)
                    &&& *final(self) == *old(self)
                },
            },
    {
        let player = match Player::submit_fleet(name, &ships) {
            Ok(player) => player,
            Err(e) => {
                return Err(e);
            },
        };
        if self.slot1.is_none() {
            self.slot1 = Some(player);
            return Ok(());
        }
        if self.slot2.is_some() {
            return Err(GameError::SessionFull);
        }
        self.current_turn = if first == 0 {
            self.slot1.as_ref().unwrap().name.clone()
        } else {
            player.name.clone()
        };
        self.slot2 = Some(player);
        self.status = GameStatus::Progress;
        Ok(())
    }

    /// Seats `name` with the fleet `ships`, as [`Game::join_with`] does.
    /// When this join fills the second seat, who shoots first is drawn at
    /// random between the two players.
    pub fn join(&mut self, name: String, ships: ShipsRaw) -> (r: Result<(), GameError>)
        requires
            old(self).wf(),
        ensures
            final(self).wf(),
            match r {
                Ok(_) => {
                    &&& old(self)@.join_error(fleet_of(ships@)) is None
                    &&& exists|first: int|
                        0 <= first < 2 && final(self)@ == #[trigger] old(self)@.join(
                            BoardView::fresh(name@, fresh_ships(fleet_of(ships@))),
                            first,
                        )
                },
                Err(e) => {
                    &&& old(self)@.join_error(fleet_of(ships@)) == Some(e)
                    &&& *final(self) == *old(self)
                },
            },
    {
        let first = if self.slot1.is_some() && self.slot2.is_none() {
            random_index(2)
        } else {
            0
        };
        self.join_with(name, ships, first)
    }

    /// Whether the game is over.
    pub fn is_over(&self) -> (over: bool)
        ensures
            over == (self@.status == GameStatus::GameOver),
    {
        self.status == GameStatus::GameOver
    }

    /// Binds a connection to the game: the first takes the first binding,
    /// the second the other, and a third is refused.
    pub fn attach_client(&mut self, client: Client) -> (r: Result<(), GameError>)
        requires
            old(self).wf(),
        ensures
            final(self).wf(),
            match r {
                Ok(_) => old(self)@.attach_error() is None && final(self)@ == old(self)@.attach(
                    client@,
                ),
                Err(e) => old(self)@.attach_error() == Some(e) && *final(self) == *old(self),
            },
    {
        if self.client1.is_none() {
            self.client1 = Some(client);
            return Ok(());
        }
        if self.client2.is_none() {
            self.client2 = Some(client);
            return Ok(());
        }
        Err(GameError::SessionFull)
    }

    /// The two bound connections, once both are bound.
    pub fn clients(&self) -> (r: Option<(&Client, &Client)>)
        ensures
            match r {
                Some((a, b)) => self@.client1 == Some(a@) && self@.client2 == Some(b@),
                None => self@.client1 is None || self@.client2 is None,
            },
    {
        match (&self.client1, &self.client2) {
            (Some(a), Some(b)) => Some((a, b)),
            _ => None,
        }
    }
}

impl Game {
    /// What `requester` is shown of the game.
    pub fn view_state(&self, requester: &String) -> (r: GridResponse)
        requires
            self.wf(),
        ensures
            shows_state(r, self@, requester@),
    {
        match (&self.slot1, &self.slot2) {
            (Some(slot1), Some(slot2)) => {
                let action = if *requester == self.current_turn {
                    PlayerAction::Shoot
                } else {
                    PlayerAction::Wait
                };
                let mut response = GridResponse::new(self.status, Some(action));
                let first = grid_as_json_single(slot1, !(*requester == slot1.name));
                response.grid.push((slot1.name.clone(), first));
                let second = grid_as_json_single(slot2, !(*requester == slot2.name));
                response.grid.push((slot2.name.clone(), second));
                response
            },
            _ => GridResponse::new(self.status, None),
        }
    }
}

/// Lets `requester` shoot at the cell `hit` of the opponent's board. The
/// turn is refused, and nothing changes, when the cell is off the board,
/// when the game is not in progress, or when `requester` does not hold the
/// turn. After a miss the turn passes to the opponent; after anything else,
/// a shot at a cell resolved before included, it stays. The game is over
/// as soon as the opponent's fleet is destroyed.
pub fn do_turn_user(hit: Point2d, requester: String, game: &mut Game) -> (r: Result<
    TurnReport,
    GameError,
>)
    requires
        old(game).wf(),
    ensures
        final(game).wf(),
        match r {
            Ok(report) => {
                let target = old(game)@.target(requester@);
                &&& old(game)@.turn_error(requester@, hit) is None
                &&& final(game)@ == old(game)@.take_turn(requester@, hit)
                &&& report.shot.outcome == target.outcome(hit)
                &&& report.shot.no_ship_zone@.no_duplicates()
                &&& forall|q: Point2d|
                    report.shot.no_ship_zone@.contains(q) <==> target.outcome(hit)
                        == ShotOutcome::Sunk && in_no_ship_zone(
                        target.ships[target.owner(hit)].coords,
                        q,
                    )
                &&& report.flow == if final(game)@.status == GameStatus::GameOver {
                    GameFlow::GameOver
                } else {
                    GameFlow::NextTurn
                }
            },
            Err(e) => old(game)@.turn_error(requester@, hit) == Some(e) && *final(game) == *old(
                game,
            ),
        },
{
    if hit.x >= BOARD_SIDE || hit.y >= BOARD_SIDE {
        return Err(GameError::BadRequest);
    }
    if game.status != GameStatus::Progress || !(requester == game.current_turn) {
        return Err(GameError::NotYourTurn);
    }
    let shoots_second = requester == game.slot1.as_ref().unwrap().name;
    let mut enemy = if shoots_second {
        game.slot2.take().unwrap()
    } else {
        game.slot1.take().unwrap()
    };
    let shot = enemy.apply_shot(hit);
    if shot.outcome == ShotOutcome::Miss {
        game.current_turn = enemy.name.clone();
    }
    let flow = if enemy.is_all_destroyed() {
        game.status = GameStatus::GameOver;
        GameFlow::GameOver
    } else {
        game.status = GameStatus::Progress;
        GameFlow::NextTurn
    };
    if shoots_second {
        game.slot2 = Some(enemy);
    } else {
        game.slot1 = Some(enemy);
    }
    Ok(TurnReport { shot, flow })
}

/// A game starts exactly once: when an accepted join fills the second
/// seat. Before that it waits, and once it has started no join is accepted.
pub proof fn lemma_game_starts_once(
    g: GameView,
    name: Seq<char>,
    fleet: Seq<Seq<Point2d>>,
    first: int,
)
    requires
        g.wf(),
    ensures
        g.status != GameStatus::WaitingPlayers ==> g.join_error(fleet) is Some,
        g.join_error(fleet) is None ==> {
            let after = g.join(BoardView::fresh(name, fresh_ships(fleet)), first);
            &&& g.status == GameStatus::WaitingPlayers
            &&& g.slot1 is None ==> after.status == GameStatus::WaitingPlayers
            &&& g.slot1 is Some ==> after.status == GameStatus::Progress
            &&& after.status == GameStatus::Progress ==> after.current_turn == after.slot1.unwrap().name
                || after.current_turn == after.slot2.unwrap().name
        },
{
}

/// A turn never takes a game back to waiting, and a game that is over
/// accepts neither a turn nor a join.
pub proof fn lemma_status_moves_forward(
    g: GameView,
    name: Seq<char>,
    p: Point2d,
    fleet: Seq<Seq<Point2d>>,
)
    requires
        g.wf(),
    ensures
        g.turn_error(name, p) is None ==> g.take_turn(name, p).status
            != GameStatus::WaitingPlayers,
        g.status == GameStatus::GameOver ==> g.turn_error(name, p) is Some && g.join_error(fleet)
            is Some,
{
}

/// After a miss the turn passes to the owner of the board shot at, who is
/// another player than the shooter when the two names differ. After a hit,
/// a sinking hit or a shot at a cell resolved before, the turn stays.
pub proof fn lemma_turn_alternation(g: GameView, name: Seq<char>, p: Point2d)
    requires
        g.wf(),
        g.turn_error(name, p) is None,
    ensures
        g.target(name).outcome(p) == ShotOutcome::Miss ==> {
            &&& g.take_turn(name, p).current_turn == g.target(name).name
            &&& g.slot1.unwrap().name != g.slot2.unwrap().name ==> g.take_turn(name, p).current_turn
                != g.current_turn
        },
        g.target(name).outcome(p) != ShotOutcome::Miss ==> g.take_turn(name, p).current_turn
            == g.current_turn,
{
}

/// A game in progress has no destroyed fleet. A turn ends it exactly when
/// the shot hits the last un-hit ship cell of the board shot at, which
/// then counts twenty hit cells.
pub proof fn lemma_game_over_exactly(g: GameView, name: Seq<char>, p: Point2d)
    requires
        g.wf(),
        g.turn_error(name, p) is None,
    ensures
        !g.has_destroyed_fleet(),
        g.take_turn(name, p).status == GameStatus::GameOver <==> g.target(name).shoot(
            p,
        ).hit_cells() == 20,
        g.take_turn(name, p).status == GameStatus::GameOver <==> g.target(name).hit_cells() == 19
            && g.target(name).cell(p) == CellType::HasShip,
{
    lemma_shoot_hit_cells(g.target(name), p);
}

/// Fog of war: what a player is shown of the board of another player
/// holds no symbol of an un-hit ship, and is what that board would show
/// its owner with the un-hit ships taken away.
pub proof fn lemma_state_hides_ships(r: GridResponse, g: GameView, requester: Seq<char>)
    requires
        g.wf(),
        g.status != GameStatus::WaitingPlayers,
        shows_state(r, g, requester),
    ensures
        requester != g.slot1.unwrap().name ==> {
            &&& grid_view(r.grid@[0].1) == rendered(concealed(g.slot1.unwrap().cells), false)
            &&& forall|x: int, y: int|
                0 <= x < 10 && 0 <= y < 10 ==> #[trigger] grid_view(r.grid@[0].1)[x][y] != seq!['#']
        },
        requester != g.slot2.unwrap().name ==> {
            &&& grid_view(r.grid@[1].1) == rendered(concealed(g.slot2.unwrap().cells), false)
            &&& forall|x: int, y: int|
                0 <= x < 10 && 0 <= y < 10 ==> #[trigger] grid_view(r.grid@[1].1)[x][y] != seq!['#']
        },
{
    let c1 = g.slot1.unwrap().cells;
    let c2 = g.slot2.unwrap().cells;
    lemma_fog_of_war(c1);
    lemma_fog_of_war(c2);
    assert forall|x: int, y: int| 0 <= x < 10 && 0 <= y < 10 implies #[trigger] rendered(
        c1,
        true,
    )[x][y] != seq!['#'] by {
        assert(c1[x].len() == 10);
    }
    assert forall|x: int, y: int| 0 <= x < 10 && 0 <= y < 10 implies #[trigger] rendered(
        c2,
        true,
    )[x][y] != seq!['#'] by {
        assert(c2[x].len() == 10);
    }
}

} // verus!
