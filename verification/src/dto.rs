//! Requests, responses and pushed events, as plain data.

use vstd::prelude::*;
use crate::board::Point2d;

verus! {

/// The id of a game.
pub type GameId = String;

/// The name of a player, which is the id of the player's connection.
pub type ClientId = String;

/// A fleet as submitted: one list of `(x, y)` cells per ship.
pub type ShipsRaw = Vec<Vec<(usize, usize)>>;

/// A rendered board: one symbol per cell, `grid[x][y]`.
pub type Grid2D = Vec<Vec<String>>;

/// Lifecycle of a game. It only moves forward: waiting, in progress, over.
#[derive(Debug, Copy, Clone, PartialEq, Eq, Structural)]
pub enum GameStatus {
    WaitingPlayers,
    GameOver,
    Progress,
}

/// What the player who asks for the state may do next.
#[derive(Debug, Copy, Clone, PartialEq, Eq, Structural)]
pub enum PlayerAction {
    Shoot,
    Wait,
}

/// The two rendered boards of a game.
#[derive(Debug, PartialEq)]
pub struct GridDTO {
    pub me: Grid2D,
    pub enemy: Grid2D,
}

/// The state of a game as one player may see it. `grid` holds the rendered
/// board of each player under that player's name, first seat first.
#[derive(Debug, PartialEq)]
pub struct GridResponse {
    pub me: Option<Grid2D>,
    pub enemy: Option<Grid2D>,
    pub status: GameStatus,
    pub action: Option<PlayerAction>,
    pub grid: Vec<(String, Grid2D)>,
}

impl GridResponse {
    /// A response that shows no board.
    pub fn new(status: GameStatus, action: Option<PlayerAction>) -> (r: Self)
        ensures
            r.me is None,
            r.enemy is None,
            r.status == status,
            r.action == action,
            r.grid@.len() == 0,
    {
        Self { me: None, enemy: None, status, action, grid: Vec::new() }
    }
}

/// A shot at the cell `(x, y)` in a game.
#[derive(Debug, PartialEq)]
pub struct TurnRequest {
    pub game_id: String,
    pub username: String,
    pub x: usize,
    pub y: usize,
}

impl TurnRequest {
    /// The cell that the request shoots at.
    pub open spec fn cell(&self) -> Point2d {
        Point2d { x: self.x, y: self.y }
    }
}

/// A request to join a game with a fleet.
#[derive(Debug, PartialEq)]
pub struct JoinGameRequest {
    pub game_id: String,
    pub username: String,
    pub ships: ShipsRaw,
}

/// A request to wait for an opponent with a fleet.
#[derive(Debug, PartialEq)]
pub struct QueueRequest {
    pub username: ClientId,
    pub ships: ShipsRaw,
}

/// A request to open a game with a fleet.
#[derive(Debug, PartialEq)]
pub struct CreateGameRequest {
    pub username: ClientId,
    pub ships: ShipsRaw,
}

/// A request for the state of a game.
#[derive(Debug, PartialEq)]
pub struct StateRequest {
    pub game_id: String,
    pub username: String,
}

impl StateRequest {
    /// The request of `username` for the state of the game `game_id`.
    pub fn new(game_id: GameId, username: String) -> (r: Self)
        ensures
            r.game_id == game_id,
            r.username == username,
    {
        Self { game_id, username }
    }
}

/// Everything that travels between a client and the server.
#[derive(Debug, PartialEq)]
pub enum WsEvent {
    ConnectRq { player_id: ClientId },
    ConnectRs { player_id: ClientId },
    CreateGameRq(CreateGameRequest),
    CreateGameRs { game_id: GameId, status: GameStatus },
    GameStart { game_id: GameId },
    GameOver,
    QueueRq(QueueRequest),
    QueueRs { player_id: ClientId },
    JoinRq(JoinGameRequest),
    JoinRs(GridResponse, String),
    TurnRq(TurnRequest),
    TurnRs(GridDTO),
    StateRq(StateRequest),
    StateRs(GridResponse),
    BadRequestRs(String),
    ServerAbort,
    Disconnect,
    Debug(String),
}

} // verus!
