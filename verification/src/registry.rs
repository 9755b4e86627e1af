//! The registry of live games: the games by id, the game of each player,
//! the players of each game, and the queue of players who wait for a match.

use std::collections::VecDeque;
use vstd::prelude::*;
use crate::board::Point2d;
use crate::dto::{ClientId, GameId, GameStatus, ShipsRaw, WsEvent};
use crate::error::GameError;
use crate::player::fleet_of;
use crate::session::{is_game_id, Client, Game, GameView, GAME_ID_LEN};
use crate::strmap::StrMap;
use crate::trusted::random_alphanumeric;

verus! {

/// The names of the two players of a game. The second is empty until a
/// second player has joined.
#[derive(Debug)]
pub struct GameClients(pub ClientId, pub ClientId);

/// A player who waits for a match.
#[derive(Debug)]
pub struct QueuedPlayer {
    pub player: ClientId,
    pub sender: tokio::sync::mpsc::Sender<WsEvent>,
    pub ships: ShipsRaw,
}

/// Mathematical value of a waiting player.
pub struct QueuedView {
    pub player: Seq<char>,
    pub sender: tokio::sync::mpsc::Sender<WsEvent>,
    pub fleet: Seq<Seq<Point2d>>,
}

impl View for QueuedPlayer {
    type V = QueuedView;

    open spec fn view(&self) -> QueuedView {
        QueuedView { player: self.player@, sender: self.sender, fleet: fleet_of(self.ships@) }
    }
}

/// Mathematical value of the registry.
pub struct RegistryView {
    /// The live games, by id.
    pub games: Map<Seq<char>, GameView>,
    /// The names of the players of a game, by the id of the game.
    pub game_clients: Map<Seq<char>, (Seq<char>, Seq<char>)>,
    /// The id of the game of a player, by the name of the player.
    pub client_games: Map<Seq<char>, Seq<char>>,
    /// The waiting players, oldest first.
    pub queue: Seq<QueuedView>,
}

/// The registry. It is built once and handed to whoever serves a request.
pub struct MyState {
    pub games: StrMap<Game>,
    pub game_clients: StrMap<GameClients>,
    pub client_games: StrMap<GameId>,
    pub queue: VecDeque<QueuedPlayer>,
}

/// The mathematical values of the games of a map.
pub open spec fn games_view(games: Map<Seq<char>, Game>) -> Map<Seq<char>, GameView> {
    Map::new(|k: Seq<char>| games.contains_key(k), |k: Seq<char>| games[k]@)
}

/// The names recorded for each game.
pub open spec fn game_clients_view(m: Map<Seq<char>, GameClients>) -> Map<
    Seq<char>,
    (Seq<char>, Seq<char>),
> {
    Map::new(|k: Seq<char>| m.contains_key(k), |k: Seq<char>| (m[k].0@, m[k].1@))
}

/// The id of the game recorded for each player.
pub open spec fn client_games_view(m: Map<Seq<char>, GameId>) -> Map<Seq<char>, Seq<char>> {
    Map::new(|k: Seq<char>| m.contains_key(k), |k: Seq<char>| m[k]@)
}

/// The mathematical values of the waiting players.
pub open spec fn queue_view(queue: Seq<QueuedPlayer>) -> Seq<QueuedView> {
    Seq::new(queue.len(), |i: int| queue[i]@)
}

impl View for MyState {
    type V = RegistryView;

    open spec fn view(&self) -> RegistryView {
        RegistryView {
            games: games_view(self.games@),
            game_clients: game_clients_view(self.game_clients@),
            client_games: client_games_view(self.client_games@),
            queue: queue_view(self.queue@),
        }
    }
}

/// The names of the players seated in a game, the second empty while
/// the second seat is free.
pub open spec fn seated_names(g: GameView) -> (Seq<char>, Seq<char>) {
    (
        if g.slot1 is Some {
            g.slot1.unwrap().name
        } else {
            Seq::empty()
        },
        if g.slot2 is Some {
            g.slot2.unwrap().name
        } else {
            Seq::empty()
        },
    )
}

impl RegistryView {
    /// The empty registry.
    pub open spec fn empty() -> RegistryView {
        RegistryView {
            games: Map::empty(),
            game_clients: Map::empty(),
            client_games: Map::empty(),
            queue: Seq::empty(),
        }
    }

    /// Every game meets its own invariant and is stored under its id.
    pub open spec fn games_ok(self) -> bool {
        forall|k: Seq<char>| #[trigger]
            self.games.contains_key(k) ==> self.games[k].wf() && self.games[k].id == k
    }

    /// The indices agree with the games. The game recorded for a player
    /// exists and seats that player; every seated player is recorded with
    /// the game that seats them, so that nobody is seated twice; the two
    /// players of a game have different names; and the players recorded
    /// for a game are the ones it seats.
    pub open spec fn index_ok(self) -> bool {
        &&& forall|p: Seq<char>| #[trigger]
            self.client_games.contains_key(p) ==> self.games.contains_key(self.client_games[p])
                && self.games[self.client_games[p]].has_player(p)
        &&& forall|g: Seq<char>, p: Seq<char>|
            self.games.contains_key(g) && #[trigger] self.games[g].has_player(p)
                ==> self.client_games.contains_key(p) && self.client_games[p] == g
        &&& forall|g: Seq<char>| #[trigger]
            self.games.contains_key(g) && self.games[g].slot2 is Some ==> self.games[g].slot1.unwrap().name
                != self.games[g].slot2.unwrap().name
        &&& forall|g: Seq<char>| #[trigger]
            self.game_clients.contains_key(g) ==> self.games.contains_key(g)
                && self.game_clients[g] == seated_names(self.games[g])
    }

    /// The invariant of the registry.
    pub open spec fn wf(self) -> bool {
        self.games_ok() && self.index_ok()
    }

    /// The registry with the game `game` stored under `id`.
    pub open spec fn with_game(self, id: Seq<char>, game: GameView) -> RegistryView {
        RegistryView { games: self.games.insert(id, game), ..self }
    }

    /// The channel bound for `player` in the game `id`, if both connections
    /// of the game are bound and one of them is the player's.
    pub open spec fn channel_of(self, id: Seq<char>, player: Seq<char>) -> Option<
        tokio::sync::mpsc::Sender<WsEvent>,
    > {
        if !self.games.contains_key(id) || self.games[id].client1 is None
            || self.games[id].client2 is None {
            None
        } else if self.games[id].client1.unwrap().id == player {
            Some(self.games[id].client1.unwrap().sender)
        } else if self.games[id].client2.unwrap().id == player {
            Some(self.games[id].client2.unwrap().sender)
        } else {
            None
        }
    }

    /// The channel bound for `player` in the game that the player takes
    /// part in.
    pub open spec fn channel_of_player(self, player: Seq<char>) -> Option<
        tokio::sync::mpsc::Sender<WsEvent>,
    > {
        if self.client_games.contains_key(player) {
            self.channel_of(self.client_games[player], player)
        } else {
            None
        }
    }

    /// Whether the game `id` exists and is over.
    pub open spec fn is_game_over(self, id: Seq<char>) -> bool {
        self.games.contains_key(id) && self.games[id].status == GameStatus::GameOver
    }

    /// Why a connection cannot be bound to the game `id`, if it cannot.
    pub open spec fn attach_error(self, id: Seq<char>) -> Option<GameError> {
        if !self.games.contains_key(id) {
            Some(GameError::SessionNotFound)
        } else {
            self.games[id].attach_error()
        }
    }
}

/// Whether two values of a game seat the same players.
pub open spec fn same_seats(a: GameView, b: GameView) -> bool {
    &&& a.slot1 is Some <==> b.slot1 is Some
    &&& a.slot2 is Some <==> b.slot2 is Some
    &&& a.slot1 is Some ==> a.slot1.unwrap().name == b.slot1.unwrap().name
    &&& a.slot2 is Some ==> a.slot2.unwrap().name == b.slot2.unwrap().name
}

/// A game without players can be added under an unused id.
pub proof fn lemma_with_new_game(s: RegistryView, id: Seq<char>, game: GameView)
    requires
        s.index_ok(),
        !s.games.contains_key(id),
        game.slot1 is None,
        game.slot2 is None,
    ensures
        s.with_game(id, game).index_ok(),
{
    let a = s.with_game(id, game);
    assert forall|p: Seq<char>| #[trigger] a.client_games.contains_key(p) implies a.games.contains_key(
        a.client_games[p],
    ) && a.games[a.client_games[p]].has_player(p) by {
        assert(s.client_games.contains_key(p));
    }
    assert forall|g: Seq<char>, p: Seq<char>|
        a.games.contains_key(g) && #[trigger] a.games[g].has_player(p) implies a.client_games.contains_key(
        p,
    ) && a.client_games[p] == g by {
        assert(s.games[g].has_player(p));
    }
    assert forall|g: Seq<char>| #[trigger] a.game_clients.contains_key(g) implies a.games.contains_key(
        g,
    ) && a.game_clients[g] == seated_names(a.games[g]) by {
        assert(s.game_clients.contains_key(g));
    }
}

/// A game can be replaced by a value of it that seats the same players.
pub proof fn lemma_with_same_seats(s: RegistryView, id: Seq<char>, game: GameView)
    requires
        s.index_ok(),
        s.games.contains_key(id),
        same_seats(game, s.games[id]),
    ensures
        s.with_game(id, game).index_ok(),
{
    let a = s.with_game(id, game);
    assert forall|p: Seq<char>| #[trigger] a.client_games.contains_key(p) implies a.games.contains_key(
        a.client_games[p],
    ) && a.games[a.client_games[p]].has_player(p) by {
        assert(s.client_games.contains_key(p));
        assert(s.games[s.client_games[p]].has_player(p));
    }
    assert forall|g: Seq<char>, p: Seq<char>|
        a.games.contains_key(g) && #[trigger] a.games[g].has_player(p) implies a.client_games.contains_key(
        p,
    ) && a.client_games[p] == g by {
        assert(s.games[g].has_player(p));
    }
    assert forall|g: Seq<char>| #[trigger]
        a.games.contains_key(g) && a.games[g].slot2 is Some implies a.games[g].slot1.unwrap().name
        != a.games[g].slot2.unwrap().name by {
        assert(s.games.contains_key(g));
    }
    assert forall|g: Seq<char>| #[trigger] a.game_clients.contains_key(g) implies a.games.contains_key(
        g,
    ) && a.game_clients[g] == seated_names(a.games[g]) by {
        assert(s.game_clients.contains_key(g));
    }
}

/// A player takes part in at most one game: two games that seat a player
/// of the same name are one game.
pub proof fn lemma_one_game_per_player(s: RegistryView, g1: Seq<char>, g2: Seq<char>, p: Seq<char>)
    requires
        s.wf(),
        s.games.contains_key(g1),
        s.games.contains_key(g2),
        s.games[g1].has_player(p),
        s.games[g2].has_player(p),
    ensures
        g1 == g2,
        s.client_games.contains_key(p),
        s.client_games[p] == g1,
{
}

/// The invariant does not depend on the queue.
pub proof fn lemma_same_index(s: RegistryView, a: RegistryView)
    requires
        s.wf(),
        a.games == s.games,
        a.client_games == s.client_games,
        a.game_clients == s.game_clients,
    ensures
        a.wf(),
{
}

/// Removing a game with every entry that refers to it keeps the indices
/// in agreement with the games that are left.
pub proof fn lemma_without_game(s: RegistryView, id: Seq<char>)
    requires
        s.index_ok(),
    ensures
        s.without_game(id).index_ok(),
{
    let a = s.without_game(id);
    assert forall|p: Seq<char>| #[trigger] a.client_games.contains_key(p) implies a.games.contains_key(
        a.client_games[p],
    ) && a.games[a.client_games[p]].has_player(p) by {
        assert(s.client_games.contains_key(p));
    }
    assert forall|g: Seq<char>, p: Seq<char>|
        a.games.contains_key(g) && #[trigger] a.games[g].has_player(p) implies a.client_games.contains_key(
        p,
    ) && a.client_games[p] == g by {
        assert(s.games[g].has_player(p));
    }
    assert forall|g: Seq<char>| #[trigger]
        a.games.contains_key(g) && a.games[g].slot2 is Some implies a.games[g].slot1.unwrap().name
        != a.games[g].slot2.unwrap().name by {
        assert(s.games.contains_key(g));
    }
    assert forall|g: Seq<char>| #[trigger] a.game_clients.contains_key(g) implies a.games.contains_key(
        g,
    ) && a.game_clients[g] == seated_names(a.games[g]) by {
        assert(s.game_clients.contains_key(g));
    }
}

impl MyState {
    /// The invariant of the three maps.
    pub open spec fn maps_wf(&self) -> bool {
        &&& self.games.wf()
        &&& self.game_clients.wf()
        &&& self.client_games.wf()
    }

    /// The invariant of the registry.
    pub open spec fn wf(&self) -> bool {
        self.maps_wf() && self@.wf()
    }

    /// The empty registry.
    pub fn new() -> (state: Self)
        ensures
            state.wf(),
            state@ == RegistryView::empty(),
    {
        let state = MyState {
            games: StrMap::new(),
            game_clients: StrMap::new(),
            client_games: StrMap::new(),
            queue: VecDeque::new(),
        };
        assert(state@.games =~= Map::empty());
        assert(state@.game_clients =~= Map::empty());
        assert(state@.client_games =~= Map::empty());
        assert(state@.queue =~= Seq::empty());
        state
    }

    /// The game `id`, if it exists.
    pub fn game(&self, id: &String) -> (r: Option<&Game>)
        requires
            self.wf(),
        ensures
            match r {
                Some(game) => {
                    &&& self@.games.contains_key(id@)
                    &&& self.games@.contains_key(id@)
                    &&& *game == self.games@[id@]
                    &&& game@ == self@.games[id@]
                    &&& game.wf()
                },
                None => !self@.games.contains_key(id@),
            },
    {
        let r = self.games.get(id);
        assert(self@.games.contains_key(id@) == self.games@.contains_key(id@));
        r
    }

    /// Registers a new game under `id`, unless a game has that id already.
    pub fn create_game_with(&mut self, id: String) -> (r: Result<(), GameError>)
        requires
            old(self).wf(),
        ensures
            final(self).wf(),
            match r {
                Ok(_) => !old(self)@.games.contains_key(id@) && final(self)@ == old(self)@.with_game(
                    id@,
                    GameView::fresh(id@),
                ),
                Err(e) => e == GameError::IdInUse && old(self)@.games.contains_key(id@)
                    && final(self)@ == old(self)@,
            },
    {
        if self.games.contains_key(&id) {
            return Err(GameError::IdInUse);
        }
        let game = Game::with_id(id.clone());
        self.games.insert(id, game);
        proof {
            assert(self@.games =~= old(self)@.games.insert(id@, GameView::fresh(id@)));
            lemma_with_new_game(old(self)@, id@, GameView::fresh(id@));
        }
        Ok(())
    }

    /// Registers a new game under a random id of six letters and digits
    /// and returns the id. Nothing is registered, and the result is `None`,
    /// when the id drawn is in use.
    pub fn create_game(&mut self) -> (r: Option<String>)
        requires
            old(self).wf(),
        ensures
            final(self).wf(),
            (forall|id: Seq<char>| is_game_id(id) ==> !#[trigger] old(self)@.games.contains_key(id))
                ==> r is Some,
            match r {
                Some(id) => {
                    &&& is_game_id(id@)
                    &&& !old(self)@.games.contains_key(id@)
                    &&& final(self)@ == old(self)@.with_game(id@, GameView::fresh(id@))
                },
                None => {
                    &&& final(self)@ == old(self)@
                    &&& exists|id: Seq<char>|
                        is_game_id(id) && #[trigger] old(self)@.games.contains_key(id)
                },
            },
    {
        let id = random_alphanumeric(GAME_ID_LEN);
        match self.create_game_with(id.clone()) {
            Ok(_) => Some(id),
            Err(_) => {
                assert(is_game_id(id@) && old(self)@.games.contains_key(id@));
                None
            },
        }
    }

    /// Whether the game `game_id` exists and is over.
    pub fn is_game_over(&self, game_id: &str) -> (over: bool)
        requires
            self.wf(),
        ensures
            over == self@.is_game_over(game_id@),
    {
        match self.game(&game_id.to_owned()) {
            Some(game) => game.is_over(),
            None => false,
        }
    }

    /// The two connections bound to the game `game_id`, when the game
    /// exists and both are bound.
    pub fn get_clients(&self, game_id: &str) -> (r: Option<(&Client, &Client)>)
        requires
            self.wf(),
        ensures
            match r {
                Some((a, b)) => {
                    &&& self@.games.contains_key(game_id@)
                    &&& self@.games[game_id@].client1 == Some(a@)
                    &&& self@.games[game_id@].client2 == Some(b@)
                },
                None => !self@.games.contains_key(game_id@) || self@.games[game_id@].client1
                    is None || self@.games[game_id@].client2 is None,
            },
    {
        match self.game(&game_id.to_owned()) {
            Some(game) => game.clients(),
            None => None,
        }
    }

    /// The channel on which events are pushed to `player` in the game
    /// `game_id`: that of the first binding when it is the player's, else
    /// that of the second when it is. There is none while the game does
    /// not exist, a connection is not bound, or neither is the player's.
    pub fn channel_of(&self, game_id: &str, player: &String) -> (r: Option<
        &tokio::sync::mpsc::Sender<WsEvent>,
    >)
        requires
            self.wf(),
        ensures
            match r {
                Some(sender) => self@.channel_of(game_id@, player@) == Some(*sender),
                None => self@.channel_of(game_id@, player@) is None,
            },
    {
        match self.get_clients(game_id) {
            Some((a, b)) => {
                if a.id == *player {
                    Some(&a.sender)
                } else if b.id == *player {
                    Some(&b.sender)
                } else {
                    None
                }
            },
            None => None,
        }
    }

    /// The channel on which events are pushed to `player`: the one bound
    /// for the player in the game that the player takes part in.
    pub fn channel_of_player(&self, player: &String) -> (r: Option<
        &tokio::sync::mpsc::Sender<WsEvent>,
    >)
        requires
            self.wf(),
        ensures
            match r {
                Some(sender) => self@.channel_of_player(player@) == Some(*sender),
                None => self@.channel_of_player(player@) is None,
            },
    {
        match self.client_games.get(player) {
            Some(id) => self.channel_of(id.as_str(), player),
            None => None,
        }
    }

    /// The broadcast channel of the game `game_id`, when the game exists.
    pub fn get_room_sender(&self, game_id: &str) -> (r: Option<
        &tokio::sync::broadcast::Sender<String>,
    >)
        requires
            self.wf(),
        ensures
            match r {
                Some(sender) => self.games@.contains_key(game_id@) && *sender
                    == self.games@[game_id@].room_sender,
                None => !self.games@.contains_key(game_id@),
            },
    {
        match self.game(&game_id.to_owned()) {
            Some(game) => Some(&game.room_sender),
            None => None,
        }
    }

    /// Binds a connection to the game `game_id`: the first one bound takes
    /// the first binding, the second the other. It is refused when the
    /// game does not exist or has two bound connections already.
    pub fn attach_client(&mut self, game_id: &str, client: Client) -> (r: Result<(), GameError>)
        requires
            old(self).wf(),
        ensures
            final(self).wf(),
            match r {
                Ok(_) => {
                    &&& old(self)@.attach_error(game_id@) is None
                    &&& final(self)@ == old(self)@.with_game(
                        game_id@,
                        old(self)@.games[game_id@].attach(client@),
                    )
                },
                Err(e) => old(self)@.attach_error(game_id@) == Some(e) && final(self)@ == old(
                    self,
                )@,
            },
    {
        let key = game_id.to_owned();
        let mut game = match self.games.remove(&key) {
            Some(game) => game,
            None => {
                assert(self@.games =~= old(self)@.games);
                return Err(GameError::SessionNotFound);
            },
        };
        let r = game.attach_client(client);
        self.games.insert(key, game);
        proof {
            if r is Ok {
                assert(self@.games =~= old(self)@.games.insert(
                    game_id@,
                    old(self)@.games[game_id@].attach(client@),
                ));
                lemma_with_same_seats(
                    old(self)@,
                    game_id@,
                    old(self)@.games[game_id@].attach(client@),
                );
            } else {
                assert(self@.games =~= old(self)@.games);
            }
        }
        r
    }
}

/// The queue without the entries of `player`.
pub open spec fn without_player(queue: Seq<QueuedView>, player: Seq<char>) -> Seq<QueuedView>
    decreases queue.len(),
{
    if queue.len() == 0 {
        queue
    } else if queue.last().player == player {
        without_player(queue.drop_last(), player)
    } else {
        without_player(queue.drop_last(), player).push(queue.last())
    }
}

impl RegistryView {
    /// Whether `player` waits in the queue.
    pub open spec fn is_queued(self, player: Seq<char>) -> bool {
        exists|i: int| 0 <= i < self.queue.len() && (#[trigger] self.queue[i]).player == player
    }

    /// The registry with `entry` at the tail of the queue.
    pub open spec fn enqueue(self, entry: QueuedView) -> RegistryView {
        RegistryView { queue: self.queue.push(entry), ..self }
    }

    /// The registry with `player` taken out of the queue.
    pub open spec fn dequeue(self, player: Seq<char>) -> RegistryView {
        RegistryView { queue: without_player(self.queue, player), ..self }
    }

    /// The registry without the game `id`: the game is gone, and so are
    /// the entry of its players and the entry of every player that was in it.
    pub open spec fn without_game(self, id: Seq<char>) -> RegistryView {
        RegistryView {
            games: self.games.remove(id),
            game_clients: self.game_clients.remove(id),
            client_games: Map::new(
                |p: Seq<char>| self.client_games.contains_key(p) && self.client_games[p] != id,
                |p: Seq<char>| self.client_games[p],
            ),
            queue: self.queue,
        }
    }

    /// The registry after `player` has left: out of the queue, and the
    /// game that the player took part in removed.
    pub open spec fn disconnect(self, player: Seq<char>) -> RegistryView {
        if self.client_games.contains_key(player) {
            self.dequeue(player).without_game(self.client_games[player])
        } else {
            self.dequeue(player)
        }
    }
}

/// Removing a player from a queue leaves no entry of that player, keeps the
/// others in their order, and changes nothing when the player did not wait.
pub proof fn lemma_without_player(queue: Seq<QueuedView>, player: Seq<char>)
    ensures
        without_player(queue, player).len() <= queue.len(),
        forall|i: int|
            0 <= i < without_player(queue, player).len() ==> (#[trigger] without_player(
                queue,
                player,
            )[i]).player != player,
        (forall|i: int| 0 <= i < queue.len() ==> (#[trigger] queue[i]).player != player)
            ==> without_player(queue, player) == queue,
        (exists|i: int| 0 <= i < queue.len() && (#[trigger] queue[i]).player == player)
            ==> without_player(queue, player).len() < queue.len(),
    decreases queue.len(),
{
    if queue.len() > 0 {
        let rest = queue.drop_last();
        lemma_without_player(rest, player);
        if forall|i: int| 0 <= i < queue.len() ==> (#[trigger] queue[i]).player != player {
            assert forall|i: int| 0 <= i < rest.len() implies (#[trigger] rest[i]).player
                != player by {
                assert(rest[i] == queue[i]);
            }
            assert(queue.last() == queue[queue.len() - 1]);
            assert(without_player(queue, player) =~= queue);
        }
        if exists|i: int| 0 <= i < queue.len() && (#[trigger] queue[i]).player == player {
            let i = choose|i: int| 0 <= i < queue.len() && (#[trigger] queue[i]).player == player;
            if i < rest.len() {
                assert(rest[i] == queue[i]);
            }
        }
    }
}

impl MyState {
    /// Whether `player` waits in the queue.
    pub fn is_queued(&self, player: &String) -> (r: bool)
        ensures
            r == self@.is_queued(player@),
    {
        let mut i: usize = 0;
        while i < self.queue.len()
            invariant
                i <= self.queue@.len(),
                forall|j: int| 0 <= j < i ==> (#[trigger] self@.queue[j]).player != player@,
            decreases self.queue@.len() - i,
        {
            if self.queue[i].player == *player {
                assert(self@.queue[i as int].player == player@);
                return true;
            }
            i += 1;
        }
        false
    }

    /// Takes `player` out of the queue. The result says whether the player
    /// was waiting.
    pub fn remove_if_queued(&mut self, player: &String) -> (was_queued: bool)
        requires
            old(self).wf(),
        ensures
            final(self).wf(),
            final(self)@ == old(self)@.dequeue(player@),
            was_queued == old(self)@.is_queued(player@),
    {
        let ghost start = self@.queue;
        let mut kept: VecDeque<QueuedPlayer> = VecDeque::new();
        let mut was_queued = false;
        let ghost mut done: int = 0;
        while self.queue.len() > 0
            invariant
                0 <= done <= start.len(),
                self@.queue == start.skip(done),
                queue_view(kept@) == without_player(start.take(done), player@),
                was_queued == exists|i: int|
                    0 <= i < done && (#[trigger] start[i]).player == player@,
                self.games == old(self).games,
                self.game_clients == old(self).game_clients,
                self.client_games == old(self).client_games,
            decreases self.queue@.len(),
        {
            proof {
                assert(self@.queue.len() == self.queue@.len());
                assert(start.skip(done).len() == start.len() - done);
                assert(self@.queue[0] == self.queue@[0]@);
            }
            let ghost before = self.queue@;
            let entry = self.queue.pop_front().unwrap();
            proof {
                assert forall|i: int| 0 <= i < self@.queue.len() implies self@.queue[i]
                    == start.skip(done + 1)[i] by {
                    assert(self.queue@[i] == before[i + 1]);
                    assert(queue_view(before)[i + 1] == start.skip(done)[i + 1]);
                }
                assert(entry@ == start.skip(done)[0]);
                assert(start.take(done + 1).drop_last() =~= start.take(done));
                assert(start.take(done + 1).last() == start[done]);
                assert(self@.queue =~= start.skip(done + 1));
            }
            if entry.player == *player {
                was_queued = true;
            } else {
                let ghost kept_before = kept@;
                kept.push_back(entry);
                assert(queue_view(kept@) =~= queue_view(kept_before).push(entry@));
            }
            proof {
                done = done + 1;
            }
        }
        proof {
            assert(start.take(done) =~= start);
        }
        self.queue = kept;
        proof {
            assert(self@.games == old(self)@.games);
            assert(self@.client_games == old(self)@.client_games);
            assert(self@.game_clients == old(self)@.game_clients);
            assert(self@ == old(self)@.dequeue(player@));
            lemma_same_index(old(self)@, self@);
        }
        was_queued
    }

    /// Removes the game `id` with everything that refers to it: the entry
    /// of its players, and the entry of every player that was in it.
    pub fn remove_session(&mut self, id: &String)
        requires
            old(self).wf(),
        ensures
            final(self).wf(),
            final(self)@ == old(self)@.without_game(id@),
    {
        self.games.remove(id);
        self.game_clients.remove(id);
        self.client_games.remove_values(id);
        proof {
            lemma_without_game(old(self)@, id@);
            assert(self@.games =~= old(self)@.without_game(id@).games);
            assert(self@.game_clients =~= old(self)@.without_game(id@).game_clients);
            assert(self@.client_games =~= old(self)@.without_game(id@).client_games);
        }
    }

    /// What is done when the connection of `player` is lost: the player
    /// leaves the queue, and the game that the player took part in is
    /// removed. The result is the id of that game.
    pub fn disconnect(&mut self, player: &String) -> (removed: Option<GameId>)
        requires
            old(self).wf(),
        ensures
            final(self).wf(),
            final(self)@ == old(self)@.disconnect(player@),
            match removed {
                Some(id) => old(self)@.client_games.contains_key(player@) && id@ == old(
                    self,
                )@.client_games[player@],
                None => !old(self)@.client_games.contains_key(player@),
            },
    {
        self.remove_if_queued(player);
        let id = match self.client_games.get(player) {
            Some(id) => id.clone(),
            None => {
                return None;
            },
        };
        self.remove_session(&id);
        Some(id)
    }
}

} // verus!
