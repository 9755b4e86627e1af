//! One player's board: fleet placement, shots and the win check.

use vstd::prelude::*;
use crate::board::{
    coords_contain, in_no_ship_zone, CellType, Point2d, Ship, ShipType, ShipView, ShotOutcome,
    BOARD_SIDE,
};
use crate::cells::{cell_at, count_cells};
use crate::dto::ShipsRaw;
use crate::error::{FleetError, GameError};
use crate::fleet::{
    fleet_coords, fleet_on_board, fresh_ships, lemma_destroyed_iff_all_sunk, lemma_fresh_wf,
    lemma_shoot_wf, owner_below, refitted,
    ships_of_size, type_of_size, valid_composition, BoardView,
};

verus! {

/// The mathematical values of a list of ships.
pub open spec fn ships_view(ships: Seq<Ship>) -> Seq<ShipView> {
    Seq::new(ships.len(), |i: int| ships[i]@)
}

/// What a shot did, and, when it sank a ship, the zone around that ship in
/// which no ship can stand.
#[derive(Debug)]
pub struct ShotReport {
    pub outcome: ShotOutcome,
    pub no_ship_zone: Vec<Point2d>,
}

/// A player's board and fleet.
#[derive(Debug)]
pub struct Player {
    pub name: String,
    pub grid_state: Vec<Vec<CellType>>,
    pub ships: Vec<Ship>,
}

impl View for Player {
    type V = BoardView;

    open spec fn view(&self) -> BoardView {
        BoardView {
            name: self.name@,
            cells: Seq::new(self.grid_state@.len(), |x: int| self.grid_state@[x]@),
            ships: ships_view(self.ships@),
        }
    }
}

/// The ship that takes the hit when `p` is shot: the last one placed there.
pub fn find_owner(ships: &Vec<Ship>, p: Point2d) -> (r: Option<usize>)
    ensures
        match r {
            Some(i) => i == owner_below(ships_view(ships@), ships@.len() as int, p),
            None => owner_below(ships_view(ships@), ships@.len() as int, p) == -1,
        },
{
    let ghost sv = ships_view(ships@);
    let mut n: usize = ships.len();
    while n > 0
        invariant
            n <= ships.len(),
            sv == ships_view(ships@),
            owner_below(sv, ships@.len() as int, p) == owner_below(sv, n as int, p),
        decreases n,
    {
        assert(sv[n - 1].coords == ships@[n - 1].coords@);
        if coords_contain(&ships[n - 1].coords, p) {
            return Some(n - 1);
        }
        n -= 1;
    }
    None
}

/// The ships of a submitted fleet, each as the list of its cells.
pub open spec fn fleet_of(raw: Seq<Vec<(usize, usize)>>) -> Seq<Seq<Point2d>> {
    Seq::new(
        raw.len(),
        |i: int| Seq::new(raw[i]@.len(), |j: int| Point2d { x: raw[i]@[j].0, y: raw[i]@[j].1 }),
    )
}

/// Why a fleet is refused, if it is: the wrong numbers of ships are an
/// invalid composition, wherever the ships stand; with the right ships, a
/// cell off the board is a bad request.
pub open spec fn fleet_verdict(fleet: Seq<Seq<Point2d>>) -> Option<GameError> {
    if !valid_composition(fleet) {
        Some(GameError::FleetError(FleetError::InvalidComposition))
    } else if !fleet_on_board(fleet) {
        Some(GameError::BadRequest)
    } else {
        None
    }
}

/// Whether every cell of the submitted fleet lies on the board.
pub fn is_fleet_on_board(raw: &ShipsRaw) -> (r: bool)
    ensures
        r == fleet_on_board(fleet_of(raw@)),
{
    let ghost fleet = fleet_of(raw@);
    let mut i: usize = 0;
    while i < raw.len()
        invariant
            i <= raw.len(),
            fleet == fleet_of(raw@),
            forall|a: int, b: int|
                0 <= a < i && 0 <= b < fleet[a].len() ==> (#[trigger] fleet[a][b]).on_board(),
        decreases raw.len() - i,
    {
        let mut j: usize = 0;
        while j < raw[i].len()
            invariant
                i < raw.len(),
                j <= raw@[i as int]@.len(),
                fleet == fleet_of(raw@),
                forall|b: int| 0 <= b < j ==> (#[trigger] fleet[i as int][b]).on_board(),
            decreases raw@[i as int]@.len() - j,
        {
            if raw[i][j].0 >= BOARD_SIDE || raw[i][j].1 >= BOARD_SIDE {
                assert(!fleet[i as int][j as int].on_board());
                return false;
            }
            j += 1;
        }
        i += 1;
    }
    true
}

/// Whether the submitted fleet has exactly the required ships.
pub fn has_valid_composition(raw: &ShipsRaw) -> (r: bool)
    ensures
        r == valid_composition(fleet_of(raw@)),
{
    let ghost fleet = fleet_of(raw@);
    let mut ones: usize = 0;
    let mut twos: usize = 0;
    let mut threes: usize = 0;
    let mut fours: usize = 0;
    let mut i: usize = 0;
    while i < raw.len()
        invariant
            i <= raw.len(),
            fleet == fleet_of(raw@),
            forall|a: int| 0 <= a < i ==> 1 <= #[trigger] fleet[a].len() <= 4,
            ones == ships_of_size(fleet.take(i as int), 1),
            twos == ships_of_size(fleet.take(i as int), 2),
            threes == ships_of_size(fleet.take(i as int), 3),
            fours == ships_of_size(fleet.take(i as int), 4),
            ones <= i,
            twos <= i,
            threes <= i,
            fours <= i,
        decreases raw.len() - i,
    {
        let size = raw[i].len();
        assert(fleet.take(i + 1).drop_last() =~= fleet.take(i as int));
        assert(fleet.take(i + 1).last() == fleet[i as int]);
        assert(fleet[i as int].len() == size);
        if size == 1 {
            ones += 1;
        } else if size == 2 {
            twos += 1;
        } else if size == 3 {
            threes += 1;
        } else if size == 4 {
            fours += 1;
        } else {
            return false;
        }
        i += 1;
    }
    assert(fleet.take(raw@.len() as int) =~= fleet);
    ones == 4 && twos == 3 && threes == 2 && fours == 1
}

/// Executable form of [`type_of_size`].
pub fn ship_type_for(size: usize) -> (t: ShipType)
    ensures
        t == type_of_size(size as nat),
{
    if size == 2 {
        ShipType::TwoDeck1
    } else if size == 3 {
        ShipType::ThreeDeck1
    } else if size == 4 {
        ShipType::FourDeck1
    } else {
        ShipType::OneDeck1
    }
}

/// The ships of a submitted fleet, none of them hit.
pub fn build_ships(raw: &ShipsRaw) -> (ships: Vec<Ship>)
    ensures
        ships_view(ships@) == fresh_ships(fleet_of(raw@)),
{
    let ghost fleet = fleet_of(raw@);
    let mut ships: Vec<Ship> = Vec::new();
    let mut i: usize = 0;
    while i < raw.len()
        invariant
            i <= raw.len(),
            fleet == fleet_of(raw@),
            ships@.len() == i,
            forall|a: int| 0 <= a < i ==> (#[trigger] ships@[a])@ == fresh_ships(fleet)[a],
        decreases raw.len() - i,
    {
        let mut coords: Vec<Point2d> = Vec::new();
        let mut j: usize = 0;
        while j < raw[i].len()
            invariant
                i < raw.len(),
                j <= raw@[i as int]@.len(),
                fleet == fleet_of(raw@),
                coords@.len() == j,
                forall|b: int| 0 <= b < j ==> #[trigger] coords@[b] == fleet[i as int][b],
            decreases raw@[i as int]@.len() - j,
        {
            coords.push(Point2d::new(raw[i][j].0, raw[i][j].1));
            j += 1;
        }
        assert(coords@ =~= fleet[i as int]);
        let ship_type = ship_type_for(coords.len());
        ships.push(Ship::new(coords, ship_type));
        i += 1;
    }
    assert(ships_view(ships@) =~= fresh_ships(fleet));
    ships
}

impl Player {
    /// The invariant of a board.
    pub open spec fn wf(&self) -> bool {
        self@.wf()
    }

    /// The board of `name` with `ships` placed and no shot fired. Every
    /// ship starts with as many points of health as its type has decks,
    /// whatever health it is handed in with. A cell holds a ship where one
    /// of `ships` occupies it; cells that `ships` name outside the board are
    /// not part of it.
    pub fn new(name: String, ships: Vec<Ship>) -> (player: Self)
        ensures
            player@ == BoardView::fresh(name@, refitted(ships_view(ships@))),
            forall|i: int|
                0 <= i < player@.ships.len() ==> (#[trigger] player@.ships[i]).health
                    == player@.ships[i].ship_type.decks(),
    {
        let ghost given = ships_view(ships@);
        let mut ships = ships;
        let mut i: usize = 0;
        while i < ships.len()
            invariant
                i <= ships@.len(),
                ships@.len() == given.len(),
                forall|j: int| 0 <= j < i ==> (#[trigger] ships@[j])@ == refitted(given)[j],
                forall|j: int| i <= j < ships@.len() ==> (#[trigger] ships@[j])@ == given[j],
            decreases ships@.len() - i,
        {
            let health = ships[i].ship_type.deck_count();
            ships[i].health = health;
            i += 1;
        }
        assert(ships_view(ships@) =~= refitted(given));
        let mut grid: Vec<Vec<CellType>> = Vec::new();
        let ghost sv = ships_view(ships@);
        let mut x: usize = 0;
        while x < BOARD_SIDE
            invariant
                x <= BOARD_SIDE,
                sv == ships_view(ships@),
                grid@.len() == x,
                forall|a: int|
                    0 <= a < x ==> (#[trigger] grid@[a])@ == BoardView::fresh(name@, sv).cells[a],
            decreases BOARD_SIDE - x,
        {
            let mut row: Vec<CellType> = Vec::new();
            let mut y: usize = 0;
            while y < BOARD_SIDE
                invariant
                    x < BOARD_SIDE,
                    y <= BOARD_SIDE,
                    sv == ships_view(ships@),
                    row@.len() == y,
                    forall|b: int|
                        0 <= b < y ==> #[trigger] row@[b] == BoardView::fresh(
                            name@,
                            sv,
                        ).cells[x as int][b],
                decreases BOARD_SIDE - y,
            {
                let cell = match find_owner(&ships, Point2d { x, y }) {
                    Some(_) => CellType::HasShip,
                    None => CellType::EmptyNoShip,
                };
                row.push(cell);
                y += 1;
            }
            assert(row@ =~= BoardView::fresh(name@, sv).cells[x as int]);
            grid.push(row);
            x += 1;
        }
        let player = Self { name, grid_state: grid, ships };
        assert(player@.cells =~= BoardView::fresh(name@, sv).cells);
        player
    }

    /// Places a submitted fleet. The fleet is refused, and nothing is built,
    /// when it is not made of exactly the required ships or, with the right
    /// ships, when one of its cells lies off the board.
    pub fn submit_fleet(name: String, raw: &ShipsRaw) -> (r: Result<Self, GameError>)
        ensures
            match r {
                Ok(player) => {
                    &&& fleet_verdict(fleet_of(raw@)) is None
                    &&& player@ == BoardView::fresh(name@, fresh_ships(fleet_of(raw@)))
                    &&& player.wf()
                    &&& player@.hit_cells() == 0
                },
                Err(e) => fleet_verdict(fleet_of(raw@)) == Some(e),
            },
    {
        if !has_valid_composition(raw) {
            return Err(GameError::FleetError(FleetError::InvalidComposition));
        }
        if !is_fleet_on_board(raw) {
            return Err(GameError::BadRequest);
        }
        let ships = build_ships(raw);
        proof {
            let fleet = fleet_of(raw@);
            let sv = fresh_ships(fleet);
            assert(refitted(sv) =~= sv);
            assert(fleet_coords(sv) =~= fleet);
            assert forall|i: int| 0 <= i < sv.len() implies (#[trigger] sv[i]).ship_type.decks()
                == sv[i].coords.len() && sv[i].health == sv[i].coords.len() by {
                assert(1 <= fleet[i].len() <= 4);
            }
            lemma_fresh_wf(name@, sv);
        }
        Ok(Player::new(name, ships))
    }

    /// Resolves a shot at `p`. An empty cell becomes a miss. A ship cell
    /// becomes a hit and its ship loses one point of health; when that was
    /// its last, the ship is sunk and the report names the zone around it
    /// in which no ship can stand, without marking it on the board. A cell
    /// shot before stays as it is.
    pub fn apply_shot(&mut self, p: Point2d) -> (report: ShotReport)
        requires
            old(self).wf(),
            p.on_board(),
        ensures
            final(self)@ == old(self)@.shoot(p),
            final(self).wf(),
            report.outcome == old(self)@.outcome(p),
            report.no_ship_zone@.no_duplicates(),
            forall|q: Point2d|
                report.no_ship_zone@.contains(q) <==> old(self)@.outcome(p) == ShotOutcome::Sunk
                    && in_no_ship_zone(old(self)@.ships[old(self)@.owner(p)].coords, q),
    {
        proof {
            lemma_shoot_wf(self@, p);
            assert(self@.cells[p.x as int].len() == 10);
        }
        let ghost before = self@;
        match self.grid_state[p.x][p.y] {
            CellType::EmptyNoShip => {
                self.grid_state[p.x][p.y] = CellType::EmptyMissed;
                assert(self@.cells =~= before.shoot(p).cells);
                assert(self@.ships =~= before.shoot(p).ships);
                ShotReport { outcome: ShotOutcome::Miss, no_ship_zone: Vec::new() }
            },
            CellType::HasShip => {
                self.grid_state[p.x][p.y] = CellType::HasShipHit;
                let owner = find_owner(&self.ships, p);
                let o = owner.unwrap();
                assert(before.ships[o as int] == self.ships@[o as int]@);
                let zone = self.ships[o].hit();
                let sunk = self.ships[o].is_dead();
                assert(self@.cells =~= before.shoot(p).cells);
                assert(self@.ships =~= before.shoot(p).ships);
                ShotReport {
                    outcome: if sunk {
                        ShotOutcome::Sunk
                    } else {
                        ShotOutcome::Hit
                    },
                    no_ship_zone: zone,
                }
            },
            _ => ShotReport { outcome: ShotOutcome::AlreadyResolved, no_ship_zone: Vec::new() },
        }
    }

    /// The state of the cell at `p`.
    pub fn cell(&self, p: Point2d) -> (c: CellType)
        requires
            self@.grid_ok(),
            p.on_board(),
        ensures
            c == self@.cell(p),
    {
        assert(self@.cells[p.x as int].len() == 10);
        self.grid_state[p.x][p.y]
    }

    /// Whether the whole fleet is destroyed: twenty cells are hit. On a
    /// board that meets its invariant that is to say that every ship is sunk.
    pub fn is_all_destroyed(&self) -> (destroyed: bool)
        requires
            self@.grid_ok(),
        ensures
            destroyed == self@.is_destroyed(),
            self.wf() ==> destroyed == self@.all_sunk(),
    {
        proof {
            if self.wf() {
                lemma_destroyed_iff_all_sunk(self@);
            }
        }
        let mut hits: usize = 0;
        let mut x: usize = 0;
        while x < BOARD_SIDE
            invariant
                x <= BOARD_SIDE,
                self@.grid_ok(),
                hits == count_cells(self@.is_hit(), (10 * x) as nat),
                hits <= 10 * x,
            decreases BOARD_SIDE - x,
        {
            let mut y: usize = 0;
            while y < BOARD_SIDE
                invariant
                    x < BOARD_SIDE,
                    y <= BOARD_SIDE,
                    self@.grid_ok(),
                    hits == count_cells(self@.is_hit(), (10 * x + y) as nat),
                    hits <= 10 * x + y,
                decreases BOARD_SIDE - y,
            {
                assert(cell_at(10 * x + y) == Point2d { x, y });
                assert(self@.cells[x as int].len() == 10);
                if self.grid_state[x][y] == CellType::HasShipHit {
                    hits += 1;
                }
                y += 1;
            }
            x += 1;
        }
        hits == 20
    }
}

} // verus!
