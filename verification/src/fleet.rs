//! The mathematical model of one player's board: its cells, its ships, and
//! what a shot does to them.

use vstd::prelude::*;
use crate::board::{CellType, Point2d, ShipType, ShipView, ShotOutcome};
use crate::cells::{
    cell_at, cell_index, count_cells, lemma_cell_index, lemma_count_drop, lemma_count_same,
    lemma_count_step,
};

verus! {

/// Number of ships with exactly `size` cells.
pub open spec fn ships_of_size(fleet: Seq<Seq<Point2d>>, size: nat) -> nat
    decreases fleet.len(),
{
    if fleet.len() == 0 {
        0
    } else {
        ships_of_size(fleet.drop_last(), size) + if fleet.last().len() == size {
            1nat
        } else {
            0nat
        }
    }
}

/// A fleet is four ships of one cell, three of two, two of three and one of
/// four, and nothing else.
pub open spec fn valid_composition(fleet: Seq<Seq<Point2d>>) -> bool {
    &&& forall|i: int| 0 <= i < fleet.len() ==> 1 <= #[trigger] fleet[i].len() <= 4
    &&& ships_of_size(fleet, 1) == 4
    &&& ships_of_size(fleet, 2) == 3
    &&& ships_of_size(fleet, 3) == 2
    &&& ships_of_size(fleet, 4) == 1
}

/// Every cell of every ship lies on the board.
pub open spec fn fleet_on_board(fleet: Seq<Seq<Point2d>>) -> bool {
    forall|i: int, j: int|
        0 <= i < fleet.len() && 0 <= j < fleet[i].len() ==> (#[trigger] fleet[i][j]).on_board()
}

/// The type given to a ship of `size` cells.
pub open spec fn type_of_size(size: nat) -> ShipType {
    if size == 2 {
        ShipType::TwoDeck1
    } else if size == 3 {
        ShipType::ThreeDeck1
    } else if size == 4 {
        ShipType::FourDeck1
    } else {
        ShipType::OneDeck1
    }
}

/// The ships of a fleet before any shot.
pub open spec fn fresh_ships(fleet: Seq<Seq<Point2d>>) -> Seq<ShipView> {
    Seq::new(
        fleet.len(),
        |i: int|
            ShipView {
                coords: fleet[i],
                ship_type: type_of_size(fleet[i].len()),
                health: type_of_size(fleet[i].len()).decks(),
            },
    )
}

/// The ships as they come out of the yard: each where it stands, with as
/// many points of health as its type has decks.
pub open spec fn refitted(ships: Seq<ShipView>) -> Seq<ShipView> {
    Seq::new(
        ships.len(),
        |i: int| ShipView { health: ships[i].ship_type.decks(), ..ships[i] },
    )
}

/// The cells that each ship occupies.
pub open spec fn fleet_coords(ships: Seq<ShipView>) -> Seq<Seq<Point2d>> {
    Seq::new(ships.len(), |i: int| ships[i].coords)
}

/// The last ship among the first `n` that occupies `p`, or -1.
pub open spec fn owner_below(ships: Seq<ShipView>, n: int, p: Point2d) -> int
    decreases n,
{
    if n <= 0 {
        -1
    } else if ships[n - 1].coords.contains(p) {
        n - 1
    } else {
        owner_below(ships, n - 1, p)
    }
}

/// Whether a ship stands on a cell in this state, hit or not.
pub open spec fn is_ship_cell(c: CellType) -> bool {
    c == CellType::HasShip || c == CellType::HasShipHit
}

/// The hits that the ships can still take, all together.
pub open spec fn total_health(ships: Seq<ShipView>) -> nat
    decreases ships.len(),
{
    if ships.len() == 0 {
        0
    } else {
        total_health(ships.drop_last()) + ships.last().health
    }
}

/// Mathematical value of a player's board.
pub struct BoardView {
    pub name: Seq<char>,
    pub cells: Seq<Seq<CellType>>,
    pub ships: Seq<ShipView>,
}

impl BoardView {
    /// The state of the cell at `p`.
    pub open spec fn cell(self, p: Point2d) -> CellType {
        self.cells[p.x as int][p.y as int]
    }

    /// The ship that takes the hit when `p` is shot: the last one placed
    /// there. -1 where no ship stands.
    pub open spec fn owner(self, p: Point2d) -> int {
        owner_below(self.ships, self.ships.len() as int, p)
    }

    /// The board with the cell at `p` in the state `c`.
    pub open spec fn with_cell(self, p: Point2d, c: CellType) -> BoardView {
        BoardView {
            cells: self.cells.update(p.x as int, self.cells[p.x as int].update(p.y as int, c)),
            ..self
        }
    }

    /// The cells in the hit state.
    pub open spec fn is_hit(self) -> spec_fn(Point2d) -> bool {
        |p: Point2d| self.cell(p) == CellType::HasShipHit
    }

    /// The cells of ship `i` that have not been hit.
    pub open spec fn is_live_of(self, i: int) -> spec_fn(Point2d) -> bool {
        |p: Point2d| self.cell(p) == CellType::HasShip && self.owner(p) == i
    }

    /// Number of cells in the hit state.
    pub open spec fn hit_cells(self) -> nat {
        count_cells(self.is_hit(), 100)
    }

    /// The whole fleet is destroyed: twenty cells are hit.
    pub open spec fn is_destroyed(self) -> bool {
        self.hit_cells() == 20
    }

    /// The grid has ten rows of ten cells.
    pub open spec fn grid_ok(self) -> bool {
        &&& self.cells.len() == 10
        &&& forall|x: int| 0 <= x < 10 ==> (#[trigger] self.cells[x]).len() == 10
    }

    /// The invariant of a board.
    pub open spec fn wf(self) -> bool {
        &&& self.grid_ok()
        &&& valid_composition(fleet_coords(self.ships))
        &&& fleet_on_board(fleet_coords(self.ships))
        &&& forall|i: int|
            0 <= i < self.ships.len() ==> {
                &&& (#[trigger] self.ships[i]).ship_type.decks() == self.ships[i].coords.len()
                &&& self.ships[i].health <= self.ships[i].coords.len()
                &&& self.ships[i].health >= count_cells(self.is_live_of(i), 100)
            }
        &&& forall|p: Point2d|
            p.on_board() ==> (is_ship_cell(#[trigger] self.cell(p)) <==> self.owner(p) >= 0)
        &&& total_health(self.ships) + self.hit_cells() == 20
    }

    /// Every ship is sunk.
    pub open spec fn all_sunk(self) -> bool {
        forall|i: int| 0 <= i < self.ships.len() ==> (#[trigger] self.ships[i]).health == 0
    }

    /// The board of `name` with `ships` placed and no shot fired.
    pub open spec fn fresh(name: Seq<char>, ships: Seq<ShipView>) -> BoardView {
        BoardView {
            name,
            cells: Seq::new(
                10,
                |x: int|
                    Seq::new(
                        10,
                        |y: int|
                            if owner_below(
                                ships,
                                ships.len() as int,
                                Point2d { x: x as usize, y: y as usize },
                            ) >= 0 {
                                CellType::HasShip
                            } else {
                                CellType::EmptyNoShip
                            },
                    ),
            ),
            ships,
        }
    }

    /// The board after a shot at `p`.
    pub open spec fn shoot(self, p: Point2d) -> BoardView {
        match self.cell(p) {
            CellType::EmptyNoShip => self.with_cell(p, CellType::EmptyMissed),
            CellType::HasShip => {
                let o = self.owner(p);
                let ship = self.ships[o];
                BoardView {
                    ships: self.ships.update(
                        o,
                        ShipView { health: (ship.health - 1) as nat, ..ship },
                    ),
                    ..self.with_cell(p, CellType::HasShipHit)
                }
            },
            _ => self,
        }
    }

    /// What a shot at `p` reports.
    pub open spec fn outcome(self, p: Point2d) -> ShotOutcome {
        match self.cell(p) {
            CellType::EmptyNoShip => ShotOutcome::Miss,
            CellType::HasShip => if self.ships[self.owner(p)].health == 1 {
                ShotOutcome::Sunk
            } else {
                ShotOutcome::Hit
            },
            _ => ShotOutcome::AlreadyResolved,
        }
    }
}

/// What `owner_below` finds.
pub proof fn lemma_owner_below(ships: Seq<ShipView>, n: int, p: Point2d)
    requires
        0 <= n <= ships.len(),
    ensures
        -1 <= owner_below(ships, n, p) < n,
        owner_below(ships, n, p) >= 0 ==> ships[owner_below(ships, n, p)].coords.contains(p),
        forall|i: int|
            owner_below(ships, n, p) < i < n ==> !(#[trigger] ships[i]).coords.contains(p),
    decreases n,
{
    if n > 0 && !ships[n - 1].coords.contains(p) {
        lemma_owner_below(ships, n - 1, p);
    }
}

/// The owner of a cell depends on where the ships stand only.
pub proof fn lemma_owner_by_coords(a: Seq<ShipView>, b: Seq<ShipView>, n: int, p: Point2d)
    requires
        0 <= n <= a.len(),
        a.len() == b.len(),
        forall|i: int| 0 <= i < a.len() ==> (#[trigger] a[i]).coords == b[i].coords,
    ensures
        owner_below(a, n, p) == owner_below(b, n, p),
    decreases n,
{
    if n > 0 {
        assert(a[n - 1].coords == b[n - 1].coords);
        lemma_owner_by_coords(a, b, n - 1, p);
    }
}

/// A sequence of points covers no more cells than it has points.
pub proof fn lemma_count_covered(coords: Seq<Point2d>)
    ensures
        count_cells(|q: Point2d| coords.contains(q), 100) <= coords.len(),
    decreases coords.len(),
{
    let g = |q: Point2d| coords.contains(q);
    if coords.len() == 0 {
        let none = |q: Point2d| false;
        lemma_count_step(none, g, 100, -1);
        lemma_count_same(none, none, 100);
        lemma_count_none(100);
    } else {
        let rest = coords.drop_last();
        let c = coords.last();
        let f = |q: Point2d| rest.contains(q);
        lemma_count_covered(rest);
        assert forall|k: int| 0 <= k < 100 && k != cell_index(c) && g(#[trigger] cell_at(k)) implies f(
            cell_at(k),
        ) by {
            let q = cell_at(k);
            let j = choose|j: int| 0 <= j < coords.len() && coords[j] == q;
            assert(q != c);
            assert(rest[j] == q);
        }
        lemma_count_step(f, g, 100, cell_index(c));
    }
}

/// The predicate that holds nowhere counts nothing.
pub proof fn lemma_count_none(n: nat)
    ensures
        count_cells(|q: Point2d| false, n) == 0,
    decreases n,
{
    if n > 0 {
        lemma_count_none((n - 1) as nat);
    }
}

/// A board with a valid fleet placed and no shot fired meets the invariant.
pub proof fn lemma_fresh_wf(name: Seq<char>, ships: Seq<ShipView>)
    requires
        valid_composition(fleet_coords(ships)),
        fleet_on_board(fleet_coords(ships)),
        forall|i: int|
            0 <= i < ships.len() ==> (#[trigger] ships[i]).ship_type.decks()
                == ships[i].coords.len() && ships[i].health == ships[i].coords.len(),
    ensures
        BoardView::fresh(name, ships).wf(),
        BoardView::fresh(name, ships).hit_cells() == 0,
{
    let b = BoardView::fresh(name, ships);
    assert forall|i: int| 0 <= i < b.ships.len() implies (#[trigger] b.ships[i]).health
        >= count_cells(b.is_live_of(i), 100) by {
        let coords = ships[i].coords;
        let f = |q: Point2d| coords.contains(q);
        assert forall|k: int| 0 <= k < 100 && b.is_live_of(i)(#[trigger] cell_at(k)) implies f(
            cell_at(k),
        ) by {
            lemma_owner_below(ships, ships.len() as int, cell_at(k));
        }
        lemma_count_step(f, b.is_live_of(i), 100, -1);
        lemma_count_covered(coords);
    }
    assert forall|p: Point2d| p.on_board() implies (is_ship_cell(#[trigger] b.cell(p)) <==> b.owner(
        p,
    ) >= 0) by {
        assert(Point2d { x: p.x as int as usize, y: p.y as int as usize } == p);
    }
    let none = |q: Point2d| false;
    assert forall|k: int| 0 <= k < 100 implies b.is_hit()(#[trigger] cell_at(k)) == none(
        cell_at(k),
    ) by {}
    lemma_count_same(none, b.is_hit(), 100);
    lemma_count_none(100);
    lemma_total_health_fresh(ships);
    lemma_composition_totals(fleet_coords(ships));
}

/// A shot at a cell of the board keeps the invariant, and a ship that
/// still has an un-hit cell can still take a hit.
pub proof fn lemma_shoot_wf(b: BoardView, p: Point2d)
    requires
        b.wf(),
        p.on_board(),
    ensures
        b.shoot(p).wf(),
        b.cell(p) == CellType::HasShip ==> 0 <= b.owner(p) < b.ships.len() && b.ships[b.owner(
            p,
        )].health >= 1,
{
    let a = b.shoot(p);
    let kp = cell_index(p);
    lemma_cell_index(p);
    lemma_owner_below(b.ships, b.ships.len() as int, p);
    assert(is_ship_cell(b.cell(p)) <==> b.owner(p) >= 0);
    assert(fleet_coords(a.ships) =~= fleet_coords(b.ships));
    lemma_shoot_hit_cells(b, p);
    assert forall|q: Point2d| a.owner(q) == b.owner(q) by {
        lemma_owner_by_coords(a.ships, b.ships, b.ships.len() as int, q);
    }
    assert forall|q: Point2d| q.on_board() && q != p implies a.cell(q) == b.cell(q) by {}
    assert forall|i: int| 0 <= i < a.ships.len() implies {
        &&& (#[trigger] a.ships[i]).ship_type.decks() == a.ships[i].coords.len()
        &&& a.ships[i].health <= a.ships[i].coords.len()
        &&& a.ships[i].health >= count_cells(a.is_live_of(i), 100)
    } by {
        assert(b.ships[i].health >= count_cells(b.is_live_of(i), 100));
        assert forall|k: int| 0 <= k < 100 && k != kp implies a.is_live_of(i)(
            #[trigger] cell_at(k),
        ) == b.is_live_of(i)(cell_at(k)) by {
            assert(cell_at(k).on_board());
        }
        if b.cell(p) == CellType::HasShip && i == b.owner(p) {
            lemma_count_drop(b.is_live_of(i), a.is_live_of(i), 100, kp);
        } else {
            assert(a.is_live_of(i)(cell_at(kp)) == b.is_live_of(i)(cell_at(kp)));
            lemma_count_same(b.is_live_of(i), a.is_live_of(i), 100);
        }
    }
    if b.cell(p) == CellType::HasShip {
        let o = b.owner(p);
        assert(b.ships[o].health >= count_cells(b.is_live_of(o), 100));
        assert forall|k: int| 0 <= k < 100 && k != kp implies a.is_live_of(o)(
            #[trigger] cell_at(k),
        ) == b.is_live_of(o)(cell_at(k)) by {
            assert(cell_at(k).on_board());
        }
        lemma_count_drop(b.is_live_of(o), a.is_live_of(o), 100, kp);
        lemma_total_health_update(b.ships, o, (b.ships[o].health - 1) as nat);
    }
    assert forall|q: Point2d| q.on_board() implies (is_ship_cell(#[trigger] a.cell(q))
        <==> a.owner(q) >= 0) by {
        assert(is_ship_cell(b.cell(q)) <==> b.owner(q) >= 0);
    }
}

/// A shot changes the number of hit cells by one when it hits a ship cell
/// that was not hit before, and not at all otherwise.
pub proof fn lemma_shoot_hit_cells(b: BoardView, p: Point2d)
    requires
        b.grid_ok(),
        p.on_board(),
    ensures
        b.shoot(p).hit_cells() == b.hit_cells() + if b.cell(p) == CellType::HasShip {
            1nat
        } else {
            0nat
        },
{
    let a = b.shoot(p);
    let kp = cell_index(p);
    lemma_cell_index(p);
    assert forall|k: int| 0 <= k < 100 && k != kp implies a.is_hit()(#[trigger] cell_at(k))
        == b.is_hit()(cell_at(k)) by {
        assert(cell_at(k).on_board());
    }
    if b.cell(p) == CellType::HasShip {
        lemma_count_drop(a.is_hit(), b.is_hit(), 100, kp);
    } else {
        assert(a.is_hit()(cell_at(kp)) == b.is_hit()(cell_at(kp)));
        lemma_count_same(b.is_hit(), a.is_hit(), 100);
    }
}

/// Shooting a cell a second time changes nothing and reports that the cell
/// was resolved before.
pub proof fn lemma_shot_idempotent(b: BoardView, p: Point2d)
    requires
        b.grid_ok(),
        p.on_board(),
    ensures
        b.shoot(p).outcome(p) == ShotOutcome::AlreadyResolved,
        b.shoot(p).shoot(p) == b.shoot(p),
{
}

/// Total number of cells that the ships of a fleet list.
pub open spec fn total_cells(fleet: Seq<Seq<Point2d>>) -> nat
    decreases fleet.len(),
{
    if fleet.len() == 0 {
        0
    } else {
        total_cells(fleet.drop_last()) + fleet.last().len()
    }
}

proof fn lemma_fleet_totals(fleet: Seq<Seq<Point2d>>)
    requires
        forall|i: int| 0 <= i < fleet.len() ==> 1 <= #[trigger] fleet[i].len() <= 4,
    ensures
        fleet.len() == ships_of_size(fleet, 1) + ships_of_size(fleet, 2) + ships_of_size(fleet, 3)
            + ships_of_size(fleet, 4),
        total_cells(fleet) == ships_of_size(fleet, 1) + 2 * ships_of_size(fleet, 2) + 3
            * ships_of_size(fleet, 3) + 4 * ships_of_size(fleet, 4),
    decreases fleet.len(),
{
    if fleet.len() > 0 {
        let rest = fleet.drop_last();
        assert forall|i: int| 0 <= i < rest.len() implies 1 <= #[trigger] rest[i].len() <= 4 by {
            assert(rest[i] == fleet[i]);
        }
        lemma_fleet_totals(rest);
        assert(1 <= fleet[fleet.len() - 1].len() <= 4);
    }
}

/// A fleet of the required composition has ten ships and twenty cells.
pub proof fn lemma_composition_totals(fleet: Seq<Seq<Point2d>>)
    requires
        valid_composition(fleet),
    ensures
        fleet.len() == 10,
        total_cells(fleet) == 20,
{
    lemma_fleet_totals(fleet);
}

/// Changing the health of one ship changes the total by as much.
pub proof fn lemma_total_health_update(ships: Seq<ShipView>, i: int, health: nat)
    requires
        0 <= i < ships.len(),
    ensures
        total_health(ships.update(i, ShipView { health, ..ships[i] })) + ships[i].health
            == total_health(ships) + health,
    decreases ships.len(),
{
    let after = ships.update(i, ShipView { health, ..ships[i] });
    if i == ships.len() - 1 {
        assert(after.drop_last() =~= ships.drop_last());
    } else {
        let rest = ships.drop_last();
        assert(after.drop_last() =~= rest.update(i, ShipView { health, ..rest[i] }));
        lemma_total_health_update(rest, i, health);
    }
}

/// Ships that have not been hit can take as many hits as they have cells.
pub proof fn lemma_total_health_fresh(ships: Seq<ShipView>)
    requires
        forall|i: int| 0 <= i < ships.len() ==> (#[trigger] ships[i]).health == ships[i].coords.len(),
    ensures
        total_health(ships) == total_cells(fleet_coords(ships)),
    decreases ships.len(),
{
    if ships.len() > 0 {
        let rest = ships.drop_last();
        assert forall|i: int| 0 <= i < rest.len() implies (#[trigger] rest[i]).health
            == rest[i].coords.len() by {
            assert(rest[i] == ships[i]);
        }
        lemma_total_health_fresh(rest);
        assert(fleet_coords(ships).drop_last() =~= fleet_coords(rest));
        assert(ships.last() == ships[ships.len() - 1]);
    }
}

/// The ships can take no more hits exactly when each of them is sunk.
pub proof fn lemma_total_health_zero(ships: Seq<ShipView>)
    ensures
        total_health(ships) == 0 <==> forall|i: int|
            0 <= i < ships.len() ==> (#[trigger] ships[i]).health == 0,
    decreases ships.len(),
{
    if ships.len() > 0 {
        let rest = ships.drop_last();
        lemma_total_health_zero(rest);
        assert(ships.last() == ships[ships.len() - 1]);
        if total_health(ships) == 0 {
            assert forall|i: int| 0 <= i < ships.len() implies (#[trigger] ships[i]).health
                == 0 by {
                if i < rest.len() {
                    assert(rest[i] == ships[i]);
                }
            }
        }
        if forall|i: int| 0 <= i < ships.len() ==> (#[trigger] ships[i]).health == 0 {
            assert forall|i: int| 0 <= i < rest.len() implies (#[trigger] rest[i]).health
                == 0 by {
                assert(rest[i] == ships[i]);
            }
        }
    }
}

/// The fleet is destroyed, with twenty cells hit, exactly when every one of
/// its ships is sunk.
pub proof fn lemma_destroyed_iff_all_sunk(b: BoardView)
    requires
        b.wf(),
    ensures
        b.is_destroyed() <==> b.all_sunk(),
{
    lemma_total_health_zero(b.ships);
}

} // verus!
