//! Coordinates, cells and ships of one player's board.

use vstd::prelude::*;

verus! {

/// Side length of the square board.
pub const BOARD_SIDE: usize = 10;

/// A cell address on the board.
#[derive(Debug, PartialEq, Eq, Structural, Hash, Clone, Copy)]
pub struct Point2d {
    pub x: usize,
    pub y: usize,
}

impl Point2d {
    /// The cell in row `x` and column `y`.
    pub fn new(x: usize, y: usize) -> (p: Self)
        ensures
            p.x == x,
            p.y == y,
    {
        Self { x, y }
    }

    /// Whether the point lies on the board.
    pub open spec fn on_board(self) -> bool {
        self.x < BOARD_SIDE && self.y < BOARD_SIDE
    }

    /// Whether `other` is this point or one of its eight neighbours.
    pub open spec fn touches(self, other: Point2d) -> bool {
        &&& self.x <= other.x + 1
        &&& other.x <= self.x + 1
        &&& self.y <= other.y + 1
        &&& other.y <= self.y + 1
    }

    /// Executable form of [`Point2d::touches`].
    pub fn is_touching(&self, other: &Point2d) -> (r: bool)
        ensures
            r == self.touches(*other),
    {
        let dx_ok = if self.x <= other.x {
            other.x - self.x <= 1
        } else {
            self.x - other.x <= 1
        };
        let dy_ok = if self.y <= other.y {
            other.y - self.y <= 1
        } else {
            self.y - other.y <= 1
        };
        dx_ok && dy_ok
    }
}

/// State of one cell as seen by the owner of the board.
#[derive(Debug, Default, Clone, Copy, PartialEq, Eq, Structural)]
pub enum CellType {
    #[default]
    EmptyNoShip,
    HasShip,
    EmptyMissed,
    HasShipHit,
}

/// The ten ships of a fleet, by number of decks.
#[derive(Clone, Copy, PartialEq, Eq, Structural, Debug)]
pub enum ShipType {
    OneDeck1,
    OneDeck2,
    OneDeck3,
    OneDeck4,
    TwoDeck1,
    TwoDeck2,
    TwoDeck3,
    ThreeDeck1,
    ThreeDeck2,
    FourDeck1,
}

impl ShipType {
    /// Number of decks, which is the number of hits the ship can take.
    pub open spec fn decks(self) -> nat {
        match self {
            ShipType::OneDeck1 | ShipType::OneDeck2 | ShipType::OneDeck3 | ShipType::OneDeck4 => 1,
            ShipType::TwoDeck1 | ShipType::TwoDeck2 | ShipType::TwoDeck3 => 2,
            ShipType::ThreeDeck1 | ShipType::ThreeDeck2 => 3,
            ShipType::FourDeck1 => 4,
        }
    }

    /// Executable form of [`ShipType::decks`].
    pub fn deck_count(&self) -> (n: usize)
        ensures
            n == self.decks(),
    {
        match self {
            ShipType::OneDeck1 | ShipType::OneDeck2 | ShipType::OneDeck3 | ShipType::OneDeck4 => 1,
            ShipType::TwoDeck1 | ShipType::TwoDeck2 | ShipType::TwoDeck3 => 2,
            ShipType::ThreeDeck1 | ShipType::ThreeDeck2 => 3,
            ShipType::FourDeck1 => 4,
        }
    }
}

/// What a shot did to the board it was fired at.
#[derive(Clone, Copy, PartialEq, Eq, Structural, Debug)]
pub enum ShotOutcome {
    Miss,
    Hit,
    AlreadyResolved,
    Sunk,
}

/// Whether `p` belongs to the zone around a ship with cells `coords` in
/// which no other ship can stand: on the board, next to a cell of the ship,
/// and not a cell of the ship itself.
pub open spec fn in_no_ship_zone(coords: Seq<Point2d>, p: Point2d) -> bool {
    &&& p.on_board()
    &&& !coords.contains(p)
    &&& exists|i: int| 0 <= i < coords.len() && (#[trigger] coords[i]).touches(p)
}

/// Mathematical value of a ship.
pub struct ShipView {
    pub coords: Seq<Point2d>,
    pub ship_type: ShipType,
    pub health: nat,
}

/// A ship: the cells it occupies and the hits it can still take.
#[derive(Debug)]
pub struct Ship {
    pub coords: Vec<Point2d>,
    pub ship_type: ShipType,
    pub health: usize,
}

impl View for Ship {
    type V = ShipView;

    open spec fn view(&self) -> ShipView {
        ShipView { coords: self.coords@, ship_type: self.ship_type, health: self.health as nat }
    }
}

/// Whether `p` is one of `coords`.
pub fn coords_contain(coords: &Vec<Point2d>, p: Point2d) -> (r: bool)
    ensures
        r == coords@.contains(p),
{
    let mut i: usize = 0;
    while i < coords.len()
        invariant
            i <= coords.len(),
            forall|k: int| 0 <= k < i ==> coords@[k] != p,
        decreases coords.len() - i,
    {
        if coords[i].x == p.x && coords[i].y == p.y {
            return true;
        }
        i += 1;
    }
    false
}

/// Whether `p` is next to, or one of, `coords`.
pub fn coords_touch(coords: &Vec<Point2d>, p: Point2d) -> (r: bool)
    ensures
        r == exists|i: int| 0 <= i < coords@.len() && (#[trigger] coords@[i]).touches(p),
{
    let mut i: usize = 0;
    while i < coords.len()
        invariant
            i <= coords.len(),
            forall|k: int| 0 <= k < i ==> !(#[trigger] coords@[k]).touches(p),
        decreases coords.len() - i,
    {
        if coords[i].is_touching(&p) {
            return true;
        }
        i += 1;
    }
    false
}

/// The cells around a ship in which no other ship can stand, each once.
pub fn no_ship_zone(coords: &Vec<Point2d>) -> (zone: Vec<Point2d>)
    ensures
        zone@.no_duplicates(),
        forall|p: Point2d| zone@.contains(p) <==> in_no_ship_zone(coords@, p),
{
    let mut zone: Vec<Point2d> = Vec::new();
    let mut x: usize = 0;
    while x < BOARD_SIDE
        invariant
            x <= BOARD_SIDE,
            zone@.no_duplicates(),
            forall|p: Point2d| zone@.contains(p) <==> in_no_ship_zone(coords@, p) && p.x < x,
        decreases BOARD_SIDE - x,
    {
        let mut y: usize = 0;
        while y < BOARD_SIDE
            invariant
                x < BOARD_SIDE,
                y <= BOARD_SIDE,
                zone@.no_duplicates(),
                forall|p: Point2d|
                    zone@.contains(p) <==> in_no_ship_zone(coords@, p) && (p.x < x || (p.x == x
                        && p.y < y)),
            decreases BOARD_SIDE - y,
        {
            let p = Point2d { x, y };
            if !coords_contain(coords, p) && coords_touch(coords, p) {
                let ghost before = zone@;
                zone.push(p);
                proof {
                    assert(!before.contains(p));
                    assert forall|q: Point2d|
                        zone@.contains(q) <==> in_no_ship_zone(coords@, q) && (q.x < x || (q.x == x
                            && q.y < y + 1)) by {
                        if zone@.contains(q) {
                            let k = choose|k: int| 0 <= k < zone@.len() && zone@[k] == q;
                            if k < before.len() {
                                assert(before[k] == q);
                                assert(before.contains(q));
                            }
                        }
                        if before.contains(q) {
                            let k = choose|k: int| 0 <= k < before.len() && before[k] == q;
                            assert(zone@[k] == q);
                        }
                        if q == p {
                            assert(zone@[before.len() as int] == q);
                        }
                    }
                }
            }
            y += 1;
        }
        x += 1;
    }
    zone
}

impl Ship {
    /// A fresh ship of the given type: it can take as many hits as it has decks.
    pub fn new(coords: Vec<Point2d>, ship_type: ShipType) -> (ship: Self)
        ensures
            ship@ == (ShipView { coords: coords@, ship_type, health: ship_type.decks() }),
    {
        let health = ship_type.deck_count();
        Self { coords, ship_type, health }
    }

    /// Whether the ship has no hits left to take.
    pub fn is_dead(&self) -> (dead: bool)
        ensures
            dead == (self@.health == 0),
    {
        self.health == 0
    }

    /// Takes one hit. When that was the last one the ship could take, the
    /// result is the zone around the sunk ship in which no ship can stand;
    /// otherwise it is empty.
    pub fn hit(&mut self) -> (zone: Vec<Point2d>)
        requires
            old(self)@.health > 0,
        ensures
            final(self)@ == (ShipView { health: (old(self)@.health - 1) as nat, ..old(self)@ }),
            zone@.no_duplicates(),
            forall|p: Point2d|
                zone@.contains(p) <==> final(self)@.health == 0 && in_no_ship_zone(
                    old(self)@.coords,
                    p,
                ),
    {
        self.health -= 1;
        if !self.is_dead() {
            return Vec::new();
        }
        no_ship_zone(&self.coords)
    }
}

} // verus!
