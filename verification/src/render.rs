//! Rendering a board for its owner and for the opponent.

use vstd::prelude::*;
use crate::board::CellType;
use crate::dto::Grid2D;
use crate::player::Player;

verus! {

/// The symbol shown for a cell. On the opponent's view (`enemy`) a ship
/// that was not hit looks like empty water.
pub open spec fn symbol(cell: CellType, enemy: bool) -> Seq<char> {
    match cell {
        CellType::EmptyNoShip => seq!['.'],
        CellType::HasShipHit => seq!['x'],
        CellType::HasShip => if enemy {
            seq!['.']
        } else {
            seq!['#']
        },
        CellType::EmptyMissed => seq!['_'],
    }
}

/// The symbols of a whole board.
pub open spec fn rendered(cells: Seq<Seq<CellType>>, enemy: bool) -> Seq<Seq<Seq<char>>> {
    Seq::new(cells.len(), |x: int| Seq::new(cells[x].len(), |y: int| symbol(cells[x][y], enemy)))
}

/// The symbols that a rendered grid holds.
pub open spec fn grid_view(grid: Grid2D) -> Seq<Seq<Seq<char>>> {
    Seq::new(grid@.len(), |x: int| Seq::new(grid@[x]@.len(), |y: int| grid@[x]@[y]@))
}

/// The board with its un-hit ships taken away.
pub open spec fn concealed(cells: Seq<Seq<CellType>>) -> Seq<Seq<CellType>> {
    Seq::new(
        cells.len(),
        |x: int|
            Seq::new(
                cells[x].len(),
                |y: int|
                    if cells[x][y] == CellType::HasShip {
                        CellType::EmptyNoShip
                    } else {
                        cells[x][y]
                    },
            ),
    )
}

/// Executable form of [`symbol`].
pub fn cell_symbol(cell: CellType, enemy: bool) -> (s: String)
    ensures
        s@ == symbol(cell, enemy),
{
    proof {
        reveal_strlit(".");
        reveal_strlit("x");
        reveal_strlit("#");
        reveal_strlit("_");
    }
    let text = match cell {
        CellType::EmptyNoShip => ".",
        CellType::HasShipHit => "x",
        CellType::HasShip => if enemy {
            "."
        } else {
            "#"
        },
        CellType::EmptyMissed => "_",
    };
    assert(text@ =~= symbol(cell, enemy));
    text.to_owned()
}

/// Renders the board of `p`, for its owner or, with `enemy`, for the
/// opponent, who is not shown the ships that were not hit.
pub fn grid_as_json_single(p: &Player, enemy: bool) -> (grid: Grid2D)
    ensures
        grid_view(grid) == rendered(p@.cells, enemy),
{
    let mut grid: Grid2D = Vec::new();
    let mut x: usize = 0;
    while x < p.grid_state.len()
        invariant
            x <= p.grid_state@.len(),
            grid@.len() == x,
            forall|a: int|
                0 <= a < x ==> grid_view(grid)[a] == #[trigger] rendered(p@.cells, enemy)[a],
        decreases p.grid_state@.len() - x,
    {
        let mut row: Vec<String> = Vec::new();
        let mut y: usize = 0;
        while y < p.grid_state[x].len()
            invariant
                x < p.grid_state@.len(),
                y <= p.grid_state@[x as int]@.len(),
                row@.len() == y,
                forall|b: int|
                    0 <= b < y ==> (#[trigger] row@[b])@ == symbol(
                        p.grid_state@[x as int]@[b],
                        enemy,
                    ),
            decreases p.grid_state@[x as int]@.len() - y,
        {
            row.push(cell_symbol(p.grid_state[x][y], enemy));
            y += 1;
        }
        let ghost before = grid;
        grid.push(row);
        proof {
            assert(grid_view(grid)[x as int] =~= rendered(p@.cells, enemy)[x as int]);
            assert forall|a: int| 0 <= a < x implies grid_view(grid)[a] == #[trigger] rendered(
                p@.cells,
                enemy,
            )[a] by {
                assert(grid@[a] == before@[a]);
                assert(grid_view(grid)[a] =~= grid_view(before)[a]);
            }
        }
        x += 1;
    }
    assert(grid_view(grid) =~= rendered(p@.cells, enemy));
    grid
}

/// Fog of war: what the opponent is shown never holds the symbol of an
/// un-hit ship, and is what the owner would see with those ships taken away.
pub proof fn lemma_fog_of_war(cells: Seq<Seq<CellType>>)
    ensures
        forall|x: int, y: int|
            0 <= x < cells.len() && 0 <= y < cells[x].len() ==> #[trigger] rendered(
                cells,
                true,
            )[x][y] != seq!['#'],
        rendered(cells, true) == rendered(concealed(cells), false),
{
    assert forall|x: int, y: int| 0 <= x < cells.len() && 0 <= y < cells[x].len() implies {
        &&& #[trigger] rendered(cells, true)[x][y] != seq!['#']
        &&& rendered(cells, true)[x][y] == rendered(concealed(cells), false)[x][y]
    } by {
        assert(seq!['.'][0] != seq!['#'][0]);
        assert(seq!['x'][0] != seq!['#'][0]);
        assert(seq!['_'][0] != seq!['#'][0]);
    }
    assert(rendered(cells, true) =~~= rendered(concealed(cells), false));
}

} // verus!
