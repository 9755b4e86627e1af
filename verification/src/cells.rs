//! Counting the cells of the board that satisfy a predicate.

use vstd::prelude::*;
use crate::board::Point2d;

verus! {

/// The `k`-th cell of the board, row by row.
pub open spec fn cell_at(k: int) -> Point2d {
    Point2d { x: (k / 10) as usize, y: (k % 10) as usize }
}

/// The position of `p` in the row-by-row order of the cells.
pub open spec fn cell_index(p: Point2d) -> int {
    10 * p.x + p.y
}

/// Number of cells among the first `n` that satisfy `f`.
pub open spec fn count_cells(f: spec_fn(Point2d) -> bool, n: nat) -> nat
    decreases n,
{
    if n == 0 {
        0
    } else {
        count_cells(f, (n - 1) as nat) + if f(cell_at(n - 1)) {
            1nat
        } else {
            0nat
        }
    }
}

/// Every cell of the board has one index, and every index below 100 one cell.
pub proof fn lemma_cell_index(p: Point2d)
    requires
        p.on_board(),
    ensures
        0 <= cell_index(p) < 100,
        cell_at(cell_index(p)) == p,
        forall|k: int| 0 <= k < 100 && cell_at(k) == p ==> k == cell_index(p),
{
}

/// If `g` holds only where `f` holds, except perhaps at the cell of index
/// `kc`, then `g` counts at most one more cell than `f`.
pub proof fn lemma_count_step(
    f: spec_fn(Point2d) -> bool,
    g: spec_fn(Point2d) -> bool,
    n: nat,
    kc: int,
)
    requires
        forall|k: int| 0 <= k < n && k != kc && g(#[trigger] cell_at(k)) ==> f(cell_at(k)),
    ensures
        count_cells(g, n) <= count_cells(f, n) + if 0 <= kc < n {
            1nat
        } else {
            0nat
        },
    decreases n,
{
    if n > 0 {
        lemma_count_step(f, g, (n - 1) as nat, kc);
        assert(n - 1 != kc && g(cell_at(n - 1)) ==> f(cell_at(n - 1)));
    }
}

/// Predicates that agree on the first `n` cells count the same.
pub proof fn lemma_count_same(f: spec_fn(Point2d) -> bool, g: spec_fn(Point2d) -> bool, n: nat)
    requires
        forall|k: int| 0 <= k < n ==> g(#[trigger] cell_at(k)) == f(cell_at(k)),
    ensures
        count_cells(g, n) == count_cells(f, n),
    decreases n,
{
    if n > 0 {
        lemma_count_same(f, g, (n - 1) as nat);
        assert(g(cell_at(n - 1)) == f(cell_at(n - 1)));
    }
}

/// Predicates that agree on the first `n` cells but for one, which only
/// `f` accepts: `g` counts one less.
pub proof fn lemma_count_drop(
    f: spec_fn(Point2d) -> bool,
    g: spec_fn(Point2d) -> bool,
    n: nat,
    kc: int,
)
    requires
        0 <= kc < n,
        f(cell_at(kc)),
        !g(cell_at(kc)),
        forall|k: int| 0 <= k < n && k != kc ==> g(#[trigger] cell_at(k)) == f(cell_at(k)),
    ensures
        count_cells(g, n) + 1 == count_cells(f, n),
    decreases n,
{
    if n - 1 == kc {
        lemma_count_same(f, g, (n - 1) as nat);
    } else {
        lemma_count_drop(f, g, (n - 1) as nat, kc);
        assert(g(cell_at(n - 1)) == f(cell_at(n - 1)));
    }
}

} // verus!
