//! Pickups: where the next one may appear.
//!
//! A pickup appears on a cell of the grid that the actor does not occupy,
//! picked at random among all such cells.

use rand::Rng;
use vstd::prelude::*;
use vstd::set_lib::lemma_subset_equality;
use crate::player::{cells_of, outside_grid, Player};

verus! {

/// The cells of column `x` of a grid of side `grid_size`, from the top.
pub open spec fn grid_column(x: int, grid_size: int) -> Seq<(int, int)> {
    Seq::new(
        if grid_size > 0 {
            grid_size as nat
        } else {
            0
        },
        |y: int| (x, y),
    )
}

/// The columns of a grid of side `grid_size`, from the left.
pub open spec fn grid_columns(grid_size: int) -> Seq<Seq<(int, int)>> {
    Seq::new(
        if grid_size > 0 {
            grid_size as nat
        } else {
            0
        },
        |x: int| grid_column(x, grid_size),
    )
}

/// Every cell of a grid of side `grid_size`, column after column.
pub open spec fn grid_cells(grid_size: int) -> Seq<(int, int)> {
    grid_columns(grid_size).flatten()
}

/// The test that tells the cells which `segments` leave free.
pub open spec fn is_free(segments: Seq<(int, int)>) -> spec_fn((int, int)) -> bool {
    |cell: (int, int)| !segments.contains(cell)
}

/// The cells of the grid that `segments` do not occupy, in the order of
/// `grid_cells`.
pub open spec fn free_cells_of(segments: Seq<(int, int)>, grid_size: int) -> Seq<(int, int)> {
    grid_cells(grid_size).filter(is_free(segments))
}

/// The cells of the grid of side `grid_size` that `player` does not occupy.
pub fn free_cells(player: &Player, grid_size: i32) -> (free: Vec<(i32, i32)>)
    ensures
        cells_of(free@) == free_cells_of(player@.segments, grid_size as int),
{
    let mut free: Vec<(i32, i32)> = Vec::new();
    let ghost columns = grid_columns(grid_size as int);
    let ghost test = is_free(player@.segments);
    let mut x: i32 = 0;
    assert(columns.take(0).flatten() =~= Seq::<(int, int)>::empty());
    assert(cells_of(free@) =~= columns.take(0).flatten().filter(test));
    while x < grid_size
        invariant
            0 <= x,
            x <= grid_size || x == 0,
            columns == grid_columns(grid_size as int),
            test == is_free(player@.segments),
            cells_of(free@) == columns.take(x as int).flatten().filter(test),
        decreases grid_size - x,
    {
        let ghost column = columns[x as int];
        let ghost before = columns.take(x as int).flatten();
        let mut y: i32 = 0;
        assert(before + column.take(0) =~= before);
        while y < grid_size
            invariant
                0 <= x < grid_size,
                0 <= y <= grid_size,
                columns == grid_columns(grid_size as int),
                column == columns[x as int],
                before == columns.take(x as int).flatten(),
                test == is_free(player@.segments),
                cells_of(free@) == (before + column.take(y as int)).filter(test),
            decreases grid_size - y,
        {
            let taken = player.collides(x, y);
            proof {
                let so_far = before + column.take(y as int);
                assert(column[y as int] == (x as int, y as int));
                assert(before + column.take(y + 1) =~= so_far.push((x as int, y as int)));
                so_far.lemma_filter_push((x as int, y as int), test);
                assert(test((x as int, y as int)) == !taken);
            }
            if !taken {
                let ghost kept = free@;
                free.push((x, y));
                assert(cells_of(free@) =~= cells_of(kept).push((x as int, y as int)));
            }
            y += 1;
        }
        proof {
            assert(column.take(y as int) =~= column);
            assert(columns.take(x + 1) =~= columns.take(x as int).push(column));
            columns.take(x as int).lemma_flatten_push(column);
        }
        x += 1;
    }
    assert(columns.take(x as int) =~= columns);
    free
}

/// What the first `count` columns of the grid hold: each cell of those
/// columns once, the cell `(x, y)` at the place `x * grid_size + y`.
proof fn lemma_columns(grid_size: int, count: int)
    requires
        0 <= count <= grid_size,
    ensures
        ({
            let cells = grid_columns(grid_size).take(count).flatten();
            &&& cells.len() == count * grid_size
            &&& cells.no_duplicates()
            &&& forall|cell: (int, int)|
                cells.contains(cell) <==> 0 <= cell.0 < count && 0 <= cell.1 < grid_size
            &&& forall|x: int, y: int|
                0 <= x < count && 0 <= y < grid_size ==> 0 <= x * grid_size + y < cells.len()
                    && cells[#[trigger] (x * grid_size + y)] == (x, y)
        }),
    decreases count,
{
    let columns = grid_columns(grid_size);
    let cells = columns.take(count).flatten();
    if count == 0 {
        assert(columns.take(0) =~= Seq::<Seq<(int, int)>>::empty());
        assert(cells =~= Seq::<(int, int)>::empty());
        assert(0 * grid_size == 0) by (nonlinear_arith);
    } else {
        lemma_columns(grid_size, count - 1);
        let before = columns.take(count - 1).flatten();
        let column = columns[count - 1];
        assert(columns.take(count) =~= columns.take(count - 1).push(column));
        columns.take(count - 1).lemma_flatten_push(column);
        assert(cells =~= before + column);
        assert(count * grid_size == (count - 1) * grid_size + grid_size) by (nonlinear_arith);
        assert forall|cell: (int, int)|
            cells.contains(cell) <==> 0 <= cell.0 < count && 0 <= cell.1 < grid_size by {
            if cells.contains(cell) {
                let i = choose|i: int| 0 <= i < cells.len() && cells[i] == cell;
                if i < before.len() {
                    assert(before.contains(cell));
                } else {
                    assert(cell == column[i - before.len()]);
                }
            }
            if 0 <= cell.0 < count && 0 <= cell.1 < grid_size {
                if cell.0 < count - 1 {
                    assert(before.contains(cell));
                    let i = choose|i: int| 0 <= i < before.len() && before[i] == cell;
                    assert(cells[i] == cell);
                } else {
                    assert(column[cell.1] == cell);
                    assert(cells[before.len() + cell.1] == cell);
                }
            }
        }
        assert forall|i: int, j: int| 0 <= i < cells.len() && 0 <= j < cells.len() && i != j implies cells[i]
            != cells[j] by {
            if i < before.len() && j < before.len() {
            } else if i >= before.len() && j >= before.len() {
                assert(cells[i] == column[i - before.len()]);
                assert(cells[j] == column[j - before.len()]);
            } else if i < before.len() {
                assert(before.contains(cells[i]));
                assert(cells[j] == column[j - before.len()]);
            } else {
                assert(before.contains(cells[j]));
                assert(cells[i] == column[i - before.len()]);
            }
        }
        assert forall|x: int, y: int| 0 <= x < count && 0 <= y < grid_size implies 0 <= x
            * grid_size + y < cells.len() && cells[#[trigger] (x * grid_size + y)] == (x, y) by {
            assert(0 <= x * grid_size && x * grid_size + grid_size <= count * grid_size)
                by (nonlinear_arith)
                requires
                    0 <= x < count,
                    0 <= grid_size,
            ;
            if x < count - 1 {
                assert(x * grid_size + grid_size <= (count - 1) * grid_size) by (nonlinear_arith)
                    requires
                        0 <= x < count - 1,
                        0 <= grid_size,
                ;
                assert(before[x * grid_size + y] == (x, y));
            } else {
                assert(column[y] == (x, y));
                assert(cells[before.len() + y] == column[y]);
            }
        }
    }
}

/// The cells of a grid: there are `grid_size` times `grid_size` of them,
/// each cell of the grid comes once, and the cell `(x, y)` stands at the
/// place `x * grid_size + y`.
pub proof fn lemma_grid_cells(grid_size: int)
    ensures
        grid_size >= 0 ==> grid_cells(grid_size).len() == grid_size * grid_size,
        grid_size < 0 ==> grid_cells(grid_size).len() == 0,
        grid_cells(grid_size).no_duplicates(),
        forall|cell: (int, int)|
            grid_cells(grid_size).contains(cell) <==> !outside_grid(cell, grid_size),
        forall|x: int, y: int|
            0 <= x < grid_size && 0 <= y < grid_size ==> 0 <= x * grid_size + y < grid_cells(
                grid_size,
            ).len() && grid_cells(grid_size)[#[trigger] (x * grid_size + y)] == (x, y),
{
    let columns = grid_columns(grid_size);
    if grid_size >= 0 {
        lemma_columns(grid_size, grid_size);
        assert(columns.take(grid_size) =~= columns);
    } else {
        assert(columns =~= Seq::<Seq<(int, int)>>::empty());
        assert(grid_cells(grid_size) =~= Seq::<(int, int)>::empty());
    }
}

/// Filtering a sequence in which nothing comes twice gives one in which
/// nothing comes twice.
proof fn lemma_filter_keeps_distinct(cells: Seq<(int, int)>, test: spec_fn((int, int)) -> bool)
    requires
        cells.no_duplicates(),
    ensures
        cells.filter(test).no_duplicates(),
    decreases cells.len(),
{
    if cells.len() == 0 {
        assert(cells.filter(test).len() <= cells.len()) by {
            cells.lemma_filter_len(test);
        }
    } else {
        let rest = cells.drop_last();
        let last = cells.last();
        lemma_filter_keeps_distinct(rest, test);
        assert(cells =~= rest.push(last));
        rest.lemma_filter_push(last, test);
        if test(last) {
            let kept = rest.filter(test);
            assert forall|i: int| 0 <= i < kept.len() implies kept[i] != last by {
                assert(kept.contains(kept[i]));
                rest.lemma_filter_contains_rev(test, kept[i]);
                let j = choose|j: int| 0 <= j < rest.len() && rest[j] == kept[i];
                assert(cells[j] == kept[i]);
            }
        }
    }
}

/// The free cells are the cells of the grid that no segment lies on, each
/// of them once.
pub proof fn lemma_free_cells(segments: Seq<(int, int)>, grid_size: int)
    ensures
        free_cells_of(segments, grid_size).no_duplicates(),
        forall|cell: (int, int)|
            free_cells_of(segments, grid_size).contains(cell) <==> !outside_grid(cell, grid_size)
                && !segments.contains(cell),
        free_cells_of(segments, grid_size).len() == 0 <==> forall|cell: (int, int)|
            !outside_grid(cell, grid_size) ==> segments.contains(cell),
{
    let all = grid_cells(grid_size);
    let test = is_free(segments);
    let free = free_cells_of(segments, grid_size);
    lemma_grid_cells(grid_size);
    assert forall|cell: (int, int)|
        free.contains(cell) <==> !outside_grid(cell, grid_size) && !segments.contains(cell) by {
        if free.contains(cell) {
            let i = choose|i: int| 0 <= i < free.len() && free[i] == cell;
            all.lemma_filter_pred(test, i);
            all.lemma_filter_contains_rev(test, cell);
        }
        if !outside_grid(cell, grid_size) && !segments.contains(cell) {
            let i = choose|i: int| 0 <= i < all.len() && all[i] == cell;
            all.lemma_filter_contains(test, i);
        }
    }
    lemma_filter_keeps_distinct(all, test);
    if free.len() == 0 {
        assert forall|cell: (int, int)| !outside_grid(cell, grid_size) implies segments.contains(
            cell,
        ) by {
            if !segments.contains(cell) {
                assert(free.contains(cell));
            }
        }
    } else {
        assert(free.contains(free[0]));
    }
}

/// An actor whose segments all lie on the grid, no two on one cell, and
/// which has as many segments as the grid has cells, leaves no cell free.
pub proof fn lemma_full_grid(segments: Seq<(int, int)>, grid_size: int)
    requires
        grid_size >= 0,
        segments.no_duplicates(),
        forall|i: int| 0 <= i < segments.len() ==> !outside_grid(#[trigger] segments[i], grid_size),
        segments.len() == grid_size * grid_size,
    ensures
        forall|cell: (int, int)| !outside_grid(cell, grid_size) ==> segments.contains(cell),
        free_cells_of(segments, grid_size).len() == 0,
{
    let all = grid_cells(grid_size);
    lemma_grid_cells(grid_size);
    segments.unique_seq_to_set();
    all.unique_seq_to_set();
    assert(segments.to_set().subset_of(all.to_set())) by {
        assert forall|cell: (int, int)| segments.to_set().contains(cell) implies all.to_set().contains(
            cell,
        ) by {
            assert(segments.contains(cell));
            let i = choose|i: int| 0 <= i < segments.len() && segments[i] == cell;
            assert(!outside_grid(segments[i], grid_size));
            assert(all.contains(cell));
        }
    }
    lemma_subset_equality(segments.to_set(), all.to_set());
    assert forall|cell: (int, int)| !outside_grid(cell, grid_size) implies segments.contains(
        cell,
    ) by {
        assert(all.contains(cell));
        assert(all.to_set().contains(cell));
        assert(segments.to_set().contains(cell));
    }
    lemma_free_cells(segments, grid_size);
}

/// The `draw`-th of the free cells, if there are that many.
pub fn pick(free: &Vec<(i32, i32)>, draw: usize) -> (cell: Option<(i32, i32)>)
    ensures
        cell == if draw < free@.len() {
            Some(free@[draw as int])
        } else {
            None
        },
{
    if draw < free.len() {
        Some(free[draw])
    } else {
        None
    }
}

/// Draws a number below `bound` by `rand::Rng::random_range` on the range
/// `0..bound`, from the generator of the current thread that `rand::rng`
/// hands out. The range must not be empty, or the call panics; apart from
/// that the call fails only if the system has no randomness to seed the
/// generator with. Nothing is claimed of the number but that it lies in the
/// range: which one comes is up to chance.
#[verifier::external_body]
fn random_index(bound: usize) -> (index: usize)
    requires
        bound > 0,
    ensures
        index < bound,
{
    rand::rng().random_range(0..bound)
}

/// A cell for the next pickup: one of the cells of the grid of side
/// `grid_size` that `player` does not occupy, picked at random, or none when
/// the actor leaves no cell free.
pub fn spawn(player: &Player, grid_size: i32) -> (cell: Option<(i32, i32)>)
    ensures
        cell is None <==> free_cells_of(player@.segments, grid_size as int).len() == 0,
        cell is None <==> forall|at: (int, int)|
            !outside_grid(at, grid_size as int) ==> player@.segments.contains(at),
        cell matches Some(at) ==> free_cells_of(player@.segments, grid_size as int).contains(
            (at.0 as int, at.1 as int),
        ),
        cell matches Some(at) ==> !outside_grid((at.0 as int, at.1 as int), grid_size as int)
            && !player@.segments.contains((at.0 as int, at.1 as int)),
{
    let free = free_cells(player, grid_size);
    proof {
        lemma_free_cells(player@.segments, grid_size as int);
    }
    if free.len() == 0 {
        None
    } else {
        let draw = random_index(free.len());
        let cell = pick(&free, draw);
        assert(cells_of(free@)[draw as int] == (free@[draw as int].0 as int, free@[draw as int].1 as int));
        cell
    }
}

} // verus!
