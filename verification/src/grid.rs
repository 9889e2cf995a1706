//! The order of the cells of a result: row by row from the top, each row
//! from the left, and a line end after each row.
use crate::ansi::StyledCell;
use vstd::prelude::*;

verus! {

/// Whether `cells` holds `height` rows of `width` cells each and a line end
/// after each row: `cell(x, y)` for column `x` of row `y`, and `end(y)` after
/// row `y`.
pub open spec fn is_rows(
    cells: Seq<StyledCell>,
    width: int,
    height: int,
    cell: spec_fn(int, int) -> StyledCell,
    end: spec_fn(int) -> StyledCell,
) -> bool {
    &&& cells.len() == (width + 1) * height
    &&& forall|x: int, y: int|
        0 <= x < width && 0 <= y < height ==> #[trigger] cells[y * (width + 1) + x] == cell(x, y)
    &&& forall|y: int| 0 <= y < height ==> #[trigger] cells[y * (width + 1) + width] == end(y)
}

/// Whether `cells` holds `height` rows of `width` cells each and a line end
/// after each row, each of them a cell that `cell` and `end` can give for its
/// place.
pub open spec fn is_built<F: Fn(u32, u32) -> StyledCell, G: Fn(u32) -> StyledCell>(
    cells: Seq<StyledCell>,
    width: int,
    height: int,
    cell: F,
    end: G,
) -> bool {
    &&& cells.len() == (width + 1) * height
    &&& forall|x: int, y: int|
        0 <= x < width && 0 <= y < height ==> call_ensures(
            cell,
            (x as u32, y as u32),
            #[trigger] cells[y * (width + 1) + x],
        )
    &&& forall|y: int|
        0 <= y < height ==> call_ensures(
            end,
            (y as u32, ),
            #[trigger] cells[y * (width + 1) + width],
        )
}

/// Place `a` of row `b` lies before the rows from `y` on, where the rows are
/// `w` long.
pub proof fn lemma_grid_index(a: int, b: int, w: int, y: int)
    requires
        0 <= a < w,
        0 <= b < y,
    ensures
        0 <= b * w + a < y * w,
        b * w + w <= y * w,
        y * w == w * y,
{
    assert(y * w == w * y) by (nonlinear_arith);
    assert(b * w + w <= y * w) by (nonlinear_arith)
        requires
            b + 1 <= y,
            0 <= w,
    ;
    assert(0 <= b * w) by (nonlinear_arith)
        requires
            0 <= b,
            0 <= w,
    ;
}

/// The cells of `height` rows of `width` cells each, row by row: `cell` gives
/// the cell for a column and a row, `end` the line end after a row.
pub fn build<F: Fn(u32, u32) -> StyledCell, G: Fn(u32) -> StyledCell>(
    width: u32,
    height: u32,
    cell: F,
    end: G,
) -> (r: Vec<StyledCell>)
    requires
        forall|x: u32, y: u32| x < width && y < height ==> call_requires(cell, (x, y)),
        forall|y: u32| y < height ==> call_requires(end, (y, )),
    ensures
        is_built(r@, width as int, height as int, cell, end),
{
    let mut data: Vec<StyledCell> = Vec::new();
    let mut y: u32 = 0;
    let ghost w = width as int + 1;
    while y < height
        invariant
            y <= height,
            w == width + 1,
            forall|x: u32, y: u32| x < width && y < height ==> call_requires(cell, (x, y)),
            forall|y: u32| y < height ==> call_requires(end, (y, )),
            data@.len() == y * w,
            forall|a: int, b: int|
                0 <= a < width && 0 <= b < y ==> call_ensures(
                    cell,
                    (a as u32, b as u32),
                    #[trigger] data@[b * w + a],
                ),
            forall|b: int|
                0 <= b < y ==> call_ensures(end, (b as u32, ), #[trigger] data@[b * w + width]),
        decreases height - y,
    {
        let mut x: u32 = 0;
        while x < width
            invariant
                y < height,
                x <= width,
                w == width + 1,
                forall|x: u32, y: u32| x < width && y < height ==> call_requires(cell, (x, y)),
                data@.len() == y * w + x,
                forall|a: int, b: int|
                    0 <= a < width && 0 <= b < y ==> call_ensures(
                        cell,
                        (a as u32, b as u32),
                        #[trigger] data@[b * w + a],
                    ),
                forall|b: int|
                    0 <= b < y ==> call_ensures(
                        end,
                        (b as u32, ),
                        #[trigger] data@[b * w + width],
                    ),
                forall|a: int|
                    0 <= a < x ==> call_ensures(cell, (a as u32, y), #[trigger] data@[y * w + a]),
            decreases width - x,
        {
            let c = cell(x, y);
            let ghost before = data@;
            data.push(c);
            proof {
                assert forall|a: int, b: int| 0 <= a < width && 0 <= b < y implies call_ensures(
                    cell,
                    (a as u32, b as u32),
                    #[trigger] data@[b * w + a],
                ) by {
                    lemma_grid_index(a, b, w, y as int);
                    assert(data@[b * w + a] == before[b * w + a]);
                }
                assert forall|b: int| 0 <= b < y implies call_ensures(
                    end,
                    (b as u32, ),
                    #[trigger] data@[b * w + width],
                ) by {
                    lemma_grid_index(width as int, b, w, y as int);
                    assert(data@[b * w + width] == before[b * w + width]);
                }
                assert forall|a: int| 0 <= a < x + 1 implies call_ensures(
                    cell,
                    (a as u32, y),
                    #[trigger] data@[y * w + a],
                ) by {
                    if a < x {
                        assert(data@[y * w + a] == before[y * w + a]);
                    }
                }
            }
            x += 1;
        }
        let e = end(y);
        let ghost before = data@;
        data.push(e);
        proof {
            assert((y + 1) * w == y * w + w) by (nonlinear_arith);
            assert forall|a: int, b: int| 0 <= a < width && 0 <= b < y + 1 implies call_ensures(
                cell,
                (a as u32, b as u32),
                #[trigger] data@[b * w + a],
            ) by {
                if b < y {
                    lemma_grid_index(a, b, w, y as int);
                }
                assert(data@[b * w + a] == before[b * w + a]);
            }
            assert forall|b: int| 0 <= b < y + 1 implies call_ensures(
                end,
                (b as u32, ),
                #[trigger] data@[b * w + width],
            ) by {
                if b < y {
                    lemma_grid_index(width as int, b, w, y as int);
                    assert(data@[b * w + width] == before[b * w + width]);
                }
            }
        }
        y += 1;
    }
    proof {
        assert(height * w == (width + 1) * height) by (nonlinear_arith)
            requires
                w == width + 1,
        ;
    }
    data
}

} // verus!
