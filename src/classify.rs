//! The dual-threshold classifier: two independent binary views of one
//! intensity grid.
use vstd::prelude::*;

verus! {

/// A fill cell is set when its intensity reaches the threshold.
pub open spec fn fill_cell(v: u8, threshold: u8) -> i8 {
    if v >= threshold { 1 } else { 0 }
}

/// A hole cell is set when its intensity stays below the threshold.
pub open spec fn hole_cell(v: u8, threshold: u8) -> i8 {
    if v < threshold { 1 } else { 0 }
}

/// The fill mark when `fill` holds, else the hole mark.
pub open spec fn mark_cell(v: u8, threshold: u8, fill: bool) -> i8 {
    if fill { fill_cell(v, threshold) } else { hole_cell(v, threshold) }
}

/// The grid marking each cell of `g` that reaches `threshold`.
pub open spec fn fill_grid_of(g: Seq<Seq<u8>>, threshold: u8) -> Seq<Seq<i8>> {
    g.map_values(|row: Seq<u8>| row.map_values(|v: u8| fill_cell(v, threshold)))
}

/// The grid marking each cell of `g` that stays below `threshold`.
pub open spec fn hole_grid_of(g: Seq<Seq<u8>>, threshold: u8) -> Seq<Seq<i8>> {
    g.map_values(|row: Seq<u8>| row.map_values(|v: u8| hole_cell(v, threshold)))
}

/// Every cell of `g` is 0 or 1.
pub open spec fn is_binary(g: Seq<Seq<i8>>) -> bool {
    forall|r: int, c: int| 0 <= r < g.len() && 0 <= c < g[r].len() ==> (#[trigger] g[r][c] == 0 || g[r][c] == 1)
}

fn mark_row(row: &Vec<u8>, threshold: u8, fill: bool) -> (out: Vec<i8>)
    ensures
        out@ == row@.map_values(|v: u8| mark_cell(v, threshold, fill)),
{
    let mut out: Vec<i8> = Vec::new();
    let mut c: usize = 0;
    while c < row.len()
        invariant
            c <= row@.len(),
            out@ == row@.take(c as int).map_values(|v: u8| mark_cell(v, threshold, fill)),
        decreases row@.len() - c,
    {
        let v = row[c];
        let bit: i8 = if fill {
            if v >= threshold { 1 } else { 0 }
        } else {
            if v < threshold { 1 } else { 0 }
        };
        out.push(bit);
        c = c + 1;
        assert(out@ =~= row@.take(c as int).map_values(|v: u8| mark_cell(v, threshold, fill)));
    }
    assert(row@.take(c as int) =~= row@);
    out
}

fn mark_grid(grid: &Vec<Vec<u8>>, threshold: u8, fill: bool) -> (out: Vec<Vec<i8>>)
    ensures
        out.deep_view() == grid.deep_view().map_values(
            |row: Seq<u8>| row.map_values(|v: u8| mark_cell(v, threshold, fill)),
        ),
{
    let ghost g = grid.deep_view();
    let ghost expected = g.map_values(
        |row: Seq<u8>| row.map_values(|v: u8| mark_cell(v, threshold, fill)),
    );
    let mut out: Vec<Vec<i8>> = Vec::new();
    let mut r: usize = 0;
    while r < grid.len()
        invariant
            r <= grid@.len(),
            g == grid.deep_view(),
            g.len() == grid@.len(),
            expected == g.map_values(
                |row: Seq<u8>| row.map_values(|v: u8| mark_cell(v, threshold, fill)),
            ),
            out.deep_view() == expected.take(r as int),
        decreases grid@.len() - r,
    {
        assert(grid[r as int].deep_view() =~= grid[r as int]@);
        let row = mark_row(&grid[r], threshold, fill);
        assert(row.deep_view() =~= row@);
        let ghost before = out.deep_view();
        out.push(row);
        assert(out.deep_view() =~= before.push(expected[r as int]));
        r = r + 1;
        assert(out.deep_view() =~= expected.take(r as int));
    }
    assert(out.deep_view() =~= expected);
    out
}

/// The fill grid: 1 where the intensity is at least `threshold`, else 0.
pub fn fill_grid(grid: &Vec<Vec<u8>>, threshold: u8) -> (out: Vec<Vec<i8>>)
    ensures
        out.deep_view() == fill_grid_of(grid.deep_view(), threshold),
{
    let out = mark_grid(grid, threshold, true);
    assert(out.deep_view() =~~= fill_grid_of(grid.deep_view(), threshold));
    out
}

/// The hole grid: 1 where the intensity is below `threshold`, else 0.
pub fn hole_grid(grid: &Vec<Vec<u8>>, threshold: u8) -> (out: Vec<Vec<i8>>)
    ensures
        out.deep_view() == hole_grid_of(grid.deep_view(), threshold),
{
    let out = mark_grid(grid, threshold, false);
    assert(out.deep_view() =~~= hole_grid_of(grid.deep_view(), threshold));
    out
}

} // verus!
