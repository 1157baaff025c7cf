//! The stride sampler: a reduced-resolution list of the cells of a binary
//! grid that hold a given marker.
use vstd::prelude::*;
use vstd::arithmetic::div_mod::{lemma_basic_div, lemma_hoist_over_denominator};

verus! {

/// `ceil(n / s)`: how many of the indices `0, s, 2s, ...` lie below `n`.
pub open spec fn ceil_div(n: int, s: int) -> int {
    (n + s - 1) / s
}

/// The coordinate pairs `(r, c)` of the cells of `row` at columns
/// `c, c + stride, c + 2 * stride, ...` that hold `marker`, in order.
pub open spec fn row_points(row: Seq<i8>, r: int, stride: int, marker: i8, c: int) -> Seq<u32>
    decreases if c < row.len() { row.len() - c } else { 0 },
{
    if stride <= 0 || c < 0 || c >= row.len() {
        seq![]
    } else {
        (if row[c] == marker { seq![r as u32, c as u32] } else { seq![] }) + row_points(
            row,
            r,
            stride,
            marker,
            c + stride,
        )
    }
}

/// The coordinate pairs of the marked cells among rows `r, r + stride, ...`,
/// each row visited at columns `0, stride, 2 * stride, ...`.
pub open spec fn grid_points(g: Seq<Seq<i8>>, stride: int, marker: i8, r: int) -> Seq<u32>
    decreases if r < g.len() { g.len() - r } else { 0 },
{
    if stride <= 0 || r < 0 || r >= g.len() {
        seq![]
    } else {
        row_points(g[r], r, stride, marker, 0) + grid_points(g, stride, marker, r + stride)
    }
}

/// The flat sequence `r0, c0, r1, c1, ...` of the visited cells of `g` that
/// hold `marker`, row by row.
pub open spec fn sampled_points(g: Seq<Seq<i8>>, stride: int, marker: i8) -> Seq<u32> {
    grid_points(g, stride, marker, 0)
}

/// Every row index and column index of `g` fits a `u32` coordinate.
pub open spec fn fits_u32(g: Seq<Seq<i8>>) -> bool {
    &&& g.len() <= u32::MAX
    &&& forall|r: int| 0 <= r < g.len() ==> (#[trigger] g[r]).len() <= u32::MAX
}

/// Visits rows `0, stride, 2 * stride, ...` and, in each, columns
/// `0, stride, 2 * stride, ...`, and emits `row, column` for each visited cell
/// equal to `marker`.
pub fn sample_points(grid: &Vec<Vec<i8>>, stride: usize, marker: i8) -> (out: Vec<u32>)
    requires
        stride > 0,
        fits_u32(grid.deep_view()),
    ensures
        out@ == sampled_points(grid.deep_view(), stride as int, marker),
{
    let ghost g = grid.deep_view();
    let mut out: Vec<u32> = Vec::new();
    let mut r: usize = 0;
    while r < grid.len()
        invariant
            stride > 0,
            g == grid.deep_view(),
            g.len() == grid@.len(),
            fits_u32(g),
            r <= grid@.len(),
            out@ + grid_points(g, stride as int, marker, r as int) == sampled_points(
                g,
                stride as int,
                marker,
            ),
        decreases grid@.len() - r,
    {
        let row = &grid[r];
        assert(row@ == g[r as int]);
        let ghost start = out@;
        let mut c: usize = 0;
        while c < row.len()
            invariant
                stride > 0,
                r < g.len(),
                row@ == g[r as int],
                row@.len() <= u32::MAX,
                g.len() <= u32::MAX,
                c <= row@.len(),
                out@ + row_points(row@, r as int, stride as int, marker, c as int) == start
                    + row_points(row@, r as int, stride as int, marker, 0),
            decreases row@.len() - c,
        {
            let ghost before = out@;
            if row[c] == marker {
                out.push(r as u32);
                out.push(c as u32);
            }
            let ghost step: Seq<u32> = if row@[c as int] == marker {
                seq![r as u32, c as u32]
            } else {
                seq![]
            };
            assert(out@ =~= before + step);
            let ghost rest = row_points(row@, r as int, stride as int, marker, c as int + stride);
            assert(before + (step + rest) =~= (before + step) + rest);
            c = if row.len() - c > stride { c + stride } else { row.len() };
        }
        assert(out@ =~= start + row_points(row@, r as int, stride as int, marker, 0));
        let ghost rest = grid_points(g, stride as int, marker, r as int + stride);
        assert(start + (row_points(row@, r as int, stride as int, marker, 0) + rest) =~= out@
            + rest);
        r = if grid.len() - r > stride { r + stride } else { grid.len() };
    }
    assert(out@ + grid_points(g, stride as int, marker, r as int) =~= out@);
    out
}

proof fn lemma_ceil_step(n: int, s: int)
    requires
        s > 0,
        n > 0,
    ensures
        ceil_div(n, s) == 1 + ceil_div(if n > s { n - s } else { 0 }, s),
{
    lemma_hoist_over_denominator(n - 1, 1, s as nat);
    lemma_basic_div(s - 1, s);
    if n <= s {
        lemma_basic_div(n - 1, s);
    }
}

proof fn lemma_ceil_nonneg(n: int, s: int)
    requires
        s > 0,
        n >= 0,
    ensures
        ceil_div(n, s) >= 0,
{
    vstd::arithmetic::div_mod::lemma_div_pos_is_pos(n + s - 1, s);
}

proof fn lemma_row_points_len(row: Seq<i8>, r: int, s: int, m: i8, c: int)
    requires
        s > 0,
        c >= 0,
    ensures
        row_points(row, r, s, m, c).len() <= 2 * ceil_div(
            if c < row.len() { row.len() - c } else { 0 },
            s,
        ),
        (forall|i: int| 0 <= i < row.len() ==> row[i] == m) ==> row_points(row, r, s, m, c).len()
            == 2 * ceil_div(if c < row.len() { row.len() - c } else { 0 }, s),
        (forall|i: int| 0 <= i < row.len() ==> row[i] != m) ==> row_points(row, r, s, m, c).len()
            == 0,
    decreases if c < row.len() { row.len() - c } else { 0 },
{
    lemma_basic_div(s - 1, s);
    if c < row.len() {
        lemma_row_points_len(row, r, s, m, c + s);
        lemma_ceil_step(row.len() - c, s);
    }
}

proof fn lemma_grid_points_len(g: Seq<Seq<i8>>, s: int, m: i8, w: int, r: int)
    requires
        s > 0,
        r >= 0,
        w >= 0,
        forall|i: int| 0 <= i < g.len() ==> (#[trigger] g[i]).len() == w,
    ensures
        grid_points(g, s, m, r).len() <= 2 * ceil_div(if r < g.len() { g.len() - r } else { 0 }, s)
            * ceil_div(w, s),
        (forall|i: int, j: int| 0 <= i < g.len() && 0 <= j < w ==> #[trigger] g[i][j] == m)
            ==> grid_points(g, s, m, r).len() == 2 * ceil_div(
            if r < g.len() { g.len() - r } else { 0 },
            s,
        ) * ceil_div(w, s),
        (forall|i: int, j: int| 0 <= i < g.len() && 0 <= j < w ==> #[trigger] g[i][j] != m)
            ==> grid_points(g, s, m, r).len() == 0,
    decreases if r < g.len() { g.len() - r } else { 0 },
{
    lemma_basic_div(s - 1, s);
    lemma_ceil_nonneg(w, s);
    if r < g.len() {
        let h = g.len() - r;
        let rest = if h > s { h - s } else { 0 };
        lemma_grid_points_len(g, s, m, w, r + s);
        if forall|i: int, j: int| 0 <= i < g.len() && 0 <= j < w ==> #[trigger] g[i][j] == m {
            assert(forall|j: int| 0 <= j < g[r].len() ==> g[r][j] == m);
        }
        if forall|i: int, j: int| 0 <= i < g.len() && 0 <= j < w ==> #[trigger] g[i][j] != m {
            assert(forall|j: int| 0 <= j < g[r].len() ==> g[r][j] != m);
        }
        lemma_row_points_len(g[r], r, s, m, 0);
        lemma_ceil_step(h, s);
        lemma_ceil_nonneg(rest, s);
        let cw = ceil_div(w, s);
        let ch = ceil_div(h, s);
        let cr = ceil_div(rest, s);
        assert(2 * ch * cw == 2 * cw + 2 * cr * cw) by (nonlinear_arith)
            requires ch == 1 + cr;
        assert(2 * cr * cw >= 0) by (nonlinear_arith)
            requires cr >= 0, cw >= 0;
    } else {
        let z = ceil_div(0, s);
        let cw = ceil_div(w, s);
        assert(2 * z * cw == 0) by (nonlinear_arith)
            requires z == 0;
    }
}

/// Stride sampling of an `h x w` grid emits at most two values for each of
/// the `ceil(h / s) * ceil(w / s)` visited cells: exactly that many when every
/// cell holds the marker, and none when no cell does.
pub proof fn lemma_sample_count(g: Seq<Seq<i8>>, s: int, m: i8, w: int)
    requires
        s > 0,
        w >= 0,
        forall|i: int| 0 <= i < g.len() ==> (#[trigger] g[i]).len() == w,
    ensures
        sampled_points(g, s, m).len() <= 2 * ceil_div(g.len() as int, s) * ceil_div(w, s),
        (forall|i: int, j: int| 0 <= i < g.len() && 0 <= j < w ==> #[trigger] g[i][j] == m)
            ==> sampled_points(g, s, m).len() == 2 * ceil_div(g.len() as int, s) * ceil_div(w, s),
        (forall|i: int, j: int| 0 <= i < g.len() && 0 <= j < w ==> #[trigger] g[i][j] != m)
            ==> sampled_points(g, s, m).len() == 0,
{
    lemma_grid_points_len(g, s, m, w, 0);
    lemma_basic_div(s - 1, s);
}

} // verus!
