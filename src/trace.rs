//! Outline tracing of a binary grid, done by the contour_tracing crate.
use vstd::prelude::*;

verus! {

/// The SVG path string that `contour_tracing::array::bits_to_paths` returns
/// for a grid of bits and its `closepaths` flag.
pub uninterp spec fn svg_paths_of(bits: Seq<Seq<i8>>, closepaths: bool) -> Seq<char>;

/// Every row of `g` has as many cells as the first.
pub open spec fn is_rectangular(g: Seq<Seq<i8>>) -> bool {
    forall|r: int| 0 <= r < g.len() ==> (#[trigger] g[r]).len() == g[0].len()
}

/// No cell of `g` is set.
pub open spec fn all_clear(g: Seq<Seq<i8>>) -> bool {
    forall|r: int, c: int| 0 <= r < g.len() && 0 <= c < g[r].len() ==> #[trigger] g[r][c] != 1
}

/// Relies on `contour_tracing::array::bits_to_paths`: its result depends on
/// the bits and the flag alone, and a grid with no cell equal to 1 starts no
/// outline, so the string stays empty. It reads `bits[0]` and walks columns
/// up to `bits[0].len() - 1` in every row, so the grid must have a row, a
/// column, and rows of equal length.
#[verifier::external_body]
fn bits_to_paths(bits: Vec<Vec<i8>>, closepaths: bool) -> (r: String)
    requires
        bits@.len() > 0,
        bits@[0]@.len() > 0,
        is_rectangular(bits.deep_view()),
    ensures
        r@ == svg_paths_of(bits.deep_view(), closepaths),
        all_clear(bits.deep_view()) ==> r@.len() == 0,
{
    contour_tracing::array::bits_to_paths(bits, closepaths)
}

/// The closed outline paths of the set cells of `g`, under the even-odd
/// rule; a grid without cells has no outline.
pub open spec fn traced(g: Seq<Seq<i8>>) -> Seq<char> {
    if g.len() == 0 || g[0].len() == 0 {
        Seq::empty()
    } else {
        svg_paths_of(g, true)
    }
}

/// Traces the set cells of a rectangular binary grid into one SVG path
/// string of closed sub-paths, holes included as nested sub-paths.
pub fn trace(grid: Vec<Vec<i8>>) -> (r: String)
    requires
        is_rectangular(grid.deep_view()),
    ensures
        r@ == traced(grid.deep_view()),
        all_clear(grid.deep_view()) ==> r@.len() == 0,
{
    if grid.len() == 0 || grid[0].len() == 0 {
        return String::new();
    }
    bits_to_paths(grid, true)
}

} // verus!
