//! The pipeline: buffer to intensity grid to fill and hole grids to outlines
//! or sampled points, and the records that carry the result.
use vstd::prelude::*;
use crate::classify::{fill_grid, fill_grid_of, hole_grid, hole_grid_of};
use crate::grid::{intensity_of, layout_error, sample_channel, GridError};
use crate::sample::{sample_points, sampled_points};
use crate::trace::{trace, traced};

verus! {

/// The outline of the filled region and the outline of the hole region, as
/// SVG path strings.
pub struct World {
    path: String,
    holes: String,
}

impl World {
    pub closed spec fn path_view(&self) -> Seq<char> {
        self.path@
    }

    pub closed spec fn holes_view(&self) -> Seq<char> {
        self.holes@
    }

    pub fn new(path: String, holes: String) -> (w: World)
        ensures
            w.path_view() == path@,
            w.holes_view() == holes@,
    {
        World { path, holes }
    }

    pub fn path(&self) -> (r: String)
        ensures
            r@ == self.path_view(),
    {
        self.path.clone()
    }

    pub fn set_path(&mut self, path: String)
        ensures
            final(self).path_view() == path@,
            final(self).holes_view() == old(self).holes_view(),
    {
        self.path = path;
    }

    pub fn holes(&self) -> (r: String)
        ensures
            r@ == self.holes_view(),
    {
        self.holes.clone()
    }

    pub fn set_holes(&mut self, path: String)
        ensures
            final(self).holes_view() == path@,
            final(self).path_view() == old(self).path_view(),
    {
        self.holes = path;
    }
}

/// The outline of the filled region and the sampled hole points: a flat
/// sequence of `row, column` pairs.
pub struct SampledWorld {
    path: String,
    holes: Vec<u32>,
}

impl SampledWorld {
    pub closed spec fn path_view(&self) -> Seq<char> {
        self.path@
    }

    pub closed spec fn holes_view(&self) -> Seq<u32> {
        self.holes@
    }

    pub fn path(&self) -> (r: String)
        ensures
            r@ == self.path_view(),
    {
        self.path.clone()
    }

    pub fn holes(&self) -> (r: Vec<u32>)
        ensures
            r@ == self.holes_view(),
    {
        self.holes.clone()
    }
}

/// The error for a buffer of `len` bytes declared as `width` by `height`
/// pixels, if any.
pub open spec fn pipeline_error(len: nat, width: nat, height: nat) -> Option<GridError> {
    match layout_error(len, width) {
        Some(e) => Some(e),
        None => if len / 4 / width != height {
            Some(GridError::InvalidBufferLength)
        } else {
            None
        },
    }
}

/// The fill grid of `data` read in rows of `width` pixels.
pub open spec fn fill_of(data: Seq<u8>, width: nat, fill: u8) -> Seq<Seq<i8>> {
    fill_grid_of(intensity_of(data, width), fill)
}

/// The hole grid of `data` read in rows of `width` pixels.
pub open spec fn holes_of(data: Seq<u8>, width: nat, hole: u8) -> Seq<Seq<i8>> {
    hole_grid_of(intensity_of(data, width), hole)
}

/// What the traced pipeline yields: both outlines, or the input error.
pub open spec fn outline_result(
    data: Seq<u8>,
    width: nat,
    height: nat,
    fill: u8,
    hole: u8,
) -> Result<(Seq<char>, Seq<char>), GridError> {
    match pipeline_error(data.len(), width, height) {
        Some(e) => Err(e),
        None => Ok((traced(fill_of(data, width, fill)), traced(holes_of(data, width, hole)))),
    }
}

/// What the sampled pipeline yields: the fill outline and the hole cells
/// met every `stride` rows and columns, or the input error.
pub open spec fn sampled_result(
    data: Seq<u8>,
    width: nat,
    height: nat,
    fill: u8,
    hole: u8,
    stride: nat,
) -> Result<(Seq<char>, Seq<u32>), GridError> {
    match pipeline_error(data.len(), width, height) {
        Some(e) => Err(e),
        None => Ok(
            (
                traced(fill_of(data, width, fill)),
                sampled_points(holes_of(data, width, hole), stride as int, 1),
            ),
        ),
    }
}

/// The outlines a traced run returned, or its error.
pub open spec fn world_view(r: Result<World, GridError>) -> Result<(Seq<char>, Seq<char>), GridError> {
    match r {
        Ok(w) => Ok((w.path_view(), w.holes_view())),
        Err(e) => Err(e),
    }
}

/// The outline and points a sampled run returned, or its error.
pub open spec fn sampled_view(r: Result<SampledWorld, GridError>) -> Result<
    (Seq<char>, Seq<u32>),
    GridError,
> {
    match r {
        Ok(w) => Ok((w.path_view(), w.holes_view())),
        Err(e) => Err(e),
    }
}

proof fn lemma_grids_rectangular(data: Seq<u8>, width: nat, fill: u8, hole: u8)
    requires
        width > 0,
    ensures
        forall|r: int|
            0 <= r < fill_of(data, width, fill).len() ==> (#[trigger] fill_of(
                data,
                width,
                fill,
            )[r]).len() == width,
        forall|r: int|
            0 <= r < holes_of(data, width, hole).len() ==> (#[trigger] holes_of(
                data,
                width,
                hole,
            )[r]).len() == width,
        fill_of(data, width, fill).len() == data.len() / 4 / width,
        holes_of(data, width, hole).len() == data.len() / 4 / width,
{
}

/// Checks the layout, samples the first channel and builds the intensity grid.
fn checked_intensity(data: &[u8], width: usize, height: usize) -> (r: Result<Vec<Vec<u8>>, GridError>)
    ensures
        match pipeline_error(data@.len(), width as nat, height as nat) {
            Some(e) => r == Err::<Vec<Vec<u8>>, GridError>(e),
            None => r is Ok && r->Ok_0.deep_view() == intensity_of(data@, width as nat),
        },
{
    let grid = match sample_channel(data, width) {
        Ok(g) => g,
        Err(e) => return Err(e),
    };
    assert(grid@.len() == grid.deep_view().len());
    if grid.len() != height {
        return Err(GridError::InvalidBufferLength);
    }
    Ok(grid)
}

/// Runs the pipeline in full-resolution mode: the fill grid (intensity at
/// least `fill`) and the hole grid (intensity below `hole`) are both traced.
/// The buffer must hold exactly `width * height` pixels of 4 bytes.
pub fn trace_world(width: usize, height: usize, fill: u8, hole: u8, data: &[u8]) -> (r: Result<
    World,
    GridError,
>)
    ensures
        world_view(r) == outline_result(data@, width as nat, height as nat, fill, hole),
{
    let grid = match checked_intensity(data, width, height) {
        Ok(g) => g,
        Err(e) => return Err(e),
    };
    proof {
        lemma_grids_rectangular(data@, width as nat, fill, hole);
    }
    let fills = fill_grid(&grid, fill);
    let holes = hole_grid(&grid, hole);
    let path = trace(fills);
    let hole_path = trace(holes);
    Ok(World::new(path, hole_path))
}

/// Runs the pipeline in reduced-resolution mode: the fill grid is traced,
/// and the hole grid is visited every `stride` rows and columns, giving the
/// `row, column` pair of each hole cell met.
pub fn sample_world(
    width: usize,
    height: usize,
    fill: u8,
    hole: u8,
    stride: usize,
    data: &[u8],
) -> (r: Result<SampledWorld, GridError>)
    requires
        stride > 0,
        width <= u32::MAX,
        height <= u32::MAX,
    ensures
        sampled_view(r) == sampled_result(
            data@,
            width as nat,
            height as nat,
            fill,
            hole,
            stride as nat,
        ),
{
    let grid = match checked_intensity(data, width, height) {
        Ok(g) => g,
        Err(e) => return Err(e),
    };
    proof {
        lemma_grids_rectangular(data@, width as nat, fill, hole);
    }
    let fills = fill_grid(&grid, fill);
    let holes = hole_grid(&grid, hole);
    let points = sample_points(&holes, stride, 1);
    let path = trace(fills);
    Ok(SampledWorld { path, holes: points })
}

/// The traced pipeline is a pure function: two runs on the same buffer,
/// size and thresholds give the same outlines or the same error.
pub proof fn lemma_trace_world_pure(
    first: Result<World, GridError>,
    second: Result<World, GridError>,
    data: Seq<u8>,
    width: nat,
    height: nat,
    fill: u8,
    hole: u8,
)
    requires
        world_view(first) == outline_result(data, width, height, fill, hole),
        world_view(second) == outline_result(data, width, height, fill, hole),
    ensures
        world_view(first) == world_view(second),
{
}

/// The sampled pipeline is a pure function: two runs on the same buffer,
/// size, thresholds and stride give the same outline and points, or the
/// same error.
pub proof fn lemma_sample_world_pure(
    first: Result<SampledWorld, GridError>,
    second: Result<SampledWorld, GridError>,
    data: Seq<u8>,
    width: nat,
    height: nat,
    fill: u8,
    hole: u8,
    stride: nat,
)
    requires
        sampled_view(first) == sampled_result(data, width, height, fill, hole, stride),
        sampled_view(second) == sampled_result(data, width, height, fill, hole, stride),
    ensures
        sampled_view(first) == sampled_view(second),
{
}

} // verus!
