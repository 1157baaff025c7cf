//! The channel sampler: from an interleaved 4-channel buffer to a row-major
//! grid of the first channel's intensities.
use vstd::prelude::*;
use vstd::arithmetic::div_mod::lemma_fundamental_div_mod;

verus! {

/// Number of bytes per pixel in the interleaved buffer.
pub const CHANNELS: usize = 4;

/// Why a buffer cannot be laid out as a grid.
#[derive(Clone, Copy, Debug, PartialEq, Eq, Structural)]
pub enum GridError {
    /// The buffer length is not a whole number of pixels, or the pixels do
    /// not fill the declared rows exactly.
    InvalidBufferLength,
    /// The declared width is zero.
    InvalidWidth,
}

/// A buffer of `len` bytes holds whole pixels that fill rows of `width` exactly.
pub open spec fn layout_ok(len: nat, width: nat) -> bool {
    &&& width > 0
    &&& len % 4 == 0
    &&& (len / 4) % width == 0
}

/// The first-channel intensities of `data`, cut into rows of `width` cells:
/// cell `(r, c)` is the first byte of pixel `r * width + c`.
pub open spec fn intensity_of(data: Seq<u8>, width: nat) -> Seq<Seq<u8>> {
    Seq::new(
        data.len() / 4 / width,
        |r: int| Seq::new(width, |c: int| data[4 * (r * width + c)]),
    )
}

/// The error that laying `len` bytes out in rows of `width` gives, if any.
pub open spec fn layout_error(len: nat, width: nat) -> Option<GridError> {
    if width == 0 {
        Some(GridError::InvalidWidth)
    } else if !layout_ok(len, width) {
        Some(GridError::InvalidBufferLength)
    } else {
        None
    }
}

/// Samples the first channel of each pixel into a grid with rows of `width`
/// cells. A zero width, a length that is not a whole number of pixels, or
/// pixels that leave the last row short are rejected.
pub fn sample_channel(data: &[u8], width: usize) -> (r: Result<Vec<Vec<u8>>, GridError>)
    ensures
        match layout_error(data@.len(), width as nat) {
            Some(e) => r == Err::<Vec<Vec<u8>>, GridError>(e),
            None => r is Ok && r->Ok_0.deep_view() == intensity_of(data@, width as nat),
        },
{
    if width == 0 {
        return Err(GridError::InvalidWidth);
    }
    if data.len() % CHANNELS != 0 || (data.len() / CHANNELS) % width != 0 {
        return Err(GridError::InvalidBufferLength);
    }
    let pixels: usize = data.len() / CHANNELS;
    let rows: usize = pixels / width;
    proof {
        lemma_fundamental_div_mod(data@.len() as int, 4);
        lemma_fundamental_div_mod(pixels as int, width as int);
    }
    assert(data@.len() == data.len());
    let ghost expected = intensity_of(data@, width as nat);
    let mut grid: Vec<Vec<u8>> = Vec::new();
    let mut p: usize = 0;
    let mut r: usize = 0;
    while r < rows
        invariant
            width > 0,
            rows == pixels / width,
            pixels == data@.len() / 4,
            pixels == rows * width,
            data@.len() == 4 * pixels,
            data@.len() <= usize::MAX,
            r <= rows,
            p == r * width,
            expected == intensity_of(data@, width as nat),
            expected.len() == rows,
            grid.deep_view() == expected.take(r as int),
        decreases rows - r,
    {
        proof {
            assert((r + 1) * width <= rows * width) by (nonlinear_arith)
                requires r + 1 <= rows;
            assert((r + 1) * width == r * width + width) by (nonlinear_arith);
        }
        let mut row: Vec<u8> = Vec::new();
        let mut c: usize = 0;
        while c < width
            invariant
                r < rows,
                p == r * width + c,
                c <= width,
                (r + 1) * width <= rows * width,
                (r + 1) * width == r * width + width,
                pixels == rows * width,
                data@.len() == 4 * pixels,
                data@.len() <= usize::MAX,
                expected == intensity_of(data@, width as nat),
                expected.len() == rows,
                row@ == expected[r as int].take(c as int),
            decreases width - c,
        {
            assert(p < pixels);
            row.push(data[4 * p]);
            p = p + 1;
            c = c + 1;
            assert(row@ =~= expected[r as int].take(c as int));
        }
        assert(row@ =~= expected[r as int]);
        assert(row.deep_view() =~= row@);
        let ghost before = grid.deep_view();
        grid.push(row);
        assert(grid.deep_view() =~= before.push(expected[r as int]));
        r = r + 1;
        assert(grid.deep_view() =~= expected.take(r as int));
    }
    assert(grid.deep_view() =~= expected);
    Ok(grid)
}

} // verus!
