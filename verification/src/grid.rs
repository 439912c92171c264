//! The layout of the pixel grid: row-major, the pixel `(x, y)` at index
//! `y * width + x`.

use vstd::prelude::*;

verus! {

/// The number of pixels of a `width` by `height` grid.
pub open spec fn spec_pixel_count(width: u32, height: u32) -> u64 {
    (width * height) as u64
}

/// The number of pixels of a `width` by `height` grid.
#[verifier::when_used_as_spec(spec_pixel_count)]
pub fn pixel_count(width: u32, height: u32) -> (count: u64)
    ensures
        count == spec_pixel_count(width, height),
        count == width * height,
{
    assert(width * height <= 0xffff_ffff * 0xffff_ffff) by (nonlinear_arith)
        requires
            width <= 0xffff_ffff,
            height <= 0xffff_ffff,
    ;
    width as u64 * height as u64
}

/// The index of the pixel `(x, y)` in a grid of the given width.
pub open spec fn index_of(width: u32, x: u32, y: u32) -> int {
    y * width + x
}

/// The coordinates of the pixel with the given index in a grid of the given width.
pub open spec fn coordinates_of(width: u32, index: int) -> (int, int) {
    (index % (width as int), index / (width as int))
}

/// The index of the pixel `(x, y)`, or `None` for coordinates outside the grid.
pub fn pixel_index(width: u32, height: u32, x: u32, y: u32) -> (index: Option<u64>)
    ensures
        index is Some <==> x < width && y < height,
        index matches Some(i) ==> i == index_of(width, x, y) && i < width * height,
{
    if x < width && y < height {
        proof {
            lemma_index_in_range(width, height, x, y);
        }
        assert(y * width <= 0xffff_ffff * 0xffff_ffff) by (nonlinear_arith)
            requires
                y <= 0xffff_ffff,
                width <= 0xffff_ffff,
        ;
        Some(y as u64 * width as u64 + x as u64)
    } else {
        None
    }
}

/// The coordinates of the pixel with the given index, or `None` for an index outside
/// the grid.
pub fn pixel_coordinates(width: u32, height: u32, index: u64) -> (position: Option<(u32, u32)>)
    ensures
        position is Some <==> index < width * height,
        position matches Some((x, y)) ==> {
            &&& x < width
            &&& y < height
            &&& (x as int, y as int) == coordinates_of(width, index as int)
            &&& index_of(width, x, y) == index
        },
{
    if width == 0 {
        assert(width * height == 0) by (nonlinear_arith)
            requires
                width == 0,
        ;
        return None;
    }
    if index >= pixel_count(width, height) {
        return None;
    }
    proof {
        lemma_coordinates_in_range(width, height, index as int);
    }
    let x: u64 = index % width as u64;
    let y: u64 = index / width as u64;
    Some((x as u32, y as u32))
}

/// A pixel inside the grid has an index inside the buffer.
pub proof fn lemma_index_in_range(width: u32, height: u32, x: u32, y: u32)
    requires
        x < width,
        y < height,
    ensures
        0 <= index_of(width, x, y) < width * height,
{
    assert(y * width + x < width * height) by (nonlinear_arith)
        requires
            x < width,
            y < height,
    ;
    assert(0 <= y * width) by (nonlinear_arith);
}

/// An index inside the buffer belongs to a pixel inside the grid, and that pixel has
/// this index.
pub proof fn lemma_coordinates_in_range(width: u32, height: u32, index: int)
    requires
        0 <= index < width * height,
    ensures
        ({
            let (x, y) = coordinates_of(width, index);
            &&& 0 <= x < width
            &&& 0 <= y < height
            &&& y * width + x == index
        }),
{
    let w = width as int;
    assert(w > 0) by (nonlinear_arith)
        requires
            0 <= index < w * height,
    ;
    let x = index % w;
    let y = index / w;
    vstd::arithmetic::div_mod::lemma_fundamental_div_mod(index, w);
    vstd::arithmetic::div_mod::lemma_mod_bound(index, w);
    assert(0 <= y < height) by (nonlinear_arith)
        requires
            index == w * y + x,
            0 <= x < w,
            0 <= index < w * height,
    ;
    assert(y * w == w * y) by (nonlinear_arith);
}

/// Each cell of the buffer belongs to exactly one pixel: taking the index of a
/// pixel's coordinates and the coordinates of that index gives the pixel back.
pub proof fn lemma_index_roundtrip(width: u32, height: u32, x: u32, y: u32)
    requires
        x < width,
        y < height,
    ensures
        coordinates_of(width, index_of(width, x, y)) == (x as int, y as int),
{
    let w = width as int;
    let index = index_of(width, x, y);
    assert(index == w * y + x) by (nonlinear_arith)
        requires
            index == y * w + x,
    ;
    vstd::arithmetic::div_mod::lemma_fundamental_div_mod_converse(index, w, y as int, x as int);
}

/// Two different pixels never share a cell.
pub proof fn lemma_index_injective(width: u32, height: u32, x1: u32, y1: u32, x2: u32, y2: u32)
    requires
        x1 < width,
        y1 < height,
        x2 < width,
        y2 < height,
        index_of(width, x1, y1) == index_of(width, x2, y2),
    ensures
        x1 == x2,
        y1 == y2,
{
    lemma_index_roundtrip(width, height, x1, y1);
    lemma_index_roundtrip(width, height, x2, y2);
}

} // verus!
