//! The geometry of a graph: the size of its image, where each day's cell
//! goes, and what drawing one cell does to the pixels. The arithmetic is
//! stated as the drawing code computes it, in `u32` and `i32`.

use crate::canvas::filled_by;
use crate::canvas::rect_last_fits;
use crate::color::Rgba;
use crate::date::weekday_of;
use crate::date::Date;
use vstd::prelude::*;

verus! {

/// The settings of a graph other than its palette.
pub struct GraphSettings {
    /// The contribution count of each day, keyed by day number.
    pub data: Map<i32, u32>,
    /// The first day shown, where one was set.
    pub start_date: Option<Date>,
    /// The last day shown, where one was set.
    pub end_date: Option<Date>,
    /// The side of a cell, in pixels.
    pub box_size: u32,
    /// The space between cells, in pixels.
    pub gap: u32,
    /// The space around the grid, in pixels.
    pub margin: u32,
    /// The colour of the background and of rounded-off corners.
    pub background_color: Rgba,
    /// Whether cells get rounded corners.
    pub round_corners: bool,
}

/// The settings of a new graph: no data, no dates, cells of 11 pixels with
/// gaps of 3, a margin of 20, a transparent background and rounded corners.
pub open spec fn default_settings() -> GraphSettings {
    GraphSettings {
        data: Map::empty(),
        start_date: None,
        end_date: None,
        box_size: 11,
        gap: 3,
        margin: 20,
        background_color: Rgba([0, 0, 0, 0]),
        round_corners: true,
    }
}

/// Rust's `/` on integers: the quotient rounded toward zero.
pub open spec fn div_toward_zero(a: int, b: int) -> int {
    if a >= 0 {
        a / b
    } else {
        -((-a) / b)
    }
}

/// What `v as u32` gives for an `i32` value `v`.
pub open spec fn i32_as_u32(v: int) -> int {
    if v >= 0 {
        v
    } else {
        v + 0x1_0000_0000
    }
}

/// What `v as i32` gives for a `u32` value `v`.
pub open spec fn u32_as_i32(v: u32) -> int {
    if v <= 0x7fff_ffff {
        v as int
    } else {
        v - 0x1_0000_0000
    }
}

/// Whether `v` is a `u32`.
pub open spec fn fits_u32(v: int) -> bool {
    0 <= v <= u32::MAX
}

/// Whether `v` is an `i32`.
pub open spec fn fits_i32(v: int) -> bool {
    i32::MIN <= v <= i32::MAX
}

/// `v as i32` on a `u32` keeps `v` up to `i32::MAX` and subtracts 2^32 above.
pub proof fn lemma_u32_as_i32(v: u32)
    ensures
        (v as i32) as int == u32_as_i32(v),
{
    assert(v <= 0x7fff_ffff ==> (v as i32) == v) by (bit_vector);
    assert(v > 0x7fff_ffff ==> (v as i32) == v - 0x1_0000_0000) by (bit_vector);
}

/// `v as u32` on an `i32` keeps `v` from 0 up and adds 2^32 below.
pub proof fn lemma_i32_as_u32(v: i32)
    ensures
        (v as u32) as int == i32_as_u32(v as int),
{
    assert(v >= 0 ==> (v as u32) == v) by (bit_vector);
    assert(v < 0 ==> (v as u32) == v + 0x1_0000_0000) by (bit_vector);
}

/// The number of week columns of a graph from day `start` to day `end`:
/// the days shown plus the weekday of the first, rounded up to whole weeks
/// (computed as an `i32`, so rounded toward zero where it is negative).
pub open spec fn week_count(start: int, end: int) -> int {
    div_toward_zero((end - start + 1) + weekday_of(start) + 6, 7)
}

/// The distance from one cell to the next, in pixels.
pub open spec fn cell_step(st: GraphSettings) -> int {
    st.box_size + st.gap
}

/// Whether computing the width and height of the image does not overflow.
pub open spec fn dimensions_fit(st: GraphSettings, start: int, end: int) -> bool {
    let m2 = st.margin * 2;
    let step = cell_step(st);
    let weeks = i32_as_u32(week_count(start, end));
    &&& fits_u32(m2)
    &&& fits_u32(step)
    &&& fits_u32(weeks * step)
    &&& fits_u32(m2 + weeks * step)
    &&& m2 + weeks * step >= st.gap
    &&& fits_u32(7 * step)
    &&& fits_u32(m2 + 7 * step)
    &&& m2 + 7 * step >= st.gap
}

/// The width and height of the image: the margin on both sides, and one
/// cell and one gap per column (or row) less the last gap; seven rows.
pub open spec fn dimensions_of(st: GraphSettings, start: int, end: int) -> (u32, u32) {
    let m2 = st.margin * 2;
    let step = cell_step(st);
    let weeks = i32_as_u32(week_count(start, end));
    ((m2 + weeks * step - st.gap) as u32, (m2 + 7 * step - st.gap) as u32)
}

/// The column of `day` in a graph that starts on day `start`.
pub open spec fn week_of(day: int, start: int) -> int {
    div_toward_zero(day - start + weekday_of(start), 7)
}

/// The distance from one cell to the next as the coordinates are computed:
/// in `i32`, with the cell size and the gap read as `i32`.
pub open spec fn signed_step(st: GraphSettings) -> int {
    u32_as_i32(st.box_size) + u32_as_i32(st.gap)
}

/// Whether computing the coordinates of the cell of `day` does not
/// overflow an `i32`.
pub open spec fn coordinates_fit(st: GraphSettings, day: int, start: int) -> bool {
    let step = signed_step(st);
    let m = u32_as_i32(st.margin);
    &&& fits_i32(step)
    &&& fits_i32(week_of(day, start) * step)
    &&& fits_i32(m + week_of(day, start) * step)
    &&& fits_i32(weekday_of(day) * step)
    &&& fits_i32(m + weekday_of(day) * step)
}

/// The top-left corner of the cell of `day`: its column is its week, its
/// row its weekday (Sunday on top).
pub open spec fn cell_origin(st: GraphSettings, day: int, start: int) -> (int, int) {
    let step = signed_step(st);
    let m = u32_as_i32(st.margin);
    (m + week_of(day, start) * step, m + weekday_of(day) * step)
}

/// Whether a cell at `(x, y)` lies wholly on an image of the given size,
/// and so is drawn.
pub open spec fn cell_on_image(st: GraphSettings, size: (u32, u32), x: int, y: int) -> bool {
    &&& x >= 0
    &&& y >= 0
    &&& x + st.box_size <= size.0
    &&& y + st.box_size <= size.1
}

/// Whether drawing a cell at `(x, y)` does not panic: the bounds check does
/// not overflow, and a cell that is drawn has a positive size and corners
/// whose coordinates are `i32`s.
pub open spec fn cell_fits(st: GraphSettings, size: (u32, u32), x: int, y: int) -> bool {
    let b = st.box_size;
    &&& (x >= 0 && y >= 0) ==> fits_u32(x + b)
    &&& (x >= 0 && y >= 0 && x + b <= size.0) ==> fits_u32(y + b)
    &&& cell_on_image(st, size, x, y) ==> {
        &&& b > 0
        &&& rect_last_fits(0, size.0)
        &&& rect_last_fits(0, size.1)
        &&& rect_last_fits(x, b)
        &&& rect_last_fits(y, b)
    }
}

/// The pixels after a cell of colour `color` is drawn at `(x, y)`: where
/// the cell lies wholly on the image, it is filled, and where corners are
/// rounded and the colour is not transparent, its four corner pixels get
/// the background colour.
pub open spec fn drawn_cell(
    st: GraphSettings,
    pixels: Map<(int, int), Rgba>,
    size: (u32, u32),
    x: int,
    y: int,
    color: Rgba,
) -> Map<(int, int), Rgba> {
    if cell_on_image(st, size, x, y) {
        let b = st.box_size;
        let filled = Map::new(
            |p: (int, int)| pixels.dom().contains(p),
            |p: (int, int)|
                if filled_by(size, x, y, b, b, p) {
                    color
                } else {
                    pixels[p]
                },
        );
        if st.round_corners && color.alpha() > 0 {
            let bg = st.background_color;
            filled.insert((x, y), bg).insert((x + b - 1, y), bg).insert((x, y + b - 1), bg).insert(
                (x + b - 1, y + b - 1),
                bg,
            )
        } else {
            filled
        }
    } else {
        pixels
    }
}

} // verus!
