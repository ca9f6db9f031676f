//! What a drawn graph looks like: every day shown gets a cell of its own on
//! the image, no two cells share a pixel, and each pixel of the image shows
//! the colour of the cell it lies in, or the background.

use crate::canvas::canvas_pixels;
use crate::canvas::canvas_size;
use crate::canvas::filled_by;
use crate::canvas::Canvas;
use crate::canvas::on_image;
use crate::color::Rgba;
use crate::date::weekday_of;
use crate::date::civil_day_number;
use crate::graph::first_day_of;
use crate::graph::last_day_of;
use crate::graph::max_count_of;
use crate::graph::ContributionGraph;
use crate::layout::cell_on_image;
use crate::layout::cell_origin;
use crate::layout::coordinates_fit;
use crate::layout::default_settings;
use crate::layout::dimensions_fit;
use crate::layout::dimensions_of;
use crate::layout::lemma_u32_as_i32;
use crate::layout::signed_step;
use crate::layout::week_of;
use crate::layout::GraphSettings;
use crate::palette::MappingStrategy;
use vstd::prelude::*;

verus! {

/// Whether pixel `p` lies in the cell whose top-left corner is `o`.
pub open spec fn in_cell(st: GraphSettings, o: (int, int), p: (int, int)) -> bool {
    &&& o.0 <= p.0 < o.0 + st.box_size
    &&& o.1 <= p.1 < o.1 + st.box_size
}

/// Whether pixel `p` is one of the four corner pixels of the cell at `o`.
pub open spec fn is_corner(st: GraphSettings, o: (int, int), p: (int, int)) -> bool {
    &&& (p.0 == o.0 || p.0 == o.0 + st.box_size - 1)
    &&& (p.1 == o.1 || p.1 == o.1 + st.box_size - 1)
}

/// The colour that pixel `p` of a cell of colour `color` at `o` shows: the
/// background at a rounded-off corner, the cell's colour elsewhere.
pub open spec fn cell_pixel(st: GraphSettings, o: (int, int), color: Rgba, p: (int, int)) -> Rgba {
    if st.round_corners && color.alpha() > 0 && is_corner(st, o, p) {
        st.background_color
    } else {
        color
    }
}

/// Whether the cell size and the gap are read as the same numbers when the
/// coordinates are computed in `i32`.
pub open spec fn sizes_are_small(st: GraphSettings) -> bool {
    st.box_size <= i32::MAX && st.gap <= i32::MAX
}

proof fn lemma_step_monotone(a: int, b: int, step: int)
    requires
        0 <= a <= b,
        step >= 0,
    ensures
        a * step <= b * step,
{
    assert(a * step <= b * step) by (nonlinear_arith)
        requires
            0 <= a <= b,
            step >= 0,
    ;
}

/// Where the coordinates can be computed and the image size too, every day
/// from `start` to `end` gets a cell that lies wholly on the image, and so
/// is drawn; the cell size and the gap must be read as themselves in `i32`.
pub proof fn lemma_cells_lie_on_image(st: GraphSettings, start: int, end: int, day: int)
    requires
        start <= day <= end,
        dimensions_fit(st, start, end),
        coordinates_fit(st, day, start),
        sizes_are_small(st),
    ensures
        cell_on_image(
            st,
            dimensions_of(st, start, end),
            cell_origin(st, day, start).0,
            cell_origin(st, day, start).1,
        ),
{
    lemma_u32_as_i32(st.margin);
    lemma_u32_as_i32(st.box_size);
    lemma_u32_as_i32(st.gap);
    let step = signed_step(st);
    let a = day - start + weekday_of(start);
    let b = (end - start + 1) + weekday_of(start) + 6;
    let week = a / 7;
    let weeks = b / 7;
    assert(week + 1 <= weeks);
    lemma_step_monotone(week + 1, weeks, step);
    lemma_step_monotone(0, week, step);
    let wd = weekday_of(day);
    lemma_step_monotone(wd + 1, 7, step);
    lemma_step_monotone(0, wd, step);
    assert((week + 1) * step == week * step + step) by (nonlinear_arith);
    assert((wd + 1) * step == wd * step + step) by (nonlinear_arith);
}

/// The cells of two different days, both from `start` on, share no pixel,
/// where the cell size and the gap are read as themselves in `i32`.
pub proof fn lemma_cells_do_not_overlap(st: GraphSettings, start: int, d1: int, d2: int, p: (int, int))
    requires
        start <= d1,
        start <= d2,
        d1 != d2,
        sizes_are_small(st),
    ensures
        !(in_cell(st, cell_origin(st, d1, start), p) && in_cell(st, cell_origin(st, d2, start), p)),
{
    lemma_u32_as_i32(st.box_size);
    lemma_u32_as_i32(st.gap);
    let step = signed_step(st);
    let s7 = weekday_of(start);
    let a1 = d1 - start + s7;
    let a2 = d2 - start + s7;
    let w1 = week_of(d1, start);
    let w2 = week_of(d2, start);
    assert(a1 % 7 == weekday_of(d1));
    assert(a2 % 7 == weekday_of(d2));
    if w1 != w2 {
        if w1 < w2 {
            lemma_step_monotone(w1 + 1, w2, step);
            assert((w1 + 1) * step == w1 * step + step) by (nonlinear_arith);
        } else {
            lemma_step_monotone(w2 + 1, w1, step);
            assert((w2 + 1) * step == w2 * step + step) by (nonlinear_arith);
        }
    } else {
        let r1 = weekday_of(d1);
        let r2 = weekday_of(d2);
        if r1 < r2 {
            lemma_step_monotone(r1 + 1, r2, step);
            assert((r1 + 1) * step == r1 * step + step) by (nonlinear_arith);
        } else {
            lemma_step_monotone(r2 + 1, r1, step);
            assert((r2 + 1) * step == r2 * step + step) by (nonlinear_arith);
        }
    }
}

/// On an image whose sides are at most `i32::MAX`, filling a cell that lies
/// on the image covers exactly the pixels of the cell.
pub proof fn lemma_fill_covers_cell(st: GraphSettings, size: (u32, u32), o: (int, int), p: (int, int))
    requires
        cell_on_image(st, size, o.0, o.1),
        on_image(size, p),
        size.0 <= i32::MAX,
        size.1 <= i32::MAX,
        sizes_are_small(st),
    ensures
        filled_by(size, o.0, o.1, st.box_size, st.box_size, p) == in_cell(st, o, p),
{
    lemma_u32_as_i32(st.box_size);
    lemma_u32_as_i32(size.0);
    lemma_u32_as_i32(size.1);
}

/// Whether both sides of an image of the given size are at most `i32::MAX`.
pub open spec fn sides_fit_i32(size: (u32, u32)) -> bool {
    size.0 <= i32::MAX && size.1 <= i32::MAX
}

proof fn lemma_painted_through<S: MappingStrategy>(
    g: ContributionGraph<S>,
    start: int,
    end: int,
    k: int,
    p: (int, int),
)
    requires
        g.renders(start, end),
        sizes_are_small(g.settings()),
        sides_fit_i32(dimensions_of(g.settings(), start, end)),
        on_image(dimensions_of(g.settings(), start, end), p),
        start <= k <= end + 1,
    ensures
        g.painted(start, k, dimensions_of(g.settings(), start, end)).dom().contains(p),
        forall|d: int|
            start <= d < k && #[trigger] in_cell(g.settings(), cell_origin(g.settings(), d, start), p)
                ==> g.painted(start, k, dimensions_of(g.settings(), start, end))[p] == cell_pixel(
                g.settings(),
                cell_origin(g.settings(), d, start),
                g.color_on(d),
                p,
            ),
    decreases k - start,
{
    let st = g.settings();
    let size = dimensions_of(st, start, end);
    if k > start {
        lemma_painted_through(g, start, end, k - 1, p);
        let d = k - 1;
        assert(g.day_fits(d, start, size));
        let o = cell_origin(st, d, start);
        lemma_cells_lie_on_image(st, start, end, d);
        lemma_fill_covers_cell(st, size, o, p);
        if in_cell(st, o, p) {
            assert forall|e: int|
                start <= e < k && #[trigger] in_cell(st, cell_origin(st, e, start), p) implies g.painted(
                start,
                k,
                size,
            )[p] == cell_pixel(st, cell_origin(st, e, start), g.color_on(e), p) by {
                if e != d {
                    lemma_cells_do_not_overlap(st, start, e, d, p);
                }
            }
        }
    }
}

proof fn lemma_untouched_through<S: MappingStrategy>(
    g: ContributionGraph<S>,
    start: int,
    end: int,
    k: int,
    p: (int, int),
)
    requires
        g.renders(start, end),
        on_image(dimensions_of(g.settings(), start, end), p),
        start <= k <= end + 1,
        forall|d: int|
            start <= d < k ==> !#[trigger] in_cell(g.settings(), cell_origin(g.settings(), d, start), p),
    ensures
        g.painted(start, k, dimensions_of(g.settings(), start, end)).dom().contains(p),
        g.painted(start, k, dimensions_of(g.settings(), start, end))[p]
            == g.settings().background_color,
    decreases k - start,
{
    let st = g.settings();
    let size = dimensions_of(st, start, end);
    if k > start {
        let d = k - 1;
        lemma_untouched_through(g, start, end, d, p);
        assert(g.day_fits(d, start, size));
        assert(!in_cell(st, cell_origin(st, d, start), p));
        lemma_u32_as_i32(st.box_size);
    }
}

/// The image that drawing a graph gives, for each pixel in no day's cell:
/// it shows the background. This holds wherever drawing does not panic,
/// whatever the sizes.
pub proof fn lemma_background_outside_cells<S: MappingStrategy>(
    g: ContributionGraph<S>,
    start: int,
    end: int,
    p: (int, int),
)
    requires
        g.renders(start, end),
        on_image(dimensions_of(g.settings(), start, end), p),
        forall|d: int|
            start <= d <= end ==> !#[trigger] in_cell(g.settings(), cell_origin(g.settings(), d, start), p),
    ensures
        g.painted(start, end + 1, dimensions_of(g.settings(), start, end))[p]
            == g.settings().background_color,
{
    if start <= end {
        lemma_untouched_through(g, start, end, end + 1, p);
    }
}

/// The image that drawing a graph gives, for each pixel lying in the cell
/// of a day: it shows that day's colour (or the background at a rounded-off
/// corner). This holds where drawing does not panic, the cell size and the
/// gap are read as themselves in `i32` and the image's sides are at most
/// `i32::MAX` (on a wider image `draw_filled_rect_mut` fills nothing).
pub proof fn lemma_image_shows_each_day<S: MappingStrategy>(
    g: ContributionGraph<S>,
    start: int,
    end: int,
    p: (int, int),
)
    requires
        g.renders(start, end),
        sizes_are_small(g.settings()),
        sides_fit_i32(dimensions_of(g.settings(), start, end)),
        on_image(dimensions_of(g.settings(), start, end), p),
    ensures
        forall|d: int|
            start <= d <= end && #[trigger] in_cell(g.settings(), cell_origin(g.settings(), d, start), p)
                ==> g.painted(start, end + 1, dimensions_of(g.settings(), start, end))[p]
                == cell_pixel(
                g.settings(),
                cell_origin(g.settings(), d, start),
                g.color_on(d),
                p,
            ),
{
    if start <= end {
        lemma_painted_through(g, start, end, end + 1, p);
    }
}


/// The painting of two graphs with the same settings and a palette of the
/// same colours and strategy is the same, day by day.
proof fn lemma_same_painting<S: MappingStrategy>(
    a: ContributionGraph<S>,
    b: ContributionGraph<S>,
    start: int,
    upto: int,
    size: (u32, u32),
)
    requires
        a.settings() == b.settings(),
        a.palette().colors() == b.palette().colors(),
        a.palette().strategy() == b.palette().strategy(),
    ensures
        a.painted(start, upto, size) == b.painted(start, upto, size),
    decreases upto - start,
{
    if upto > start {
        lemma_same_painting(a, b, start, upto - 1, size);
        assert(a.color_on(upto - 1) == b.color_on(upto - 1));
    }
}

/// Two graphs with the same settings and a palette of the same colours and
/// strategy look the same: they show the same date range in every year, and
/// over every range they give the same image, or both give none. How the
/// graphs were built (in which order the settings were set, or whether a
/// setting was set to the value it had) does not matter.
pub proof fn lemma_same_settings_same_graph<S: MappingStrategy>(
    a: ContributionGraph<S>,
    b: ContributionGraph<S>,
)
    requires
        a.settings() == b.settings(),
        a.palette().colors() == b.palette().colors(),
        a.palette().strategy() == b.palette().strategy(),
    ensures
        forall|year: int| #[trigger] a.range_in_year(year) == b.range_in_year(year),
        forall|start: int, end: int| #[trigger] a.renders(start, end) == b.renders(start, end),
        forall|start: int, end: int, r: Option<Canvas>|
            #[trigger] a.render_result(start, end, r) == b.render_result(start, end, r),
        forall|year: int, r: Option<Canvas>|
            #[trigger] a.rendered_in_year(year, r) == b.rendered_in_year(year, r),
{
    assert forall|start: int, end: int| #[trigger] a.renders(start, end) == b.renders(start, end) by {
        let size = dimensions_of(a.settings(), start, end);
        assert(dimensions_of(b.settings(), start, end) == size);
        if a.renders(start, end) {
            assert forall|d: int| start <= d <= end implies #[trigger] b.day_fits(d, start, size) by {
                assert(a.day_fits(d, start, size));
            }
        }
        if b.renders(start, end) {
            assert forall|d: int| start <= d <= end implies #[trigger] a.day_fits(d, start, size) by {
                assert(b.day_fits(d, start, size));
            }
        }
    }
    assert forall|start: int, end: int, r: Option<Canvas>|
        #[trigger] a.render_result(start, end, r) == b.render_result(start, end, r) by {
        let size = dimensions_of(a.settings(), start, end);
        lemma_same_painting(a, b, start, end + 1, size);
    }
    assert forall|year: int, r: Option<Canvas>|
        #[trigger] a.rendered_in_year(year, r) == b.rendered_in_year(year, r) by {
        let range = a.range_in_year(year);
        assert(a.render_result(range.0, range.1, r) == b.render_result(range.0, range.1, r));
    }
}

/// A graph fresh from `new` with data set, and the same graph after the
/// calls that set the values `new` already gives (a cell size of 11, a gap
/// of 3, a margin of 20, the same palette, a transparent background and
/// rounded corners), draw the same image in every year. Neither has a start
/// or an end date, so the range falls back on the data, or on the year.
pub proof fn lemma_default_chain_changes_nothing<S: MappingStrategy>(
    fresh: ContributionGraph<S>,
    chained: ContributionGraph<S>,
)
    requires
        fresh.settings() == (GraphSettings { data: fresh.settings().data, ..default_settings() }),
        chained.settings() == (GraphSettings {
            round_corners: true,
            ..GraphSettings {
                background_color: Rgba([0, 0, 0, 0]),
                ..GraphSettings {
                    margin: 20,
                    ..GraphSettings { gap: 3, ..GraphSettings { box_size: 11, ..fresh.settings() } }
                }
            }
        }),
        chained.palette().colors() == fresh.palette().colors(),
        chained.palette().strategy() == fresh.palette().strategy(),
    ensures
        chained.settings() == fresh.settings(),
        fresh.settings().start_date is None,
        fresh.settings().end_date is None,
        forall|year: int, r: Option<Canvas>|
            #[trigger] chained.rendered_in_year(year, r) == fresh.rendered_in_year(year, r),
{
    lemma_same_settings_same_graph(chained, fresh);
}


/// Whether `m` is the largest count in `data`: a count that some day holds
/// and that no day exceeds, or 0 where `data` holds no day.
pub open spec fn is_largest_count(data: Map<i32, u32>, m: u32) -> bool {
    if exists|k: i32| data.contains_key(k) {
        &&& exists|k: i32| data.contains_key(k) && data[k] == m
        &&& forall|k: i32| data.contains_key(k) ==> data[k] <= m
    } else {
        m == 0
    }
}

/// A finite set of days that holds one holds an earliest and a latest.
proof fn lemma_has_extremes(s: Set<i32>)
    requires
        s.finite(),
        s.len() > 0,
    ensures
        exists|k: i32| s.contains(k) && forall|j: i32| s.contains(j) ==> k <= j,
        exists|k: i32| s.contains(k) && forall|j: i32| s.contains(j) ==> j <= k,
    decreases s.len(),
{
    let x = s.choose();
    if s.len() == 1 {
        assert(s.remove(x).len() == 0);
        assert forall|j: i32| s.contains(j) implies j == x by {
            if j != x {
                assert(s.remove(x).contains(j));
            }
        }
        assert(s.contains(x));
    } else {
        let r = s.remove(x);
        lemma_has_extremes(r);
        let lo = choose|k: i32| r.contains(k) && forall|j: i32| r.contains(j) ==> k <= j;
        let hi = choose|k: i32| r.contains(k) && forall|j: i32| r.contains(j) ==> j <= k;
        if x < lo {
            assert forall|j: i32| s.contains(j) implies x <= j by {
                if j != x {
                    assert(r.contains(j));
                }
            }
        } else {
            assert forall|j: i32| s.contains(j) implies lo <= j by {
                if j != x {
                    assert(r.contains(j));
                }
            }
        }
        if x > hi {
            assert forall|j: i32| s.contains(j) implies j <= x by {
                if j != x {
                    assert(r.contains(j));
                }
            }
        } else {
            assert forall|j: i32| s.contains(j) implies j <= hi by {
                if j != x {
                    assert(r.contains(j));
                }
            }
        }
    }
}

/// The largest count of finite data, as the drawing measures counts
/// against, is the one that `is_largest_count` describes.
proof fn lemma_largest_count(data: Map<i32, u32>, m: u32)
    requires
        data.dom().finite(),
        is_largest_count(data, m),
    ensures
        max_count_of(data) == m,
{
    reveal(max_count_of);
    if exists|k: i32| data.contains_key(k) {
        let k = choose|k: i32| data.contains_key(k);
        assert(data.dom().contains(k));
        assert(data.dom().len() > 0);
        let w = choose|k: i32| data.contains_key(k) && data[k] == m;
        assert(data.values().contains(m));
        let v = choose|v: u32|
            data.values().contains(v) && forall|k: i32| data.contains_key(k) ==> data[k] <= v;
        assert(data[w] <= v);
        let kv = choose|k: i32| data.contains_key(k) && data[k] == v;
        assert(data[kv] <= m);
    } else {
        assert(data.dom() =~= Set::empty());
    }
}

/// The image that drawing a graph gives, for each pixel lying in the cell
/// of a day: it shows the colour at the index that the palette's strategy
/// maps that day's count to (0 for a day without one), measured against
/// the largest count in the data (0 for no data), or the background at a
/// rounded-off corner. This holds where the cell size and the gap are read
/// as themselves in `i32` and the image's sides are at most `i32::MAX`.
pub proof fn lemma_cells_coloured_against_largest_count<S: MappingStrategy>(
    g: ContributionGraph<S>,
    start: int,
    end: int,
    c: Canvas,
    d: int,
    count: u32,
    m: u32,
    p: (int, int),
)
    requires
        g.render_result(start, end, Some(c)),
        sizes_are_small(g.settings()),
        sides_fit_i32(canvas_size(c)),
        on_image(canvas_size(c), p),
        start <= d <= end,
        in_cell(g.settings(), cell_origin(g.settings(), d, start), p),
        g.settings().data.contains_key(d as i32) ==> count == g.settings().data[d as i32],
        !g.settings().data.contains_key(d as i32) ==> count == 0,
        is_largest_count(g.settings().data, m),
    ensures
        canvas_pixels(c)[p] == cell_pixel(
            g.settings(),
            cell_origin(g.settings(), d, start),
            g.palette().colors()[g.palette().strategy().spec_map(
                count,
                m,
                g.palette().colors().len() as usize,
            ) as int],
            p,
        ),
{
    g.lemma_data_is_finite();
    lemma_largest_count(g.settings().data, m);
    lemma_image_shows_each_day(g, start, end, p);
}

/// The range that a graph shows in a year: a date that was set is kept;
/// else the start is the earliest day of the data and the end the latest,
/// each whatever the other end's setting; else, for no data, January 1 and
/// December 31 of the year.
pub proof fn lemma_range_falls_back<S: MappingStrategy>(g: ContributionGraph<S>, year: int)
    ensures
        g.settings().start_date matches Some(d) ==> g.range_in_year(year).0 == d@,
        g.settings().end_date matches Some(d) ==> g.range_in_year(year).1 == d@,
        g.settings().start_date is None && (exists|k: i32| g.settings().data.contains_key(k)) ==> {
            &&& i32::MIN <= g.range_in_year(year).0 <= i32::MAX
            &&& g.settings().data.contains_key(g.range_in_year(year).0 as i32)
            &&& forall|k: i32| g.settings().data.contains_key(k) ==> g.range_in_year(year).0 <= k
        },
        g.settings().end_date is None && (exists|k: i32| g.settings().data.contains_key(k)) ==> {
            &&& i32::MIN <= g.range_in_year(year).1 <= i32::MAX
            &&& g.settings().data.contains_key(g.range_in_year(year).1 as i32)
            &&& forall|k: i32| g.settings().data.contains_key(k) ==> k <= g.range_in_year(year).1
        },
        g.settings().start_date is None && (forall|k: i32| !g.settings().data.contains_key(k))
            ==> g.range_in_year(year).0 == civil_day_number(year, 1, 1),
        g.settings().end_date is None && (forall|k: i32| !g.settings().data.contains_key(k))
            ==> g.range_in_year(year).1 == civil_day_number(year, 12, 31),
{
    let data = g.settings().data;
    g.lemma_data_is_finite();
    if exists|k: i32| data.contains_key(k) {
        let k = choose|k: i32| data.contains_key(k);
        assert(data.dom().contains(k));
        assert(data.dom().len() > 0);
        lemma_has_extremes(data.dom());
        reveal(first_day_of);
        reveal(last_day_of);
    } else {
        assert(data.dom() =~= Set::empty());
    }
}

} // verus!
