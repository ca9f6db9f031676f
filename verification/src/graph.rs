//! The contribution graph: a builder for its settings, the layout of its
//! cells, and the drawing of the image.

use crate::canvas::canvas_pixels;
use crate::canvas::canvas_size;
use crate::canvas::rect_last_fits;
use crate::canvas::solid;
use crate::canvas::Canvas;
use crate::color::Rgba;
use crate::date::civil_day_number;
use crate::date::current_year;
use crate::date::is_valid_day;
use crate::date::Date;
use crate::date::MAX_DAY;
use crate::date::MAX_YEAR;
use crate::date::MIN_YEAR;
use crate::layout::cell_fits;
use crate::layout::cell_origin;
use crate::layout::coordinates_fit;
use crate::layout::default_settings;
use crate::layout::dimensions_fit;
use crate::layout::dimensions_of;
use crate::layout::drawn_cell;
use crate::layout::lemma_i32_as_u32;
use crate::layout::lemma_u32_as_i32;
use crate::layout::GraphSettings;
use crate::palette::MappingStrategy;
use crate::palette::Palette;
use std::collections::HashMap;
use vstd::prelude::*;
use vstd::std_specs::iter::IteratorSpec;

verus! {

/// The largest count in `data`, or 0 where it holds none.
#[verifier::opaque]
pub open spec fn max_count_of(data: Map<i32, u32>) -> u32 {
    if data.dom().len() == 0 {
        0
    } else {
        choose|v: u32|
            data.values().contains(v) && forall|k: i32| data.contains_key(k) ==> data[k] <= v
    }
}

/// The earliest day in `data` (meaningful where it holds one).
#[verifier::opaque]
pub open spec fn first_day_of(data: Map<i32, u32>) -> i32 {
    choose|k: i32| data.contains_key(k) && forall|j: i32| data.contains_key(j) ==> k <= j
}

/// The latest day in `data` (meaningful where it holds one).
#[verifier::opaque]
pub open spec fn last_day_of(data: Map<i32, u32>) -> i32 {
    choose|k: i32| data.contains_key(k) && forall|j: i32| data.contains_key(j) ==> j <= k
}

/// The largest value of the map (its maximum count), or 0 for an empty map.
fn max_count(data: &HashMap<i32, u32>) -> (r: u32)
    ensures
        r == max_count_of(data@),
{
    let ghost s = vstd::std_specs::hash::spec_values_iter(data).remaining().unref();
    let mut best: u32 = 0;
    let mut seen: bool = false;
    let ghost mut n: int = 0;
    for v in it: data.values()
        invariant
            it.seq().unref() == s,
            n == it.index(),
            forall|i: int| 0 <= i < n ==> s[i] <= best,
            seen <==> n > 0,
            seen ==> exists|i: int| 0 <= i < n && s[i] == best,
            !seen ==> best == 0,
    {
        if !seen || *v > best {
            best = *v;
        }
        seen = true;
        proof {
            n = n + 1;
        }
    }
    proof {
        reveal(max_count_of);
        assert forall|k: i32| data@.contains_key(k) implies data@[k] <= best by {
            assert(s.to_set().contains(data@[k]));
        }
        if seen {
            let i = choose|i: int| 0 <= i < n && s[i] == best;
            assert(data@.values().contains(best));
        }
    }
    best
}

/// The earliest and the latest day of the map, or `None` for an empty map.
fn day_span(data: &HashMap<i32, u32>) -> (r: Option<(i32, i32)>)
    ensures
        r.is_none() <==> data@.dom().len() == 0,
        r matches Some((lo, hi)) ==> {
            &&& lo == first_day_of(data@)
            &&& hi == last_day_of(data@)
            &&& data@.contains_key(lo)
            &&& data@.contains_key(hi)
        },
{
    let ghost s = vstd::std_specs::hash::spec_keys_iter(data).remaining().unref();
    let mut lo: i32 = 0;
    let mut hi: i32 = 0;
    let mut seen: bool = false;
    let ghost mut n: int = 0;
    for k in it: data.keys()
        invariant
            it.seq().unref() == s,
            n == it.index(),
            forall|i: int| 0 <= i < n ==> lo <= #[trigger] s[i] <= hi,
            seen <==> n > 0,
            seen ==> exists|i: int| 0 <= i < n && s[i] == lo,
            seen ==> exists|i: int| 0 <= i < n && s[i] == hi,
    {
        if !seen || *k < lo {
            lo = *k;
        }
        if !seen || *k > hi {
            hi = *k;
        }
        seen = true;
        proof {
            n = n + 1;
        }
    }
    proof {
        reveal(first_day_of);
        reveal(last_day_of);
        assert(forall|k: i32| data@.contains_key(k) ==> lo <= k <= hi);
        if seen {
            let i = choose|i: int| 0 <= i < n && s[i] == lo;
            let j = choose|j: int| 0 <= j < n && s[j] == hi;
            assert(s.to_set().contains(s[j]));
            assert(data@.contains_key(lo));
        }
    }
    if seen {
        Some((lo, hi))
    } else {
        None
    }
}

/// Whether `start + extent as i32 - 1` can be computed without overflow.
fn last_computable(start: i32, extent: u32) -> (b: bool)
    ensures
        b == rect_last_fits(start as int, extent),
{
    let sum = match start.checked_add(extent as i32) {
        Some(v) => v,
        None => return false,
    };
    sum.checked_sub(1).is_some()
}

/// A builder struct for generating GitHub-style contribution graphs.
pub struct ContributionGraph<S> {
    data: HashMap<i32, u32>,
    start_date: Option<Date>,
    end_date: Option<Date>,
    box_size: u32,
    gap: u32,
    margin: u32,
    palette: Palette<S>,
    background_color: Rgba,
    round_corners: bool,
}

impl<S> ContributionGraph<S> {
    #[verifier::type_invariant]
    spec fn days_are_dates(self) -> bool {
        forall|k: i32| self.data@.contains_key(k) ==> is_valid_day(k as int)
    }

    /// The settings of the graph other than its palette.
    pub closed spec fn settings(&self) -> GraphSettings {
        GraphSettings {
            data: self.data@,
            start_date: self.start_date,
            end_date: self.end_date,
            box_size: self.box_size,
            gap: self.gap,
            margin: self.margin,
            background_color: self.background_color,
            round_corners: self.round_corners,
        }
    }

    /// The palette of the graph.
    pub closed spec fn palette(&self) -> Palette<S> {
        self.palette
    }

    /// The data of a graph holds finitely many days.
    pub proof fn lemma_data_is_finite(&self)
        ensures
            self.settings().data.dom().finite(),
    {
        vstd::std_specs::hash::axiom_hashmap_view_finite_dom(self.data);
    }
}

impl<S: MappingStrategy> ContributionGraph<S> {
    /// Creates a new [`ContributionGraph`] builder with default settings
    /// (see `default_settings`) and the given palette.
    pub fn new(palette: Palette<S>) -> (g: Self)
        ensures
            g.settings() == default_settings(),
            g.palette() == palette,
    {
        ContributionGraph {
            data: HashMap::new(),
            start_date: None,
            end_date: None,
            box_size: 11,
            gap: 3,
            margin: 20,
            palette,
            background_color: Rgba([0, 0, 0, 0]),
            round_corners: true,
        }
    }

    /// Sets the contribution data for the graph: a map from the day number
    /// of a date (see [`Date::day_number`]) to a contribution count.
    pub fn with_data(self, data: HashMap<i32, u32>) -> (g: Self)
        requires
            forall|k: i32| data@.contains_key(k) ==> is_valid_day(k as int),
        ensures
            g.settings() == (GraphSettings { data: data@, ..self.settings() }),
            g.palette() == self.palette(),
    {
        proof {
            use_type_invariant(&self);
        }
        let mut g = self;
        g.data = data;
        g
    }

    /// Sets the start date for the graph.
    ///
    /// If not provided, it defaults to the earliest date in the data or January 1st of the current year.
    pub fn start_date(self, date: Date) -> (g: Self)
        ensures
            g.settings() == (GraphSettings { start_date: Some(date), ..self.settings() }),
            g.palette() == self.palette(),
    {
        proof {
            use_type_invariant(&self);
        }
        let mut g = self;
        g.start_date = Some(date);
        g
    }

    /// Sets the end date for the graph.
    ///
    /// If not provided, it defaults to the latest date in the data or December 31st of the current year.
    pub fn end_date(self, date: Date) -> (g: Self)
        ensures
            g.settings() == (GraphSettings { end_date: Some(date), ..self.settings() }),
            g.palette() == self.palette(),
    {
        proof {
            use_type_invariant(&self);
        }
        let mut g = self;
        g.end_date = Some(date);
        g
    }

    /// Sets the size of each contribution box in pixels.
    pub fn box_size(self, size: u32) -> (g: Self)
        ensures
            g.settings() == (GraphSettings { box_size: size, ..self.settings() }),
            g.palette() == self.palette(),
    {
        proof {
            use_type_invariant(&self);
        }
        let mut g = self;
        g.box_size = size;
        g
    }

    /// Sets the gap between contribution boxes in pixels.
    pub fn gap(self, gap: u32) -> (g: Self)
        ensures
            g.settings() == (GraphSettings { gap: gap, ..self.settings() }),
            g.palette() == self.palette(),
    {
        proof {
            use_type_invariant(&self);
        }
        let mut g = self;
        g.gap = gap;
        g
    }

    /// Sets the margin around the entire grid in pixels.
    pub fn margin(self, margin: u32) -> (g: Self)
        ensures
            g.settings() == (GraphSettings { margin: margin, ..self.settings() }),
            g.palette() == self.palette(),
    {
        proof {
            use_type_invariant(&self);
        }
        let mut g = self;
        g.margin = margin;
        g
    }

    /// Sets a predefined or custom [`Palette`].
    pub fn theme<T: MappingStrategy>(self, palette: Palette<T>) -> (g: ContributionGraph<T>)
        ensures
            g.settings() == self.settings(),
            g.palette() == palette,
    {
        proof {
            use_type_invariant(&self);
        }
        ContributionGraph {
            data: self.data,
            start_date: self.start_date,
            end_date: self.end_date,
            box_size: self.box_size,
            gap: self.gap,
            margin: self.margin,
            palette,
            background_color: self.background_color,
            round_corners: self.round_corners,
        }
    }

    /// Sets the background color of the image.
    pub fn background_color(self, color: Rgba) -> (g: Self)
        ensures
            g.settings() == (GraphSettings { background_color: color, ..self.settings() }),
            g.palette() == self.palette(),
    {
        proof {
            use_type_invariant(&self);
        }
        let mut g = self;
        g.background_color = color;
        g
    }

    /// Sets whether the contribution boxes should have rounded corners.
    pub fn round_corners(self, round: bool) -> (g: Self)
        ensures
            g.settings() == (GraphSettings { round_corners: round, ..self.settings() }),
            g.palette() == self.palette(),
    {
        proof {
            use_type_invariant(&self);
        }
        let mut g = self;
        g.round_corners = round;
        g
    }

    /// The count of `day`, or 0 where the data holds none.
    pub open spec fn count_on(&self, day: int) -> u32 {
        let data = self.settings().data;
        if data.contains_key(day as i32) {
            data[day as i32]
        } else {
            0
        }
    }

    /// The colour that the palette gives `day`, measured against the largest
    /// count of the data.
    pub open spec fn color_on(&self, day: int) -> Rgba {
        self.palette().color_for(self.count_on(day), max_count_of(self.settings().data))
    }

    /// Whether drawing `day` on an image of the given size, in a graph that
    /// starts on `start`, does not panic: its coordinates do not overflow,
    /// and drawing its cell does not panic.
    pub open spec fn day_fits(&self, day: int, start: int, size: (u32, u32)) -> bool {
        let st = self.settings();
        let o = cell_origin(st, day, start);
        &&& coordinates_fit(st, day, start)
        &&& cell_fits(st, size, o.0, o.1)
    }

    /// The pixels of the image once the cells of the days from `start` up
    /// to (not including) `upto` are drawn in order on the background.
    pub open spec fn painted(&self, start: int, upto: int, size: (u32, u32)) -> Map<(int, int), Rgba>
        decreases upto - start,
    {
        let st = self.settings();
        if upto <= start {
            solid(size, st.background_color)
        } else {
            let d = upto - 1;
            let o = cell_origin(st, d, start);
            drawn_cell(st, self.painted(start, d, size), size, o.0, o.1, self.color_on(d))
        }
    }

    /// Whether drawing the graph from day `start` to day `end` does not
    /// panic: the size of the image can be computed and allocated, the
    /// palette has a colour where there is a day to colour, every day can be
    /// drawn, and stepping past the last day stays within the dates.
    pub open spec fn renders(&self, start: int, end: int) -> bool {
        let st = self.settings();
        let size = dimensions_of(st, start, end);
        &&& dimensions_fit(st, start, end)
        &&& (size.0 as int) * (size.1 as int) * 4 <= isize::MAX
        &&& start <= end ==> end < MAX_DAY
        &&& start <= end ==> self.palette().colors().len() >= 1
        &&& forall|d: int| start <= d <= end ==> #[trigger] self.day_fits(d, start, size)
    }

    /// What drawing the graph from day `start` to day `end` gives: an image
    /// exactly where it does not panic, of the computed size, with every
    /// day's cell drawn on the background.
    pub open spec fn render_result(&self, start: int, end: int, r: Option<Canvas>) -> bool {
        let size = dimensions_of(self.settings(), start, end);
        &&& r.is_some() <==> self.renders(start, end)
        &&& r matches Some(c) ==> {
            &&& canvas_size(c) == size
            &&& canvas_pixels(c) == self.painted(start, end + 1, size)
        }
    }

    /// `render_result` for the date range that the graph has where the
    /// current year is `year`.
    pub open spec fn rendered_in_year(&self, year: int, r: Option<Canvas>) -> bool {
        let range = self.range_in_year(year);
        self.render_result(range.0, range.1, r)
    }

    /// The first and last day that the graph shows where the current year
    /// is `year`: a date that was set, else the earliest (or latest) day of
    /// the data, else January 1 (or December 31) of `year`.
    pub open spec fn range_in_year(&self, year: int) -> (int, int) {
        let data = self.settings().data;
        let start = match self.settings().start_date {
            Some(d) => d@,
            None => if data.dom().len() == 0 {
                civil_day_number(year, 1, 1)
            } else {
                first_day_of(data) as int
            },
        };
        let end = match self.settings().end_date {
            Some(d) => d@,
            None => if data.dom().len() == 0 {
                civil_day_number(year, 12, 31)
            } else {
                last_day_of(data) as int
            },
        };
        (start, end)
    }

    /// The effective start and end dates for the graph where the current
    /// year is `year` (see `range_in_year`).
    pub fn date_range_in_year(&self, year: i32) -> (r: (Date, Date))
        requires
            MIN_YEAR <= year <= MAX_YEAR,
        ensures
            self.range_in_year(year as int) == (r.0@, r.1@),
    {
        proof {
            use_type_invariant(self);
        }
        let span = day_span(&self.data);
        let start = match self.start_date {
            Some(d) => d,
            None => match span {
                None => Date::from_ymd(year, 1, 1).unwrap(),
                Some((lo, _)) => Date::from_day_number(lo).unwrap(),
            },
        };
        let end = match self.end_date {
            Some(d) => d,
            None => match span {
                None => Date::from_ymd(year, 12, 31).unwrap(),
                Some((_, hi)) => Date::from_day_number(hi).unwrap(),
            },
        };
        (start, end)
    }

    /// Calculates the effective start and end dates for the graph, in the
    /// current year (UTC). `None` where the clock gives no year (it reads
    /// before 1970 or beyond the dates a `Date` covers).
    pub fn calculate_date_range(&self) -> (r: Option<(Date, Date)>)
        ensures
            r matches Some((start, end)) ==> exists|year: int|
                MIN_YEAR <= year <= MAX_YEAR && #[trigger] self.range_in_year(year) == (
                    start@,
                    end@,
                ),
    {
        match current_year() {
            Some(year) => Some(self.date_range_in_year(year)),
            None => None,
        }
    }

    /// Calculates the dimensions (width, height) of the resulting image.
    pub fn calculate_dimensions(&self, start: Date, end: Date) -> (r: (u32, u32))
        requires
            dimensions_fit(self.settings(), start@, end@),
        ensures
            r == dimensions_of(self.settings(), start@, end@),
    {
        let start_weekday = start.weekday_from_sunday() as i32;
        let total_days = (end.day_number() - start.day_number()) + 1;
        let weeks = (total_days + start_weekday + 6) / 7;
        proof {
            lemma_i32_as_u32(weeks);
        }
        let width = self.margin * 2 + (weeks as u32) * (self.box_size + self.gap) - self.gap;
        let height = self.margin * 2 + 7 * (self.box_size + self.gap) - self.gap;
        (width, height)
    }

    /// Calculates the (x, y) coordinates for a given date relative to the start date.
    pub fn get_coordinates(&self, date: Date, start: Date) -> (r: (i32, i32))
        requires
            coordinates_fit(self.settings(), date@, start@),
        ensures
            (r.0 as int, r.1 as int) == cell_origin(self.settings(), date@, start@),
    {
        let start_weekday = start.weekday_from_sunday() as i32;
        let day_idx = date.weekday_from_sunday() as i32;
        let days_from_start = date.day_number() - start.day_number();
        let week_idx = (days_from_start + start_weekday) / 7;
        proof {
            lemma_u32_as_i32(self.margin);
            lemma_u32_as_i32(self.box_size);
            lemma_u32_as_i32(self.gap);
        }
        let x = self.margin as i32 + week_idx * (self.box_size as i32 + self.gap as i32);
        let y = self.margin as i32 + day_idx * (self.box_size as i32 + self.gap as i32);
        (x, y)
    }

    /// Draws a single contribution cell onto the image buffer.
    fn draw_cell(&self, img: &mut Canvas, x: i32, y: i32, color: Rgba)
        requires
            cell_fits(self.settings(), canvas_size(*old(img)), x as int, y as int),
        ensures
            canvas_size(*final(img)) == canvas_size(*old(img)),
            canvas_pixels(*final(img)) == drawn_cell(
                self.settings(),
                canvas_pixels(*old(img)),
                canvas_size(*old(img)),
                x as int,
                y as int,
                color,
            ),
    {
        let width = img.width();
        let height = img.height();

        if x >= 0 && y >= 0 && (x as u32 + self.box_size) <= width && (y as u32 + self.box_size)
            <= height {
            img.fill_rect(x, y, self.box_size, self.box_size, color);

            if self.round_corners && color.0[3] > 0 {
                let corner_color = self.background_color;
                proof {
                    lemma_u32_as_i32(self.box_size);
                    lemma_i32_as_u32((x + self.box_size as i32 - 1) as i32);
                    lemma_i32_as_u32((y + self.box_size as i32 - 1) as i32);
                }
                if (x as u32) < width && (y as u32) < height {
                    img.put_pixel(x as u32, y as u32, corner_color);
                }
                if (x as u32 + self.box_size - 1) < width && (y as u32) < height {
                    img.put_pixel((x + self.box_size as i32 - 1) as u32, y as u32, corner_color);
                }
                if (x as u32) < width && (y as u32 + self.box_size - 1) < height {
                    img.put_pixel(x as u32, (y + self.box_size as i32 - 1) as u32, corner_color);
                }
                if (x as u32 + self.box_size - 1) < width && (y as u32 + self.box_size - 1)
                    < height {
                    img.put_pixel(
                        (x + self.box_size as i32 - 1) as u32,
                        (y + self.box_size as i32 - 1) as u32,
                        corner_color,
                    );
                }
            }
        }
    }

    /// Whether `calculate_dimensions` can compute the size of the image
    /// without overflow.
    fn dimensions_computable(&self, start: Date, end: Date) -> (b: bool)
        ensures
            b == dimensions_fit(self.settings(), start@, end@),
    {
        let start_weekday = start.weekday_from_sunday() as i32;
        let total_days = (end.day_number() - start.day_number()) + 1;
        let weeks = (total_days + start_weekday + 6) / 7;
        proof {
            lemma_i32_as_u32(weeks);
        }
        let weeks = weeks as u32;
        let m2 = match self.margin.checked_mul(2) {
            Some(v) => v,
            None => return false,
        };
        let step = match self.box_size.checked_add(self.gap) {
            Some(v) => v,
            None => return false,
        };
        let columns = match weeks.checked_mul(step) {
            Some(v) => v,
            None => return false,
        };
        let width = match m2.checked_add(columns) {
            Some(v) => v,
            None => return false,
        };
        if width < self.gap {
            return false;
        }
        let rows = match 7u32.checked_mul(step) {
            Some(v) => v,
            None => return false,
        };
        let height = match m2.checked_add(rows) {
            Some(v) => v,
            None => return false,
        };
        height >= self.gap
    }

    /// Whether `get_coordinates` can compute the cell of `date` without
    /// overflow.
    fn coordinates_computable(&self, date: Date, start: Date) -> (b: bool)
        ensures
            b == coordinates_fit(self.settings(), date@, start@),
    {
        let start_weekday = start.weekday_from_sunday() as i32;
        let day_idx = date.weekday_from_sunday() as i32;
        let days_from_start = date.day_number() - start.day_number();
        let week_idx = (days_from_start + start_weekday) / 7;
        proof {
            lemma_u32_as_i32(self.margin);
            lemma_u32_as_i32(self.box_size);
            lemma_u32_as_i32(self.gap);
        }
        let m = self.margin as i32;
        let step = match (self.box_size as i32).checked_add(self.gap as i32) {
            Some(v) => v,
            None => return false,
        };
        let dx = match week_idx.checked_mul(step) {
            Some(v) => v,
            None => return false,
        };
        if m.checked_add(dx).is_none() {
            return false;
        }
        let dy = match day_idx.checked_mul(step) {
            Some(v) => v,
            None => return false,
        };
        m.checked_add(dy).is_some()
    }

    /// Whether `draw_cell` can draw a cell at `(x, y)` on an image of the
    /// given size without panicking.
    fn cell_drawable(&self, width: u32, height: u32, x: i32, y: i32) -> (b: bool)
        ensures
            b == cell_fits(self.settings(), (width, height), x as int, y as int),
    {
        if !(x >= 0 && y >= 0) {
            return true;
        }
        let right = match (x as u32).checked_add(self.box_size) {
            Some(v) => v,
            None => return false,
        };
        if right > width {
            return true;
        }
        let bottom = match (y as u32).checked_add(self.box_size) {
            Some(v) => v,
            None => return false,
        };
        if bottom > height {
            return true;
        }
        self.box_size > 0 && last_computable(0, width) && last_computable(0, height)
            && last_computable(x, self.box_size) && last_computable(y, self.box_size)
    }

    /// Draws the graph from `start` to `end`: an image of the computed size
    /// in the background colour, with the cell of each day, in order,
    /// coloured by the palette. `None` where drawing cannot be done (see
    /// `renders`): a palette index outside the palette, an arithmetic
    /// overflow, an image too large to allocate, a cell that the drawing
    /// calls refuse, or a step past the last date.
    pub fn render(&self, start: Date, end: Date) -> (r: Option<Canvas>)
        ensures
            self.render_result(start@, end@, r),
    {
        proof {
            use_type_invariant(self);
        }
        if !self.dimensions_computable(start, end) {
            return None;
        }
        let (width, height) = self.calculate_dimensions(start, end);
        let ghost size = (width, height);

        let max_count = max_count(&self.data);

        proof {
            let (w, h) = (width as int, height as int);
            assert(w * h <= 0xffff_ffff * 0xffff_ffff) by (nonlinear_arith)
                requires
                    0 <= w <= 0xffff_ffff,
                    0 <= h <= 0xffff_ffff,
            ;
        }
        let area = (width as u128) * (height as u128);
        if area * 4 > isize::MAX as u128 {
            return None;
        }
        let mut img = Canvas::from_pixel(width, height, self.background_color);

        let first = start.day_number();
        let last = end.day_number();
        if first <= last && last == MAX_DAY {
            return None;
        }
        if first <= last && self.palette.num_colors() == 0 {
            return None;
        }
        let mut curr: i32 = first;
        while curr <= last
            invariant
                first == start@,
                last == end@,
                is_valid_day(first as int),
                is_valid_day(last as int),
                first <= curr,
                curr <= last + 1 || curr == first,
                first <= last ==> last < MAX_DAY,
                first <= last ==> self.palette().colors().len() >= 1,
                size == dimensions_of(self.settings(), start@, end@),
                size == (width, height),
                max_count == max_count_of(self.settings().data),
                canvas_size(img) == size,
                canvas_pixels(img) == self.painted(first as int, curr as int, size),
                forall|d: int| first <= d < curr ==> #[trigger] self.day_fits(d, first as int, size),
            decreases last + 1 - curr,
        {
            let count = match self.data.get(&curr) {
                Some(c) => *c,
                None => 0,
            };
            let color = self.palette.get_color(count, max_count);
            let date = Date::from_day_number(curr).unwrap();
            if !self.coordinates_computable(date, start) {
                assert(!self.day_fits(curr as int, first as int, size));
                return None;
            }
            let (x, y) = self.get_coordinates(date, start);
            if !self.cell_drawable(width, height, x, y) {
                assert(!self.day_fits(curr as int, first as int, size));
                return None;
            }
            self.draw_cell(&mut img, x, y, color);
            curr = curr + 1;
        }
        Some(img)
    }

    /// Generates the contribution graph image as `generate` does where the
    /// current year is `year`: over the range of `date_range_in_year`, as
    /// `render` draws it.
    pub fn generate_in_year(&self, year: i32) -> (r: Option<Canvas>)
        requires
            MIN_YEAR <= year <= MAX_YEAR,
        ensures
            self.rendered_in_year(year as int, r),
    {
        let (start, end) = self.date_range_in_year(year);
        self.render(start, end)
    }

    /// Generates the contribution graph image based on the current
    /// configuration, in the current year (UTC) (see `generate_in_year`);
    /// `None` where the clock gives no year, or as `render` says.
    pub fn generate(&self) -> (r: Option<Canvas>)
        ensures
            r.is_none() || exists|year: int|
                MIN_YEAR <= year <= MAX_YEAR && #[trigger] self.rendered_in_year(year, r),
    {
        match current_year() {
            Some(year) => self.generate_in_year(year),
            None => None,
        }
    }
}

} // verus!
