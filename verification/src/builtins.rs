//! Built-in themes and strategy factory for the contribution grid library:
//! the [`Theme`] factory of predefined palettes, the [`Strategy`] factory,
//! and the threshold mapping strategy.

use crate::color::Rgba;
use crate::palette::MappingStrategy;
use crate::palette::Palette;
use vstd::prelude::*;

verus! {

/// The index of the first threshold that `count` lies below, or the number
/// of thresholds where it lies below none.
pub open spec fn threshold_position(thresholds: Seq<u32>, count: u32) -> nat
    decreases thresholds.len(),
{
    if thresholds.len() == 0 {
        0
    } else if count < thresholds[0] {
        0
    } else {
        1 + threshold_position(thresholds.drop_first(), count)
    }
}

/// `threshold_position` is the index `i` such that every threshold before
/// `i` is at most `count` and the one at `i`, if any, exceeds it.
pub proof fn lemma_threshold_position_is_first_above(thresholds: Seq<u32>, count: u32, i: int)
    requires
        0 <= i <= thresholds.len(),
        forall|j: int| 0 <= j < i ==> thresholds[j] <= count,
        i < thresholds.len() ==> count < thresholds[i],
    ensures
        threshold_position(thresholds, count) == i,
    decreases thresholds.len(),
{
    if thresholds.len() > 0 && i > 0 {
        let rest = thresholds.drop_first();
        lemma_threshold_position_is_first_above(rest, count, i - 1);
    }
}

/// The threshold mapping never picks an index beyond the number of
/// thresholds.
pub proof fn lemma_threshold_position_at_most_len(thresholds: Seq<u32>, count: u32)
    ensures
        threshold_position(thresholds, count) <= thresholds.len(),
    decreases thresholds.len(),
{
    if thresholds.len() > 0 && count >= thresholds[0] {
        lemma_threshold_position_at_most_len(thresholds.drop_first(), count);
    }
}

/// A larger count never maps to a smaller index under the threshold mapping,
/// whatever order the thresholds come in.
pub proof fn lemma_threshold_position_monotone(thresholds: Seq<u32>, lo: u32, hi: u32)
    requires
        lo <= hi,
    ensures
        threshold_position(thresholds, lo) <= threshold_position(thresholds, hi),
    decreases thresholds.len(),
{
    if thresholds.len() > 0 && lo >= thresholds[0] {
        lemma_threshold_position_monotone(thresholds.drop_first(), lo, hi);
    }
}

/// The threshold position kept inside a palette of `num_colors` colours:
/// where it would fall beyond the last colour, the last colour's index.
/// (With no colours there is no index to keep to, and the position stays.)
pub open spec fn clamp_to_palette(position: nat, num_colors: usize) -> nat {
    if num_colors >= 1 && position >= num_colors {
        (num_colors - 1) as nat
    } else {
        position
    }
}

/// A larger count never gets a smaller index from a threshold strategy,
/// and the index lies in the palette whenever the palette has a colour.
pub proof fn lemma_threshold_index_monotone(
    thresholds: Seq<u32>,
    lo: u32,
    hi: u32,
    num_colors: usize,
)
    requires
        lo <= hi,
    ensures
        clamp_to_palette(threshold_position(thresholds, lo), num_colors) <= clamp_to_palette(
            threshold_position(thresholds, hi),
            num_colors,
        ),
        num_colors >= 1 ==> clamp_to_palette(threshold_position(thresholds, hi), num_colors)
            < num_colors,
{
    lemma_threshold_position_monotone(thresholds, lo, hi);
}

/// Fixed threshold mapping (ignores `max_count`).
pub struct ThresholdStrategy {
    thresholds: Vec<u32>,
}

impl ThresholdStrategy {
    /// The thresholds, in the order given.
    pub closed spec fn thresholds(&self) -> Seq<u32> {
        self.thresholds@
    }

    /// Creates a new [`ThresholdStrategy`] with the given thresholds.
    pub fn new(thresholds: Vec<u32>) -> (s: Self)
        ensures
            s.thresholds() == thresholds@,
    {
        Self { thresholds }
    }
}

impl MappingStrategy for ThresholdStrategy {
    open spec fn spec_map(&self, count: u32, max_count: u32, num_colors: usize) -> usize {
        clamp_to_palette(threshold_position(self.thresholds(), count), num_colors) as usize
    }

    /// The position of the first threshold that `count` lies below, or the
    /// number of thresholds where there is none, kept to the last colour of
    /// a palette of `num_colors` colours; `max_count` plays no part.
    fn map(&self, count: u32, _max_count: u32, num_colors: usize) -> (index: usize)
        ensures
            index as int == clamp_to_palette(threshold_position(self.thresholds(), count), num_colors),
    {
        let n = self.thresholds.len();
        let mut i: usize = 0;
        while i < n && !(count < self.thresholds[i])
            invariant
                n == self.thresholds@.len(),
                i <= n,
                forall|j: int| 0 <= j < i ==> self.thresholds@[j] <= count,
            decreases n - i,
        {
            i = i + 1;
        }
        proof {
            lemma_threshold_position_is_first_above(self.thresholds@, count, i as int);
        }
        if num_colors >= 1 && i >= num_colors {
            num_colors - 1
        } else {
            i
        }
    }
}

/// The colours of the modern GitHub theme, from no contributions to most.
pub open spec fn github_colors() -> Seq<Rgba> {
    seq![
        Rgba([235, 237, 240, 255]),
        Rgba([155, 233, 168, 255]),
        Rgba([64, 196, 99, 255]),
        Rgba([48, 161, 78, 255]),
        Rgba([33, 110, 57, 255]),
    ]
}

/// The colours of the classic GitHub theme.
pub open spec fn github_old_colors() -> Seq<Rgba> {
    seq![
        Rgba([238, 238, 238, 255]),
        Rgba([198, 228, 139, 255]),
        Rgba([123, 201, 111, 255]),
        Rgba([35, 154, 59, 255]),
        Rgba([25, 97, 39, 255]),
    ]
}

/// The colours of the blue theme.
pub open spec fn blue_colors() -> Seq<Rgba> {
    seq![
        Rgba([235, 237, 240, 255]),
        Rgba([201, 231, 245, 255]),
        Rgba([168, 196, 238, 255]),
        Rgba([135, 146, 232, 255]),
        Rgba([96, 101, 181, 255]),
        Rgba([61, 62, 125, 255]),
        Rgba([31, 29, 66, 255]),
    ]
}

/// The colours of the red theme.
pub open spec fn red_colors() -> Seq<Rgba> {
    seq![
        Rgba([235, 237, 240, 255]),
        Rgba([255, 208, 198, 255]),
        Rgba([255, 148, 133, 255]),
        Rgba([234, 86, 70, 255]),
        Rgba([181, 28, 28, 255]),
    ]
}

/// How light a colour is: the sum of its red, green and blue parts.
pub open spec fn lightness(c: Rgba) -> int {
    c.0[0] + c.0[1] + c.0[2]
}

/// Whether each colour of `colors` is darker than every colour before it.
pub open spec fn darkens(colors: Seq<Rgba>) -> bool {
    forall|i: int, j: int| 0 <= i < j < colors.len() ==> lightness(#[trigger] colors[j]) < lightness(
        #[trigger] colors[i],
    )
}

/// Each built-in theme runs from its lightest colour, for no
/// contributions, to its darkest, for the most: a larger colour index
/// always gives a darker colour.
pub proof fn lemma_themes_darken()
    ensures
        darkens(github_colors()),
        darkens(github_old_colors()),
        darkens(blue_colors()),
        darkens(red_colors()),
{
}

/// Factory for creating built-in color theme palettes.
pub struct Theme;

impl Theme {
    /// Modern GitHub green style (5 colors).
    pub fn github<S: MappingStrategy>(strategy: S) -> (p: Palette<S>)
        ensures
            p.colors() == github_colors(),
            p.colors() == seq![
                Rgba([235, 237, 240, 255]),
                Rgba([155, 233, 168, 255]),
                Rgba([64, 196, 99, 255]),
                Rgba([48, 161, 78, 255]),
                Rgba([33, 110, 57, 255]),
            ],
            p.strategy() == strategy,
    {
        let colors = vec![
            Rgba([235, 237, 240, 255]),
            Rgba([155, 233, 168, 255]),
            Rgba([64, 196, 99, 255]),
            Rgba([48, 161, 78, 255]),
            Rgba([33, 110, 57, 255]),
        ];
        Palette::new(colors, strategy)
    }

    /// Classic GitHub style (5 colors).
    pub fn github_old<S: MappingStrategy>(strategy: S) -> (p: Palette<S>)
        ensures
            p.colors() == github_old_colors(),
            p.colors() == seq![
                Rgba([238, 238, 238, 255]),
                Rgba([198, 228, 139, 255]),
                Rgba([123, 201, 111, 255]),
                Rgba([35, 154, 59, 255]),
                Rgba([25, 97, 39, 255]),
            ],
            p.strategy() == strategy,
    {
        let colors = vec![
            Rgba([238, 238, 238, 255]),
            Rgba([198, 228, 139, 255]),
            Rgba([123, 201, 111, 255]),
            Rgba([35, 154, 59, 255]),
            Rgba([25, 97, 39, 255]),
        ];
        Palette::new(colors, strategy)
    }

    /// A blue-shaded theme (7 colors).
    pub fn blue<S: MappingStrategy>(strategy: S) -> (p: Palette<S>)
        ensures
            p.colors() == blue_colors(),
            p.colors() == seq![
                Rgba([235, 237, 240, 255]),
                Rgba([201, 231, 245, 255]),
                Rgba([168, 196, 238, 255]),
                Rgba([135, 146, 232, 255]),
                Rgba([96, 101, 181, 255]),
                Rgba([61, 62, 125, 255]),
                Rgba([31, 29, 66, 255]),
            ],
            p.strategy() == strategy,
    {
        let colors = vec![
            Rgba([235, 237, 240, 255]),
            Rgba([201, 231, 245, 255]),
            Rgba([168, 196, 238, 255]),
            Rgba([135, 146, 232, 255]),
            Rgba([96, 101, 181, 255]),
            Rgba([61, 62, 125, 255]),
            Rgba([31, 29, 66, 255]),
        ];
        Palette::new(colors, strategy)
    }

    /// A red-shaded theme (5 colors).
    pub fn red<S: MappingStrategy>(strategy: S) -> (p: Palette<S>)
        ensures
            p.colors() == red_colors(),
            p.colors() == seq![
                Rgba([235, 237, 240, 255]),
                Rgba([255, 208, 198, 255]),
                Rgba([255, 148, 133, 255]),
                Rgba([234, 86, 70, 255]),
                Rgba([181, 28, 28, 255]),
            ],
            p.strategy() == strategy,
    {
        let colors = vec![
            Rgba([235, 237, 240, 255]),
            Rgba([255, 208, 198, 255]),
            Rgba([255, 148, 133, 255]),
            Rgba([234, 86, 70, 255]),
            Rgba([181, 28, 28, 255]),
        ];
        Palette::new(colors, strategy)
    }
}

/// Factory for creating built-in strategy instances.
pub struct Strategy;

impl Strategy {
    /// Creates a threshold-based mapping strategy.
    pub fn threshold(thresholds: Vec<u32>) -> (s: ThresholdStrategy)
        ensures
            s.thresholds() == thresholds@,
    {
        ThresholdStrategy::new(thresholds)
    }
}

} // verus!
