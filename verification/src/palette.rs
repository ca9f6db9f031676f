//! Palettes: a list of colours and the strategy that picks one of them for
//! a contribution count.

use crate::color::Rgba;
use vstd::prelude::*;

verus! {

/// Defines how to map counts to color indices.
///
/// `spec_map` is what `map` computes: a strategy maps the same arguments to
/// the same index every time, and the index lies in `[0, num_colors)`
/// whenever there is a colour. A strategy written outside verified code
/// defines `spec_map` as a call of `map`.
pub trait MappingStrategy {
    /// The index that `map` returns for these arguments.
    spec fn spec_map(&self, count: u32, max_count: u32, num_colors: usize) -> usize;

    /// Maps a count to a color index `[0, num_colors)`.
    fn map(&self, count: u32, max_count: u32, num_colors: usize) -> (index: usize)
        ensures
            index == self.spec_map(count, max_count, num_colors),
            num_colors >= 1 ==> index < num_colors,
    ;
}

/// Defines the color palette and the strategy used to map counts to colors.
///
/// The strategy is held by value: `S` is its type.
pub struct Palette<S> {
    colors: Vec<Rgba>,
    strategy: S,
}

impl<S: MappingStrategy> Palette<S> {
    /// The colours of the palette, in order.
    pub closed spec fn colors(&self) -> Seq<Rgba> {
        self.colors@
    }

    /// The index that the palette's strategy picks for a count, given the
    /// maximum count and the number of colours of the palette.
    pub open spec fn index_for(&self, count: u32, max_count: u32) -> usize {
        self.strategy().spec_map(count, max_count, self.colors().len() as usize)
    }

    /// The colour for a count: the colour at the index that the strategy
    /// picks.
    pub open spec fn color_for(&self, count: u32, max_count: u32) -> Rgba {
        self.colors()[self.index_for(count, max_count) as int]
    }

    /// Creates a new [`Palette`] with a list of colors and a mapping strategy.
    pub fn new(colors: Vec<Rgba>, strategy: S) -> (p: Palette<S>)
        ensures
            p.colors() == colors@,
            p.strategy() == strategy,
    {
        Palette { colors, strategy }
    }

    /// The mapping strategy.
    pub closed spec fn strategy(&self) -> S {
        self.strategy
    }

    /// The number of colours.
    pub fn num_colors(&self) -> (n: usize)
        ensures
            n == self.colors().len(),
    {
        self.colors.len()
    }

    /// Returns the color for a given contribution count based on the global
    /// maximum count: the colour at the index that the strategy picks.
    pub fn get_color(&self, count: u32, max_count: u32) -> (r: Rgba)
        requires
            self.colors().len() >= 1,
        ensures
            self.index_for(count, max_count) < self.colors().len(),
            r == self.color_for(count, max_count),
            r == self.colors()[self.strategy().spec_map(count, max_count, self.colors().len() as usize) as int],
    {
        let index = self.strategy.map(count, max_count, self.colors.len());
        self.colors[index]
    }
}

/// The colour that a palette gives a count against a largest count is the
/// colour at the index that its strategy maps that count to, given that
/// same largest count and the number of colours of the palette: neither the
/// count nor the largest count is changed on the way to the strategy.
pub proof fn lemma_colour_is_the_strategys_pick<S: MappingStrategy>(
    p: Palette<S>,
    count: u32,
    max_count: u32,
)
    ensures
        p.color_for(count, max_count) == p.colors()[p.strategy().spec_map(
            count,
            max_count,
            p.colors().len() as usize,
        ) as int],
{
}

} // verus!
