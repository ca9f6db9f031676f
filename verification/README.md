# contribution_grid

Draws GitHub-style contribution graphs: one cell per day, a column per week
and a row per weekday (Sunday on top), each cell coloured by that day's count
through a palette and its mapping strategy.

The library in `src/` is verified with Verus:

- `date.rs`: dates as day numbers of the proleptic Gregorian calendar, read
  through `chrono`.
- `color.rs`: RGBA colours.
- `palette.rs`: the `MappingStrategy` trait and `Palette`.
- `builtins.rs`: the threshold strategy, the built-in themes and the strategy
  factory.
- `canvas.rs`: the image a graph is drawn on, an `image::RgbaImage` drawn
  through `imageproc`.
- `graph.rs`: the `ContributionGraph` builder, the layout of the cells and the
  drawing.
- `laws.rs`: what a drawn graph looks like — every day's cell lies on the
  image, no two cells share a pixel, and each pixel shows its cell's colour or
  the background; and two graphs with the same settings and palette draw the
  same image, however they were built.
- `samples.rs`: sample data (pseudo-random, heavy, weekends only).

`app/` holds the program that writes example PNG files, and the mapping
strategies that compute with floating-point numbers (linear and logarithmic),
which the verified library does not hold.
