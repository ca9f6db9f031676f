use contribution_grid::date::MAX_DAY;
use contribution_grid::ContributionGraph;
use contribution_grid::Date;
use contribution_grid::Rgba;
use contribution_grid::Strategy;
use contribution_grid::Theme;
use contribution_grid::ThresholdStrategy;
use std::collections::HashMap;

const NONE: Rgba = Rgba([235, 237, 240, 255]);
const SOME: Rgba = Rgba([64, 196, 99, 255]);
const CLEAR: Rgba = Rgba([0, 0, 0, 0]);

fn day(y: i32, m: u32, d: u32) -> Date {
    Date::from_ymd(y, m, d).unwrap()
}

fn week_graph() -> ContributionGraph<ThresholdStrategy> {
    let mut data = HashMap::new();
    data.insert(day(2023, 1, 3).day_number(), 7);
    data.insert(day(2023, 1, 4).day_number(), 30);
    ContributionGraph::new(Theme::github(Strategy::threshold(vec![1, 5, 10, 20])))
        .with_data(data)
        .box_size(10)
        .gap(2)
        .margin(20)
}

#[test]
fn rendered_image_shows_each_day() {
    let graph = week_graph();
    let img = graph.render(day(2023, 1, 1), day(2023, 1, 7)).unwrap();
    assert_eq!((img.width(), img.height()), (50, 122));
    // Sunday 1 January: no contributions, top-left cell.
    assert_eq!(img.get_pixel(21, 21), NONE);
    assert_eq!(img.get_pixel(28, 28), NONE);
    // Rounded-off corners show the background.
    assert_eq!(img.get_pixel(20, 20), CLEAR);
    assert_eq!(img.get_pixel(29, 20), CLEAR);
    assert_eq!(img.get_pixel(20, 29), CLEAR);
    assert_eq!(img.get_pixel(29, 29), CLEAR);
    // Tuesday 3 January: 7 contributions, third row.
    assert_eq!(img.get_pixel(25, 20 + 2 * 12 + 5), SOME);
    // Wednesday 4 January: 30 contributions, darkest colour.
    assert_eq!(img.get_pixel(25, 20 + 3 * 12 + 5), Rgba([33, 110, 57, 255]));
    // Gaps and margins stay background.
    assert_eq!(img.get_pixel(30, 25), CLEAR);
    assert_eq!(img.get_pixel(25, 30), CLEAR);
    assert_eq!(img.get_pixel(0, 0), CLEAR);
    assert_eq!(img.get_pixel(49, 121), CLEAR);
}

#[test]
fn square_corners_keep_the_cell_colour() {
    let graph = week_graph().round_corners(false).background_color(Rgba([1, 2, 3, 4]));
    let img = graph.render(day(2023, 1, 1), day(2023, 1, 7)).unwrap();
    assert_eq!(img.get_pixel(20, 20), NONE);
    assert_eq!(img.get_pixel(29, 29), NONE);
    assert_eq!(img.get_pixel(0, 0), Rgba([1, 2, 3, 4]));
}

#[test]
fn transparent_cells_keep_their_corners() {
    let palette = contribution_grid::Palette::new(vec![CLEAR, SOME], ThresholdStrategy::new(vec![1]));
    let graph = ContributionGraph::new(palette).background_color(Rgba([9, 9, 9, 255]));
    let img = graph.render(day(2023, 1, 1), day(2023, 1, 1)).unwrap();
    assert_eq!(img.get_pixel(20, 20), CLEAR);
    assert_eq!(img.get_pixel(25, 25), CLEAR);
    assert_eq!(img.get_pixel(5, 5), Rgba([9, 9, 9, 255]));
}

#[test]
fn bytes_are_rows_of_rgba_pixels() {
    let graph = week_graph();
    let img = graph.render(day(2023, 1, 1), day(2023, 1, 7)).unwrap();
    let width = img.width() as usize;
    let pixel = img.get_pixel(25, 44 + 5);
    let bytes = img.into_rgba_bytes();
    assert_eq!(bytes.len(), 4 * 50 * 122);
    let at = 4 * (49 * width + 25);
    assert_eq!(&bytes[at..at + 4], &pixel.0);
}

#[test]
fn counts_beyond_the_thresholds_take_the_last_colour() {
    let mut data = HashMap::new();
    data.insert(day(2023, 1, 3).day_number(), 100);
    let graph = ContributionGraph::new(Theme::github(Strategy::threshold(vec![1, 2, 3, 4, 5, 6])))
        .with_data(data);
    let img = graph.render(day(2023, 1, 1), day(2023, 1, 7)).unwrap();
    assert_eq!(img.get_pixel(25, 20 + 2 * 12 + 5), Rgba([33, 110, 57, 255]));
}

#[test]
fn an_empty_palette_gives_no_image_where_there_is_a_day() {
    let palette = contribution_grid::Palette::new(vec![], ThresholdStrategy::new(vec![1]));
    let graph = ContributionGraph::new(palette);
    assert!(graph.render(day(2023, 1, 1), day(2023, 1, 1)).is_none());
    assert!(graph.render(day(2023, 1, 2), day(2023, 1, 1)).is_some());
}

#[test]
fn a_zero_cell_size_gives_no_image() {
    let graph = week_graph().box_size(0);
    assert!(graph.render(day(2023, 1, 1), day(2023, 1, 7)).is_none());
    // With no day to draw there is no cell to fail on.
    assert!(graph.render(day(2023, 1, 7), day(2023, 1, 1)).is_some());
}

#[test]
fn drawing_up_to_the_last_date_gives_no_image() {
    let graph = week_graph();
    let last = Date::from_day_number(MAX_DAY).unwrap();
    let before = Date::from_day_number(MAX_DAY - 3).unwrap();
    assert!(graph.render(before, last).is_none());
    let earlier = Date::from_day_number(MAX_DAY - 1).unwrap();
    assert!(graph.render(before, earlier).is_some());
}

#[test]
fn an_overflowing_size_gives_no_image() {
    let graph = week_graph().margin(u32::MAX / 2 + 1);
    assert!(graph.render(day(2023, 1, 1), day(2023, 1, 7)).is_none());
    let graph = week_graph().box_size(u32::MAX);
    assert!(graph.render(day(2023, 1, 1), day(2023, 1, 7)).is_none());
}

#[test]
fn generate_draws_the_date_range() {
    let graph = week_graph().start_date(day(2023, 1, 1)).end_date(day(2023, 1, 7));
    let img = graph.generate().unwrap();
    assert_eq!((img.width(), img.height()), (50, 122));
    assert_eq!(img.get_pixel(25, 20 + 2 * 12 + 5), SOME);
}

#[test]
fn generate_uses_the_data_span() {
    let graph = week_graph();
    let img = graph.generate().unwrap();
    // 3 January is a Tuesday: the grid starts in its week, one column.
    assert_eq!((img.width(), img.height()), (50, 122));
    assert_eq!(img.get_pixel(25, 20 + 2 * 12 + 5), SOME);
    assert_eq!(img.get_pixel(25, 25), CLEAR);
}
