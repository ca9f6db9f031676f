use chrono::Datelike;
use contribution_grid::ContributionGraph;
use contribution_grid::Date;
use contribution_grid::Rgba;
use contribution_grid::Strategy;
use contribution_grid::Theme;
use std::collections::HashMap;

fn plain_graph() -> ContributionGraph<contribution_grid::ThresholdStrategy> {
    ContributionGraph::new(Theme::github(Strategy::threshold(vec![1, 5, 10, 20])))
}

#[test]
fn test_date_range_calculation() {
    let graph = plain_graph();
    let (start, end) = graph.calculate_date_range().unwrap();
    let year = chrono::Utc::now().naive_utc().year();
    assert_eq!(start, Date::from_ymd(year, 1, 1).unwrap());
    assert_eq!(end, Date::from_ymd(year, 12, 31).unwrap());
}

#[test]
fn test_dimensions_calculation() {
    let start = Date::from_ymd(2023, 1, 1).unwrap();
    let end = Date::from_ymd(2023, 1, 7).unwrap();
    let graph = plain_graph().box_size(10).gap(2).margin(20);
    let (width, height) = graph.calculate_dimensions(start, end);
    assert_eq!(width, 50);
    assert_eq!(height, 122);
}

fn day(y: i32, m: u32, d: u32) -> Date {
    Date::from_ymd(y, m, d).unwrap()
}

#[test]
fn explicit_dates_are_the_range() {
    let graph = plain_graph().start_date(day(2023, 3, 5)).end_date(day(2023, 2, 1));
    assert_eq!(graph.calculate_date_range().unwrap(), (day(2023, 3, 5), day(2023, 2, 1)));
}

#[test]
fn data_gives_the_range_where_dates_are_missing() {
    let mut data = HashMap::new();
    data.insert(day(2023, 1, 1).day_number(), 5);
    data.insert(day(2023, 1, 2).day_number(), 12);
    data.insert(day(2022, 11, 30).day_number(), 1);
    let graph = plain_graph().with_data(data);
    assert_eq!(graph.calculate_date_range().unwrap(), (day(2022, 11, 30), day(2023, 1, 2)));
    let graph = graph.end_date(day(2024, 1, 1));
    assert_eq!(graph.calculate_date_range().unwrap(), (day(2022, 11, 30), day(2024, 1, 1)));
}

#[test]
fn default_dimensions_of_a_year() {
    let graph = plain_graph();
    let (width, height) = graph.calculate_dimensions(day(2023, 1, 1), day(2023, 12, 31));
    assert_eq!(width, 40 + 53 * 14 - 3);
    assert_eq!(height, 40 + 7 * 14 - 3);
}

#[test]
fn dimensions_count_the_weekday_of_the_start() {
    let graph = plain_graph().box_size(10).gap(2).margin(20);
    let (width, _) = graph.calculate_dimensions(day(2023, 1, 7), day(2023, 1, 8));
    assert_eq!(width, 40 + 2 * 12 - 2);
    let (width, _) = graph.calculate_dimensions(day(2023, 1, 8), day(2023, 1, 7));
    assert_eq!(width, 40 - 2);
}

#[test]
fn coordinates_follow_weeks_and_weekdays() {
    let graph = plain_graph().box_size(10).gap(2).margin(20);
    let start = day(2023, 1, 4);
    assert_eq!(graph.get_coordinates(start, start), (20, 20 + 3 * 12));
    assert_eq!(graph.get_coordinates(day(2023, 1, 7), start), (20, 20 + 6 * 12));
    assert_eq!(graph.get_coordinates(day(2023, 1, 8), start), (32, 20));
    assert_eq!(graph.get_coordinates(day(2023, 1, 17), start), (44, 20 + 2 * 12));
    assert_eq!(graph.get_coordinates(day(2023, 1, 1), start), (20, 20));
}

#[test]
fn every_day_of_a_year_gets_its_own_cell_on_the_image() {
    let graph = plain_graph();
    let start = day(2024, 1, 1);
    let end = day(2024, 12, 31);
    let (width, height) = graph.calculate_dimensions(start, end);
    let mut seen = std::collections::HashSet::new();
    for n in start.day_number()..=end.day_number() {
        let (x, y) = graph.get_coordinates(Date::from_day_number(n).unwrap(), start);
        assert!(x >= 0 && y >= 0);
        assert!(x as u32 + 11 <= width && y as u32 + 11 <= height);
        assert!(seen.insert((x, y)));
    }
}

#[test]
fn an_empty_graph_shows_the_whole_given_year() {
    let graph = plain_graph();
    assert_eq!(graph.date_range_in_year(2023), (day(2023, 1, 1), day(2023, 12, 31)));
    assert_eq!(graph.date_range_in_year(2024), (day(2024, 1, 1), day(2024, 12, 31)));
    let graph = graph.start_date(day(2020, 5, 5));
    assert_eq!(graph.date_range_in_year(2024), (day(2020, 5, 5), day(2024, 12, 31)));
}

#[test]
fn generate_in_year_falls_back_on_that_year() {
    let graph = plain_graph();
    let img = graph.generate_in_year(2024).unwrap();
    // 1 January 2024 is a Monday and the year has 366 days: 53 weeks.
    assert_eq!((img.width(), img.height()), (40 + 53 * 14 - 3, 40 + 7 * 14 - 3));
    let year = chrono::Utc::now().naive_utc().year();
    let now = graph.generate().unwrap();
    let then = graph.generate_in_year(year).unwrap();
    assert_eq!((now.width(), now.height()), (then.width(), then.height()));
    assert_eq!(now.into_rgba_bytes(), then.into_rgba_bytes());
}

#[test]
fn setting_the_defaults_again_changes_nothing() {
    let mut data = HashMap::new();
    data.insert(day(2024, 3, 5).day_number(), 4);
    data.insert(day(2024, 7, 1).day_number(), 12);
    let fresh = plain_graph().with_data(data.clone());
    let chained = plain_graph()
        .with_data(data)
        .box_size(11)
        .gap(3)
        .margin(20)
        .theme(Theme::github(Strategy::threshold(vec![1, 5, 10, 20])))
        .background_color(Rgba([0, 0, 0, 0]))
        .round_corners(true);
    assert_eq!(fresh.calculate_date_range(), chained.calculate_date_range());
    assert_eq!(fresh.calculate_date_range().unwrap(), (day(2024, 3, 5), day(2024, 7, 1)));
    let a = fresh.generate_in_year(2024).unwrap();
    let b = chained.generate_in_year(2024).unwrap();
    assert_eq!((a.width(), a.height()), (b.width(), b.height()));
    assert_eq!(a.into_rgba_bytes(), b.into_rgba_bytes());
}
