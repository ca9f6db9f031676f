use contribution_grid::MappingStrategy;
use contribution_grid::Rgba;
use contribution_grid::Strategy;
use contribution_grid::Theme;
use contribution_grid::ThresholdStrategy;

/// A linear percentile-based strategy, written here the way a user of the
/// library supplies a strategy of their own.
struct LinearStrategy;

impl MappingStrategy for LinearStrategy {
    fn spec_map(&self, count: u32, max_count: u32, num_colors: usize) -> usize {
        self.map(count, max_count, num_colors)
    }

    fn map(&self, count: u32, max_count: u32, num_colors: usize) -> usize {
        if count == 0 || max_count == 0 {
            return 0;
        }
        let ratio = count as f32 / max_count as f32;
        ((ratio * (num_colors - 1) as f32).round() as usize).min(num_colors - 1)
    }
}

#[test]
fn test_threshold_mapping() {
    let strategy = ThresholdStrategy::new(vec![1, 5, 10]);
    assert_eq!(strategy.map(0, 0, 4), 0);
    assert_eq!(strategy.map(3, 0, 4), 1);
    assert_eq!(strategy.map(8, 0, 4), 2);
    assert_eq!(strategy.map(15, 0, 4), 3);
}

#[test]
fn test_github_theme_colors() {
    let palette = Theme::github(LinearStrategy);
    assert_eq!(palette.get_color(0, 100), Rgba([235, 237, 240, 255]));
    assert_eq!(palette.get_color(100, 100), Rgba([33, 110, 57, 255]));
}

#[test]
fn threshold_ignores_max_count_and_keeps_to_the_palette() {
    let strategy = Strategy::threshold(vec![2, 4]);
    assert_eq!(strategy.map(3, 0, 9), 1);
    assert_eq!(strategy.map(3, 1000, 9), 1);
    assert_eq!(strategy.map(3, 0, 1), 0);
    assert_eq!(strategy.map(5, 0, 2), 1);
    let strategy = ThresholdStrategy::new(vec![1, 5, 10]);
    assert_eq!(strategy.map(15, 0, 2), 1);
    assert_eq!(strategy.map(15, 0, 0), 3);
}

#[test]
fn threshold_on_a_boundary_moves_up() {
    let strategy = ThresholdStrategy::new(vec![1, 5, 10]);
    assert_eq!(strategy.map(1, 0, 4), 1);
    assert_eq!(strategy.map(5, 0, 4), 2);
    assert_eq!(strategy.map(10, 0, 4), 3);
}

#[test]
fn threshold_with_no_thresholds_is_zero() {
    let strategy = ThresholdStrategy::new(vec![]);
    assert_eq!(strategy.map(0, 0, 4), 0);
    assert_eq!(strategy.map(u32::MAX, 0, 4), 0);
}

#[test]
fn threshold_takes_the_first_threshold_above_in_any_order() {
    let strategy = ThresholdStrategy::new(vec![10, 1, 5]);
    assert_eq!(strategy.map(3, 0, 4), 0);
    assert_eq!(strategy.map(12, 0, 4), 3);
}

#[test]
fn threshold_mapping_is_monotone_on_samples() {
    let strategy = ThresholdStrategy::new(vec![7, 2, 9, 4]);
    let mut previous = 0;
    for count in 0..20u32 {
        let index = strategy.map(count, 0, 5);
        assert!(index >= previous);
        assert!(index <= 4);
        previous = index;
    }
}

#[test]
fn palette_keeps_to_its_colours() {
    let palette = Theme::github(ThresholdStrategy::new(vec![1, 2, 3, 4, 5, 6]));
    assert_eq!(palette.num_colors(), 5);
    assert_eq!(palette.get_color(4, 0), Rgba([33, 110, 57, 255]));
    assert_eq!(palette.get_color(5, 0), Rgba([33, 110, 57, 255]));
    assert_eq!(palette.get_color(9, 0), Rgba([33, 110, 57, 255]));
}

#[test]
fn themes_have_their_colours() {
    let ramp = ThresholdStrategy::new(vec![1, 2, 3, 4, 5, 6]);
    let blue = Theme::blue(ramp);
    assert_eq!(blue.get_color(0, 0), Rgba([235, 237, 240, 255]));
    assert_eq!(blue.get_color(6, 0), Rgba([31, 29, 66, 255]));
    let red = Theme::red(ThresholdStrategy::new(vec![1, 2, 3, 4]));
    assert_eq!(red.get_color(2, 0), Rgba([255, 148, 133, 255]));
    let old = Theme::github_old(ThresholdStrategy::new(vec![1, 2, 3, 4]));
    assert_eq!(old.get_color(0, 0), Rgba([238, 238, 238, 255]));
    assert_eq!(old.get_color(3, 0), Rgba([35, 154, 59, 255]));
    let github = Theme::github(ThresholdStrategy::new(vec![1, 2, 3, 4]));
    assert_eq!(github.get_color(2, 0), Rgba([64, 196, 99, 255]));
}
