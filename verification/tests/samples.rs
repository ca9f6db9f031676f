use contribution_grid::samples::MockData;
use contribution_grid::Date;

#[test]
fn heavy_activity_covers_the_year() {
    let data = MockData::heavy_activity(2023);
    assert_eq!(data.len(), 365);
    let jan15 = Date::from_ymd(2023, 1, 15).unwrap().day_number();
    assert_eq!(data.get(&jan15), Some(&10));
    let dec31 = Date::from_ymd(2023, 12, 31).unwrap().day_number();
    assert_eq!(data.get(&dec31), Some(&6));
    assert_eq!(data.get(&(dec31 + 1)), None);
    assert_eq!(MockData::heavy_activity(2024).len(), 366);
}

#[test]
fn weekend_warrior_works_weekends_only() {
    let data = MockData::weekend_warrior(2023);
    assert_eq!(data.len(), 105);
    let sunday = Date::from_ymd(2023, 1, 1).unwrap().day_number();
    let monday = Date::from_ymd(2023, 1, 2).unwrap().day_number();
    let saturday = Date::from_ymd(2023, 1, 7).unwrap().day_number();
    assert_eq!(data.get(&sunday), Some(&9));
    assert_eq!(data.get(&monday), None);
    assert_eq!(data.get(&saturday), Some(&10));
}

#[test]
fn random_draw_hashes_the_date_text() {
    // "2023-01-01": bytes sum to 483; 13 * 483 = 6279.
    let (percentile, count) = MockData::random_draw(Date::from_ymd(2023, 1, 1).unwrap());
    assert_eq!(percentile, 6279 % 100);
    assert_eq!(count, 6279 % 15 + 1);
}

#[test]
fn random_keeps_the_days_drawn_under_the_cutoff() {
    let data = MockData::random(2023, 40);
    let start = Date::from_ymd(2023, 1, 1).unwrap().day_number();
    let end = Date::from_ymd(2023, 12, 31).unwrap().day_number();
    let mut kept = 0;
    for day in start..=end {
        let (percentile, count) = MockData::random_draw(Date::from_day_number(day).unwrap());
        if percentile < 40 {
            kept += 1;
            assert_eq!(data.get(&day), Some(&count));
        } else {
            assert_eq!(data.get(&day), None);
        }
    }
    assert_eq!(data.len(), kept);
    assert!(kept > 0 && kept < 365);
    // "2023-01-01" hashes to 6279: percentile 79, count 10.
    assert_eq!(data.get(&start), None);
    assert_eq!(MockData::random(2023, 80).get(&start), Some(&10));
    assert_eq!(MockData::random(2023, 100).len(), 365);
    assert!(MockData::random(2023, 0).is_empty());
}
