use fan_control::config::AdvancedSpeedMap;
use fan_control::select::select;

fn rows(entries: &[(u8, &str)]) -> Vec<AdvancedSpeedMap> {
    let mut v = Vec::new();
    for &(refer, name) in entries {
        v.push(AdvancedSpeedMap { speed_map: name.to_owned(), refer });
    }
    v
}

#[test]
fn picks_largest_reached_threshold() {
    let m = rows(&[(30, "low"), (60, "mid"), (90, "high")]);
    assert_eq!(select(&m, 59).as_deref(), Some("low"));
    assert_eq!(select(&m, 60).as_deref(), Some("mid"));
    assert_eq!(select(&m, 200).as_deref(), Some("high"));
}

#[test]
fn below_every_threshold_selects_nothing() {
    let m = rows(&[(30, "low"), (60, "mid"), (90, "high")]);
    assert_eq!(select(&m, 29), None);
}

#[test]
fn later_row_wins_on_equal_thresholds() {
    let m = rows(&[(50, "a"), (50, "b")]);
    assert_eq!(select(&m, 50).as_deref(), Some("b"));
}

#[test]
fn row_order_does_not_change_the_winner() {
    let m = rows(&[(60, "mid"), (30, "low"), (90, "high")]);
    assert_eq!(select(&m, 59).as_deref(), Some("low"));
    assert_eq!(select(&m, 95).as_deref(), Some("high"));
}

#[test]
fn empty_map_selects_nothing() {
    let m = rows(&[]);
    assert_eq!(select(&m, 200), None);
}

#[test]
fn largest_threshold_at_the_top_of_the_range() {
    let m = rows(&[(0, "base"), (255, "max")]);
    assert_eq!(select(&m, 255).as_deref(), Some("max"));
    assert_eq!(select(&m, 254).as_deref(), Some("base"));
}

#[test]
fn threshold_zero_is_always_reached() {
    let m = rows(&[(0, "base")]);
    assert_eq!(select(&m, 0).as_deref(), Some("base"));
}
