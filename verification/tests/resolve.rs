use fan_control::config::{AdvancedSpeedMap, FanMap};
use fan_control::resolve::{find_fan_map, resolve, ResolvedAction};

fn plain_row(id: u8) -> FanMap {
    FanMap {
        id,
        static_fan_map: None,
        dynamic_cpu_chip: None,
        dynamic_fan_speed_map: None,
        advanced_speed_map: None,
    }
}

fn curve_name(action: ResolvedAction) -> String {
    match action {
        ResolvedAction::UseCurve(name) => name,
        _ => panic!("expected a curve"),
    }
}

#[test]
fn static_duty_wins_over_everything() {
    let row = FanMap {
        id: 1,
        static_fan_map: Some(80),
        dynamic_cpu_chip: Some("coretemp".to_owned()),
        dynamic_fan_speed_map: Some("cpu".to_owned()),
        advanced_speed_map: None,
    };
    let a = resolve(Some(&row), &"coretemp".to_owned(), 70);
    assert!(matches!(a, ResolvedAction::Static(80)));
    let b = resolve(Some(&row), &"other".to_owned(), 0);
    assert!(matches!(b, ResolvedAction::Static(80)));
}

#[test]
fn named_curve_only_on_its_own_chip() {
    let row = FanMap {
        id: 2,
        static_fan_map: None,
        dynamic_cpu_chip: Some("coretemp".to_owned()),
        dynamic_fan_speed_map: Some("cpu".to_owned()),
        advanced_speed_map: None,
    };
    let a = resolve(Some(&row), &"other".to_owned(), 70);
    assert!(matches!(a, ResolvedAction::Skip));
    let b = resolve(Some(&row), &"coretemp".to_owned(), 70);
    assert_eq!(curve_name(b), "cpu");
}

#[test]
fn missing_row_is_unconfigured() {
    let a = resolve(None, &"coretemp".to_owned(), 70);
    assert!(matches!(a, ResolvedAction::Unconfigured));
}

#[test]
fn incomplete_dynamic_policy_yields_nothing() {
    let mut no_chip = plain_row(4);
    no_chip.dynamic_fan_speed_map = Some("cpu".to_owned());
    let a = resolve(Some(&no_chip), &"coretemp".to_owned(), 70);
    assert!(matches!(a, ResolvedAction::Skip));

    let mut chip_only = plain_row(5);
    chip_only.dynamic_cpu_chip = Some("coretemp".to_owned());
    let b = resolve(Some(&chip_only), &"coretemp".to_owned(), 70);
    assert!(matches!(b, ResolvedAction::Skip));
}

#[test]
fn named_curve_wins_over_advanced_map() {
    let mut row = plain_row(6);
    row.dynamic_cpu_chip = Some("coretemp".to_owned());
    row.dynamic_fan_speed_map = Some("cpu".to_owned());
    row.advanced_speed_map = Some(vec![AdvancedSpeedMap {
        speed_map: "low".to_owned(),
        refer: 0,
    }]);
    let a = resolve(Some(&row), &"coretemp".to_owned(), 70);
    assert_eq!(curve_name(a), "cpu");
}

#[test]
fn advanced_map_selects_by_temperature() {
    let mut row = plain_row(7);
    row.dynamic_cpu_chip = Some("coretemp".to_owned());
    row.advanced_speed_map = Some(vec![
        AdvancedSpeedMap { speed_map: "low".to_owned(), refer: 30 },
        AdvancedSpeedMap { speed_map: "mid".to_owned(), refer: 60 },
    ]);
    let a = resolve(Some(&row), &"coretemp".to_owned(), 59);
    assert_eq!(curve_name(a), "low");
    let b = resolve(Some(&row), &"coretemp".to_owned(), 60);
    assert_eq!(curve_name(b), "mid");
}

#[test]
fn advanced_map_below_every_threshold_yields_empty_name() {
    let mut row = plain_row(8);
    row.dynamic_cpu_chip = Some("coretemp".to_owned());
    row.advanced_speed_map = Some(vec![AdvancedSpeedMap {
        speed_map: "low".to_owned(),
        refer: 30,
    }]);
    let a = resolve(Some(&row), &"coretemp".to_owned(), 10);
    assert_eq!(curve_name(a), "");
}

#[test]
fn first_row_with_the_fan_id_governs() {
    let mut first = plain_row(3);
    first.static_fan_map = Some(10);
    let mut second = plain_row(3);
    second.static_fan_map = Some(20);
    let rows = vec![plain_row(1), first, second];
    let found = find_fan_map(&rows, 3);
    assert_eq!(found, Some(1));
    let a = resolve(Some(&rows[1]), &"coretemp".to_owned(), 70);
    assert!(matches!(a, ResolvedAction::Static(10)));
}

#[test]
fn no_row_with_the_fan_id() {
    let rows = vec![plain_row(1), plain_row(2)];
    assert_eq!(find_fan_map(&rows, 9), None);
}
