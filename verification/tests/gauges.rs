use tigo_exporter::field::Number;
use tigo_exporter::gauges::{update_gauge, GaugeFamily};

fn number(text: &str) -> Number {
    Number::parse(text).unwrap()
}

fn value_of(family: &GaugeFamily, module_index: usize) -> Option<String> {
    family.get(module_index).map(|n| n.as_str().to_string())
}

#[test]
fn a_new_family_has_no_gauge() {
    let family = GaugeFamily::new();
    assert_eq!(family.len(), 0);
    assert!(family.get(1).is_none());
    assert!(family.gauges().is_empty());
}

#[test]
fn a_present_value_creates_the_gauge() {
    let mut family = GaugeFamily::new();
    update_gauge(&mut family, 1, Some(number("12.1")));
    assert_eq!(value_of(&family, 1), Some("12.1".to_string()));
    assert_eq!(family.len(), 1);
    assert!(family.get(2).is_none());
}

#[test]
fn a_present_value_overwrites_the_previous_one() {
    let mut family = GaugeFamily::new();
    update_gauge(&mut family, 1, Some(number("12.1")));
    update_gauge(&mut family, 1, Some(number("12.3")));
    assert_eq!(value_of(&family, 1), Some("12.3".to_string()));
    assert_eq!(family.len(), 1);
}

#[test]
fn an_absent_value_removes_the_gauge() {
    let mut family = GaugeFamily::new();
    update_gauge(&mut family, 1, Some(number("12.1")));
    update_gauge(&mut family, 2, Some(number("11.9")));
    update_gauge(&mut family, 1, None);
    assert!(family.get(1).is_none());
    assert_eq!(value_of(&family, 2), Some("11.9".to_string()));
    assert_eq!(family.len(), 1);
}

#[test]
fn an_absent_value_for_a_module_without_gauge_changes_nothing() {
    let mut family = GaugeFamily::new();
    update_gauge(&mut family, 2, Some(number("11.9")));
    update_gauge(&mut family, 7, None);
    assert_eq!(family.len(), 1);
    assert_eq!(value_of(&family, 2), Some("11.9".to_string()));
}

#[test]
fn set_and_remove_keep_the_other_modules() {
    let mut family = GaugeFamily::new();
    for index in 1usize..=5 {
        family.set(index, number(&format!("{}.5", index)));
    }
    family.remove(3);
    family.set(2, number("0"));
    assert_eq!(value_of(&family, 1), Some("1.5".to_string()));
    assert_eq!(value_of(&family, 2), Some("0".to_string()));
    assert_eq!(value_of(&family, 3), None);
    assert_eq!(value_of(&family, 4), Some("4.5".to_string()));
    assert_eq!(value_of(&family, 5), Some("5.5".to_string()));
    assert_eq!(family.len(), 4);
    let mut listed: Vec<usize> = family.gauges().iter().map(|g| g.module_index).collect();
    listed.sort();
    assert_eq!(listed, vec![1, 2, 4, 5]);
}

#[test]
fn a_gauge_may_belong_to_the_largest_index() {
    let mut family = GaugeFamily::new();
    update_gauge(&mut family, usize::MAX, Some(number("1")));
    assert_eq!(value_of(&family, usize::MAX), Some("1".to_string()));
}
