use tigo_exporter::field::Number;
use tigo_exporter::layout::Quantity;
use tigo_exporter::record::{extract, ModuleReading, RecordReadings};
use tigo_exporter::state::MetricsState;

fn number(text: &str) -> Option<Number> {
    if text.is_empty() {
        None
    } else {
        Some(Number::parse(text).unwrap())
    }
}

fn module(voltage: &str, rssi: &str, power: &str, temperature: &str) -> ModuleReading {
    ModuleReading {
        voltage: number(voltage),
        rssi: number(rssi),
        power: number(power),
        temperature: number(temperature),
    }
}

fn readings(modules: Vec<ModuleReading>, timestamp: &str) -> RecordReadings {
    RecordReadings { modules, timestamp: Number::parse(timestamp).unwrap() }
}

fn value(state: &MetricsState, quantity: Quantity, module_index: usize) -> Option<String> {
    state.family(quantity).get(module_index).map(|n| n.as_str().to_string())
}

fn dump(state: &MetricsState) -> Vec<(String, usize, String)> {
    let mut all = Vec::new();
    for quantity in [Quantity::Power, Quantity::Voltage, Quantity::Rssi, Quantity::Temperature] {
        for gauge in state.family(quantity).gauges() {
            all.push((
                quantity.series_name().to_string(),
                gauge.module_index,
                gauge.value.as_str().to_string(),
            ));
        }
    }
    if let Some(t) = &state.timestamp {
        all.push(("timestamp".to_string(), 0, t.as_str().to_string()));
    }
    all.sort();
    all
}

#[test]
fn a_new_state_is_empty() {
    let state = MetricsState::new();
    assert!(dump(&state).is_empty());
    assert!(state.timestamp.is_none());
}

#[test]
fn apply_sets_each_present_value_under_the_index_after_the_position() {
    let mut state = MetricsState::new();
    state.apply(&readings(
        vec![module("12.1", "-60", "150.0", "35.2"), module("11.9", "", "", "")],
        "1700000000",
    ));
    assert_eq!(value(&state, Quantity::Voltage, 1), Some("12.1".to_string()));
    assert_eq!(value(&state, Quantity::Rssi, 1), Some("-60".to_string()));
    assert_eq!(value(&state, Quantity::Power, 1), Some("150.0".to_string()));
    assert_eq!(value(&state, Quantity::Temperature, 1), Some("35.2".to_string()));
    assert_eq!(value(&state, Quantity::Voltage, 2), Some("11.9".to_string()));
    assert_eq!(value(&state, Quantity::Rssi, 2), None);
    assert_eq!(value(&state, Quantity::Power, 2), None);
    assert_eq!(value(&state, Quantity::Temperature, 2), None);
    assert_eq!(value(&state, Quantity::Voltage, 0), None);
    assert_eq!(state.timestamp.as_ref().unwrap().as_str(), "1700000000");
}

#[test]
fn applying_the_same_readings_twice_changes_nothing_more() {
    let record = readings(
        vec![module("12.1", "-60", "150.0", "35.2"), module("11.9", "", "", "")],
        "1700000000",
    );
    let mut state = MetricsState::new();
    state.apply(&readings(vec![module("1", "2", "3", "4"), module("5", "6", "7", "8")], "1"));
    state.apply(&record);
    let once = dump(&state);
    state.apply(&record);
    assert_eq!(dump(&state), once);
}

#[test]
fn a_value_that_is_absent_in_the_next_record_is_removed() {
    let mut state = MetricsState::new();
    state.apply(&readings(vec![module("12.1", "-60", "150.0", "35.2")], "1"));
    assert_eq!(value(&state, Quantity::Rssi, 1), Some("-60".to_string()));
    state.apply(&readings(vec![module("12.2", "", "151.0", "35.3")], "2"));
    assert_eq!(value(&state, Quantity::Rssi, 1), None);
    assert_eq!(value(&state, Quantity::Voltage, 1), Some("12.2".to_string()));
    assert_eq!(value(&state, Quantity::Power, 1), Some("151.0".to_string()));
    assert_eq!(value(&state, Quantity::Temperature, 1), Some("35.3".to_string()));
    assert_eq!(state.timestamp.as_ref().unwrap().as_str(), "2");
}

#[test]
fn modules_beyond_the_record_keep_their_gauges() {
    let mut state = MetricsState::new();
    state.apply(&readings(vec![module("1", "1", "1", "1"), module("2", "2", "2", "2")], "1"));
    state.apply(&readings(vec![module("3", "", "3", "3")], "2"));
    assert_eq!(value(&state, Quantity::Voltage, 2), Some("2".to_string()));
    assert_eq!(value(&state, Quantity::Rssi, 2), Some("2".to_string()));
    assert_eq!(value(&state, Quantity::Rssi, 1), None);
}

#[test]
fn apply_module_updates_the_four_families() {
    let mut state = MetricsState::new();
    state.apply_module(4, &module("1", "2", "3", "4"));
    state.apply_module(4, &module("", "5", "", "6"));
    assert_eq!(value(&state, Quantity::Voltage, 4), None);
    assert_eq!(value(&state, Quantity::Rssi, 4), Some("5".to_string()));
    assert_eq!(value(&state, Quantity::Power, 4), None);
    assert_eq!(value(&state, Quantity::Temperature, 4), Some("6".to_string()));
    assert!(state.timestamp.is_none());
}

#[test]
fn extracted_readings_apply_as_numbers() {
    let mut record = vec![String::new(); 27];
    record[1] = "1700000000".to_string();
    record[3] = "12.1".to_string();
    record[9] = "-60".to_string();
    let mut state = MetricsState::new();
    state.apply(&extract(27, &record).unwrap());
    let volts: f64 = value(&state, Quantity::Voltage, 1).unwrap().parse().unwrap();
    let rssi: f64 = value(&state, Quantity::Rssi, 1).unwrap().parse().unwrap();
    assert_eq!(volts, 12.1);
    assert_eq!(rssi, -60.0);
}
