use tigo_exporter::collector::{
    apply_last_row, poll, step, Action, Event, PollError, PollOutcome, Report,
    POLL_INTERVAL_SECONDS,
};
use tigo_exporter::field::FieldError;
use tigo_exporter::files::FileEntry;
use tigo_exporter::layout::Quantity;
use tigo_exporter::record::RecordError;
use tigo_exporter::snapshot::snapshot;
use tigo_exporter::state::MetricsState;
use tigo_exporter::table::{read_table, LastRow};

fn header(width: usize) -> String {
    let names: Vec<String> = (0..width).map(|i| format!("c{}", i)).collect();
    names.join(",")
}

fn line(width: usize, cells: &[(usize, &str)]) -> String {
    let mut fields = vec![String::new(); width];
    for (column, text) in cells {
        fields[*column] = text.to_string();
    }
    fields.join(",")
}

fn file(lines: &[String]) -> Vec<u8> {
    let mut text = lines.join("\n");
    text.push('\n');
    text.into_bytes()
}

fn value(state: &MetricsState, quantity: Quantity, module_index: usize) -> Option<f64> {
    state.family(quantity).get(module_index).map(|n| n.as_str().parse::<f64>().unwrap())
}

fn exported(state: &MetricsState) -> Vec<String> {
    let mut lines: Vec<String> = snapshot(state)
        .iter()
        .map(|s| {
            format!(
                "{}{{{}=\"{}\"}}={}",
                s.series,
                s.label_name,
                s.label_value,
                s.value.as_str().parse::<f64>().unwrap()
            )
        })
        .collect();
    lines.sort();
    lines
}

fn end_to_end_file() -> Vec<u8> {
    file(&[
        header(27),
        line(27, &[(1, "1600000000"), (3, "9.9"), (21, "-70")]),
        line(
            27,
            &[(1, "1700000000"), (3, "12.1"), (5, "35.2"), (9, "-60"), (14, "150.0"), (15, "11.9")],
        ),
    ])
}

#[test]
fn one_poll_of_a_file_with_two_modules() {
    let mut state = MetricsState::new();
    assert_eq!(poll(&mut state, &end_to_end_file()), PollOutcome::Applied);
    assert_eq!(value(&state, Quantity::Voltage, 1), Some(12.1));
    assert_eq!(value(&state, Quantity::Temperature, 1), Some(35.2));
    assert_eq!(value(&state, Quantity::Rssi, 1), Some(-60.0));
    assert_eq!(value(&state, Quantity::Power, 1), Some(150.0));
    assert_eq!(value(&state, Quantity::Voltage, 2), Some(11.9));
    assert_eq!(value(&state, Quantity::Temperature, 2), None);
    assert_eq!(value(&state, Quantity::Rssi, 2), None);
    assert_eq!(value(&state, Quantity::Power, 2), None);
    assert_eq!(state.timestamp.as_ref().unwrap().as_str().parse::<f64>().unwrap(), 1700000000.0);
}

#[test]
fn the_snapshot_after_one_poll() {
    let mut state = MetricsState::new();
    poll(&mut state, &end_to_end_file());
    assert_eq!(
        exported(&state),
        vec![
            "module_power{name=\"A1\"}=150".to_string(),
            "module_rssi{name=\"A1\"}=-60".to_string(),
            "module_temp{name=\"A1\"}=35.2".to_string(),
            "module_volts{name=\"A1\"}=12.1".to_string(),
            "module_volts{name=\"A2\"}=11.9".to_string(),
            "timestamp{local=\"cca\"}=1700000000".to_string(),
        ]
    );
    let samples = snapshot(&state);
    assert_eq!(samples.last().unwrap().series, "timestamp");
}

#[test]
fn the_snapshot_of_a_new_state_is_empty() {
    assert!(snapshot(&MetricsState::new()).is_empty());
}

#[test]
fn polling_the_same_file_twice_gives_the_same_state() {
    let mut state = MetricsState::new();
    poll(&mut state, &end_to_end_file());
    let once = exported(&state);
    assert_eq!(poll(&mut state, &end_to_end_file()), PollOutcome::Applied);
    assert_eq!(exported(&state), once);
}

#[test]
fn a_value_that_the_next_poll_lacks_leaves_the_snapshot() {
    let mut state = MetricsState::new();
    poll(&mut state, &end_to_end_file());
    let next = file(&[header(27), line(27, &[(1, "1700000010"), (3, "12.0"), (15, "11.8")])]);
    assert_eq!(poll(&mut state, &next), PollOutcome::Applied);
    assert_eq!(
        exported(&state),
        vec![
            "module_volts{name=\"A1\"}=12".to_string(),
            "module_volts{name=\"A2\"}=11.8".to_string(),
            "timestamp{local=\"cca\"}=1700000010".to_string(),
        ]
    );
}

#[test]
fn a_file_without_data_rows_leaves_the_state_as_it_was() {
    let mut state = MetricsState::new();
    poll(&mut state, &end_to_end_file());
    let before = exported(&state);
    assert_eq!(poll(&mut state, &file(&[header(27)])), PollOutcome::NoData);
    assert_eq!(exported(&state), before);
    assert_eq!(poll(&mut state, header(27).as_bytes()), PollOutcome::NoData);
    assert_eq!(exported(&state), before);
}

#[test]
fn an_empty_file_has_a_header_that_is_too_narrow() {
    let mut state = MetricsState::new();
    poll(&mut state, &end_to_end_file());
    let before = exported(&state);
    assert_eq!(
        poll(&mut state, b""),
        PollOutcome::Failed(PollError::Record(RecordError::NarrowHeader))
    );
    assert_eq!(
        poll(&mut state, b"a,b\n1,2\n"),
        PollOutcome::Failed(PollError::Record(RecordError::NarrowHeader))
    );
    assert_eq!(exported(&state), before);
}

#[test]
fn a_header_that_is_no_text_fails_the_poll() {
    let mut state = MetricsState::new();
    let outcome = poll(&mut state, b"a,\xff\xfe,c\n,1,\n");
    assert_eq!(outcome, PollOutcome::Failed(PollError::UnreadableHeader));
    assert!(exported(&state).is_empty());
}

#[test]
fn a_last_row_of_another_width_fails_the_poll() {
    let mut state = MetricsState::new();
    poll(&mut state, &end_to_end_file());
    let before = exported(&state);
    let data = file(&[header(27), line(27, &[(1, "5"), (3, "1")]), line(26, &[(1, "6"), (3, "2")])]);
    assert_eq!(poll(&mut state, &data), PollOutcome::Failed(PollError::MalformedRow));
    assert_eq!(exported(&state), before);
}

#[test]
fn a_last_row_that_is_no_text_fails_the_poll() {
    let mut state = MetricsState::new();
    let mut data = file(&[header(3)]);
    data.extend_from_slice(b",1,\n,\xff,\n");
    assert_eq!(poll(&mut state, &data), PollOutcome::Failed(PollError::MalformedRow));
    assert!(state.timestamp.is_none());
}

#[test]
fn only_the_last_row_counts() {
    let mut state = MetricsState::new();
    let data = file(&[
        header(15),
        line(14, &[(1, "1")]),
        line(15, &[(1, "oops"), (3, "x")]),
        line(15, &[(1, "3"), (3, "7.5")]),
    ]);
    assert_eq!(poll(&mut state, &data), PollOutcome::Applied);
    assert_eq!(value(&state, Quantity::Voltage, 1), Some(7.5));
}

#[test]
fn a_field_that_is_no_number_fails_the_poll_and_applies_nothing() {
    let mut state = MetricsState::new();
    poll(&mut state, &end_to_end_file());
    let before = exported(&state);
    let data = file(&[header(27), line(27, &[(1, "1700000020"), (3, "13.0"), (26, "high")])]);
    assert_eq!(
        poll(&mut state, &data),
        PollOutcome::Failed(PollError::Record(RecordError::Field {
            column: 26,
            error: FieldError::NotNumeric
        }))
    );
    assert_eq!(exported(&state), before);
}

#[test]
fn a_row_without_timestamp_fails_the_poll() {
    let mut state = MetricsState::new();
    let data = file(&[header(27), line(27, &[(3, "13.0")])]);
    assert_eq!(
        poll(&mut state, &data),
        PollOutcome::Failed(PollError::Record(RecordError::NoTimestamp))
    );
    assert!(exported(&state).is_empty());
}

#[test]
fn quoted_fields_are_read_as_the_table_gives_them() {
    let mut state = MetricsState::new();
    let data = b"a,b,c,d,e,f,g,h,i,j,k,l,m,n,o\n,\"1700000000\",,\"12.1\",,,,,,,,,,,\n";
    assert_eq!(poll(&mut state, data), PollOutcome::Applied);
    assert_eq!(value(&state, Quantity::Voltage, 1), Some(12.1));
}

#[test]
fn read_table_gives_the_header_width_and_the_last_row() {
    let table = read_table(b"a,b,c,d\n1,2,3,4\n5,6,7,8\n").unwrap();
    assert_eq!(table.header_width, 4);
    match table.last {
        LastRow::Fields(fields) => assert_eq!(fields, vec!["5", "6", "7", "8"]),
        _ => panic!("the table has a last row"),
    }
    let table = read_table(b"a,b,c,d\n").unwrap();
    assert_eq!(table.header_width, 4);
    assert!(matches!(table.last, LastRow::Nothing));
    let table = read_table(b"a,b,c,d\n1,2,3\n").unwrap();
    assert!(matches!(table.last, LastRow::Malformed));
    assert!(read_table(b"\xff\n1\n").is_none());
}

#[test]
fn apply_last_row_takes_the_row_as_plain_values() {
    let mut state = MetricsState::new();
    let mut fields = vec![String::new(); 15];
    fields[1] = "8".to_string();
    fields[14] = "99.5".to_string();
    assert_eq!(apply_last_row(&mut state, 15, &LastRow::Fields(fields)), PollOutcome::Applied);
    assert_eq!(value(&state, Quantity::Power, 1), Some(99.5));
    assert_eq!(apply_last_row(&mut state, 15, &LastRow::Nothing), PollOutcome::NoData);
    assert_eq!(
        apply_last_row(&mut state, 15, &LastRow::Malformed),
        PollOutcome::Failed(PollError::MalformedRow)
    );
    assert_eq!(
        apply_last_row(&mut state, 2, &LastRow::Nothing),
        PollOutcome::Failed(PollError::Record(RecordError::NarrowHeader))
    );
    assert_eq!(value(&state, Quantity::Power, 1), Some(99.5));
}

#[test]
fn the_collector_lists_when_it_wakes() {
    let mut state = MetricsState::new();
    assert_eq!(step(&mut state, &Event::Wake), Action::List);
}

#[test]
fn the_collector_reads_the_newest_file() {
    let mut state = MetricsState::new();
    let entries = vec![
        FileEntry { name: "a.csv".to_string(), is_file: true, modified: 1 },
        FileEntry { name: "b.csv".to_string(), is_file: true, modified: 2 },
        FileEntry { name: "c.txt".to_string(), is_file: true, modified: 3 },
    ];
    assert_eq!(step(&mut state, &Event::Listed(entries)), Action::Read(1));
}

#[test]
fn the_collector_terminates_without_an_eligible_file() {
    let mut state = MetricsState::new();
    assert_eq!(step(&mut state, &Event::Listed(Vec::new())), Action::Terminate);
    let entries = vec![
        FileEntry { name: "a.csv".to_string(), is_file: false, modified: 1 },
        FileEntry { name: "c.txt".to_string(), is_file: true, modified: 3 },
    ];
    assert_eq!(step(&mut state, &Event::Listed(entries)), Action::Terminate);
}

#[test]
fn the_collector_waits_after_a_file_that_cannot_be_opened() {
    let mut state = MetricsState::new();
    poll(&mut state, &end_to_end_file());
    let before = exported(&state);
    assert_eq!(step(&mut state, &Event::Unreadable), Action::Wait(Report::OpenFailed));
    assert_eq!(exported(&state), before);
}

#[test]
fn the_collector_polls_the_contents_and_waits() {
    let mut state = MetricsState::new();
    assert_eq!(
        step(&mut state, &Event::Contents(end_to_end_file())),
        Action::Wait(Report::Polled(PollOutcome::Applied))
    );
    assert_eq!(value(&state, Quantity::Voltage, 2), Some(11.9));
    assert_eq!(
        step(&mut state, &Event::Contents(b"a,b,c\n".to_vec())),
        Action::Wait(Report::Polled(PollOutcome::NoData))
    );
    assert_eq!(value(&state, Quantity::Voltage, 2), Some(11.9));
}

#[test]
fn the_poll_interval() {
    assert_eq!(POLL_INTERVAL_SECONDS, 10);
}
