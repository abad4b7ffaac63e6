use tigo_exporter::files::{data_name, get_newest_csv_file, is_eligible, FileEntry};

fn entry(name: &str, is_file: bool, modified: i128) -> FileEntry {
    FileEntry { name: name.to_string(), is_file, modified }
}

#[test]
fn data_names_end_with_the_extension() {
    assert!(data_name("daqs.csv"));
    assert!(data_name(".csv"));
    assert!(data_name("a.b.csv"));
    assert!(data_name("données.csv"));
    assert!(!data_name("csv"));
    assert!(!data_name("daqs.CSV"));
    assert!(!data_name("daqs.csv.gz"));
    assert!(!data_name("daqs.csv "));
    assert!(!data_name("daqscsv"));
    assert!(!data_name(""));
}

#[test]
fn only_regular_files_with_the_extension_are_eligible() {
    assert!(is_eligible(&entry("a.csv", true, 0)));
    assert!(!is_eligible(&entry("a.csv", false, 0)));
    assert!(!is_eligible(&entry("a.txt", true, 0)));
}

#[test]
fn the_newest_eligible_file_is_chosen() {
    let entries = vec![
        entry("old.csv", true, 100),
        entry("new.csv", true, 300),
        entry("mid.csv", true, 200),
    ];
    assert_eq!(get_newest_csv_file(&entries), Some(1));
}

#[test]
fn directories_and_other_files_are_passed_over() {
    let entries = vec![
        entry("old.csv", true, 100),
        entry("dir.csv", false, 900),
        entry("notes.txt", true, 800),
        entry("new.csv", true, 300),
        entry("log", true, 950),
    ];
    assert_eq!(get_newest_csv_file(&entries), Some(3));
}

#[test]
fn of_two_equally_new_files_the_later_entry_is_chosen() {
    let entries = vec![entry("a.csv", true, 5), entry("b.csv", true, 5), entry("c.csv", true, 1)];
    assert_eq!(get_newest_csv_file(&entries), Some(1));
}

#[test]
fn times_before_the_epoch_are_ordered_too() {
    let entries = vec![entry("a.csv", true, -5), entry("b.csv", true, -7)];
    assert_eq!(get_newest_csv_file(&entries), Some(0));
}

#[test]
fn no_eligible_file_gives_none() {
    assert_eq!(get_newest_csv_file(&Vec::new()), None);
    let entries = vec![entry("dir.csv", false, 1), entry("notes.txt", true, 2)];
    assert_eq!(get_newest_csv_file(&entries), None);
}
