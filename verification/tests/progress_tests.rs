use apk_installer::progress::{ProgressRecord, ProgressTable, Status};

fn record(device: &str, status: Status, indicator: &str) -> ProgressRecord {
    ProgressRecord {
        device_id: device.to_string(),
        status,
        phase_indicator: indicator.to_string(),
    }
}

#[test]
fn new_table_is_empty() {
    let table = ProgressTable::new();
    assert!(table.is_empty());
    assert_eq!(table.len(), 0);
    assert_eq!(table.generation(), 0);
    assert_eq!(table.snapshot(), Vec::<ProgressRecord>::new());
}

#[test]
fn upsert_adds_new_devices_at_the_end() {
    let mut table = ProgressTable::new();
    table.upsert(record("A", Status::Pending, ""));
    table.upsert(record("B", Status::Installing, "."));
    assert_eq!(table.len(), 2);
    assert!(!table.is_empty());
    assert_eq!(
        table.snapshot(),
        vec![record("A", Status::Pending, ""), record("B", Status::Installing, ".")]
    );
}

#[test]
fn upsert_replaces_in_place() {
    let mut table = ProgressTable::new();
    table.upsert(record("A", Status::Installing, "."));
    table.upsert(record("B", Status::Installing, "."));
    table.upsert(record("C", Status::Installing, "."));
    table.upsert(record("B", Status::Succeeded, ""));
    assert_eq!(
        table.snapshot(),
        vec![
            record("A", Status::Installing, "."),
            record("B", Status::Succeeded, ""),
            record("C", Status::Installing, "."),
        ]
    );
}

#[test]
fn one_record_per_device_however_often_it_is_written() {
    let mut table = ProgressTable::new();
    for _ in 0..5 {
        table.upsert(record("A", Status::Installing, ".."));
        table.upsert(record("B", Status::Failed("x".to_string()), ""));
    }
    assert_eq!(table.len(), 2);
}

#[test]
fn find_and_get() {
    let mut table = ProgressTable::new();
    table.upsert(record("A", Status::Installing, "."));
    table.upsert(record("B", Status::Failed("no".to_string()), ""));
    assert_eq!(table.find(&"A".to_string()), Some(0));
    assert_eq!(table.find(&"B".to_string()), Some(1));
    assert_eq!(table.find(&"C".to_string()), None);
    assert_eq!(table.get(&"B".to_string()), Some(record("B", Status::Failed("no".to_string()), "")));
    assert_eq!(table.get(&"".to_string()), None);
}

#[test]
fn clear_empties_and_keeps_the_generation() {
    let mut table = ProgressTable::new();
    table.upsert(record("A", Status::Succeeded, ""));
    let before = table.generation();
    table.clear();
    assert!(table.is_empty());
    assert_eq!(table.generation(), before);
}

#[test]
fn begin_run_empties_and_moves_to_the_next_generation() {
    let mut table = ProgressTable::new();
    table.upsert(record("A", Status::Succeeded, ""));
    assert_eq!(table.begin_run(), 1);
    assert!(table.is_empty());
    assert_eq!(table.generation(), 1);
    assert_eq!(table.begin_run(), 2);
    assert_eq!(table.generation(), 2);
}

#[test]
fn write_of_the_current_run_is_taken() {
    let mut table = ProgressTable::new();
    let run = table.begin_run();
    assert!(table.write(run, record("A", Status::Installing, ".")));
    assert_eq!(table.snapshot(), vec![record("A", Status::Installing, ".")]);
}

#[test]
fn write_of_another_run_is_discarded() {
    let mut table = ProgressTable::new();
    let earlier = table.begin_run();
    table.write(earlier, record("A", Status::Installing, "."));
    let current = table.begin_run();
    assert_ne!(earlier, current);
    assert!(!table.write(earlier, record("A", Status::Succeeded, "")));
    assert!(!table.write(current + 1, record("B", Status::Succeeded, "")));
    assert!(table.is_empty());
}

#[test]
fn snapshot_is_a_copy() {
    let mut table = ProgressTable::new();
    table.upsert(record("A", Status::Installing, "."));
    let seen = table.snapshot();
    table.upsert(record("A", Status::Succeeded, ""));
    assert_eq!(seen, vec![record("A", Status::Installing, ".")]);
    assert_eq!(table.snapshot(), vec![record("A", Status::Succeeded, "")]);
}

#[test]
fn terminal_statuses() {
    assert!(!Status::Pending.is_terminal());
    assert!(!Status::Installing.is_terminal());
    assert!(Status::Succeeded.is_terminal());
    assert!(Status::Failed("why".to_string()).is_terminal());
}

#[test]
fn clones_are_equal() {
    let first = record("A", Status::Failed("why".to_string()), "..");
    assert_eq!(first.clone(), first);
    assert_eq!(Status::Installing.clone(), Status::Installing);
}
