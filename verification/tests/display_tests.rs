use apk_installer::command::{bridge_program, install_arguments, list_arguments};
use apk_installer::display::{decimal, device_summary, status_label, status_line, status_lines};
use apk_installer::error::InstallError;
use apk_installer::progress::{ProgressRecord, ProgressTable, Status};
use apk_installer::state::InstallerState;
use apk_installer::worker::{Stage, WorkerEvent};

fn record(device: &str, status: Status, indicator: &str) -> ProgressRecord {
    ProgressRecord {
        device_id: device.to_string(),
        status,
        phase_indicator: indicator.to_string(),
    }
}

#[test]
fn status_labels() {
    assert_eq!(status_label(&Status::Pending), "Pending");
    assert_eq!(status_label(&Status::Installing), "Installing");
    assert_eq!(status_label(&Status::Succeeded), "Installed Success");
    assert_eq!(status_label(&Status::Failed("device offline".to_string())), "Failed: device offline");
}

#[test]
fn status_line_of_each_status() {
    assert_eq!(status_line(&record("ABC123", Status::Installing, "...")), "ABC123: Installing...");
    assert_eq!(status_line(&record("ABC123", Status::Succeeded, "")), "ABC123: Installed Success");
    assert_eq!(status_line(&record("X", Status::Failed("no".to_string()), "")), "X: Failed: no");
    assert_eq!(status_line(&record("", Status::Pending, "")), ": Pending");
}

#[test]
fn status_lines_follow_the_table() {
    let mut table = ProgressTable::new();
    assert_eq!(status_lines(&table), Vec::<String>::new());
    table.upsert(record("A", Status::Installing, ".."));
    table.upsert(record("B", Status::Succeeded, ""));
    assert_eq!(status_lines(&table), vec!["A: Installing..", "B: Installed Success"]);
}

#[test]
fn decimal_numbers() {
    assert_eq!(decimal(0), "0");
    assert_eq!(decimal(7), "7");
    assert_eq!(decimal(9), "9");
    assert_eq!(decimal(10), "10");
    assert_eq!(decimal(1234567890), "1234567890");
    assert_eq!(decimal(usize::MAX), format!("{}", usize::MAX));
}

#[test]
fn device_summaries() {
    assert_eq!(device_summary(0), "No devices detected.");
    assert_eq!(device_summary(1), "1 device(s) detected.");
    assert_eq!(device_summary(12), "12 device(s) detected.");
}

#[test]
fn new_state_is_empty() {
    let state = InstallerState::new();
    assert_eq!(state.apk_path, "");
    assert!(state.devices.is_empty());
    assert_eq!(state.device_message, "");
    assert_eq!(state.apk_message, "");
}

#[test]
fn picked_file_becomes_the_selection() {
    let mut state = InstallerState::new();
    state.find_apk_files(Some("/tmp/app.apk".to_string()));
    assert_eq!(state.apk_path, "/tmp/app.apk");
    assert_eq!(state.apk_message, "Selected APK: /tmp/app.apk");
}

#[test]
fn cancelled_pick_leaves_the_selection() {
    let mut state = InstallerState::new();
    state.find_apk_files(Some("/tmp/app.apk".to_string()));
    state.find_apk_files(None);
    assert_eq!(state.apk_path, "/tmp/app.apk");
    assert_eq!(state.apk_message, "Selected APK: /tmp/app.apk");
}

#[test]
fn refresh_lists_the_ready_devices() {
    let mut state = InstallerState::new();
    state.refresh_devices(Ok("List of devices attached\nABC123\tdevice\nXYZ999\tunauthorized\nQ7\tdevice\n".to_string()));
    assert_eq!(state.devices, vec!["ABC123", "Q7"]);
    assert_eq!(state.device_message, "2 device(s) detected.");
    state.refresh_devices(Ok("List of devices attached\n".to_string()));
    assert!(state.devices.is_empty());
    assert_eq!(state.device_message, "No devices detected.");
}

#[test]
fn refresh_reports_a_tool_that_did_not_start() {
    let mut state = InstallerState::new();
    state.refresh_devices(Ok("h\nA\tdevice\n".to_string()));
    state.refresh_devices(Err("adb: not found".to_string()));
    assert_eq!(state.device_message, "Unable to query devices: adb: not found");
    assert_eq!(state.devices, vec!["A"]);
}

#[test]
fn install_without_a_package_is_rejected() {
    let mut state = InstallerState::new();
    state.refresh_devices(Ok("h\nA\tdevice\nB\tdevice\n".to_string()));
    let mut table = ProgressTable::new();
    table.upsert(record("old", Status::Succeeded, ""));
    let result = state.install_apk(&mut table);
    assert_eq!(result.err(), Some(InstallError::EmptyPackagePath));
    assert_eq!(state.apk_message, "APK path is empty");
    assert_eq!(table.snapshot(), vec![record("old", Status::Succeeded, "")]);
    assert_eq!(table.generation(), 0);
}

#[test]
fn install_hands_out_workers_for_the_listed_devices() {
    let mut state = InstallerState::new();
    state.refresh_devices(Ok("h\nA\tdevice\nB\tdevice\n".to_string()));
    state.find_apk_files(Some("/tmp/app.apk".to_string()));
    let mut table = ProgressTable::new();
    table.upsert(record("old", Status::Succeeded, ""));
    let mut workers = state.install_apk(&mut table).unwrap();
    assert!(table.is_empty());
    assert_eq!(workers.len(), 2);
    assert_eq!(workers[0].device_id(), "A");
    assert_eq!(workers[1].device_id(), "B");
    assert_eq!(workers[1].package_path(), "/tmp/app.apk");
    assert_eq!(workers[1].stage(), Stage::Created);
    assert_eq!(state.apk_message, "Selected APK: /tmp/app.apk");
    workers[1].step(&mut table, WorkerEvent::Started);
    assert_eq!(status_lines(&table), vec!["B: Installing"]);
    workers[1].step(&mut table, WorkerEvent::Continued);
    assert_eq!(status_lines(&table), vec!["B: Installing."]);
}

#[test]
fn default_state_is_the_new_state() {
    let state = InstallerState::default();
    assert_eq!(state.apk_path, "");
    assert!(state.devices.is_empty());
    assert_eq!(state.device_message, "");
    assert_eq!(state.apk_message, "");
    let table = ProgressTable::default();
    assert!(table.is_empty());
    assert_eq!(table.generation(), 0);
}

#[test]
fn bridge_commands() {
    assert_eq!(bridge_program(), "adb");
    assert_eq!(list_arguments(), vec!["devices"]);
    assert_eq!(
        install_arguments(&"ABC123".to_string(), &"/tmp/app.apk".to_string()),
        vec!["-s", "ABC123", "install", "/tmp/app.apk"]
    );
}

#[test]
fn pacing_constants() {
    assert_eq!(apk_installer::worker::PACING_TICKS, 3);
    assert_eq!(apk_installer::worker::PAUSE_SECONDS, 1);
}
