use keyd_host::active::ActiveDevices;
use keyd_host::device::KeydDeviceInfo;
use keyd_host::info::InfoMonitor;
use keyd_host::info::Sample;
use keyd_host::info::Snapshot;
use keyd_host::info::Variant;
use keyd_host::scan::Scanner;
use keyd_host::scan::SCAN_INTERVAL_MS;
use keyd_host::worker::display_name;
use keyd_host::worker::product_or_unknown;
use keyd_host::worker::Worker;
use keyd_host::worker::WorkerAction;
use keyd_host::worker::WorkerState;
use keyd_host::worker::AUDIO_REPORT_INTERVAL_MS;
use keyd_host::worker::SYSTEM_REPORT_INTERVAL_MS;

fn keyboard() -> KeydDeviceInfo {
    KeydDeviceInfo { vendor_id: 0xFC32, product_id: 0x0287, usage_page: 0xFF60, usage_id: 0x61 }
}

fn mouse() -> KeydDeviceInfo {
    KeydDeviceInfo { vendor_id: 0x046D, product_id: 0xC52B, usage_page: 0x0001, usage_id: 0x02 }
}

fn pad() -> KeydDeviceInfo {
    KeydDeviceInfo { vendor_id: 0xFC32, product_id: 0x0288, usage_page: 0xFF60, usage_id: 0x61 }
}

#[test]
fn scan_interval_is_one_second() {
    assert_eq!(SCAN_INTERVAL_MS, 1000);
}

#[test]
fn scanner_wants_exactly_its_list() {
    let scanner = Scanner::new(vec![keyboard(), pad()]);
    assert!(scanner.is_wanted(keyboard()));
    assert!(scanner.is_wanted(pad()));
    assert!(!scanner.is_wanted(mouse()));
    assert!(!Scanner::new(Vec::new()).is_wanted(keyboard()));
}

#[test]
fn a_device_must_agree_in_all_four_fields() {
    let scanner = Scanner::new(vec![keyboard()]);
    let d = keyboard();
    assert!(!scanner.is_wanted(KeydDeviceInfo { vendor_id: 0xFC31, ..d }));
    assert!(!scanner.is_wanted(KeydDeviceInfo { product_id: 0x0286, ..d }));
    assert!(!scanner.is_wanted(KeydDeviceInfo { usage_page: 0xFF00, ..d }));
    assert!(!scanner.is_wanted(KeydDeviceInfo { usage_id: 0x60, ..d }));
}

#[test]
fn matching_devices_are_picked_in_listing_order() {
    let scanner = Scanner::new(vec![keyboard(), pad()]);
    let visible = vec![mouse(), keyboard(), mouse(), pad(), keyboard()];
    assert_eq!(scanner.matching_devices(&visible), vec![1, 3, 4]);
    assert_eq!(scanner.matching_devices(&Vec::new()), Vec::<usize>::new());
    assert_eq!(scanner.matching_devices(&vec![mouse(), mouse()]), Vec::<usize>::new());
}

#[test]
fn unwanted_devices_are_never_opened_nor_served() {
    let scanner = Scanner::new(vec![keyboard()]);
    let visible = vec![mouse(), pad(), mouse()];
    assert!(scanner.matching_devices(&visible).is_empty());
    let mut active = ActiveDevices::new();
    assert!(scanner.scan_devices(&visible, &mut active).is_empty());
    assert!(active.is_empty());
}

#[test]
fn scan_claims_free_slots_of_wanted_devices() {
    let scanner = Scanner::new(vec![keyboard(), pad()]);
    let mut active = ActiveDevices::new();
    let opened = vec![pad(), mouse(), keyboard()];
    assert_eq!(scanner.scan_devices(&opened, &mut active), vec![0, 2]);
    assert_eq!(active.devices(), vec![pad(), keyboard()]);
}

#[test]
fn first_of_two_devices_with_one_identity_claims_the_slot() {
    let scanner = Scanner::new(vec![keyboard()]);
    let mut active = ActiveDevices::new();
    let opened = vec![keyboard(), keyboard(), keyboard()];
    assert_eq!(scanner.scan_devices(&opened, &mut active), vec![0]);
    assert_eq!(active.devices(), vec![keyboard()]);
}

#[test]
fn held_slot_is_not_claimed_again_by_later_scans() {
    let scanner = Scanner::new(vec![keyboard()]);
    let mut active = ActiveDevices::new();
    let opened = vec![keyboard()];
    assert_eq!(scanner.scan_devices(&opened, &mut active), vec![0]);
    for _ in 0..10 {
        assert!(scanner.scan_devices(&opened, &mut active).is_empty());
        assert_eq!(active.devices(), vec![keyboard()]);
    }
}

#[test]
fn device_that_could_not_be_opened_is_tried_in_the_next_scan() {
    let scanner = Scanner::new(vec![keyboard()]);
    let mut active = ActiveDevices::new();
    let visible = vec![keyboard()];
    assert_eq!(scanner.matching_devices(&visible), vec![0]);
    assert!(scanner.scan_devices(&Vec::new(), &mut active).is_empty());
    assert!(active.is_empty());
    assert_eq!(scanner.matching_devices(&visible), vec![0]);
    assert_eq!(scanner.scan_devices(&visible, &mut active), vec![0]);
}

#[test]
fn report_intervals() {
    assert_eq!(AUDIO_REPORT_INTERVAL_MS, 50);
    assert_eq!(SYSTEM_REPORT_INTERVAL_MS, 500);
    assert_eq!(Variant::Audio.report_interval_ms(), 50);
    assert_eq!(Variant::System.report_interval_ms(), 500);
}

#[test]
fn new_worker_runs() {
    let worker = Worker::new(keyboard(), Variant::System);
    assert!(worker.is_running());
    assert_eq!(worker.state, WorkerState::Running);
    assert_eq!(worker.descriptor, keyboard());
    assert_eq!(worker.variant, Variant::System);
}

#[test]
fn worker_goes_on_after_a_write_that_went_out() {
    let mut worker = Worker::new(keyboard(), Variant::System);
    let action = worker.on_write::<()>(Ok(34));
    assert_eq!(action, WorkerAction::Continue { bytes_written: 34, sleep_millis: 500 });
    assert!(worker.is_running());
    let mut fast = Worker::new(keyboard(), Variant::Audio);
    assert_eq!(
        fast.on_write::<()>(Ok(17)),
        WorkerAction::Continue { bytes_written: 17, sleep_millis: 50 }
    );
    assert_eq!(
        fast.on_write::<()>(Ok(0)),
        WorkerAction::Continue { bytes_written: 0, sleep_millis: 50 }
    );
    assert!(fast.is_running());
}

#[test]
fn worker_ends_at_the_first_failed_write() {
    let mut worker = Worker::new(keyboard(), Variant::System);
    worker.on_write::<&str>(Ok(34));
    let action = worker.on_write(Err("device is gone"));
    assert_eq!(action, WorkerAction::Release { descriptor: keyboard() });
    assert_eq!(worker.state, WorkerState::Terminated);
    assert!(!worker.is_running());
}

#[test]
fn ended_worker_releases_once_and_is_not_revived() {
    let mut worker = Worker::new(keyboard(), Variant::Audio);
    assert_eq!(worker.on_write(Err(1u8)), WorkerAction::Release { descriptor: keyboard() });
    assert_eq!(worker.on_write(Err(2u8)), WorkerAction::Halt);
    assert_eq!(worker.on_write::<u8>(Ok(17)), WorkerAction::Halt);
    assert_eq!(worker.state, WorkerState::Terminated);
    let snapshot = Snapshot::Audio { unix_time_seconds: 1, level: 2 };
    assert_eq!(worker.next_report(&snapshot), None);
}

#[test]
fn worker_sends_the_report_of_the_snapshot() {
    let worker = Worker::new(keyboard(), Variant::System);
    let snapshot = Snapshot::System { cpu_usage_percent: 37, mem_usage_percent: 52, process_count: 9 };
    let mut expected = vec![0x00u8, 0x66, 0x66, 37, 52];
    expected.resize(34, 0);
    assert_eq!(worker.next_report(&snapshot), Some(expected));
    let audio = Worker::new(keyboard(), Variant::Audio);
    let heard = Snapshot::Audio { unix_time_seconds: 2, level: 3 };
    assert_eq!(
        audio.next_report(&heard),
        Some(vec![0x00, 0xFF, 0xCC, 0x00, 0xAA, 2, 0, 0, 0, 0, 0, 0, 0, 3, 0, 0, 0])
    );
}

#[test]
fn display_name_is_the_product_name_in_small_letters() {
    assert_eq!(display_name::<()>(Ok(Some("KeyD Pad".to_string()))), "keyd pad");
    assert_eq!(display_name::<()>(Ok(Some("ÄÖÜ Board".to_string()))), "äöü board");
    assert_eq!(display_name::<()>(Ok(Some(String::new()))), "");
}

#[test]
fn display_name_falls_back_to_unknown() {
    assert_eq!(display_name::<()>(Ok(None)), "unknown");
    assert_eq!(display_name(Err("no answer")), "unknown");
    assert_eq!(product_or_unknown::<()>(Ok(None)), "unknown");
    assert_eq!(product_or_unknown(Err(5)), "unknown");
    assert_eq!(product_or_unknown::<()>(Ok(Some("KeyD Pad".to_string()))), "KeyD Pad");
}

#[test]
fn failed_write_frees_the_slot_for_the_next_scan() {
    let scanner = Scanner::new(vec![keyboard(), pad()]);
    let mut active = ActiveDevices::new();
    let opened = vec![keyboard(), pad()];
    assert_eq!(scanner.scan_devices(&opened, &mut active), vec![0, 1]);
    let mut worker = Worker::new(keyboard(), Variant::System);
    match worker.on_write(Err(())) {
        WorkerAction::Release { descriptor } => active.release(descriptor),
        _ => panic!("a failed write ends the worker"),
    }
    assert!(!active.contains(keyboard()));
    assert!(active.contains(pad()));
    assert_eq!(scanner.scan_devices(&opened, &mut active), vec![0]);
    assert_eq!(active.devices(), vec![pad(), keyboard()]);
}

#[test]
fn device_appears_fails_and_is_served_again() {
    let d = keyboard();
    let scanner = Scanner::new(vec![d]);
    let mut active = ActiveDevices::new();
    let mut monitor = InfoMonitor::for_variant(Variant::System);
    assert_eq!(monitor.begin_montioring(), 200);
    monitor.record(Sample::CpuUsage(37));
    monitor.record(Sample::MemUsage(52));

    let visible = vec![mouse(), d];
    let picks = scanner.matching_devices(&visible);
    assert_eq!(picks, vec![1]);
    let opened: Vec<KeydDeviceInfo> = picks.iter().map(|i| visible[*i]).collect();
    let spawned = scanner.scan_devices(&opened, &mut active);
    assert_eq!(spawned, vec![0]);
    let mut first = Worker::new(opened[spawned[0]], monitor.read().variant());
    assert_eq!(active.devices(), vec![d]);

    let mut writes = 0;
    for tick in 2..6 {
        for _ in 0..2 {
            let report = first.next_report(&monitor.read()).unwrap();
            assert_eq!(&report[..5], &[0x00, 0x66, 0x66, 37, 52]);
            assert_eq!(
                first.on_write::<()>(Ok(report.len())),
                WorkerAction::Continue { bytes_written: 34, sleep_millis: 500 }
            );
            writes += 1;
        }
        let again: Vec<KeydDeviceInfo> =
            scanner.matching_devices(&visible).iter().map(|i| visible[*i]).collect();
        assert!(scanner.scan_devices(&again, &mut active).is_empty(), "tick {}", tick);
        assert_eq!(active.len(), 1);
    }
    assert_eq!(writes, 8);

    let report = first.next_report(&monitor.read()).unwrap();
    assert_eq!(report.len(), 34);
    let action = first.on_write(Err("write failed"));
    assert_eq!(action, WorkerAction::Release { descriptor: d });
    assert!(!first.is_running());
    if let WorkerAction::Release { descriptor } = action {
        active.release(descriptor);
    }
    assert!(active.is_empty());

    let picks = scanner.matching_devices(&visible);
    let opened: Vec<KeydDeviceInfo> = picks.iter().map(|i| visible[*i]).collect();
    let spawned = scanner.scan_devices(&opened, &mut active);
    assert_eq!(spawned, vec![0]);
    let second = Worker::new(opened[spawned[0]], monitor.read().variant());
    assert!(second.is_running());
    assert_eq!(second.descriptor, d);
    assert_eq!(active.devices(), vec![d]);
    assert!(!first.is_running());
}
