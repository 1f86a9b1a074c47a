use controller_hub::battery::{convert_battery, Battery, BatteryMonitor};
use controller_hub::calibration::{CalibrationData, CALIBRATION_COUNT};
use controller_hub::listen::{ListenState, Report};
use controller_hub::registry::{Registry, WiimoteSerialNumber};
use controller_hub::report::{rate_block, remote_design, MotionPlusKind, RemoteDesign};
use controller_hub::wrapper::Wrapper;
use std::sync::mpsc;

fn serials(v: &[&str]) -> Vec<String> {
    v.iter().map(|s| s.to_string()).collect()
}

#[test]
fn battery_boundaries() {
    assert_eq!(convert_battery(0), Battery::Empty);
    assert_eq!(convert_battery(10), Battery::Empty);
    assert_eq!(convert_battery(11), Battery::Critical);
    assert_eq!(convert_battery(20), Battery::Critical);
    assert_eq!(convert_battery(21), Battery::Low);
    assert_eq!(convert_battery(40), Battery::Low);
    assert_eq!(convert_battery(41), Battery::Medium);
    assert_eq!(convert_battery(70), Battery::Medium);
    assert_eq!(convert_battery(71), Battery::Full);
    assert_eq!(convert_battery(255), Battery::Full);
}

#[test]
fn battery_event_only_on_change() {
    let mut m = BatteryMonitor::new();
    assert_eq!(m.observe(75), Some(Battery::Full));
    assert_eq!(m.observe(80), None);
    assert_eq!(m.observe(30), Some(Battery::Low));
    assert_eq!(m.observe(25), None);
    assert_eq!(m.observe(75), Some(Battery::Full));
}

#[test]
fn status_reports_debounce_battery() {
    let mut st: ListenState<u32, u32> = ListenState::new(None);
    let r = st.on_report(0, Report::Status { battery: 75 });
    assert!(r.rearm_streaming);
    assert_eq!(r.battery, Some(Battery::Full));
    let r = st.on_report(5, Report::Status { battery: 80 });
    assert!(r.rearm_streaming);
    assert_eq!(r.battery, None);
}

#[test]
fn new_device_on_empty_registry() {
    let reg: Registry<u8> = Registry::new();
    let plan = reg.plan_scan(&serials(&["A1"]));
    assert_eq!(plan.fresh, vec![0]);
    assert!(plan.removed.is_empty());
    assert!(plan.reconnect.is_empty());
}

#[test]
fn vanished_device_disconnected_and_kept() {
    let mut reg: Registry<u8> = Registry::new();
    assert!(reg.register("A1".to_string(), 1));
    assert!(reg.register("B2".to_string(), 2));
    let plan = reg.plan_scan(&serials(&["B2"]));
    assert_eq!(plan.removed, vec![0]);
    assert_eq!(plan.reconnect, vec![(0, 1)]);
    assert!(plan.fresh.is_empty());
    assert_eq!(reg.len(), 2);
    assert_eq!(reg.find(&"A1".to_string()), Some(0));
}

#[test]
fn returning_device_reconnects_without_new_entry() {
    let mut reg: Registry<u8> = Registry::new();
    assert!(reg.register("A1".to_string(), 7));
    let gone = reg.plan_scan(&serials(&[]));
    assert_eq!(gone.removed, vec![0]);
    let back = reg.plan_scan(&serials(&["A1"]));
    assert!(back.fresh.is_empty());
    assert_eq!(back.reconnect, vec![(0, 0)]);
    assert!(!reg.register("A1".to_string(), 8));
    assert_eq!(reg.len(), 1);
    assert_eq!(*reg.handle(0), 7);
}

#[test]
fn new_serial_announced_once() {
    let mut reg: Registry<u8> = Registry::new();
    let visible = serials(&["X", "Y", "X"]);
    let plan = reg.plan_scan(&visible);
    assert_eq!(plan.fresh, vec![0, 1]);
    for &j in &plan.fresh {
        assert!(reg.register(visible[j].clone(), j as u8));
    }
    let again = reg.plan_scan(&visible);
    assert!(again.fresh.is_empty());
    assert_eq!(again.reconnect, vec![(0, 0), (1, 1), (2, 0)]);
    assert_eq!(reg.serial(1), "Y");
}

#[test]
fn samples_before_settle_delay_not_counted() {
    let mut c: CalibrationData<u32, u32> = CalibrationData::new(Some(1));
    c.start_calibration_delayed(1000);
    assert_eq!(c.push_data(3000, 5), None);
    assert!(c.data.is_empty());
    assert_eq!(c.push_data(3001, 5), None);
    assert_eq!(c.data.len(), 1);
}

#[test]
fn fewer_than_window_never_calibrates() {
    let mut c: CalibrationData<u32, u32> = CalibrationData::new(Some(1));
    c.start_calibration_delayed(0);
    for k in 0..(CALIBRATION_COUNT as u64 - 1) {
        assert_eq!(c.push_data(2001 + k, k as u32), None);
    }
    assert_eq!(c.calibration, Some(1));
    assert_eq!(c.data.len(), CALIBRATION_COUNT - 1);
}

#[test]
fn full_window_one_attempt_after_trigger() {
    let mut st: ListenState<u32, u32> = ListenState::new(Some(1));
    let r = st.on_report(
        100,
        Report::Motion { calibrate_chord: true, reset_chord: false, sample: Some(9) },
    );
    assert!(r.calibrate.is_none());
    let mut attempts = 0;
    for k in 0..20u64 {
        let r = st.on_report(
            2101 + k,
            Report::Motion { calibrate_chord: false, reset_chord: false, sample: Some(k as u32) },
        );
        if let Some(window) = r.calibrate {
            attempts += 1;
            assert_eq!(window, (0..16).collect::<Vec<u32>>());
            assert!(st.calibration.data.is_empty());
        }
    }
    assert_eq!(attempts, 1);
    st.finish_calibration(Some(42));
    assert_eq!(st.calibration.reference(), Some(&42));
}

#[test]
fn failed_attempt_keeps_old_reference() {
    let mut c: CalibrationData<u32, u32> = CalibrationData::new(Some(3));
    c.finish_calibration(None);
    assert_eq!(c.reference(), Some(&3));
    c.finish_calibration(Some(4));
    assert_eq!(c.reference(), Some(&4));
}

#[test]
fn uncalibrated_device_drops_samples() {
    let mut st: ListenState<u32, u32> = ListenState::new(None);
    st.on_report(0, Report::Motion { calibrate_chord: true, reset_chord: false, sample: None });
    for k in 0..40u64 {
        let r = st.on_report(
            3000 + k,
            Report::Motion { calibrate_chord: false, reset_chord: false, sample: Some(1) },
        );
        assert!(r.calibrate.is_none());
    }
    assert!(st.calibration.data.is_empty());
}

#[test]
fn reset_chord_and_disconnect() {
    let mut st: ListenState<u32, u32> = ListenState::new(None);
    let r = st.on_report(0, Report::Motion { calibrate_chord: false, reset_chord: true, sample: None });
    assert!(r.reset);
    let r = st.on_report(1, Report::Other);
    assert!(!r.reset && !r.disconnected && !r.rearm_streaming);
    let r = st.on_report(2, Report::Disconnected);
    assert!(r.disconnected);
}

#[test]
fn status_request_every_ten_seconds() {
    let mut st: ListenState<u32, u32> = ListenState::new(None);
    assert!(st.status_request_due(0));
    assert!(!st.status_request_due(5000));
    assert!(!st.status_request_due(10000));
    assert!(st.status_request_due(10001));
    assert_eq!(st.last_status_request, Some(10001));
}

#[test]
fn rate_block_slices_payload() {
    let mut data = [0u8; 21];
    for (i, b) in data.iter_mut().enumerate() {
        *b = i as u8;
    }
    assert_eq!(rate_block(&data), [5, 6, 7, 8, 9, 10]);
}

#[test]
fn remote_design_by_extension() {
    assert_eq!(remote_design(None), RemoteDesign::Wiimote);
    assert_eq!(remote_design(Some(MotionPlusKind::Builtin)), RemoteDesign::WiimotePlus);
    assert_eq!(
        remote_design(Some(MotionPlusKind::External)),
        RemoteDesign::WiimoteExternalMotionPlus
    );
}

#[test]
fn poll_keeps_latest_only() {
    let (status_tx, status_rx) = mpsc::channel::<Vec<u8>>();
    let (server_tx, server_rx) = mpsc::channel::<u8>();
    let w = Wrapper::new(status_rx, server_rx);
    assert_eq!(w.poll_status(), None);
    status_tx.send(vec![1]).unwrap();
    status_tx.send(vec![2, 3]).unwrap();
    assert_eq!(w.poll_status(), Some(vec![2, 3]));
    assert_eq!(w.poll_status(), None);
    server_tx.send(4).unwrap();
    assert_eq!(w.poll_server(), Some(4));
}

#[test]
fn serial_number_equality() {
    let a = WiimoteSerialNumber("abc".to_string());
    assert_eq!(a.clone(), WiimoteSerialNumber("abc".to_string()));
    assert_ne!(a, WiimoteSerialNumber("abd".to_string()));
}

#[test]
fn empty_scan_on_empty_registry() {
    let reg: Registry<u8> = Registry::new();
    let plan = reg.plan_scan(&Vec::new());
    assert!(plan.removed.is_empty() && plan.reconnect.is_empty() && plan.fresh.is_empty());
    assert_eq!(reg.len(), 0);
}

#[test]
fn settle_deadline_saturates() {
    let mut c: CalibrationData<u32, u32> = CalibrationData::new(Some(1));
    c.start_calibration_delayed(u64::MAX - 1);
    assert_eq!(c.start_offset, u64::MAX);
    assert_eq!(c.push_data(u64::MAX, 1), None);
    assert!(c.data.is_empty());
}

#[test]
fn idle_window_ignores_samples() {
    let mut c: CalibrationData<u32, u32> = CalibrationData::new(Some(1));
    for k in 0..40u64 {
        assert_eq!(c.push_data(5000 + k, 1), None);
    }
    assert!(c.data.is_empty());
    assert!(!c.collecting);
}

#[test]
fn retrigger_moves_deadline() {
    let mut st: ListenState<u32, u32> = ListenState::new(Some(1));
    st.on_report(0, Report::Motion { calibrate_chord: true, reset_chord: false, sample: Some(1) });
    st.on_report(2001, Report::Motion { calibrate_chord: false, reset_chord: false, sample: Some(2) });
    assert_eq!(st.calibration.data, vec![2]);
    st.on_report(2002, Report::Motion { calibrate_chord: true, reset_chord: false, sample: Some(3) });
    assert_eq!(st.calibration.start_offset, 4002);
    assert_eq!(st.calibration.data, vec![2]);
    st.on_report(4003, Report::Motion { calibrate_chord: false, reset_chord: false, sample: Some(4) });
    assert_eq!(st.calibration.data, vec![2, 4]);
}
