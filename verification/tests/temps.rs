use razer_control::temps::{
    drive_reading, wants_property_query,
    device_path_with_nul, ssd_scan_on_reading, ssd_scan_start, DriveChoice, ScanStep,
    daemon_temp_layout, gui_temp_layout, nvme_temp_c, storage_temp_c, zone_centi_c, zone_reading,
    zones_max_centi_c,
};

#[test]
fn zone_conversion_keeps_plausible_readings() {
    assert_eq!(zone_centi_c(0), None);
    assert_eq!(zone_centi_c(2731), None);
    assert_eq!(zone_centi_c(2732), Some(5));
    assert_eq!(zone_centi_c(3295), Some(5635));
    assert_eq!(zone_centi_c(3931), Some(11995));
    assert_eq!(zone_centi_c(3932), None);
    assert_eq!(zone_centi_c(u32::MAX), None);
}

#[test]
fn hottest_zone_wins() {
    assert_eq!(zones_max_centi_c(&vec![]), 0);
    assert_eq!(zones_max_centi_c(&vec![0, 2000, 5000]), 0);
    assert_eq!(zones_max_centi_c(&vec![3000, 3295, 3100, 9999]), 5635);
    assert_eq!(zones_max_centi_c(&vec![3100, 3000]), 3685);
}

#[test]
fn zone_reading_needs_32_bytes() {
    let mut buf = vec![0u8; 84];
    buf[28] = 0xDF; // 3295 = 0x0CDF
    buf[29] = 0x0C;
    assert_eq!(zone_reading(true, 32, &buf), Some(3295));
    assert_eq!(zone_reading(true, 31, &buf), None);
    assert_eq!(zone_reading(false, 84, &buf), None);
    buf[31] = 1;
    assert_eq!(zone_reading(true, 84, &buf), Some(0x0100_0CDF));
}

#[test]
fn nvme_health_log_temperature() {
    let mut buf = vec![0u8; 568];
    buf[57] = 0x3B; // 315 K = 0x013B
    buf[58] = 0x01;
    assert_eq!(nvme_temp_c(true, 568, &buf), Some(42));
    assert_eq!(nvme_temp_c(true, 58, &buf), None);
    assert_eq!(nvme_temp_c(false, 568, &buf), None);
    buf[57] = 200;
    buf[58] = 0;
    assert_eq!(nvme_temp_c(true, 568, &buf), None);
    buf[57] = 201;
    assert_eq!(nvme_temp_c(true, 568, &buf), Some(-72));
    buf[57] = 0x90; // 400 K
    buf[58] = 0x01;
    assert_eq!(nvme_temp_c(true, 568, &buf), None);
}

#[test]
fn storage_property_temperature_daemon_layout() {
    let layout = daemon_temp_layout();
    let mut buf = vec![0u8; 128];
    buf[12] = 1;
    buf[18] = 38;
    assert_eq!(storage_temp_c(true, 28, &buf, &layout), Some(38));
    assert_eq!(storage_temp_c(true, 27, &buf, &layout), None);
    assert_eq!(storage_temp_c(false, 128, &buf, &layout), None);
    buf[12] = 0;
    assert_eq!(storage_temp_c(true, 128, &buf, &layout), None);
    buf[12] = 1;
    buf[18] = 80;
    assert_eq!(storage_temp_c(true, 128, &buf, &layout), None);
    buf[18] = 0xFF;
    buf[19] = 0xFF; // -1
    assert_eq!(storage_temp_c(true, 128, &buf, &layout), None);
}

#[test]
fn storage_property_temperature_gui_layout() {
    let layout = gui_temp_layout();
    let mut buf = vec![0u8; 4096];
    buf[12] = 2;
    buf[26] = 45;
    assert_eq!(storage_temp_c(true, 36, &buf, &layout), Some(45));
    assert_eq!(storage_temp_c(true, 35, &buf, &layout), None);
    buf[26] = 0;
    assert_eq!(storage_temp_c(true, 36, &buf, &layout), None);
}

fn run_scan(choice: DriveChoice, readings: [Option<i32>; 4]) -> (DriveChoice, i32, Vec<u32>) {
    let mut choice = choice;
    let mut read = Vec::new();
    let mut step = ssd_scan_start(choice);
    loop {
        match step {
            ScanStep::Done(t) => return (choice, t, read),
            ScanStep::Read(d) => {
                read.push(d);
                let (c, s) = ssd_scan_on_reading(choice, d, readings[d as usize]);
                choice = c;
                step = s;
            }
        }
    }
}

#[test]
fn first_scan_stops_at_first_answer() {
    let (choice, t, read) = run_scan(DriveChoice::Unscanned, [None, Some(41), Some(50), None]);
    assert!(choice == DriveChoice::Found(1));
    assert_eq!(t, 41);
    assert_eq!(read, vec![0, 1]);
}

#[test]
fn scan_without_answer_remembers_none() {
    let (choice, t, read) = run_scan(DriveChoice::Unscanned, [None; 4]);
    assert!(choice == DriveChoice::NoneFound);
    assert_eq!(t, 0);
    assert_eq!(read, vec![0, 1, 2, 3]);
    let (again, t2, read2) = run_scan(choice, [Some(30); 4]);
    assert!(again == DriveChoice::NoneFound);
    assert_eq!(t2, 0);
    assert!(read2.is_empty());
}

#[test]
fn remembered_drive_is_read_alone() {
    let (choice, t, read) = run_scan(DriveChoice::Found(2), [Some(1), Some(2), None, Some(4)]);
    assert!(choice == DriveChoice::Found(2));
    assert_eq!(t, 0);
    assert_eq!(read, vec![2]);
}

#[test]
fn device_path_stops_at_nul() {
    assert_eq!(device_path_with_nul(&[92, 92, 0, 7, 0]), vec![92, 92, 0]);
    assert_eq!(device_path_with_nul(&[0]), vec![0]);
}

#[test]
fn nvme_log_before_property() {
    assert!(!wants_property_query(&Some(40)));
    assert!(wants_property_query(&None));
    assert_eq!(drive_reading(Some(40), None), Some(40));
    assert_eq!(drive_reading(None, Some(35)), Some(35));
    assert_eq!(drive_reading(None, None), None);
}
