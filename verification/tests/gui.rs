use razer_control::gui::{
    brightness_value, fan_speed_commands, gpu_source_label, handle_tray_action, profile_boosts,
    str_contains, TrayAction,
};
use razer_control::poll::DaemonCommand;

#[test]
fn profile_boost_levels() {
    assert_eq!(profile_boosts(0), (0, 0));
    assert_eq!(profile_boosts(1), (1, 1));
    assert_eq!(profile_boosts(2), (2, 2));
    assert_eq!(profile_boosts(3), (3, 3));
    assert_eq!(profile_boosts(200), (3, 3));
}

#[test]
fn brightness_scale() {
    assert_eq!(brightness_value(0), 0);
    assert_eq!(brightness_value(50), 127);
    assert_eq!(brightness_value(100), 255);
    assert_eq!(brightness_value(255), 138);
}

#[test]
fn profile_goes_to_both_slots() {
    let e = handle_tray_action(TrayAction::SetProfile(1));
    assert!(e.wake_poll);
    assert!(!e.focus_window && !e.close_window && !e.toggle_autostart);
    assert_eq!(e.commands.len(), 2);
    match (&e.commands[0], &e.commands[1]) {
        (
            DaemonCommand::SetPowerMode { ac: 1, pwr: 1, cpu: 1, gpu: 1 },
            DaemonCommand::SetPowerMode { ac: 0, pwr: 1, cpu: 1, gpu: 1 },
        ) => {},
        _ => panic!("unexpected commands"),
    }
}

#[test]
fn brightness_goes_to_both_slots() {
    let e = handle_tray_action(TrayAction::SetBrightness(100));
    assert!(e.wake_poll);
    match (&e.commands[0], &e.commands[1]) {
        (DaemonCommand::SetBrightness { ac: 1, val: 255 }, DaemonCommand::SetBrightness { ac: 0, val: 255 }) => {},
        _ => panic!("unexpected commands"),
    }
}

#[test]
fn window_actions_send_nothing() {
    let show = handle_tray_action(TrayAction::ShowWindow);
    assert!(show.focus_window && show.commands.is_empty() && !show.wake_poll);
    let exit = handle_tray_action(TrayAction::Exit);
    assert!(exit.close_window && exit.commands.is_empty());
    let boot = handle_tray_action(TrayAction::ToggleStartOnBoot);
    assert!(boot.toggle_autostart && boot.commands.is_empty());
}

#[test]
fn gpu_source_labels() {
    assert_eq!(gpu_source_label(Some("GPU (Task Manager counters)")), "GPU: PDH");
    assert_eq!(gpu_source_label(Some("PDH fallback")), "GPU: PDH");
    assert_eq!(gpu_source_label(None), "GPU: N/A");
    assert_eq!(gpu_source_label(Some("GPU unavailable")), "GPU: N/A");
    assert_eq!(gpu_source_label(Some("NVIDIA GeForce RTX 4090 Laptop GPU")), "GPU: live");
    assert_eq!(gpu_source_label(Some("NVIDIA GPU (Sleeping)")), "GPU: live");
}

#[test]
fn substring_search() {
    assert!(str_contains("abc", ""));
    assert!(str_contains("abc", "bc"));
    assert!(!str_contains("abc", "abcd"));
    assert!(!str_contains("abc", "cb"));
    assert!(str_contains("héllo", "él"));
}

fn fan(cmd: &DaemonCommand) -> (usize, i32) {
    match cmd {
        DaemonCommand::SetFanSpeed { ac, rpm } => (*ac, *rpm),
        _ => panic!("not a fan command"),
    }
}

#[test]
fn fan_commands_go_mains_first() {
    let both = fan_speed_commands(Some(3500), Some(2800));
    assert_eq!(both.len(), 2);
    assert_eq!(fan(&both[0]), (1, 3500));
    assert_eq!(fan(&both[1]), (0, 2800));
    let battery = fan_speed_commands(None, Some(0));
    assert_eq!(battery.len(), 1);
    assert_eq!(fan(&battery[0]), (0, 0));
    let mains = fan_speed_commands(Some(-1), None);
    assert_eq!(mains.len(), 1);
    assert_eq!(fan(&mains[0]), (1, -1));
    assert!(fan_speed_commands(None, None).is_empty());
}
