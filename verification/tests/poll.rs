use razer_control::poll::{
    daemon_replies, device_name_query, followup_queries, pwr_slot_queries, pwr_slot_replies,
    DaemonCommand,
    daemon_online, do_poll, is_on_ac, poll_pwr_slot, reg_sz_value, sys_metrics, DaemonReplies,
    DaemonResponse, Pwr, PwrSlotReplies, SysMetrics, SysStatic,
};

fn slot(mode: u8) -> PwrSlotReplies {
    PwrSlotReplies {
        pwr_level: Some(DaemonResponse::GetPwrLevel { pwr: mode }),
        cpu_boost: Some(DaemonResponse::GetCPUBoost { cpu: 2 }),
        gpu_boost: Some(DaemonResponse::GetGPUBoost { gpu: 1 }),
        fan_speed: Some(DaemonResponse::GetFanSpeed { rpm: 3500 }),
        brightness: Some(DaemonResponse::GetBrightness { result: 128 }),
        logo: Some(DaemonResponse::GetLogoLedState { logo_state: 1 }),
    }
}

fn statics() -> SysStatic {
    SysStatic {
        cpu_name: "CPU".to_string(),
        host_name: "host".to_string(),
        os_name: "OS".to_string(),
        laptop_model: "Blade".to_string(),
        bios_version: "1.0".to_string(),
        bios_date: "2024".to_string(),
        uptime_secs: 99,
    }
}

fn metrics() -> SysMetrics {
    sys_metrics(1234, 8 * 1024 * 1024 * 1024, 16 * 1024 * 1024 * 1024 + 5, 5635, 40)
}

fn replies() -> DaemonReplies {
    DaemonReplies {
        ac: slot(2),
        bat: slot(0),
        sync: Some(DaemonResponse::GetSync { sync: true }),
        battery_health: Some(DaemonResponse::GetBatteryHealthOptimizer { is_on: true, threshold: 60 }),
        fn_swap: Some(DaemonResponse::GetFnSwap { swap: true }),
        effect: Some(DaemonResponse::GetCurrentEffect { name: "wave".to_string(), args: vec![1, 2, 3] }),
        gpu: Some(DaemonResponse::GetGpuStatus {
            name: "RTX".to_string(),
            temp_c: 61,
            gpu_util: 40,
            mem_util: 5,
            stale: false,
            power_mw: 95_500,
            power_limit_mw: 110_000,
            power_max_limit_mw: 175_000,
            mem_used_mb: 800,
            mem_total_mb: 16376,
            clock_gpu_mhz: 2100,
            clock_mem_mhz: 9000,
        }),
    }
}

#[test]
fn slot_takes_each_matching_reply() {
    let p = poll_pwr_slot(&slot(4));
    assert!(p == Pwr { mode: 4, cpu: 2, gpu: 1, fan: 3500, bright: 128, logo: 1 });
}

#[test]
fn slot_ignores_missing_or_mismatched_replies() {
    let r = PwrSlotReplies {
        pwr_level: None,
        cpu_boost: Some(DaemonResponse::GetGPUBoost { gpu: 3 }),
        gpu_boost: Some(DaemonResponse::GetGPUBoost { gpu: 3 }),
        fan_speed: Some(DaemonResponse::SetFanSpeed { result: true }),
        brightness: None,
        logo: Some(DaemonResponse::GetBrightness { result: 9 }),
    };
    let p = poll_pwr_slot(&r);
    assert!(p == Pwr { mode: 0, cpu: 0, gpu: 3, fan: 0, bright: 0, logo: 0 });
}

#[test]
fn metrics_count_whole_mebibytes() {
    let m = metrics();
    assert_eq!(m.ram_used_mb, 8192);
    assert_eq!(m.ram_total_mb, 16384);
    assert_eq!(m.cpu_pct_centi, 1234);
}

#[test]
fn offline_poll_keeps_machine_readings_only() {
    let device = Some(DaemonResponse::GetSync { sync: true });
    assert!(!daemon_online(&device));
    let d = do_poll(true, 77, metrics(), statics(), device, Some(replies()));
    assert!(!d.ok);
    assert_eq!(d.devname, "");
    assert!(d.ac == Pwr { mode: 0, cpu: 0, gpu: 0, fan: 0, bright: 0, logo: 0 });
    assert!(!d.sync);
    assert!(!d.bho);
    assert_eq!(d.bho_thr, 80);
    assert!(d.gpu.is_none());
    assert!(d.effect_args.is_empty());
    assert!(d.on_ac);
    assert_eq!(d.battery_pct, 77);
    assert_eq!(d.sys.ram_used_mb, 8192);
    assert_eq!(d.sys_static.laptop_model, "Blade");
    let none = do_poll(false, 255, metrics(), statics(), None, None);
    assert!(!none.ok);
    assert_eq!(none.battery_pct, 255);
}

#[test]
fn online_poll_fills_every_setting() {
    let device = Some(DaemonResponse::GetDeviceName { name: "Blade 16".to_string() });
    assert!(daemon_online(&device));
    let d = do_poll(false, 50, metrics(), statics(), device, Some(replies()));
    assert!(d.ok);
    assert_eq!(d.devname, "Blade 16");
    assert_eq!(d.ac.mode, 2);
    assert_eq!(d.bat.mode, 0);
    assert_eq!(d.bat.fan, 3500);
    assert!(d.sync);
    assert!(d.bho);
    assert_eq!(d.bho_thr, 60);
    assert!(d.fn_swap);
    assert_eq!(d.effect_name, "wave");
    assert_eq!(d.effect_args, vec![1, 2, 3]);
    let g = d.gpu.unwrap();
    assert_eq!(g.name, "RTX");
    assert_eq!(g.temp, 61);
    assert_eq!(g.util, 40);
    assert_eq!(g.power_mw, 95_500);
    assert_eq!(g.clk_mem_mhz, 9000);
    assert!(!g.stale);
}

#[test]
fn online_poll_without_other_replies_keeps_defaults() {
    let device = Some(DaemonResponse::GetDeviceName { name: "Blade".to_string() });
    let d = do_poll(true, 10, metrics(), statics(), device, None);
    assert!(d.ok);
    assert_eq!(d.devname, "Blade");
    assert_eq!(d.bho_thr, 80);
    assert!(d.gpu.is_none());
}

#[test]
fn ac_line_status_one_means_mains() {
    assert!(is_on_ac(1));
    assert!(!is_on_ac(0));
    assert!(!is_on_ac(255));
}

#[test]
fn registry_string_drops_terminator() {
    let mut buf = [0u16; 256];
    buf[0] = 'A' as u16;
    buf[1] = 'B' as u16;
    buf[2] = 'C' as u16;
    assert_eq!(reg_sz_value(true, &buf, 8), "ABC");
    assert_eq!(reg_sz_value(true, &buf, 1), "");
    assert_eq!(reg_sz_value(false, &buf, 8), "");
    assert_eq!(reg_sz_value(true, &buf[..2], 100), "AB");
    buf[0] = 0xD800;
    assert_eq!(reg_sz_value(true, &buf, 6), "\u{FFFD}B");
    buf[0] = 0xD83D;
    buf[1] = 0xDE00;
    assert_eq!(reg_sz_value(true, &buf, 8), "\u{1F600}C");
}

fn ac_of(c: &DaemonCommand) -> Option<usize> {
    match c {
        DaemonCommand::GetPwrLevel { ac }
        | DaemonCommand::GetCPUBoost { ac }
        | DaemonCommand::GetGPUBoost { ac }
        | DaemonCommand::GetFanSpeed { ac }
        | DaemonCommand::GetBrightness { ac }
        | DaemonCommand::GetLogoLedState { ac } => Some(*ac),
        _ => None,
    }
}

#[test]
fn slot_queries_carry_the_slot() {
    let q = pwr_slot_queries(0);
    assert_eq!(q.len(), 6);
    assert!(matches!(q[0], DaemonCommand::GetPwrLevel { ac: 0 }));
    assert!(matches!(q[5], DaemonCommand::GetLogoLedState { ac: 0 }));
    assert!(q.iter().all(|c| ac_of(c) == Some(0)));
}

#[test]
fn poll_sends_queries_only() {
    assert!(matches!(device_name_query(), DaemonCommand::GetDeviceName));
    let q = followup_queries();
    assert_eq!(q.len(), 17);
    assert!(q[..6].iter().all(|c| ac_of(c) == Some(1)));
    assert!(q[6..12].iter().all(|c| ac_of(c) == Some(0)));
    assert!(matches!(q[12], DaemonCommand::GetSync));
    assert!(matches!(q[13], DaemonCommand::GetBatteryHealthOptimizer));
    assert!(matches!(q[14], DaemonCommand::GetFnSwap));
    assert!(matches!(q[15], DaemonCommand::GetCurrentEffect));
    assert!(matches!(q[16], DaemonCommand::GetGpuStatus));
}

#[test]
fn replies_are_filed_under_their_queries() {
    let r = pwr_slot_replies(vec![
        Some(DaemonResponse::GetPwrLevel { pwr: 1 }),
        None,
        None,
        Some(DaemonResponse::GetFanSpeed { rpm: 2000 }),
        None,
        Some(DaemonResponse::GetLogoLedState { logo_state: 2 }),
    ]);
    assert!(poll_pwr_slot(&r) == Pwr { mode: 1, cpu: 0, gpu: 0, fan: 2000, bright: 0, logo: 2 });
    let mut all: Vec<Option<DaemonResponse>> = Vec::new();
    for i in 0..12u8 {
        all.push(if i == 0 { Some(DaemonResponse::GetPwrLevel { pwr: 3 }) } else if i == 6 {
            Some(DaemonResponse::GetPwrLevel { pwr: 4 })
        } else {
            None
        });
    }
    all.push(Some(DaemonResponse::GetSync { sync: true }));
    all.push(None);
    all.push(Some(DaemonResponse::GetFnSwap { swap: true }));
    all.push(None);
    all.push(None);
    let d = daemon_replies(all);
    assert_eq!(poll_pwr_slot(&d.ac).mode, 3);
    assert_eq!(poll_pwr_slot(&d.bat).mode, 4);
    assert!(matches!(d.sync, Some(DaemonResponse::GetSync { sync: true })));
    assert!(matches!(d.fn_swap, Some(DaemonResponse::GetFnSwap { swap: true })));
    assert!(d.gpu.is_none());
}
