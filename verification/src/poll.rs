//! The GUI's poll cycle: the daemon commands it sends and how the replies
//! fill in the snapshot that the GUI draws.
use vstd::prelude::*;

verus! {

/// A request to the daemon. `ac` is 1 for the mains power slot and 0 for the
/// battery slot.
#[derive(Clone, Copy)]
pub enum DaemonCommand {
    GetPwrLevel { ac: usize },
    GetCPUBoost { ac: usize },
    GetGPUBoost { ac: usize },
    GetFanSpeed { ac: usize },
    GetBrightness { ac: usize },
    GetLogoLedState { ac: usize },
    GetDeviceName,
    GetSync,
    GetBatteryHealthOptimizer,
    GetFnSwap,
    GetCurrentEffect,
    GetGpuStatus,
    SetPowerMode { ac: usize, pwr: u8, cpu: u8, gpu: u8 },
    SetBrightness { ac: usize, val: u8 },
    SetFanSpeed { ac: usize, rpm: i32 },
}

/// A reply of the daemon. Power values are in milliwatts.
#[allow(inconsistent_fields)]
pub enum DaemonResponse {
    GetPwrLevel { pwr: u8 },
    GetCPUBoost { cpu: u8 },
    GetGPUBoost { gpu: u8 },
    GetFanSpeed { rpm: i32 },
    GetBrightness { result: u8 },
    GetLogoLedState { logo_state: u8 },
    GetDeviceName { name: String },
    GetSync { sync: bool },
    GetBatteryHealthOptimizer { is_on: bool, threshold: u8 },
    GetFnSwap { swap: bool },
    GetCurrentEffect { name: String, args: Vec<u8> },
    GetGpuStatus {
        name: String,
        temp_c: i32,
        gpu_util: u8,
        mem_util: u8,
        stale: bool,
        power_mw: i64,
        power_limit_mw: i64,
        power_max_limit_mw: i64,
        mem_used_mb: u32,
        mem_total_mb: u32,
        clock_gpu_mhz: u32,
        clock_mem_mhz: u32,
    },
    SetPowerMode { result: bool },
    SetBrightness { result: bool },
    SetFanSpeed { result: bool },
}

/// The settings of one power slot.
#[derive(Clone, Copy, PartialEq, Eq, Structural)]
pub struct Pwr {
    pub mode: u8,
    pub cpu: u8,
    pub gpu: u8,
    pub fan: i32,
    pub bright: u8,
    pub logo: u8,
}

/// The slot settings before any reply: all 0.
pub open spec fn pwr_unset() -> Pwr {
    Pwr { mode: 0, cpu: 0, gpu: 0, fan: 0, bright: 0, logo: 0 }
}

impl Pwr {
    /// The slot settings before any reply.
    pub fn unset() -> (r: Pwr)
        ensures
            r == pwr_unset(),
    {
        Pwr { mode: 0, cpu: 0, gpu: 0, fan: 0, bright: 0, logo: 0 }
    }
}

/// The replies to the six queries of one power slot, each `None` where the
/// daemon could not be reached.
pub struct PwrSlotReplies {
    /// The reply to `GetPwrLevel`.
    pub pwr_level: Option<DaemonResponse>,
    /// The reply to `GetCPUBoost`.
    pub cpu_boost: Option<DaemonResponse>,
    /// The reply to `GetGPUBoost`.
    pub gpu_boost: Option<DaemonResponse>,
    /// The reply to `GetFanSpeed`.
    pub fan_speed: Option<DaemonResponse>,
    /// The reply to `GetBrightness`.
    pub brightness: Option<DaemonResponse>,
    /// The reply to `GetLogoLedState`.
    pub logo: Option<DaemonResponse>,
}

/// The slot settings the six replies give: each setting comes from the reply
/// to its own query where that reply answers it, and stays 0 otherwise.
pub open spec fn spec_poll_pwr_slot(r: PwrSlotReplies) -> Pwr {
    Pwr {
        mode: match r.pwr_level {
            Some(DaemonResponse::GetPwrLevel { pwr }) => pwr,
            _ => 0,
        },
        cpu: match r.cpu_boost {
            Some(DaemonResponse::GetCPUBoost { cpu }) => cpu,
            _ => 0,
        },
        gpu: match r.gpu_boost {
            Some(DaemonResponse::GetGPUBoost { gpu }) => gpu,
            _ => 0,
        },
        fan: match r.fan_speed {
            Some(DaemonResponse::GetFanSpeed { rpm }) => rpm,
            _ => 0,
        },
        bright: match r.brightness {
            Some(DaemonResponse::GetBrightness { result }) => result,
            _ => 0,
        },
        logo: match r.logo {
            Some(DaemonResponse::GetLogoLedState { logo_state }) => logo_state,
            _ => 0,
        },
    }
}

/// The six queries of one power slot, in the order they are sent; `ac` is 1
/// for the mains slot and 0 for the battery slot.
pub open spec fn spec_pwr_slot_queries(ac: usize) -> Seq<DaemonCommand> {
    seq![
        DaemonCommand::GetPwrLevel { ac },
        DaemonCommand::GetCPUBoost { ac },
        DaemonCommand::GetGPUBoost { ac },
        DaemonCommand::GetFanSpeed { ac },
        DaemonCommand::GetBrightness { ac },
        DaemonCommand::GetLogoLedState { ac },
    ]
}

/// The six queries of one power slot, in the order they are sent.
pub fn pwr_slot_queries(ac: usize) -> (r: Vec<DaemonCommand>)
    ensures
        r@ == spec_pwr_slot_queries(ac),
{
    let mut r: Vec<DaemonCommand> = Vec::new();
    r.push(DaemonCommand::GetPwrLevel { ac });
    r.push(DaemonCommand::GetCPUBoost { ac });
    r.push(DaemonCommand::GetGPUBoost { ac });
    r.push(DaemonCommand::GetFanSpeed { ac });
    r.push(DaemonCommand::GetBrightness { ac });
    r.push(DaemonCommand::GetLogoLedState { ac });
    proof {
        assert(r@ =~= spec_pwr_slot_queries(ac));
    }
    r
}

/// The replies to a slot's six queries, given in the order of
/// [`pwr_slot_queries`], each filed under its query.
pub open spec fn spec_pwr_slot_replies(replies: Seq<Option<DaemonResponse>>) -> PwrSlotReplies {
    PwrSlotReplies {
        pwr_level: replies[0],
        cpu_boost: replies[1],
        gpu_boost: replies[2],
        fan_speed: replies[3],
        brightness: replies[4],
        logo: replies[5],
    }
}

/// Whether `r` is the kind of reply that answers query `q`.
pub open spec fn answers(q: DaemonCommand, r: DaemonResponse) -> bool {
    match q {
        DaemonCommand::GetPwrLevel { .. } => r is GetPwrLevel,
        DaemonCommand::GetCPUBoost { .. } => r is GetCPUBoost,
        DaemonCommand::GetGPUBoost { .. } => r is GetGPUBoost,
        DaemonCommand::GetFanSpeed { .. } => r is GetFanSpeed,
        DaemonCommand::GetBrightness { .. } => r is GetBrightness,
        DaemonCommand::GetLogoLedState { .. } => r is GetLogoLedState,
        DaemonCommand::GetDeviceName => r is GetDeviceName,
        DaemonCommand::GetSync => r is GetSync,
        DaemonCommand::GetBatteryHealthOptimizer => r is GetBatteryHealthOptimizer,
        DaemonCommand::GetFnSwap => r is GetFnSwap,
        DaemonCommand::GetCurrentEffect => r is GetCurrentEffect,
        DaemonCommand::GetGpuStatus => r is GetGpuStatus,
        DaemonCommand::SetPowerMode { .. } => r is SetPowerMode,
        DaemonCommand::SetBrightness { .. } => r is SetBrightness,
        DaemonCommand::SetFanSpeed { .. } => r is SetFanSpeed,
    }
}

/// Whether each of `replies` is there and answers the query at its place in
/// `queries`.
pub open spec fn each_answers(queries: Seq<DaemonCommand>, replies: Seq<Option<DaemonResponse>>) -> bool {
    &&& replies.len() == queries.len()
    &&& forall|i: int|
        0 <= i < replies.len() ==> (#[trigger] replies[i] matches Some(r) && answers(queries[i], r))
}

/// Where the six replies answer a slot's queries in the order they are sent,
/// each setting of the slot is the one that the reply to its own query
/// carries: the mode from `GetPwrLevel`, the CPU boost from `GetCPUBoost`,
/// the GPU boost from `GetGPUBoost`, the fan speed from `GetFanSpeed`, the
/// brightness from `GetBrightness` and the logo state from
/// `GetLogoLedState`.
pub proof fn law_slot_settings_come_from_their_replies(
    ac: usize,
    replies: Seq<Option<DaemonResponse>>,
)
    requires
        each_answers(spec_pwr_slot_queries(ac), replies),
    ensures
        ({
            let p = spec_poll_pwr_slot(spec_pwr_slot_replies(replies));
            &&& replies[0] == Some(DaemonResponse::GetPwrLevel { pwr: p.mode })
            &&& replies[1] == Some(DaemonResponse::GetCPUBoost { cpu: p.cpu })
            &&& replies[2] == Some(DaemonResponse::GetGPUBoost { gpu: p.gpu })
            &&& replies[3] == Some(DaemonResponse::GetFanSpeed { rpm: p.fan })
            &&& replies[4] == Some(DaemonResponse::GetBrightness { result: p.bright })
            &&& replies[5] == Some(DaemonResponse::GetLogoLedState { logo_state: p.logo })
        }),
{
    let q = spec_pwr_slot_queries(ac);
    assert(replies[0] matches Some(r) && answers(q[0], r));
    assert(replies[1] matches Some(r) && answers(q[1], r));
    assert(replies[2] matches Some(r) && answers(q[2], r));
    assert(replies[3] matches Some(r) && answers(q[3], r));
    assert(replies[4] matches Some(r) && answers(q[4], r));
    assert(replies[5] matches Some(r) && answers(q[5], r));
}

/// The last reply of `v`, taken off it.
fn take_last_reply(v: &mut Vec<Option<DaemonResponse>>) -> (r: Option<DaemonResponse>)
    requires
        old(v).len() > 0,
    ensures
        r == old(v)@.last(),
        final(v)@ == old(v)@.drop_last(),
{
    match v.pop() {
        Some(x) => x,
        None => None,
    }
}

/// The replies to a slot's six queries, given in the order of
/// [`pwr_slot_queries`], each filed under its query.
pub fn pwr_slot_replies(replies: Vec<Option<DaemonResponse>>) -> (r: PwrSlotReplies)
    requires
        replies.len() == 6,
    ensures
        r == spec_pwr_slot_replies(replies@),
        r.pwr_level == replies@[0],
        r.cpu_boost == replies@[1],
        r.gpu_boost == replies@[2],
        r.fan_speed == replies@[3],
        r.brightness == replies@[4],
        r.logo == replies@[5],
{
    let mut v = replies;
    let logo = take_last_reply(&mut v);
    let brightness = take_last_reply(&mut v);
    let fan_speed = take_last_reply(&mut v);
    let gpu_boost = take_last_reply(&mut v);
    let cpu_boost = take_last_reply(&mut v);
    let pwr_level = take_last_reply(&mut v);
    PwrSlotReplies { pwr_level, cpu_boost, gpu_boost, fan_speed, brightness, logo }
}

/// The settings of one power slot, from the replies to its six queries.
pub fn poll_pwr_slot(replies: &PwrSlotReplies) -> (p: Pwr)
    ensures
        p == spec_poll_pwr_slot(*replies),
{
    let mut p = Pwr::unset();
    if let Some(DaemonResponse::GetPwrLevel { pwr }) = &replies.pwr_level {
        p.mode = *pwr;
    }
    if let Some(DaemonResponse::GetCPUBoost { cpu }) = &replies.cpu_boost {
        p.cpu = *cpu;
    }
    if let Some(DaemonResponse::GetGPUBoost { gpu }) = &replies.gpu_boost {
        p.gpu = *gpu;
    }
    if let Some(DaemonResponse::GetFanSpeed { rpm }) = &replies.fan_speed {
        p.fan = *rpm;
    }
    if let Some(DaemonResponse::GetBrightness { result }) = &replies.brightness {
        p.bright = *result;
    }
    if let Some(DaemonResponse::GetLogoLedState { logo_state }) = &replies.logo {
        p.logo = *logo_state;
    }
    p
}

/// The system load and temperatures of one poll. CPU load is in hundredths
/// of a percent, CPU temperature in hundredths of a degree Celsius, drive
/// temperature in degrees Celsius; 0 stands for a reading that was not had.
#[derive(Clone, Copy, PartialEq, Eq, Structural)]
pub struct SysMetrics {
    pub cpu_pct_centi: u32,
    pub ram_used_mb: u64,
    pub ram_total_mb: u64,
    pub cpu_temp_centi_c: i32,
    pub ssd_temp_c: i32,
}

/// Facts about the machine that do not change between polls.
pub struct SysStatic {
    pub cpu_name: String,
    pub host_name: String,
    pub os_name: String,
    pub laptop_model: String,
    pub bios_version: String,
    pub bios_date: String,
    pub uptime_secs: u64,
}

/// The whole mebibytes in `bytes`.
pub open spec fn spec_whole_mb(bytes: u64) -> u64 {
    (bytes / 1024 / 1024) as u64
}

/// The system metrics of one poll, from the memory figures in bytes and the
/// other readings.
pub fn sys_metrics(
    cpu_pct_centi: u32,
    ram_used_bytes: u64,
    ram_total_bytes: u64,
    cpu_temp_centi_c: i32,
    ssd_temp_c: i32,
) -> (r: SysMetrics)
    ensures
        r == (SysMetrics {
            cpu_pct_centi,
            ram_used_mb: spec_whole_mb(ram_used_bytes),
            ram_total_mb: spec_whole_mb(ram_total_bytes),
            cpu_temp_centi_c,
            ssd_temp_c,
        }),
{
    SysMetrics {
        cpu_pct_centi,
        ram_used_mb: ram_used_bytes / 1024 / 1024,
        ram_total_mb: ram_total_bytes / 1024 / 1024,
        cpu_temp_centi_c,
        ssd_temp_c,
    }
}

/// The GPU figures that the daemon reports. Power values are in milliwatts.
pub struct GpuInfo {
    pub name: String,
    pub temp: i32,
    pub util: u8,
    pub mem_util: u8,
    pub power_mw: i64,
    pub power_limit_mw: i64,
    pub power_max_limit_mw: i64,
    pub mem_used_mb: u32,
    pub mem_total_mb: u32,
    pub clk_gpu_mhz: u32,
    pub clk_mem_mhz: u32,
    pub stale: bool,
}

/// One poll's snapshot of the daemon and the machine.
pub struct PollData {
    pub ok: bool,
    pub devname: String,
    pub ac: Pwr,
    pub bat: Pwr,
    pub sync: bool,
    pub effect_name: String,
    pub effect_args: Vec<u8>,
    pub bho: bool,
    pub bho_thr: u8,
    pub fn_swap: bool,
    pub on_ac: bool,
    pub battery_pct: u8,
    pub gpu: Option<GpuInfo>,
    pub sys: SysMetrics,
    pub sys_static: SysStatic,
}

/// The replies to the queries that follow the device-name check.
pub struct DaemonReplies {
    /// The replies for the mains slot (`ac` = 1).
    pub ac: PwrSlotReplies,
    /// The replies for the battery slot (`ac` = 0).
    pub bat: PwrSlotReplies,
    /// The reply to `GetSync`.
    pub sync: Option<DaemonResponse>,
    /// The reply to `GetBatteryHealthOptimizer`.
    pub battery_health: Option<DaemonResponse>,
    /// The reply to `GetFnSwap`.
    pub fn_swap: Option<DaemonResponse>,
    /// The reply to `GetCurrentEffect`.
    pub effect: Option<DaemonResponse>,
    /// The reply to `GetGpuStatus`.
    pub gpu: Option<DaemonResponse>,
}

/// The query that opens every poll and tells whether the daemon is there.
pub fn device_name_query() -> (r: DaemonCommand)
    ensures
        r == DaemonCommand::GetDeviceName,
{
    DaemonCommand::GetDeviceName
}

/// The queries sent after a device-name check that the daemon answered, in
/// order: the mains slot's six (`ac` = 1), the battery slot's six (`ac` =
/// 0), then sync, battery health optimizer, Fn swap, current effect and GPU
/// status. No setting is changed by a poll.
pub open spec fn spec_followup_queries() -> Seq<DaemonCommand> {
    spec_pwr_slot_queries(1) + spec_pwr_slot_queries(0) + seq![
        DaemonCommand::GetSync,
        DaemonCommand::GetBatteryHealthOptimizer,
        DaemonCommand::GetFnSwap,
        DaemonCommand::GetCurrentEffect,
        DaemonCommand::GetGpuStatus,
    ]
}

/// Every command a poll sends, given the reply to its first one: the device
/// name query, and the follow-up queries only where the daemon answered it.
pub open spec fn spec_poll_commands(device: Option<DaemonResponse>) -> Seq<DaemonCommand> {
    seq![DaemonCommand::GetDeviceName] + if spec_daemon_online(device) {
        spec_followup_queries()
    } else {
        Seq::empty()
    }
}

/// The queries sent after a device-name check that the daemon answered.
pub fn followup_queries() -> (r: Vec<DaemonCommand>)
    ensures
        r@ == spec_followup_queries(),
{
    let mut r = pwr_slot_queries(1);
    let mut bat = pwr_slot_queries(0);
    r.append(&mut bat);
    r.push(DaemonCommand::GetSync);
    r.push(DaemonCommand::GetBatteryHealthOptimizer);
    r.push(DaemonCommand::GetFnSwap);
    r.push(DaemonCommand::GetCurrentEffect);
    r.push(DaemonCommand::GetGpuStatus);
    proof {
        assert(r@ =~= spec_followup_queries());
    }
    r
}

/// The replies to the follow-up queries, given in the order of
/// [`followup_queries`], each filed under its query: the first six are the
/// mains slot's, the next six the battery slot's.
pub open spec fn spec_daemon_replies(replies: Seq<Option<DaemonResponse>>) -> DaemonReplies {
    DaemonReplies {
        ac: spec_pwr_slot_replies(replies.subrange(0, 6)),
        bat: spec_pwr_slot_replies(replies.subrange(6, 12)),
        sync: replies[12],
        battery_health: replies[13],
        fn_swap: replies[14],
        effect: replies[15],
        gpu: replies[16],
    }
}

/// The replies to the follow-up queries, given in the order of
/// [`followup_queries`], each filed under its query.
pub fn daemon_replies(replies: Vec<Option<DaemonResponse>>) -> (r: DaemonReplies)
    requires
        replies.len() == 17,
    ensures
        r == spec_daemon_replies(replies@),
        r.ac.pwr_level == replies@[0] && r.ac.cpu_boost == replies@[1] && r.ac.gpu_boost
            == replies@[2] && r.ac.fan_speed == replies@[3] && r.ac.brightness == replies@[4]
            && r.ac.logo == replies@[5],
        r.bat.pwr_level == replies@[6] && r.bat.cpu_boost == replies@[7] && r.bat.gpu_boost
            == replies@[8] && r.bat.fan_speed == replies@[9] && r.bat.brightness == replies@[10]
            && r.bat.logo == replies@[11],
        r.sync == replies@[12],
        r.battery_health == replies@[13],
        r.fn_swap == replies@[14],
        r.effect == replies@[15],
        r.gpu == replies@[16],
{
    let ghost all = replies@;
    let mut v = replies;
    let gpu = take_last_reply(&mut v);
    let effect = take_last_reply(&mut v);
    let fn_swap = take_last_reply(&mut v);
    let battery_health = take_last_reply(&mut v);
    let sync = take_last_reply(&mut v);
    proof {
        assert(v@ =~= all.subrange(0, 12));
    }
    let bat_part = v.split_off(6);
    proof {
        assert(v@ =~= all.subrange(0, 6));
        assert(bat_part@ =~= all.subrange(6, 12));
    }
    let bat = pwr_slot_replies(bat_part);
    let ac = pwr_slot_replies(v);
    DaemonReplies { ac, bat, sync, battery_health, fn_swap, effect, gpu }
}

/// Whether the reply to `GetDeviceName` shows the daemon reachable.
pub open spec fn spec_daemon_online(device: Option<DaemonResponse>) -> bool {
    device matches Some(DaemonResponse::GetDeviceName { .. })
}

/// Whether the daemon answered the device-name check, so that the rest of a
/// poll's queries are sent.
pub fn daemon_online(device: &Option<DaemonResponse>) -> (b: bool)
    ensures
        b == spec_daemon_online(*device),
{
    match device {
        Some(DaemonResponse::GetDeviceName { .. }) => true,
        _ => false,
    }
}

/// The replies that count: those after a device-name check that the daemon
/// answered, and none otherwise.
pub open spec fn live_replies(device: Option<DaemonResponse>, rest: Option<DaemonReplies>) -> Option<
    DaemonReplies,
> {
    if spec_daemon_online(device) {
        rest
    } else {
        None
    }
}

/// The settings of a slot, 0 without replies.
pub open spec fn slot_of(rs: Option<DaemonReplies>, mains: bool) -> Pwr {
    match rs {
        Some(x) => spec_poll_pwr_slot(
            if mains {
                x.ac
            } else {
                x.bat
            },
        ),
        None => pwr_unset(),
    }
}

/// The sync flag of a `GetSync` reply, `false` otherwise.
pub open spec fn sync_of(rs: Option<DaemonReplies>) -> bool {
    match rs {
        Some(x) => match x.sync {
            Some(DaemonResponse::GetSync { sync }) => sync,
            _ => false,
        },
        None => false,
    }
}

/// The battery health optimizer state and threshold of its reply; off with a
/// threshold of 80 otherwise.
pub open spec fn bho_of(rs: Option<DaemonReplies>) -> (bool, u8) {
    match rs {
        Some(x) => match x.battery_health {
            Some(DaemonResponse::GetBatteryHealthOptimizer { is_on, threshold }) => (
                is_on,
                threshold,
            ),
            _ => (false, 80),
        },
        None => (false, 80),
    }
}

/// The Fn-swap flag of its reply, `false` otherwise.
pub open spec fn fn_swap_of(rs: Option<DaemonReplies>) -> bool {
    match rs {
        Some(x) => match x.fn_swap {
            Some(DaemonResponse::GetFnSwap { swap }) => swap,
            _ => false,
        },
        None => false,
    }
}

/// The GPU figures of a `GetGpuStatus` reply.
pub open spec fn gpu_of(rs: Option<DaemonReplies>) -> Option<GpuInfo> {
    match rs {
        Some(x) => match x.gpu {
            Some(
                DaemonResponse::GetGpuStatus {
                    name,
                    temp_c,
                    gpu_util,
                    mem_util,
                    stale,
                    power_mw,
                    power_limit_mw,
                    power_max_limit_mw,
                    mem_used_mb,
                    mem_total_mb,
                    clock_gpu_mhz,
                    clock_mem_mhz,
                },
            ) => Some(
                GpuInfo {
                    name,
                    temp: temp_c,
                    util: gpu_util,
                    mem_util,
                    power_mw,
                    power_limit_mw,
                    power_max_limit_mw,
                    mem_used_mb,
                    mem_total_mb,
                    clk_gpu_mhz: clock_gpu_mhz,
                    clk_mem_mhz: clock_mem_mhz,
                    stale,
                },
            ),
            _ => None,
        },
        None => None,
    }
}

/// Whether `data` holds the name and arguments of the current effect that
/// the replies give, or empty ones without such a reply.
pub open spec fn effect_matches(data: PollData, rs: Option<DaemonReplies>) -> bool {
    match rs {
        Some(x) => match x.effect {
            Some(DaemonResponse::GetCurrentEffect { name, args }) => data.effect_name == name
                && data.effect_args == args,
            _ => data.effect_name@.len() == 0 && data.effect_args@.len() == 0,
        },
        None => data.effect_name@.len() == 0 && data.effect_args@.len() == 0,
    }
}

/// Whether `data` is the snapshot that a poll makes from the machine's own
/// readings and the daemon's replies.
pub open spec fn poll_result(
    data: PollData,
    on_ac: bool,
    battery_pct: u8,
    sys: SysMetrics,
    sys_static: SysStatic,
    device: Option<DaemonResponse>,
    rest: Option<DaemonReplies>,
) -> bool {
    let rs = live_replies(device, rest);
    &&& data.on_ac == on_ac
    &&& data.battery_pct == battery_pct
    &&& data.sys == sys
    &&& data.sys_static == sys_static
    &&& data.ok == spec_daemon_online(device)
    &&& match device {
        Some(DaemonResponse::GetDeviceName { name }) => data.devname == name,
        _ => data.devname@.len() == 0,
    }
    &&& data.ac == slot_of(rs, true)
    &&& data.bat == slot_of(rs, false)
    &&& data.sync == sync_of(rs)
    &&& (data.bho, data.bho_thr) == bho_of(rs)
    &&& data.fn_swap == fn_swap_of(rs)
    &&& effect_matches(data, rs)
    &&& data.gpu == gpu_of(rs)
}

/// Where the daemon does not answer the device-name check, the snapshot shows
/// it offline with every daemon setting at its default, whatever other
/// replies are offered, and keeps the machine's own readings.
pub proof fn law_offline_poll_ignores_replies(
    data: PollData,
    on_ac: bool,
    battery_pct: u8,
    sys: SysMetrics,
    sys_static: SysStatic,
    device: Option<DaemonResponse>,
    rest: Option<DaemonReplies>,
    other_rest: Option<DaemonReplies>,
)
    requires
        !spec_daemon_online(device),
        poll_result(data, on_ac, battery_pct, sys, sys_static, device, rest),
    ensures
        poll_result(data, on_ac, battery_pct, sys, sys_static, device, other_rest),
        !data.ok,
        data.devname@.len() == 0,
        data.ac == pwr_unset(),
        data.bat == pwr_unset(),
        !data.sync && !data.bho && data.bho_thr == 80 && !data.fn_swap,
        data.effect_name@.len() == 0 && data.effect_args@.len() == 0,
        data.gpu is None,
        data.on_ac == on_ac && data.battery_pct == battery_pct,
        data.sys == sys && data.sys_static == sys_static,
{
}

/// A slot none of whose queries is answered, as when the daemon goes away
/// in the middle of a poll, reads as all settings 0.
pub proof fn law_unanswered_slot_is_unset(replies: PwrSlotReplies)
    requires
        replies.pwr_level is None,
        replies.cpu_boost is None,
        replies.gpu_boost is None,
        replies.fan_speed is None,
        replies.brightness is None,
        replies.logo is None,
    ensures
        spec_poll_pwr_slot(replies) == pwr_unset(),
{
}

/// Where the seventeen follow-up replies answer the follow-up queries in the
/// order they are sent, every reply is filed under the field of its own
/// query: the first six under the mains slot, the next six under the battery
/// slot, then sync, battery health optimizer, Fn swap, current effect and
/// GPU status, each holding a reply of its own kind.
pub proof fn law_followup_replies_filed_by_query(replies: Seq<Option<DaemonResponse>>)
    requires
        each_answers(spec_followup_queries(), replies),
    ensures
        ({
            let x = spec_daemon_replies(replies);
            &&& x.ac.pwr_level == replies[0] && x.ac.cpu_boost == replies[1]
            &&& x.ac.gpu_boost == replies[2] && x.ac.fan_speed == replies[3]
            &&& x.ac.brightness == replies[4] && x.ac.logo == replies[5]
            &&& x.bat.pwr_level == replies[6] && x.bat.cpu_boost == replies[7]
            &&& x.bat.gpu_boost == replies[8] && x.bat.fan_speed == replies[9]
            &&& x.bat.brightness == replies[10] && x.bat.logo == replies[11]
            &&& x.sync matches Some(r) && r is GetSync
            &&& x.battery_health matches Some(r) && r is GetBatteryHealthOptimizer
            &&& x.fn_swap matches Some(r) && r is GetFnSwap
            &&& x.effect matches Some(r) && r is GetCurrentEffect
            &&& x.gpu matches Some(r) && r is GetGpuStatus
            &&& x.sync == replies[12] && x.battery_health == replies[13]
            &&& x.fn_swap == replies[14] && x.effect == replies[15] && x.gpu == replies[16]
        }),
{
    let q = spec_followup_queries();
    assert(q[12] == DaemonCommand::GetSync);
    assert(q[13] == DaemonCommand::GetBatteryHealthOptimizer);
    assert(q[14] == DaemonCommand::GetFnSwap);
    assert(q[15] == DaemonCommand::GetCurrentEffect);
    assert(q[16] == DaemonCommand::GetGpuStatus);
    assert(replies[12] matches Some(r) && answers(q[12], r));
    assert(replies[13] matches Some(r) && answers(q[13], r));
    assert(replies[14] matches Some(r) && answers(q[14], r));
    assert(replies[15] matches Some(r) && answers(q[15], r));
    assert(replies[16] matches Some(r) && answers(q[16], r));
}

/// With the daemon online, the snapshot's GPU figures are those of the
/// `GetGpuStatus` reply, each under its like-named field: the name,
/// temperature, utilisation, memory utilisation, power draw and limits,
/// memory in use and total, clocks and staleness.
pub proof fn law_poll_shows_gpu_reply(
    data: PollData,
    on_ac: bool,
    battery_pct: u8,
    sys: SysMetrics,
    sys_static: SysStatic,
    device: Option<DaemonResponse>,
    x: DaemonReplies,
    name: String,
    temp_c: i32,
    gpu_util: u8,
    mem_util: u8,
    stale: bool,
    power_mw: i64,
    power_limit_mw: i64,
    power_max_limit_mw: i64,
    mem_used_mb: u32,
    mem_total_mb: u32,
    clock_gpu_mhz: u32,
    clock_mem_mhz: u32,
)
    requires
        spec_daemon_online(device),
        x.gpu == Some(
            DaemonResponse::GetGpuStatus {
                name,
                temp_c,
                gpu_util,
                mem_util,
                stale,
                power_mw,
                power_limit_mw,
                power_max_limit_mw,
                mem_used_mb,
                mem_total_mb,
                clock_gpu_mhz,
                clock_mem_mhz,
            },
        ),
        poll_result(data, on_ac, battery_pct, sys, sys_static, device, Some(x)),
    ensures
        data.gpu matches Some(g) && {
            &&& g.name == name
            &&& g.temp == temp_c
            &&& g.util == gpu_util
            &&& g.mem_util == mem_util
            &&& g.power_mw == power_mw
            &&& g.power_limit_mw == power_limit_mw
            &&& g.power_max_limit_mw == power_max_limit_mw
            &&& g.mem_used_mb == mem_used_mb
            &&& g.mem_total_mb == mem_total_mb
            &&& g.clk_gpu_mhz == clock_gpu_mhz
            &&& g.clk_mem_mhz == clock_mem_mhz
            &&& g.stale == stale
        },
{
}

/// With the daemon online, the snapshot's battery health optimizer is on
/// exactly where its reply says so, with the reply's threshold.
pub proof fn law_poll_shows_battery_optimizer_reply(
    data: PollData,
    on_ac: bool,
    battery_pct: u8,
    sys: SysMetrics,
    sys_static: SysStatic,
    device: Option<DaemonResponse>,
    x: DaemonReplies,
    is_on: bool,
    threshold: u8,
)
    requires
        spec_daemon_online(device),
        x.battery_health == Some(DaemonResponse::GetBatteryHealthOptimizer { is_on, threshold }),
        poll_result(data, on_ac, battery_pct, sys, sys_static, device, Some(x)),
    ensures
        data.bho == is_on,
        data.bho_thr == threshold,
{
}

/// With the daemon online, the snapshot shows the current effect's name and
/// arguments from the `GetCurrentEffect` reply, and the sync and Fn-swap
/// flags from their own replies.
pub proof fn law_poll_shows_effect_and_flags(
    data: PollData,
    on_ac: bool,
    battery_pct: u8,
    sys: SysMetrics,
    sys_static: SysStatic,
    device: Option<DaemonResponse>,
    x: DaemonReplies,
    effect_name: String,
    effect_args: Vec<u8>,
    sync: bool,
    swap: bool,
)
    requires
        spec_daemon_online(device),
        x.effect == Some(DaemonResponse::GetCurrentEffect { name: effect_name, args: effect_args }),
        x.sync == Some(DaemonResponse::GetSync { sync }),
        x.fn_swap == Some(DaemonResponse::GetFnSwap { swap }),
        poll_result(data, on_ac, battery_pct, sys, sys_static, device, Some(x)),
    ensures
        data.effect_name == effect_name,
        data.effect_args == effect_args,
        data.sync == sync,
        data.fn_swap == swap,
{
}

/// With the daemon online, the mains snapshot holds the settings that the
/// replies to the mains slot's queries carry, and the battery snapshot those
/// of the battery slot's.
pub proof fn law_poll_shows_slot_replies(
    data: PollData,
    on_ac: bool,
    battery_pct: u8,
    sys: SysMetrics,
    sys_static: SysStatic,
    device: Option<DaemonResponse>,
    x: DaemonReplies,
    mains: Pwr,
    battery: Pwr,
)
    requires
        spec_daemon_online(device),
        x.ac.pwr_level == Some(DaemonResponse::GetPwrLevel { pwr: mains.mode }),
        x.ac.cpu_boost == Some(DaemonResponse::GetCPUBoost { cpu: mains.cpu }),
        x.ac.gpu_boost == Some(DaemonResponse::GetGPUBoost { gpu: mains.gpu }),
        x.ac.fan_speed == Some(DaemonResponse::GetFanSpeed { rpm: mains.fan }),
        x.ac.brightness == Some(DaemonResponse::GetBrightness { result: mains.bright }),
        x.ac.logo == Some(DaemonResponse::GetLogoLedState { logo_state: mains.logo }),
        x.bat.pwr_level == Some(DaemonResponse::GetPwrLevel { pwr: battery.mode }),
        x.bat.cpu_boost == Some(DaemonResponse::GetCPUBoost { cpu: battery.cpu }),
        x.bat.gpu_boost == Some(DaemonResponse::GetGPUBoost { gpu: battery.gpu }),
        x.bat.fan_speed == Some(DaemonResponse::GetFanSpeed { rpm: battery.fan }),
        x.bat.brightness == Some(DaemonResponse::GetBrightness { result: battery.bright }),
        x.bat.logo == Some(DaemonResponse::GetLogoLedState { logo_state: battery.logo }),
        poll_result(data, on_ac, battery_pct, sys, sys_static, device, Some(x)),
    ensures
        data.ac == mains,
        data.bat == battery,
{
}

/// One poll's snapshot. The machine's own readings (`on_ac`, `battery_pct`,
/// `sys`, `sys_static`) are taken whether or not the daemon answers. `device`
/// is the reply to `GetDeviceName`; `rest` holds the replies to the other
/// queries, sent only where [`daemon_online`] holds of `device` (pass `None`
/// otherwise). Without a device name the snapshot shows the daemon offline
/// and every daemon setting at its default.
pub fn do_poll(
    on_ac: bool,
    battery_pct: u8,
    sys: SysMetrics,
    sys_static: SysStatic,
    device: Option<DaemonResponse>,
    rest: Option<DaemonReplies>,
) -> (r: PollData)
    ensures
        poll_result(r, on_ac, battery_pct, sys, sys_static, device, rest),
{
    let mut data = PollData {
        ok: false,
        devname: String::new(),
        ac: Pwr::unset(),
        bat: Pwr::unset(),
        sync: false,
        effect_name: String::new(),
        effect_args: Vec::new(),
        bho: false,
        bho_thr: 80,
        fn_swap: false,
        on_ac,
        battery_pct,
        gpu: None,
        sys,
        sys_static,
    };
    let name = match device {
        Some(DaemonResponse::GetDeviceName { name }) => name,
        _ => {
            return data;
        },
    };
    data.ok = true;
    data.devname = name;
    let x = match rest {
        Some(x) => x,
        None => {
            return data;
        },
    };
    data.ac = poll_pwr_slot(&x.ac);
    data.bat = poll_pwr_slot(&x.bat);
    if let Some(DaemonResponse::GetSync { sync }) = x.sync {
        data.sync = sync;
    }
    if let Some(DaemonResponse::GetBatteryHealthOptimizer { is_on, threshold }) = x.battery_health {
        data.bho = is_on;
        data.bho_thr = threshold;
    }
    if let Some(DaemonResponse::GetFnSwap { swap }) = x.fn_swap {
        data.fn_swap = swap;
    }
    if let Some(DaemonResponse::GetCurrentEffect { name, args }) = x.effect {
        data.effect_name = name;
        data.effect_args = args;
    }
    if let Some(
        DaemonResponse::GetGpuStatus {
            name,
            temp_c,
            gpu_util,
            mem_util,
            stale,
            power_mw,
            power_limit_mw,
            power_max_limit_mw,
            mem_used_mb,
            mem_total_mb,
            clock_gpu_mhz,
            clock_mem_mhz,
        },
    ) = x.gpu {
        data.gpu = Some(
            GpuInfo {
                name,
                temp: temp_c,
                util: gpu_util,
                mem_util,
                power_mw,
                power_limit_mw,
                power_max_limit_mw,
                mem_used_mb,
                mem_total_mb,
                clk_gpu_mhz: clock_gpu_mhz,
                clk_mem_mhz: clock_mem_mhz,
                stale,
            },
        );
    }
    data
}

// ── Machine readings ────────────────────────────────────────────────────────

/// Whether the power status reports the mains line online (`ACLineStatus`
/// 1; 0 is offline, 255 unknown).
pub fn is_on_ac(ac_line_status: u8) -> (b: bool)
    ensures
        b == (ac_line_status == 1),
{
    ac_line_status == 1
}

/// UTF-16 code units decoded as `String::from_utf16_lossy` decodes them: a
/// unit outside the surrogate range is its own character, a high surrogate
/// followed by a low one is the character the pair encodes, and any other
/// surrogate becomes U+FFFD.
pub open spec fn utf16_lossy(units: Seq<u16>) -> Seq<char>
    decreases units.len(),
{
    if units.len() == 0 {
        Seq::empty()
    } else {
        let u = units[0];
        if u < 0xD800 || u > 0xDFFF {
            seq![u as char] + utf16_lossy(units.drop_first())
        } else if u <= 0xDBFF && units.len() >= 2 && 0xDC00 <= units[1] && units[1] <= 0xDFFF {
            seq![(0x10000 + (u - 0xD800) * 0x400 + (units[1] - 0xDC00)) as char] + utf16_lossy(
                units.subrange(2, units.len() as int),
            )
        } else {
            seq!['\u{FFFD}'] + utf16_lossy(units.drop_first())
        }
    }
}

/// Calls `String::from_utf16_lossy`. Claimed: it decodes UTF-16 as
/// `utf16_lossy` states, which is how its documentation describes it
/// (invalid data replaced by U+FFFD).
#[verifier::external_body]
fn string_from_utf16_lossy(units: &[u16]) -> (r: String)
    ensures
        r@ == utf16_lossy(units@),
{
    String::from_utf16_lossy(units)
}

/// The number of characters of a registry string value: half its byte
/// length, less the terminating NUL (saturating at 0), at most the buffer's
/// length.
pub open spec fn spec_reg_sz_chars(len_bytes: u32, buf_len: int) -> int {
    let chars = if len_bytes / 2 >= 1 {
        len_bytes / 2 - 1
    } else {
        0
    };
    if chars < buf_len {
        chars
    } else {
        buf_len
    }
}

/// The text of a registry string value that `RegGetValueW` wrote into `buf`,
/// with `len_bytes` the byte length it reported; empty where the read failed.
pub fn reg_sz_value(read_ok: bool, buf: &[u16], len_bytes: u32) -> (r: String)
    ensures
        r@ == if read_ok {
            utf16_lossy(buf@.take(spec_reg_sz_chars(len_bytes, buf@.len() as int)))
        } else {
            Seq::<char>::empty()
        },
{
    if !read_ok {
        return String::new();
    }
    let half = len_bytes / 2;
    let chars: usize = if half >= 1 {
        (half - 1) as usize
    } else {
        0
    };
    let n = if chars < buf.len() {
        chars
    } else {
        buf.len()
    };
    let mut units: Vec<u16> = Vec::new();
    let mut i: usize = 0;
    while i < n
        invariant
            0 <= i <= n <= buf@.len(),
            units@ == buf@.take(i as int),
        decreases n - i,
    {
        units.push(buf[i]);
        proof {
            assert(buf@.take(i + 1) =~= buf@.take(i as int).push(buf@[i as int]));
        }
        i = i + 1;
    }
    string_from_utf16_lossy(units.as_slice())
}

} // verus!
