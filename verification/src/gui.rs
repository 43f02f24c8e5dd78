//! What the GUI decides outside its drawing code: the daemon commands that a
//! tray menu action sends, the fan commands of a frame, and the label of the
//! GPU reading's source.
use vstd::prelude::*;
use crate::text::chars_of;
use crate::poll::DaemonCommand;

verus! {

/// An item chosen in the tray menu.
pub enum TrayAction {
    ShowWindow,
    /// A power profile: 0 balanced, 1 gaming, 2 creator, anything else silent.
    SetProfile(u8),
    /// A keyboard brightness in percent.
    SetBrightness(u8),
    ToggleStartOnBoot,
    Exit,
}

/// The CPU and GPU boost levels that go with a tray power profile.
pub open spec fn spec_profile_boosts(mode: u8) -> (u8, u8) {
    if mode == 0 {
        (0, 0)
    } else if mode == 1 {
        (1, 1)
    } else if mode == 2 {
        (2, 2)
    } else {
        (3, 3)
    }
}

/// The CPU and GPU boost levels that go with a tray power profile.
pub fn profile_boosts(mode: u8) -> (r: (u8, u8))
    ensures
        r == spec_profile_boosts(mode),
{
    match mode {
        0 => (0, 0),
        1 => (1, 1),
        2 => (2, 2),
        _ => (3, 3),
    }
}

/// A brightness in percent on the 0–255 scale, as `((pct as u32 * 255) /
/// 100) as u8` makes it.
pub open spec fn spec_brightness_value(pct: u8) -> u8 {
    ((pct * 255 / 100) % 256) as u8
}

/// A brightness in percent on the 0–255 scale.
pub fn brightness_value(pct: u8) -> (r: u8)
    ensures
        r == spec_brightness_value(pct),
{
    let scaled: u32 = (pct as u32) * 255 / 100;
    (scaled % 256) as u8
}

/// What the GUI does for a tray menu action.
pub struct TrayEffects {
    /// The daemon commands to send, in order.
    pub commands: Vec<DaemonCommand>,
    /// Whether to poll again at once.
    pub wake_poll: bool,
    /// Whether to bring the window to the front.
    pub focus_window: bool,
    /// Whether to close the window.
    pub close_window: bool,
    /// Whether to flip the start-on-boot setting.
    pub toggle_autostart: bool,
}

/// The commands that a tray action sends: a profile goes to both power
/// slots, mains first, with its boost levels; a brightness goes to both
/// slots on the 0–255 scale; other actions send nothing.
pub open spec fn spec_tray_commands(action: TrayAction) -> Seq<DaemonCommand> {
    match action {
        TrayAction::SetProfile(mode) => {
            let (cpu, gpu) = spec_profile_boosts(mode);
            seq![
                DaemonCommand::SetPowerMode { ac: 1, pwr: mode, cpu, gpu },
                DaemonCommand::SetPowerMode { ac: 0, pwr: mode, cpu, gpu },
            ]
        },
        TrayAction::SetBrightness(pct) => {
            let val = spec_brightness_value(pct);
            seq![
                DaemonCommand::SetBrightness { ac: 1, val },
                DaemonCommand::SetBrightness { ac: 0, val },
            ]
        },
        _ => seq![],
    }
}

/// What the GUI does for a tray menu action: the commands of
/// [`spec_tray_commands`], a fresh poll after a command, and the window and
/// start-on-boot actions of the other items.
pub fn handle_tray_action(action: TrayAction) -> (r: TrayEffects)
    ensures
        r.commands@ == spec_tray_commands(action),
        r.wake_poll == (action is SetProfile || action is SetBrightness),
        r.focus_window == (action is ShowWindow),
        r.close_window == (action is Exit),
        r.toggle_autostart == (action is ToggleStartOnBoot),
{
    let mut r = TrayEffects {
        commands: Vec::new(),
        wake_poll: false,
        focus_window: false,
        close_window: false,
        toggle_autostart: false,
    };
    match action {
        TrayAction::ShowWindow => {
            r.focus_window = true;
        },
        TrayAction::SetProfile(mode) => {
            let (cpu, gpu) = profile_boosts(mode);
            r.commands.push(DaemonCommand::SetPowerMode { ac: 1, pwr: mode, cpu, gpu });
            r.commands.push(DaemonCommand::SetPowerMode { ac: 0, pwr: mode, cpu, gpu });
            r.wake_poll = true;
            proof {
                assert(r.commands@ =~= spec_tray_commands(action));
            }
        },
        TrayAction::SetBrightness(pct) => {
            let val = brightness_value(pct);
            r.commands.push(DaemonCommand::SetBrightness { ac: 1, val });
            r.commands.push(DaemonCommand::SetBrightness { ac: 0, val });
            r.wake_poll = true;
            proof {
                assert(r.commands@ =~= spec_tray_commands(action));
            }
        },
        TrayAction::ToggleStartOnBoot => {
            r.toggle_autostart = true;
        },
        TrayAction::Exit => {
            r.close_window = true;
        },
    }
    proof {
        if !(action is SetProfile || action is SetBrightness) {
            assert(r.commands@ =~= spec_tray_commands(action));
        }
    }
    r
}

// ── GPU source label ────────────────────────────────────────────────────────

/// The fan commands that one frame sends from the temperature-target
/// controller's outcome for the mains slot and for the battery slot (`None`
/// where it keeps the fan speed): mains first, then battery, each with its
/// new speed.
pub open spec fn spec_fan_speed_commands(mains: Option<i32>, battery: Option<i32>) -> Seq<
    DaemonCommand,
> {
    let first = match mains {
        Some(rpm) => seq![DaemonCommand::SetFanSpeed { ac: 1, rpm }],
        None => Seq::<DaemonCommand>::empty(),
    };
    let second = match battery {
        Some(rpm) => seq![DaemonCommand::SetFanSpeed { ac: 0, rpm }],
        None => Seq::<DaemonCommand>::empty(),
    };
    first + second
}

/// The `SetFanSpeed` commands of one frame, as [`spec_fan_speed_commands`].
pub fn fan_speed_commands(mains: Option<i32>, battery: Option<i32>) -> (r: Vec<DaemonCommand>)
    ensures
        r@ == spec_fan_speed_commands(mains, battery),
{
    let mut r: Vec<DaemonCommand> = Vec::new();
    if let Some(rpm) = mains {
        r.push(DaemonCommand::SetFanSpeed { ac: 1, rpm });
    }
    if let Some(rpm) = battery {
        r.push(DaemonCommand::SetFanSpeed { ac: 0, rpm });
    }
    proof {
        assert(r@ =~= spec_fan_speed_commands(mains, battery));
    }
    r
}

/// Whether `pat` occurs in `s`.
pub open spec fn contains_text(s: Seq<char>, pat: Seq<char>) -> bool {
    exists|i: int| 0 <= i && i + pat.len() <= s.len() && #[trigger] s.subrange(i, i + pat.len()) == pat
}

fn matches_at(v: &Vec<char>, p: &Vec<char>, i: usize) -> (b: bool)
    requires
        i + p.len() <= v.len(),
    ensures
        b == (v@.subrange(i as int, i + p.len()) == p@),
{
    let mut k: usize = 0;
    while k < p.len()
        invariant
            i + p.len() <= v.len(),
            0 <= k <= p.len(),
            forall|j: int| 0 <= j < k ==> v@[i + j] == p@[j],
        decreases p.len() - k,
    {
        if v[i + k] != p[k] {
            proof {
                assert(v@.subrange(i as int, i + p.len())[k as int] != p@[k as int]);
            }
            return false;
        }
        k = k + 1;
    }
    proof {
        assert(v@.subrange(i as int, i + p.len()) =~= p@);
    }
    true
}

/// Whether `pat` occurs in `s`, as `str::contains` tells.
pub fn str_contains(s: &str, pat: &str) -> (b: bool)
    ensures
        b == contains_text(s@, pat@),
{
    let v = chars_of(s);
    let p = chars_of(pat);
    if p.len() > v.len() {
        return false;
    }
    if p.len() == 0 {
        proof {
            assert(pat@.len() == 0);
            assert(s@.subrange(0, 0int + pat@.len()) =~= pat@);
        }
        return true;
    }
    let last = v.len() - p.len();
    let mut i: usize = 0;
    while i <= last
        invariant
            1 <= p.len() <= v.len(),
            last == v.len() - p.len(),
            v@ == s@,
            p@ == pat@,
            0 <= i <= last + 1,
            forall|j: int| 0 <= j < i ==> #[trigger] v@.subrange(j, j + p.len()) != p@,
        decreases last + 1 - i,
    {
        if matches_at(&v, &p, i) {
            return true;
        }
        i = i + 1;
    }
    proof {
        assert forall|j: int| 0 <= j && j + pat@.len() <= s@.len() implies #[trigger] s@.subrange(
            j,
            j + pat@.len(),
        ) != pat@ by {
            assert(v@.subrange(j, j + p.len()) != p@);
        }
    }
    false
}

/// The label that the sidebar shows for the GPU reading's source, given the
/// reading's name if there is a reading: counter readings show as
/// "GPU: PDH", no reading as "GPU: N/A", anything else as "GPU: live".
pub open spec fn spec_gpu_source_label(name: Option<Seq<char>>) -> Seq<char> {
    let src = match name {
        Some(n) => n,
        None => "unavailable"@,
    };
    if contains_text(src, "Task Manager"@) || contains_text(src, "PDH"@) {
        "GPU: PDH"@
    } else if contains_text(src, "unavailable"@) {
        "GPU: N/A"@
    } else {
        "GPU: live"@
    }
}

/// The label of the GPU reading's source for the sidebar.
pub fn gpu_source_label(name: Option<&str>) -> (r: &'static str)
    ensures
        r@ == spec_gpu_source_label(
            match name {
                Some(n) => Some(n@),
                None => None,
            },
        ),
{
    let src = match name {
        Some(n) => n,
        None => "unavailable",
    };
    if str_contains(src, "Task Manager") || str_contains(src, "PDH") {
        "GPU: PDH"
    } else if str_contains(src, "unavailable") {
        "GPU: N/A"
    } else {
        "GPU: live"
    }
}

} // verus!
