//! Temperature readings from the raw replies of the Windows thermal-zone and
//! storage drivers. Thermal-zone temperatures are in hundredths of a degree
//! Celsius; drive temperatures in whole degrees.
use vstd::prelude::*;

verus! {

// ── Thermal zones ───────────────────────────────────────────────────────────

/// A thermal zone's temperature, given in tenths of a kelvin, in hundredths
/// of a degree Celsius, where it is a plausible CPU reading: above 0 °C and
/// below 120 °C.
pub open spec fn spec_zone_centi_c(decikelvin: u32) -> Option<int> {
    let c = decikelvin * 10 - 27315;
    if decikelvin > 0 && 0 < c && c < 12000 {
        Some(c)
    } else {
        None
    }
}

/// The hottest plausible reading among `zones`, 0 where none is plausible.
pub open spec fn spec_zones_max(zones: Seq<u32>) -> int
    decreases zones.len(),
{
    if zones.len() == 0 {
        0
    } else {
        let rest = spec_zones_max(zones.drop_last());
        match spec_zone_centi_c(zones.last()) {
            Some(c) => if c > rest {
                c
            } else {
                rest
            },
            None => rest,
        }
    }
}

/// A thermal zone's temperature in hundredths of a degree Celsius, where it
/// is plausible.
pub fn zone_centi_c(decikelvin: u32) -> (r: Option<i32>)
    ensures
        r matches Some(c) ==> spec_zone_centi_c(decikelvin) == Some(c as int),
        r is None ==> spec_zone_centi_c(decikelvin) is None,
{
    if decikelvin == 0 || decikelvin <= 2731 || decikelvin >= 3932 {
        return None;
    }
    let c = (decikelvin as i32) * 10 - 27315;
    Some(c)
}

/// The hottest plausible thermal-zone reading, in hundredths of a degree
/// Celsius; 0 where no zone gives a plausible one.
pub fn zones_max_centi_c(zones: &Vec<u32>) -> (r: i32)
    ensures
        r == spec_zones_max(zones@),
        0 <= r < 12000,
        forall|i: int|
            0 <= i < zones.len() ==> ((#[trigger] spec_zone_centi_c(zones@[i])) matches Some(c)
                ==> c <= r),
        r == 0 || exists|i: int|
            0 <= i < zones.len() && spec_zone_centi_c(zones@[i]) == Some(r as int),
{
    let mut best: i32 = 0;
    let mut i: usize = 0;
    while i < zones.len()
        invariant
            0 <= i <= zones.len(),
            best == spec_zones_max(zones@.take(i as int)),
            0 <= best < 12000,
            forall|k: int|
                0 <= k < i ==> ((#[trigger] spec_zone_centi_c(zones@[k])) matches Some(c) ==> c
                    <= best),
            best == 0 || exists|k: int|
                0 <= k < i && spec_zone_centi_c(zones@[k]) == Some(best as int),
        decreases zones.len() - i,
    {
        proof {
            assert(zones@.take(i + 1).drop_last() =~= zones@.take(i as int));
            assert(zones@.take(i + 1).last() == zones@[i as int]);
        }
        match zone_centi_c(zones[i]) {
            Some(c) => {
                if c > best {
                    best = c;
                }
            },
            None => {},
        }
        i = i + 1;
    }
    proof {
        assert(zones@.take(i as int) =~= zones@);
    }
    best
}

/// The little-endian `u32` at `buf[at..at + 4]`.
pub open spec fn le_u32(buf: Seq<u8>, at: int) -> int {
    buf[at] + buf[at + 1] * 256 + buf[at + 2] * 65536 + buf[at + 3] * 16777216
}

/// The little-endian `u16` at `buf[at..at + 2]`.
pub open spec fn le_u16(buf: Seq<u8>, at: int) -> int {
    buf[at] + buf[at + 1] * 256
}

/// The little-endian `i16` at `buf[at..at + 2]`.
pub open spec fn le_i16(buf: Seq<u8>, at: int) -> int {
    let u = le_u16(buf, at);
    if u >= 32768 {
        u - 65536
    } else {
        u
    }
}

/// The `CurrentTemperature` (tenths of a kelvin) of a thermal-zone query:
/// only where the query succeeded and returned at least the 32 bytes that
/// reach it, at offset 28.
pub open spec fn spec_zone_reading(ok: bool, returned: u32, buf: Seq<u8>) -> Option<int> {
    if ok && returned >= 32 {
        Some(le_u32(buf, 28))
    } else {
        None
    }
}

/// The thermal-zone temperature in a query's reply, if the reply reaches it.
pub fn zone_reading(ok: bool, returned: u32, buf: &[u8]) -> (r: Option<u32>)
    requires
        buf@.len() >= 32,
    ensures
        r matches Some(t) ==> spec_zone_reading(ok, returned, buf@) == Some(t as int),
        r is None ==> spec_zone_reading(ok, returned, buf@) is None,
{
    if ok && returned >= 32 {
        let t = (buf[28] as u32) + (buf[29] as u32) * 256 + (buf[30] as u32) * 65536 + (
        buf[31] as u32) * 16777216;
        Some(t)
    } else {
        None
    }
}

/// Whether `units[k]` is the first NUL of `units`.
pub open spec fn is_first_nul(units: Seq<u16>, k: int) -> bool {
    0 <= k < units.len() && units[k] == 0 && forall|j: int| 0 <= j < k ==> units[j] != 0
}

/// A device path as the interface detail holds it: the UTF-16 units up to
/// and including the first NUL.
pub fn device_path_with_nul(units: &[u16]) -> (r: Vec<u16>)
    requires
        exists|k: int| 0 <= k < units@.len() && units@[k] == 0,
    ensures
        exists|k: int| is_first_nul(units@, k) && r@ == units@.take(k + 1),
{
    let mut len: usize = 0;
    while units[len] != 0
        invariant
            0 <= len < units@.len(),
            forall|j: int| 0 <= j < len ==> units@[j] != 0,
            exists|k: int| len <= k < units@.len() && units@[k] == 0,
        decreases units@.len() - len,
    {
        len = len + 1;
    }
    let mut out: Vec<u16> = Vec::new();
    let mut i: usize = 0;
    while i <= len
        invariant
            0 <= i <= len + 1,
            len < units@.len(),
            out@ == units@.take(i as int),
        decreases len + 1 - i,
    {
        out.push(units[i]);
        proof {
            assert(units@.take(i + 1) =~= units@.take(i as int).push(units@[i as int]));
        }
        i = i + 1;
    }
    proof {
        assert(is_first_nul(units@, len as int));
    }
    out
}

// ── Drives ──────────────────────────────────────────────────────────────────

/// The size of the reply header before the SMART log of an NVMe
/// protocol-specific query.
pub const NVME_REPLY_HEADER: usize = 56;

/// The composite temperature of an NVMe SMART / health log, in °C: bytes 1
/// and 2 of the log hold it in kelvin; only readings strictly between 200 K
/// and 400 K count, and only where the query succeeded and returned them.
pub open spec fn spec_nvme_temp_c(ok: bool, returned: u32, buf: Seq<u8>) -> Option<int> {
    if ok && returned >= 59 {
        let k = le_u16(buf, 57);
        if 200 < k && k < 400 {
            Some(k - 273)
        } else {
            None
        }
    } else {
        None
    }
}

/// The drive temperature in an NVMe SMART / health log reply.
pub fn nvme_temp_c(ok: bool, returned: u32, buf: &[u8]) -> (r: Option<i32>)
    requires
        buf@.len() >= 59,
    ensures
        r matches Some(t) ==> spec_nvme_temp_c(ok, returned, buf@) == Some(t as int),
        r is None ==> spec_nvme_temp_c(ok, returned, buf@) is None,
        r matches Some(t) ==> -73 < t < 127,
{
    if ok && returned >= 59 {
        let k = (buf[57] as i32) + (buf[58] as i32) * 256;
        if 200 < k && k < 400 {
            Some(k - 273)
        } else {
            None
        }
    } else {
        None
    }
}

/// The layout of a storage temperature descriptor: the descriptor header's
/// size and the size of one temperature entry after it. The count of entries
/// sits at offset 12 of the header, the temperature at offset 2 of an entry.
pub struct TempLayout {
    pub header_len: usize,
    pub info_len: usize,
}

/// The layout as the daemon declares it: a 16-byte header and 12-byte entries.
pub fn daemon_temp_layout() -> (r: TempLayout)
    ensures
        r.header_len == 16 && r.info_len == 12,
{
    TempLayout { header_len: 16, info_len: 12 }
}

/// The layout as the GUI declares it: a 24-byte header and 12-byte entries.
pub fn gui_temp_layout() -> (r: TempLayout)
    ensures
        r.header_len == 24 && r.info_len == 12,
{
    TempLayout { header_len: 24, info_len: 12 }
}

/// The temperature of a storage temperature property reply, in °C: only
/// where the query succeeded, the reply covers the header, the header counts
/// at least one entry, the reply covers the first entry, and that entry's
/// temperature lies strictly between 0 and 80 °C.
pub open spec fn spec_storage_temp_c(
    ok: bool,
    returned: u32,
    buf: Seq<u8>,
    header_len: int,
    info_len: int,
) -> Option<int> {
    if ok && returned >= header_len && le_u16(buf, 12) > 0 && returned >= header_len + info_len {
        let t = le_i16(buf, header_len + 2);
        if 0 < t && t < 80 {
            Some(t)
        } else {
            None
        }
    } else {
        None
    }
}

/// The drive temperature in a storage temperature property reply laid out as
/// `layout` says.
pub fn storage_temp_c(ok: bool, returned: u32, buf: &[u8], layout: &TempLayout) -> (r: Option<i32>)
    requires
        14 <= layout.header_len,
        4 <= layout.info_len,
        layout.header_len + layout.info_len <= buf@.len(),
    ensures
        r matches Some(t) ==> spec_storage_temp_c(
            ok,
            returned,
            buf@,
            layout.header_len as int,
            layout.info_len as int,
        ) == Some(t as int),
        r is None ==> spec_storage_temp_c(
            ok,
            returned,
            buf@,
            layout.header_len as int,
            layout.info_len as int,
        ) is None,
        r matches Some(t) ==> 0 < t < 80,
{
    let h = layout.header_len;
    let n = layout.info_len;
    if !ok || (returned as usize) < h {
        return None;
    }
    let count = (buf[12] as u32) + (buf[13] as u32) * 256;
    if count == 0 || (returned as usize) < h + n {
        return None;
    }
    let raw = (buf[h + 2] as i32) + (buf[h + 3] as i32) * 256;
    let t = if raw >= 32768 {
        raw - 65536
    } else {
        raw
    };
    if 0 < t && t < 80 {
        Some(t)
    } else {
        None
    }
}

/// Whether a drive's temperature property is asked: only where its NVMe
/// health log gave no reading.
pub fn wants_property_query(nvme: &Option<i32>) -> (b: bool)
    ensures
        b == (nvme is None),
{
    nvme.is_none()
}

/// A drive's reading: the NVMe health log's where it gives one, else the
/// temperature property's (asked only then; pass `None` otherwise).
pub fn drive_reading(nvme: Option<i32>, property: Option<i32>) -> (r: Option<i32>)
    ensures
        r == (if nvme is Some {
            nvme
        } else {
            property
        }),
{
    match nvme {
        Some(t) => Some(t),
        None => property,
    }
}

// ── Which drive to ask ──────────────────────────────────────────────────────

/// The number of physical drives a scan tries: `PhysicalDrive0` to `3`.
pub const SCANNED_DRIVES: u32 = 4;

/// What is known of the drive that reports a temperature: nothing before the
/// first scan, then the first drive that answered, or that none did.
#[derive(Clone, Copy, PartialEq, Eq, Structural)]
pub enum DriveChoice {
    Unscanned,
    Found(u32),
    NoneFound,
}

/// The next step of a drive temperature read: read a drive, or report a
/// temperature in °C (0 for none).
#[derive(Clone, Copy, PartialEq, Eq, Structural)]
pub enum ScanStep {
    Read(u32),
    Done(i32),
}

/// The first step of a read: the remembered drive, nothing where none
/// answered before, and drive 0 before the first scan. A reader that keeps
/// nothing between reads (the GUI) starts every read from `Unscanned`, and so
/// gets the first drive that answers.
pub open spec fn spec_scan_start(choice: DriveChoice) -> ScanStep {
    match choice {
        DriveChoice::Found(i) => ScanStep::Read(i),
        DriveChoice::NoneFound => ScanStep::Done(0),
        DriveChoice::Unscanned => ScanStep::Read(0),
    }
}

/// The step after `drive` gave `reading`: a remembered drive's reading is
/// reported as it is (0 for none); while scanning, the first drive that
/// answers is remembered and its reading reported, and after the last drive
/// without an answer the scan remembers that none answered.
pub open spec fn spec_scan_on_reading(choice: DriveChoice, drive: u32, reading: Option<i32>) -> (
    DriveChoice,
    ScanStep,
) {
    match choice {
        DriveChoice::Found(i) => (
            DriveChoice::Found(i),
            ScanStep::Done(
                match reading {
                    Some(t) => t,
                    None => 0,
                },
            ),
        ),
        DriveChoice::NoneFound => (DriveChoice::NoneFound, ScanStep::Done(0)),
        DriveChoice::Unscanned => match reading {
            Some(t) => (DriveChoice::Found(drive), ScanStep::Done(t)),
            None => if drive + 1 < SCANNED_DRIVES {
                (DriveChoice::Unscanned, ScanStep::Read((drive + 1) as u32))
            } else {
                (DriveChoice::NoneFound, ScanStep::Done(0))
            },
        },
    }
}

/// The first step of a drive temperature read.
pub fn ssd_scan_start(choice: DriveChoice) -> (r: ScanStep)
    ensures
        r == spec_scan_start(choice),
{
    match choice {
        DriveChoice::Found(i) => ScanStep::Read(i),
        DriveChoice::NoneFound => ScanStep::Done(0),
        DriveChoice::Unscanned => ScanStep::Read(0),
    }
}

/// The step after `drive` gave `reading`, and what is then known of the
/// drives.
pub fn ssd_scan_on_reading(choice: DriveChoice, drive: u32, reading: Option<i32>) -> (r: (
    DriveChoice,
    ScanStep,
))
    ensures
        r == spec_scan_on_reading(choice, drive, reading),
{
    match choice {
        DriveChoice::Found(i) => (
            DriveChoice::Found(i),
            ScanStep::Done(
                match reading {
                    Some(t) => t,
                    None => 0,
                },
            ),
        ),
        DriveChoice::NoneFound => (DriveChoice::NoneFound, ScanStep::Done(0)),
        DriveChoice::Unscanned => match reading {
            Some(t) => (DriveChoice::Found(drive), ScanStep::Done(t)),
            None => if drive < SCANNED_DRIVES - 1 {
                (DriveChoice::Unscanned, ScanStep::Read(drive + 1))
            } else {
                (DriveChoice::NoneFound, ScanStep::Done(0))
            },
        },
    }
}

/// Where a read driven step by step ends, with `readings[d]` what drive `d`
/// gives: what is then known of the drives, and the temperature reported.
pub open spec fn spec_run_scan(
    choice: DriveChoice,
    step: ScanStep,
    readings: Seq<Option<i32>>,
    fuel: nat,
) -> (DriveChoice, i32)
    decreases fuel,
{
    match step {
        ScanStep::Done(t) => (choice, t),
        ScanStep::Read(d) => if fuel == 0 {
            (choice, 0)
        } else {
            let (c2, s2) = spec_scan_on_reading(choice, d, readings[d as int]);
            spec_run_scan(c2, s2, readings, (fuel - 1) as nat)
        },
    }
}

/// The first drive from `from` on whose reading is a temperature, remembered
/// with that temperature; none found, with 0, where no drive gives one.
pub open spec fn spec_first_answer(readings: Seq<Option<i32>>, from: nat) -> (DriveChoice, i32)
    decreases SCANNED_DRIVES - from,
{
    if from >= SCANNED_DRIVES {
        (DriveChoice::NoneFound, 0)
    } else {
        match readings[from as int] {
            Some(t) => (DriveChoice::Found(from as u32), t),
            None => spec_first_answer(readings, from + 1),
        }
    }
}

/// The first read scans the drives in order, remembers the first that
/// answers and reports its temperature; where none answers it remembers that
/// and reports 0. It reads no drive past the first that answers.
pub proof fn law_first_scan_finds_first_answer(readings: Seq<Option<i32>>)
    requires
        readings.len() == SCANNED_DRIVES,
    ensures
        spec_run_scan(
            DriveChoice::Unscanned,
            spec_scan_start(DriveChoice::Unscanned),
            readings,
            SCANNED_DRIVES as nat,
        ) == spec_first_answer(readings, 0),
{
    reveal_with_fuel(spec_run_scan, 5);
    reveal_with_fuel(spec_first_answer, 5);
}

/// Once a drive is remembered, every later read asks that drive alone and
/// reports what it gives (0 for nothing), and the drive stays remembered.
pub proof fn law_found_drive_is_kept(drive: u32, readings: Seq<Option<i32>>)
    requires
        readings.len() == SCANNED_DRIVES,
        drive < SCANNED_DRIVES,
    ensures
        spec_scan_start(DriveChoice::Found(drive)) == ScanStep::Read(drive),
        spec_run_scan(
            DriveChoice::Found(drive),
            spec_scan_start(DriveChoice::Found(drive)),
            readings,
            1,
        ) == (
            DriveChoice::Found(drive),
            match readings[drive as int] {
                Some(t) => t,
                None => 0,
            },
        ),
{
    reveal_with_fuel(spec_run_scan, 2);
}

/// Where no drive answered, later reads report 0 without reading any drive.
pub proof fn law_no_drive_reads_nothing(readings: Seq<Option<i32>>)
    ensures
        spec_scan_start(DriveChoice::NoneFound) == ScanStep::Done(0),
        spec_run_scan(
            DriveChoice::NoneFound,
            spec_scan_start(DriveChoice::NoneFound),
            readings,
            0,
        ) == (DriveChoice::NoneFound, 0i32),
{
}

} // verus!
