//! GPU status: the `nvidia-smi` CSV reading, the passive-counter gate that
//! decides whether the discrete GPU is awake, and the status cache.
use vstd::prelude::*;
use vstd::string::StrSliceExecFns;
use vstd::utf8::{valid_utf8, decode_utf8};
use crate::text::{
    chars_of, trim, trim_span, split_on, split_spans, span_texts, spans_within, lines,
    first_nonblank, first_nonblank_line, count_char, law_split_piece_count, law_split_joined,
    all_space, law_trim_ignores_padding,
};
use crate::numbers::{
    unsigned_or_zero, signed_or_zero, parse_unsigned_or_zero, parse_signed_or_zero,
};
use crate::float_text::{float_thousandths_or_zero, parse_float_thousandths_or_zero};

verus! {

/// One GPU reading. Power values are in milliwatts.
pub struct GpuStatus {
    pub name: String,
    pub temp_c: i32,
    pub gpu_util: u8,
    pub mem_util: u8,
    pub power_mw: i64,
    pub power_limit_mw: i64,
    pub power_max_limit_mw: i64,
    pub mem_used_mb: u32,
    pub mem_total_mb: u32,
    pub clock_gpu_mhz: u32,
    pub clock_mem_mhz: u32,
}

/// The value of a [`GpuStatus`], with the name as its characters.
pub struct GpuStatusView {
    pub name: Seq<char>,
    pub temp_c: i32,
    pub gpu_util: u8,
    pub mem_util: u8,
    pub power_mw: i64,
    pub power_limit_mw: i64,
    pub power_max_limit_mw: i64,
    pub mem_used_mb: u32,
    pub mem_total_mb: u32,
    pub clock_gpu_mhz: u32,
    pub clock_mem_mhz: u32,
}

impl View for GpuStatus {
    type V = GpuStatusView;

    open spec fn view(&self) -> GpuStatusView {
        GpuStatusView {
            name: self.name@,
            temp_c: self.temp_c,
            gpu_util: self.gpu_util,
            mem_util: self.mem_util,
            power_mw: self.power_mw,
            power_limit_mw: self.power_limit_mw,
            power_max_limit_mw: self.power_max_limit_mw,
            mem_used_mb: self.mem_used_mb,
            mem_total_mb: self.mem_total_mb,
            clock_gpu_mhz: self.clock_gpu_mhz,
            clock_mem_mhz: self.clock_mem_mhz,
        }
    }
}

impl DeepView for GpuStatus {
    type V = GpuStatusView;

    open spec fn deep_view(&self) -> GpuStatusView {
        self@
    }
}

/// The reading with every number 0 and an empty name.
pub open spec fn empty_status_view() -> GpuStatusView {
    GpuStatusView {
        name: Seq::empty(),
        temp_c: 0,
        gpu_util: 0,
        mem_util: 0,
        power_mw: 0,
        power_limit_mw: 0,
        power_max_limit_mw: 0,
        mem_used_mb: 0,
        mem_total_mb: 0,
        clock_gpu_mhz: 0,
        clock_mem_mhz: 0,
    }
}

impl Default for GpuStatus {
    fn default() -> (r: GpuStatus)
        ensures
            r@ == empty_status_view(),
    {
        GpuStatus {
            name: String::new(),
            temp_c: 0,
            gpu_util: 0,
            mem_util: 0,
            power_mw: 0,
            power_limit_mw: 0,
            power_max_limit_mw: 0,
            mem_used_mb: 0,
            mem_total_mb: 0,
            clock_gpu_mhz: 0,
            clock_mem_mhz: 0,
        }
    }
}

impl GpuStatus {
    /// A copy of this reading.
    pub fn duplicate(&self) -> (r: GpuStatus)
        ensures
            r@ == self@,
    {
        GpuStatus {
            name: self.name.clone(),
            temp_c: self.temp_c,
            gpu_util: self.gpu_util,
            mem_util: self.mem_util,
            power_mw: self.power_mw,
            power_limit_mw: self.power_limit_mw,
            power_max_limit_mw: self.power_max_limit_mw,
            mem_used_mb: self.mem_used_mb,
            mem_total_mb: self.mem_total_mb,
            clock_gpu_mhz: self.clock_gpu_mhz,
            clock_mem_mhz: self.clock_mem_mhz,
        }
    }
}

// ── nvidia-smi CSV ──────────────────────────────────────────────────────────

/// The fields of a `nvidia-smi --format=csv,noheader,nounits` line: the
/// comma-separated pieces, each trimmed.
pub open spec fn smi_fields(line: Seq<char>) -> Seq<Seq<char>> {
    split_on(line, ',').map_values(|p: Seq<char>| trim(p))
}

/// A field read as `u8` the way `parse().unwrap_or(0)` reads it.
pub open spec fn u8_field(f: Seq<char>) -> u8 {
    unsigned_or_zero(trim(f), 255) as u8
}

/// A field read as `u32` the way `parse().unwrap_or(0)` reads it.
pub open spec fn u32_field(f: Seq<char>) -> u32 {
    unsigned_or_zero(trim(f), 0xffff_ffff) as u32
}

/// A field read as `i32` the way `parse().unwrap_or(0)` reads it.
pub open spec fn i32_field(f: Seq<char>) -> i32 {
    signed_or_zero(trim(f), -0x8000_0000, 0x7fff_ffff) as i32
}

/// A field read as `f32` the way `parse().unwrap_or(0.0)` reads it, in
/// thousandths rounded toward zero (see `float_thousandths_or_zero`).
pub open spec fn milli_field(f: Seq<char>) -> i64 {
    float_thousandths_or_zero(trim(f)) as i64
}

/// The reading that a `nvidia-smi` CSV line gives: `None` with fewer than
/// eleven fields, else name, temperature, GPU and memory utilisation, power
/// draw, enforced and maximum power limit, memory used and total, graphics
/// and memory clock, in that order.
pub open spec fn spec_parse_nvidia_smi_line(line: Seq<char>) -> Option<GpuStatusView> {
    let f = smi_fields(line);
    if f.len() < 11 {
        None
    } else {
        Some(
            GpuStatusView {
                name: f[0],
                temp_c: i32_field(f[1]),
                gpu_util: u8_field(f[2]),
                mem_util: u8_field(f[3]),
                power_mw: milli_field(f[4]),
                power_limit_mw: milli_field(f[5]),
                power_max_limit_mw: milli_field(f[6]),
                mem_used_mb: u32_field(f[7]),
                mem_total_mb: u32_field(f[8]),
                clock_gpu_mhz: u32_field(f[9]),
                clock_mem_mhz: u32_field(f[10]),
            },
        )
    }
}

/// A `nvidia-smi` line is read exactly where it holds at least ten commas.
pub proof fn law_smi_line_needs_ten_commas(line: Seq<char>)
    ensures
        spec_parse_nvidia_smi_line(line) is Some <==> count_char(line, ',') >= 10,
{
    law_split_piece_count(line, ',');
}

/// Only the trimmed first eleven fields count: two lines that agree on them
/// read the same.
pub proof fn law_parse_reads_first_eleven_fields(line: Seq<char>, other: Seq<char>)
    requires
        smi_fields(line).len() >= 11,
        smi_fields(other).len() >= 11,
        forall|i: int| 0 <= i < 11 ==> #[trigger] smi_fields(line)[i] == smi_fields(other)[i],
    ensures
        spec_parse_nvidia_smi_line(line) == spec_parse_nvidia_smi_line(other),
{
}

/// Fields after the eleventh never change a line's reading: appending a
/// comma and any text to a line of eleven fields or more reads the same.
pub proof fn law_extra_fields_are_ignored(line: Seq<char>, extra: Seq<char>)
    requires
        smi_fields(line).len() >= 11,
    ensures
        spec_parse_nvidia_smi_line(line + seq![','] + extra) == spec_parse_nvidia_smi_line(line),
{
    let longer = line + seq![','] + extra;
    law_split_joined(line, extra, ',');
    assert forall|i: int| 0 <= i < 11 implies #[trigger] smi_fields(longer)[i] == smi_fields(
        line,
    )[i] by {
        assert(split_on(longer, ',')[i] == split_on(line, ',')[i]);
    }
    law_parse_reads_first_eleven_fields(longer, line);
}

/// Whitespace at the ends of the first eleven fields never changes a line's
/// reading: where each of those fields of `padded` is the same field of
/// `line` with whitespace `pre[i]` before it and `post[i]` after it, the two
/// lines read the same.
pub proof fn law_field_padding_is_ignored(
    line: Seq<char>,
    padded: Seq<char>,
    pre: Seq<Seq<char>>,
    post: Seq<Seq<char>>,
)
    requires
        split_on(line, ',').len() >= 11,
        split_on(padded, ',').len() >= 11,
        pre.len() >= 11,
        post.len() >= 11,
        forall|i: int|
            0 <= i < 11 ==> all_space(#[trigger] pre[i]) && all_space(post[i]) && split_on(
                padded,
                ',',
            )[i] == pre[i] + split_on(line, ',')[i] + post[i],
    ensures
        spec_parse_nvidia_smi_line(padded) == spec_parse_nvidia_smi_line(line),
{
    assert forall|i: int| 0 <= i < 11 implies #[trigger] smi_fields(padded)[i] == smi_fields(
        line,
    )[i] by {
        assert(all_space(pre[i]));
        law_trim_ignores_padding(pre[i], split_on(line, ',')[i], post[i]);
    }
    law_parse_reads_first_eleven_fields(padded, line);
}

/// The trimmed bounds of field `k`.
fn field_span(v: &Vec<char>, spans: &Vec<(usize, usize)>, k: usize) -> (r: (usize, usize))
    requires
        k < spans.len(),
        spans_within(spans@, 0, v.len() as int),
    ensures
        r.0 <= r.1 <= v.len(),
        v@.subrange(r.0 as int, r.1 as int) == trim(span_texts(v@, spans@)[k as int]),
{
    let (a, b) = spans[k];
    trim_span(v, a, b)
}

fn u8_at(v: &Vec<char>, sp: (usize, usize)) -> (r: u8)
    requires
        sp.0 <= sp.1 <= v.len(),
    ensures
        r == u8_field(v@.subrange(sp.0 as int, sp.1 as int)),
{
    let (x, y) = trim_span(v, sp.0, sp.1);
    let n = parse_unsigned_or_zero(v, x, y, 255);
    n as u8
}

fn u32_at(v: &Vec<char>, sp: (usize, usize)) -> (r: u32)
    requires
        sp.0 <= sp.1 <= v.len(),
    ensures
        r == u32_field(v@.subrange(sp.0 as int, sp.1 as int)),
{
    let (x, y) = trim_span(v, sp.0, sp.1);
    let n = parse_unsigned_or_zero(v, x, y, 0xffff_ffff);
    n as u32
}

fn i32_at(v: &Vec<char>, sp: (usize, usize)) -> (r: i32)
    requires
        sp.0 <= sp.1 <= v.len(),
    ensures
        r == i32_field(v@.subrange(sp.0 as int, sp.1 as int)),
{
    let (x, y) = trim_span(v, sp.0, sp.1);
    let n = parse_signed_or_zero(v, x, y, 0x8000_0000, 0x7fff_ffff);
    n as i32
}

fn milli_at(v: &Vec<char>, sp: (usize, usize)) -> (r: i64)
    requires
        sp.0 <= sp.1 <= v.len(),
    ensures
        r == milli_field(v@.subrange(sp.0 as int, sp.1 as int)),
{
    let (x, y) = trim_span(v, sp.0, sp.1);
    parse_float_thousandths_or_zero(v, x, y)
}

/// Reads one line of `nvidia-smi --query-gpu=name,temperature.gpu,
/// utilization.gpu,utilization.memory,power.draw,enforced.power.limit,
/// power.max_limit,memory.used,memory.total,clocks.gr,clocks.mem
/// --format=csv,noheader,nounits`. A field that is no number reads as 0.
pub fn parse_nvidia_smi_line(line: &str) -> (r: Option<GpuStatus>)
    ensures
        r.deep_view() == spec_parse_nvidia_smi_line(line@),
{
    let v = chars_of(line);
    let spans = split_spans(&v, 0, v.len(), ',');
    let ghost f = smi_fields(line@);
    proof {
        assert(v@.subrange(0, v.len() as int) =~= line@);
        assert(f.len() == span_texts(v@, spans@).len());
    }
    if spans.len() < 11 {
        return None;
    }
    proof {
        assert forall|k: int| 0 <= k < f.len() implies #[trigger] f[k] == trim(
            span_texts(v@, spans@)[k],
        ) by {}
    }
    let name_sp = field_span(&v, &spans, 0);
    let name = line.substring_char(name_sp.0, name_sp.1).to_owned();
    let status = GpuStatus {
        name,
        temp_c: i32_at(&v, field_span(&v, &spans, 1)),
        gpu_util: u8_at(&v, field_span(&v, &spans, 2)),
        mem_util: u8_at(&v, field_span(&v, &spans, 3)),
        power_mw: milli_at(&v, field_span(&v, &spans, 4)),
        power_limit_mw: milli_at(&v, field_span(&v, &spans, 5)),
        power_max_limit_mw: milli_at(&v, field_span(&v, &spans, 6)),
        mem_used_mb: u32_at(&v, field_span(&v, &spans, 7)),
        mem_total_mb: u32_at(&v, field_span(&v, &spans, 8)),
        clock_gpu_mhz: u32_at(&v, field_span(&v, &spans, 9)),
        clock_mem_mhz: u32_at(&v, field_span(&v, &spans, 10)),
    };
    Some(status)
}

/// The text that `String::from_utf8_lossy` makes of bytes.
pub uninterp spec fn utf8_lossy(bytes: Seq<u8>) -> Seq<char>;

/// Calls `String::from_utf8_lossy`, which decodes UTF-8 and puts U+FFFD in
/// place of invalid sequences. Claimed: the result is `utf8_lossy` of the
/// bytes, and, as its documentation says, valid UTF-8 comes back as the
/// text it encodes. What replaces invalid sequences is left unsaid.
#[verifier::external_body]
fn string_from_utf8_lossy(bytes: &[u8]) -> (r: String)
    ensures
        r@ == utf8_lossy(bytes@),
        valid_utf8(bytes@) ==> r@ == decode_utf8(bytes@),
{
    String::from_utf8_lossy(bytes).into_owned()
}

/// What a finished `nvidia-smi` run reports: nothing unless it exited with
/// success, else the reading of the first line of its output (decoded as
/// `String::from_utf8_lossy` decodes it) that is not blank.
pub open spec fn spec_status_from_nvidia_smi_output(success: bool, stdout: Seq<u8>) -> Option<
    GpuStatusView,
> {
    if !success {
        None
    } else {
        match first_nonblank(lines(utf8_lossy(stdout))) {
            Some(line) => spec_parse_nvidia_smi_line(line),
            None => None,
        }
    }
}

/// The reading that a finished `nvidia-smi` run gives, from whether it
/// exited with success and the bytes of its standard output.
pub fn status_from_nvidia_smi_output(success: bool, stdout: &[u8]) -> (r: Option<GpuStatus>)
    ensures
        r.deep_view() == spec_status_from_nvidia_smi_output(success, stdout@),
{
    if !success {
        return None;
    }
    let text = string_from_utf8_lossy(stdout);
    let v = chars_of(text.as_str());
    match first_nonblank_line(&v) {
        Some((a, b)) => {
            let line = text.as_str().substring_char(a, b);
            parse_nvidia_smi_line(line)
        },
        None => None,
    }
}

// ── The passive gate ────────────────────────────────────────────────────────

/// The name a reading gets while the discrete GPU sleeps.
pub open spec fn sleeping_name() -> Seq<char> {
    "NVIDIA GPU (Sleeping)"@
}

/// The name of a reading made from the Windows performance counters.
pub open spec fn counters_name() -> Seq<char> {
    "GPU (Task Manager counters)"@
}

/// Whether the passive counters show the discrete GPU awake: more than
/// 256 MB of dedicated memory in use (the integrated GPU holds about 128 MB),
/// or a temperature above 0 °C (a powered-off sensor reads 0).
pub open spec fn spec_gpu_awake(pdh: Option<GpuStatusView>) -> bool {
    match pdh {
        Some(g) => g.mem_used_mb > 256 || g.temp_c > 0,
        None => false,
    }
}

/// A counters reading with the activity that the integrated GPU adds taken
/// out: renamed, with utilisation, power draw and clocks set to 0.
pub open spec fn spec_sleeping(g: GpuStatusView) -> GpuStatusView {
    GpuStatusView {
        name: sleeping_name(),
        gpu_util: 0,
        power_mw: 0,
        clock_gpu_mhz: 0,
        clock_mem_mhz: 0,
        ..g
    }
}

/// Whether a query asks `nvidia-smi`: where the counters show the discrete
/// GPU awake, and where the counters gave no reading at all.
pub open spec fn spec_wants_nvidia_smi(pdh: Option<GpuStatusView>) -> bool {
    pdh is None || spec_gpu_awake(pdh)
}

/// The reading that a query gives from the counters reading `pdh` and, where
/// it was asked, the `nvidia-smi` reading `smi`.
pub open spec fn spec_query_gpu(pdh: Option<GpuStatusView>, smi: Option<GpuStatusView>) -> Option<
    GpuStatusView,
> {
    match pdh {
        None => smi,
        Some(g) => if spec_gpu_awake(pdh) {
            if smi is Some {
                smi
            } else {
                pdh
            }
        } else {
            Some(spec_sleeping(g))
        },
    }
}

/// Whether the counters reading shows the discrete GPU awake, so that
/// `nvidia-smi` may be run without waking it.
pub fn gpu_awake(pdh: &Option<GpuStatus>) -> (b: bool)
    ensures
        b == spec_gpu_awake(pdh.deep_view()),
{
    match pdh {
        Some(g) => g.mem_used_mb > 256 || g.temp_c > 0,
        None => false,
    }
}

/// `g` as a reading of a sleeping discrete GPU.
pub fn sleeping_status(g: GpuStatus) -> (r: GpuStatus)
    ensures
        r@ == spec_sleeping(g@),
{
    GpuStatus {
        name: "NVIDIA GPU (Sleeping)".to_owned(),
        gpu_util: 0,
        power_mw: 0,
        clock_gpu_mhz: 0,
        clock_mem_mhz: 0,
        ..g
    }
}

/// Whether a query asks `nvidia-smi`, given the counters reading.
pub fn wants_nvidia_smi(pdh: &Option<GpuStatus>) -> (b: bool)
    ensures
        b == spec_wants_nvidia_smi(pdh.deep_view()),
{
    pdh.is_none() || gpu_awake(pdh)
}

/// The reading a GPU query gives. `pdh` is the counters reading; `smi` is
/// what `nvidia-smi` gave, asked only where [`wants_nvidia_smi`] holds of
/// `pdh` (pass `None` otherwise). Without a counters reading the query falls
/// back to `nvidia-smi`; while the GPU is awake the `nvidia-smi` reading wins
/// and the counters reading stands in for it; while it sleeps the counters
/// reading is returned with the integrated GPU's activity taken out.
pub fn query_gpu(pdh: Option<GpuStatus>, smi: Option<GpuStatus>) -> (r: Option<GpuStatus>)
    ensures
        r.deep_view() == spec_query_gpu(pdh.deep_view(), smi.deep_view()),
{
    if pdh.is_none() {
        return smi;
    }
    if gpu_awake(&pdh) {
        if smi.is_some() {
            smi
        } else {
            pdh
        }
    } else {
        match pdh {
            Some(g) => Some(sleeping_status(g)),
            None => None,
        }
    }
}

/// While the counters show the discrete GPU asleep, a query reports it asleep
/// whatever `nvidia-smi` would say: the counters reading renamed, with zero
/// utilisation, power draw and clocks, and its memory figures and temperature
/// kept.
pub proof fn law_sleeping_gpu_reads_quiet(
    pdh: Option<GpuStatusView>,
    smi: Option<GpuStatusView>,
    other_smi: Option<GpuStatusView>,
)
    requires
        pdh is Some,
        !spec_wants_nvidia_smi(pdh),
    ensures
        spec_query_gpu(pdh, smi) == spec_query_gpu(pdh, other_smi),
        spec_query_gpu(pdh, smi) matches Some(g) && {
            &&& g.name == sleeping_name()
            &&& g.gpu_util == 0
            &&& g.power_mw == 0
            &&& g.clock_gpu_mhz == 0
            &&& g.clock_mem_mhz == 0
            &&& g.mem_used_mb == pdh->0.mem_used_mb
            &&& g.mem_total_mb == pdh->0.mem_total_mb
            &&& g.mem_util == pdh->0.mem_util
            &&& g.temp_c == pdh->0.temp_c
        },
{
}

/// Wherever a query asks `nvidia-smi` and gets a reading, that reading is
/// what the query reports.
pub proof fn law_nvidia_smi_reading_wins(pdh: Option<GpuStatusView>, smi: Option<GpuStatusView>)
    requires
        spec_wants_nvidia_smi(pdh),
        smi is Some,
    ensures
        spec_query_gpu(pdh, smi) == smi,
{
}

/// Where the counters show the GPU awake but `nvidia-smi` gives nothing, the
/// counters reading is reported as it is.
pub proof fn law_awake_gpu_falls_back_to_counters(pdh: Option<GpuStatusView>)
    requires
        spec_gpu_awake(pdh),
    ensures
        spec_query_gpu(pdh, None) == pdh,
{
}

/// `nvidia-smi` is asked where the counters give no reading, show more than
/// 256 MB of dedicated memory in use, or show a temperature above 0 °C, and
/// nowhere else.
pub proof fn law_gate_opens_on_memory_or_heat(g: GpuStatusView)
    ensures
        spec_wants_nvidia_smi(None),
        spec_wants_nvidia_smi(Some(g)) <==> (g.mem_used_mb > 256 || g.temp_c > 0),
{
}

/// The memory utilisation in percent that the counters give, as the `u8`
/// that `(used * 100 / total) as u8` makes of it; 0 with no total.
pub open spec fn spec_mem_util(used_mb: u32, total_mb: u32) -> u8 {
    if total_mb > 0 {
        (((used_mb as int) * 100 / (total_mb as int)) % 256) as u8
    } else {
        0
    }
}

/// The memory utilisation in percent of `used_mb` out of `total_mb`.
pub fn mem_util_percent(used_mb: u32, total_mb: u32) -> (r: u8)
    requires
        used_mb * 100 <= u32::MAX,
    ensures
        r == spec_mem_util(used_mb, total_mb),
{
    if total_mb > 0 {
        let pct = used_mb * 100 / total_mb;
        (pct % 256) as u8
    } else {
        0
    }
}

/// The reading that the Windows performance counters give: GPU utilisation,
/// dedicated memory used and its limit in MB, and temperature, with the
/// memory utilisation worked out and every other number 0.
pub open spec fn spec_counters_status(
    gpu_util: u8,
    mem_used_mb: u32,
    mem_total_mb: u32,
    temp_c: i32,
) -> GpuStatusView {
    GpuStatusView {
        name: counters_name(),
        gpu_util,
        mem_util: spec_mem_util(mem_used_mb, mem_total_mb),
        mem_used_mb,
        mem_total_mb,
        temp_c,
        ..empty_status_view()
    }
}

/// The reading made from the Windows performance counters' values.
pub fn counters_status(gpu_util: u8, mem_used_mb: u32, mem_total_mb: u32, temp_c: i32) -> (r:
    GpuStatus)
    requires
        mem_used_mb * 100 <= u32::MAX,
    ensures
        r@ == spec_counters_status(gpu_util, mem_used_mb, mem_total_mb, temp_c),
        r.mem_used_mb == mem_used_mb,
        r.mem_total_mb == mem_total_mb,
        r.gpu_util == gpu_util,
        r.temp_c == temp_c,
{
    GpuStatus {
        name: "GPU (Task Manager counters)".to_owned(),
        gpu_util,
        mem_util: mem_util_percent(mem_used_mb, mem_total_mb),
        mem_used_mb,
        mem_total_mb,
        temp_c,
        ..GpuStatus::default()
    }
}

/// A counters reading carries the dedicated memory in use as its used
/// memory and the dedicated limit as its total, and keeps the utilisation
/// and temperature it was given.
pub proof fn law_counters_reading_keeps_its_figures(
    gpu_util: u8,
    mem_used_mb: u32,
    mem_total_mb: u32,
    temp_c: i32,
)
    ensures
        ({
            let g = spec_counters_status(gpu_util, mem_used_mb, mem_total_mb, temp_c);
            &&& g.mem_used_mb == mem_used_mb
            &&& g.mem_total_mb == mem_total_mb
            &&& g.gpu_util == gpu_util
            &&& g.temp_c == temp_c
        }),
{
}

/// Where no more memory is in use than the limit, a counters reading's
/// memory utilisation is the share in use in whole percent, rounded down:
/// `mem_util * total <= used * 100 < (mem_util + 1) * total`.
pub proof fn law_counters_memory_share(gpu_util: u8, mem_used_mb: u32, mem_total_mb: u32, temp_c: i32)
    requires
        0 < mem_total_mb,
        mem_used_mb <= mem_total_mb,
    ensures
        ({
            let m = spec_counters_status(gpu_util, mem_used_mb, mem_total_mb, temp_c).mem_util as int;
            &&& m <= 100
            &&& m * mem_total_mb <= mem_used_mb * 100
            &&& mem_used_mb * 100 < (m + 1) * mem_total_mb
        }),
{
    let u = mem_used_mb as int;
    let t = mem_total_mb as int;
    let q = u * 100 / t;
    assert(0 <= q <= 100 && q * t <= u * 100 && u * 100 < (q + 1) * t) by (nonlinear_arith)
        requires
            0 < t,
            0 <= u <= t,
            q == u * 100 / t,
    ;
    assert(q % 256 == q);
}

/// A counters status is awake exactly where more than 256 MB are in use or
/// its temperature is above 0 °C, whatever its total.
pub proof fn law_counters_gate_reads_memory_in_use(
    gpu_util: u8,
    mem_used_mb: u32,
    mem_total_mb: u32,
    temp_c: i32,
)
    ensures
        spec_gpu_awake(Some(spec_counters_status(gpu_util, mem_used_mb, mem_total_mb, temp_c)))
            == (mem_used_mb > 256 || temp_c > 0),
{
}

// ── The status cache ────────────────────────────────────────────────────────

/// The last reading that a monitor stored, read back by the IPC handler.
pub struct GpuCache {
    slot: Option<GpuStatus>,
}

impl View for GpuCache {
    type V = Option<GpuStatusView>;

    closed spec fn view(&self) -> Option<GpuStatusView> {
        self.slot.deep_view()
    }
}

/// The cache after `status` is stored in it.
pub open spec fn cache_after_store(cache: Option<GpuStatusView>, status: GpuStatusView) -> Option<
    GpuStatusView,
> {
    Some(status)
}

/// The cache after it is cleared.
pub open spec fn cache_after_clear(cache: Option<GpuStatusView>) -> Option<GpuStatusView> {
    None
}

/// What a read of the cache gives.
pub open spec fn cache_read(cache: Option<GpuStatusView>) -> Option<GpuStatusView> {
    cache
}

/// A read right after a store gives back what was stored.
pub proof fn law_cache_read_after_store(cache: Option<GpuStatusView>, status: GpuStatusView)
    ensures
        cache_read(cache_after_store(cache, status)) == Some(status),
{
}

/// A read right after a clear gives nothing.
pub proof fn law_cache_read_after_clear(cache: Option<GpuStatusView>)
    ensures
        cache_read(cache_after_clear(cache)) is None,
{
}

/// Of two stores the later one is what the cache holds.
pub proof fn law_cache_last_store_wins(
    cache: Option<GpuStatusView>,
    first: GpuStatusView,
    second: GpuStatusView,
)
    ensures
        cache_after_store(cache_after_store(cache, first), second) == cache_after_store(
            cache,
            second,
        ),
{
}

impl GpuCache {
    /// An empty cache.
    pub fn new() -> (r: GpuCache)
        ensures
            r@ is None,
    {
        GpuCache { slot: None }
    }
}

/// Stores a copy of `status`, replacing what the cache held.
pub fn store_gpu_cache(cache: &mut GpuCache, status: &GpuStatus)
    ensures
        final(cache)@ == cache_after_store(old(cache)@, status@),
{
    cache.slot = Some(status.duplicate());
}

/// Empties the cache.
pub fn clear_gpu_cache(cache: &mut GpuCache)
    ensures
        final(cache)@ == cache_after_clear(old(cache)@),
{
    cache.slot = None;
}

/// A copy of the reading the cache holds, if any.
pub fn get_cached_gpu_status(cache: &GpuCache) -> (r: Option<GpuStatus>)
    ensures
        r.deep_view() == cache_read(cache@),
{
    match &cache.slot {
        Some(g) => Some(g.duplicate()),
        None => None,
    }
}

} // verus!
