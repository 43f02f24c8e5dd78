use razer_control::gpu::{
    clear_gpu_cache, counters_status, get_cached_gpu_status, gpu_awake, mem_util_percent,
    parse_nvidia_smi_line, query_gpu, sleeping_status, status_from_nvidia_smi_output,
    store_gpu_cache, wants_nvidia_smi, GpuCache, GpuStatus,
};

fn reading(name: &str, temp_c: i32, gpu_util: u8, mem_used_mb: u32) -> GpuStatus {
    GpuStatus {
        name: name.to_string(),
        temp_c,
        gpu_util,
        mem_util: 3,
        power_mw: 42_000,
        power_limit_mw: 80_000,
        power_max_limit_mw: 90_000,
        mem_used_mb,
        mem_total_mb: 8192,
        clock_gpu_mhz: 1500,
        clock_mem_mhz: 7000,
    }
}

#[test]
fn parse_nvidia_smi_csv_line() {
    let sample = parse_nvidia_smi_line(
        "NVIDIA GeForce RTX 4090 Laptop GPU, 73, 43, 1, 106.20, 110.32, 175.00, 197, 16376, 210, 405"
    )
    .expect("nvidia-smi line should parse");

    assert_eq!(sample.name, "NVIDIA GeForce RTX 4090 Laptop GPU");
    assert_eq!(sample.temp_c, 73);
    assert_eq!(sample.gpu_util, 43);
    assert_eq!(sample.mem_util, 1);
    assert_eq!(sample.mem_used_mb, 197);
    assert_eq!(sample.mem_total_mb, 16376);
    assert!((sample.power_mw as f32 / 1000.0 - 106.20).abs() < 0.01);
    assert!((sample.power_limit_mw as f32 / 1000.0 - 110.32).abs() < 0.01);
}

#[test]
fn parse_reads_every_field_exactly() {
    let s = parse_nvidia_smi_line(
        "NVIDIA GeForce RTX 4090 Laptop GPU, 73, 43, 1, 106.20, 110.32, 175.00, 197, 16376, 210, 405",
    )
    .unwrap();
    assert_eq!(s.power_mw, 106_200);
    assert_eq!(s.power_limit_mw, 110_320);
    assert_eq!(s.power_max_limit_mw, 175_000);
    assert_eq!(s.clock_gpu_mhz, 210);
    assert_eq!(s.clock_mem_mhz, 405);
}

#[test]
fn parse_needs_eleven_fields() {
    assert!(parse_nvidia_smi_line("GPU, 1, 2, 3, 4, 5, 6, 7, 8, 9").is_none());
    assert!(parse_nvidia_smi_line("").is_none());
    assert!(parse_nvidia_smi_line(",,,,,,,,,,").is_some());
}

#[test]
fn parse_unreadable_fields_read_as_zero() {
    let s = parse_nvidia_smi_line("X, [N/A], 300, +7, [N/A], abc, x1, -5, 4294967296, 12 3, 9").unwrap();
    assert_eq!(s.name, "X");
    assert_eq!(s.temp_c, 0);
    assert_eq!(s.gpu_util, 0);
    assert_eq!(s.mem_util, 7);
    assert_eq!(s.power_mw, 0);
    assert_eq!(s.power_limit_mw, 0);
    assert_eq!(s.power_max_limit_mw, 0);
    assert_eq!(s.mem_used_mb, 0);
    assert_eq!(s.mem_total_mb, 0);
    assert_eq!(s.clock_gpu_mhz, 0);
    assert_eq!(s.clock_mem_mhz, 9);
}

#[test]
fn parse_signs_and_decimals() {
    let s = parse_nvidia_smi_line(" A B ,-12,255,0,.5,5.,-1.23456,+0,007,0,0,extra").unwrap();
    assert_eq!(s.name, "A B");
    assert_eq!(s.temp_c, -12);
    assert_eq!(s.gpu_util, 255);
    assert_eq!(s.power_mw, 500);
    assert_eq!(s.power_limit_mw, 5000);
    assert_eq!(s.power_max_limit_mw, -1234);
    assert_eq!(s.mem_used_mb, 0);
    assert_eq!(s.mem_total_mb, 7);
}

#[test]
fn parse_power_in_float_forms() {
    let s = parse_nvidia_smi_line("g,0,0,0,1e2,inf,NaN,0,0,0,0").unwrap();
    assert_eq!(s.power_mw, 100_000);
    assert_eq!(s.power_limit_mw, i64::MAX);
    assert_eq!(s.power_max_limit_mw, 0);
    let t = parse_nvidia_smi_line("g,0,0,0, 2.5E-1 ,-Infinity,1e,0,0,0,0").unwrap();
    assert_eq!(t.power_mw, 250);
    assert_eq!(t.power_limit_mw, -i64::MAX);
    assert_eq!(t.power_max_limit_mw, 0);
}

#[test]
fn padding_and_extra_fields_read_the_same() {
    let plain = parse_nvidia_smi_line("GPU,50,10,2,30.5,80,90,100,200,300,400").unwrap();
    let padded =
        parse_nvidia_smi_line(" GPU\t,  50 ,10,\t2, 30.5,80 ,90,100,200 ,300,400  ,x, y").unwrap();
    assert_eq!(padded.name, plain.name);
    assert_eq!(padded.temp_c, plain.temp_c);
    assert_eq!(padded.gpu_util, plain.gpu_util);
    assert_eq!(padded.mem_util, plain.mem_util);
    assert_eq!(padded.power_mw, plain.power_mw);
    assert_eq!(padded.power_limit_mw, plain.power_limit_mw);
    assert_eq!(padded.power_max_limit_mw, plain.power_max_limit_mw);
    assert_eq!(padded.mem_used_mb, plain.mem_used_mb);
    assert_eq!(padded.mem_total_mb, plain.mem_total_mb);
    assert_eq!(padded.clock_gpu_mhz, plain.clock_gpu_mhz);
    assert_eq!(padded.clock_mem_mhz, plain.clock_mem_mhz);
}

#[test]
fn parse_i32_bounds() {
    let lo = parse_nvidia_smi_line("g,-2147483648,0,0,0,0,0,0,0,0,0").unwrap();
    assert_eq!(lo.temp_c, i32::MIN);
    let hi = parse_nvidia_smi_line("g,2147483648,0,0,0,0,0,0,0,0,0").unwrap();
    assert_eq!(hi.temp_c, 0);
}

#[test]
fn smi_output_takes_first_nonblank_line() {
    let out = "\r\n   \n GPU A, 50, 10, 2, 30.5, 80, 90, 100, 200, 300, 400\r\nGPU B, 1,1,1,1,1,1,1,1,1,1\n";
    let s = status_from_nvidia_smi_output(true, out.as_bytes()).unwrap();
    assert_eq!(s.name, "GPU A");
    assert_eq!(s.temp_c, 50);
    assert_eq!(s.power_mw, 30_500);
    assert_eq!(s.clock_mem_mhz, 400);
}

#[test]
fn smi_output_failure_or_blank_gives_nothing() {
    let line = "GPU A, 50, 10, 2, 30.5, 80, 90, 100, 200, 300, 400";
    assert!(status_from_nvidia_smi_output(false, line.as_bytes()).is_none());
    assert!(status_from_nvidia_smi_output(true, b"").is_none());
    assert!(status_from_nvidia_smi_output(true, b" \n\t\r\n").is_none());
    assert!(status_from_nvidia_smi_output(true, b"not, a, full, line\nGPU A, 1,1,1,1,1,1,1,1,1,1").is_none());
}

#[test]
fn smi_output_decodes_bytes_lossily() {
    let out = b"GPU \xff\xfeX, 50, 10, 2, 30.5, 80, 90, 100, 200, 300, 400\n";
    let s = status_from_nvidia_smi_output(true, out).unwrap();
    assert_eq!(s.name, "GPU \u{FFFD}\u{FFFD}X");
    assert_eq!(s.temp_c, 50);
    let utf8 = "GPU é, 1, 2, 3, 4, 5, 6, 7, 8, 9, 10";
    assert_eq!(status_from_nvidia_smi_output(true, utf8.as_bytes()).unwrap().name, "GPU é");
}

#[test]
fn gate_opens_on_memory_or_temperature() {
    assert!(gpu_awake(&Some(reading("g", 0, 0, 257))));
    assert!(!gpu_awake(&Some(reading("g", 0, 0, 256))));
    assert!(gpu_awake(&Some(reading("g", 1, 0, 0))));
    assert!(gpu_awake(&Some(reading("g", 149, 0, 0))));
    assert!(gpu_awake(&Some(reading("g", 150, 0, 0))));
    assert!(!gpu_awake(&Some(reading("g", 0, 0, 256))));
    assert!(!gpu_awake(&Some(reading("g", -5, 99, 0))));
    assert!(!gpu_awake(&None));
    assert!(wants_nvidia_smi(&None));
    assert!(!wants_nvidia_smi(&Some(reading("g", 0, 80, 100))));
}

#[test]
fn sleeping_gpu_reads_quiet() {
    let r = query_gpu(Some(reading("counters", 0, 7, 100)), None).unwrap();
    assert_eq!(r.name, "NVIDIA GPU (Sleeping)");
    assert_eq!(r.gpu_util, 0);
    assert_eq!(r.power_mw, 0);
    assert_eq!(r.clock_gpu_mhz, 0);
    assert_eq!(r.clock_mem_mhz, 0);
    assert_eq!(r.mem_used_mb, 100);
    assert_eq!(r.mem_total_mb, 8192);
    assert_eq!(r.mem_util, 3);
    assert_eq!(r.power_limit_mw, 80_000);
    let again = query_gpu(Some(reading("counters", 0, 7, 100)), Some(reading("smi", 60, 50, 4000))).unwrap();
    assert_eq!(again.name, "NVIDIA GPU (Sleeping)");
    assert_eq!(again.mem_used_mb, 100);
}

#[test]
fn awake_gpu_prefers_nvidia_smi() {
    let r = query_gpu(Some(reading("counters", 55, 7, 100)), Some(reading("smi", 60, 50, 4000))).unwrap();
    assert_eq!(r.name, "smi");
    assert_eq!(r.gpu_util, 50);
    let fallback = query_gpu(Some(reading("counters", 55, 7, 100)), None).unwrap();
    assert_eq!(fallback.name, "counters");
    assert_eq!(fallback.gpu_util, 7);
    assert_eq!(fallback.power_mw, 42_000);
}

#[test]
fn no_counters_falls_back_to_nvidia_smi() {
    let r = query_gpu(None, Some(reading("smi", 60, 50, 4000))).unwrap();
    assert_eq!(r.name, "smi");
    assert!(query_gpu(None, None).is_none());
}

#[test]
fn sleeping_status_keeps_memory_figures() {
    let r = sleeping_status(reading("x", 40, 9, 512));
    assert_eq!(r.name, "NVIDIA GPU (Sleeping)");
    assert_eq!(r.temp_c, 40);
    assert_eq!(r.mem_used_mb, 512);
    assert_eq!(r.gpu_util, 0);
}

#[test]
fn counters_reading_fills_memory_utilisation() {
    let r = counters_status(12, 2048, 8192, 45);
    assert_eq!(r.name, "GPU (Task Manager counters)");
    assert_eq!(r.gpu_util, 12);
    assert_eq!(r.mem_util, 25);
    assert_eq!(r.temp_c, 45);
    assert_eq!(r.power_mw, 0);
    assert_eq!(r.clock_gpu_mhz, 0);
    assert_eq!(mem_util_percent(300, 0), 0);
    assert_eq!(mem_util_percent(300, 100), 44);
    assert_eq!(mem_util_percent(99, 100), 99);
}

#[test]
fn cache_reads_back_last_store() {
    let mut cache = GpuCache::new();
    assert!(get_cached_gpu_status(&cache).is_none());
    store_gpu_cache(&mut cache, &reading("first", 1, 1, 1));
    store_gpu_cache(&mut cache, &reading("second", 2, 2, 2));
    let got = get_cached_gpu_status(&cache).unwrap();
    assert_eq!(got.name, "second");
    assert_eq!(got.temp_c, 2);
    clear_gpu_cache(&mut cache);
    assert!(get_cached_gpu_status(&cache).is_none());
}

#[test]
fn default_reading_is_empty() {
    let d = GpuStatus::default();
    assert_eq!(d.name, "");
    assert_eq!(d.temp_c, 0);
    assert_eq!(d.mem_total_mb, 0);
    let c = d.duplicate();
    assert_eq!(c.name, "");
}
