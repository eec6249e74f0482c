use stalcraft_jvm_wrapper::system::{
    clean_hardware_name, gpu_driver_desc_usable, gpu_name_from, is_display_class_subkey,
    is_generic_cpu_identifier, l3_cache_mb, mem_device_speed_mts, physical_cores,
    smbios_mem_speed, usable_cpu_name, GpuCandidate, MemTier, SystemInfo,
};

#[test]
fn mem_device_speed_reads_configured_clock() {
    let mut rec = vec![0u8; 0x22];
    rec[0x0C] = 8;
    rec[0x0D] = 0;
    rec[0x20] = 0x40;
    rec[0x21] = 0x06;
    assert_eq!(mem_device_speed_mts(&rec), Some(1600));
}

fn info(mem_speed_mts: usize) -> SystemInfo {
    SystemInfo {
        total_ram: 0,
        free_ram: 0,
        cpu_cores: 8,
        cpu_threads: 16,
        l3_cache_mb: 32,
        mem_speed_mts,
        large_pages: false,
        large_page_size: 0,
        cpu_name: String::new(),
        gpu_name: String::new(),
    }
}

#[test]
fn mem_tier_slow_at_2933() {
    let sys = info(2933);
    assert_eq!(sys.mem_tier(), MemTier::Slow);
}

#[test]
fn mem_tier_mid_when_unknown() {
    let sys = info(0);
    assert_eq!(sys.mem_tier(), MemTier::Mid);
}

// ───── further cases ─────

#[test]
fn mem_speed_fallbacks() {
    let mut rec = vec![0u8; 0x5C];
    rec[0x0C] = 8;
    rec[0x20] = 0xFF;
    rec[0x21] = 0xFF;
    rec[0x58] = 0x10;
    rec[0x59] = 0x27; // 10000
    assert_eq!(mem_device_speed_mts(&rec), Some(10000));
    let mut rated = vec![0u8; 0x17];
    rated[0x0C] = 1;
    rated[0x15] = 0x20;
    rated[0x16] = 0x0C; // 3104
    assert_eq!(mem_device_speed_mts(&rated), Some(3104));
    let mut empty_slot = vec![0u8; 0x22];
    empty_slot[0x20] = 0x40;
    assert_eq!(mem_device_speed_mts(&empty_slot), None);
    assert_eq!(mem_device_speed_mts(&[0u8; 4]), None);
}

fn mem_record(speed: u16) -> Vec<u8> {
    let mut r = vec![0u8; 0x22];
    r[0] = 17;
    r[1] = 0x22;
    r[0x0C] = 8;
    r[0x20] = (speed & 0xFF) as u8;
    r[0x21] = (speed >> 8) as u8;
    r.extend_from_slice(&[0, 0]);
    r
}

#[test]
fn smbios_table_walk_keeps_fastest_device() {
    let mut table = Vec::new();
    table.extend(mem_record(2400));
    table.extend(mem_record(3200));
    table.extend_from_slice(&[127, 4, 0, 0, 0, 0]);
    table.extend(mem_record(9999)); // after the end marker: ignored
    let mut buf = vec![0u8; 8];
    let n = table.len() as u32;
    buf[4..8].copy_from_slice(&n.to_le_bytes());
    buf.extend(table);
    assert_eq!(smbios_mem_speed(&buf), 3200);
    assert_eq!(smbios_mem_speed(&[0u8; 4]), 0);
}

fn record(size: u32, level: u8, cache_size: u32, cache_type: u32) -> Vec<u8> {
    let mut r = vec![0u8; size as usize];
    r[4..8].copy_from_slice(&size.to_le_bytes());
    if size >= 20 {
        r[8] = level;
        r[12..16].copy_from_slice(&cache_size.to_le_bytes());
        r[16..20].copy_from_slice(&cache_type.to_le_bytes());
    }
    r
}

#[test]
fn processor_records_are_counted() {
    let mut buf = Vec::new();
    for _ in 0..6 {
        buf.extend(record(48, 0, 0, 0));
    }
    assert_eq!(physical_cores(&Some(buf), 12), 6);
    assert_eq!(physical_cores(&None, 12), 12);
    assert_eq!(physical_cores(&Some(vec![0u8; 8]), 4), 4);
}

#[test]
fn largest_unified_l3_per_complex() {
    let mut buf = Vec::new();
    buf.extend(record(48, 2, 1 << 20, 0));
    buf.extend(record(48, 3, 32 << 20, 0));
    buf.extend(record(48, 3, 96 << 20, 0));
    buf.extend(record(48, 3, 128 << 20, 1)); // not unified
    assert_eq!(l3_cache_mb(&Some(buf)), 96);
    assert_eq!(l3_cache_mb(&None), 0);
}

#[test]
fn hardware_names() {
    assert_eq!(clean_hardware_name("  AMD   Ryzen 7  5800X3D "), "AMD Ryzen 7 5800X3D");
    assert!(is_generic_cpu_identifier(" Intel64 Family 6 Model 151"));
    assert!(is_generic_cpu_identifier("UNKNOWN"));
    assert!(!is_generic_cpu_identifier("Intel(R) Core(TM) i7"));
    assert_eq!(usable_cpu_name(&Some("  Intel(R)  Core ".into())), Some("Intel(R) Core".into()));
    assert_eq!(usable_cpu_name(&Some("AMD64 Family 25".into())), None);
    assert_eq!(usable_cpu_name(&Some("   ".into())), None);
    assert!(is_display_class_subkey("000a"));
    assert!(!is_display_class_subkey("Properties"));
    assert!(!is_display_class_subkey("00g0"));
    assert!(gpu_driver_desc_usable("NVIDIA GeForce RTX 4070"));
    assert!(!gpu_driver_desc_usable("Microsoft Basic Display Adapter"));
    assert!(!gpu_driver_desc_usable("  "));
}

fn cand(subkey: &str, desc: Option<&str>) -> GpuCandidate {
    GpuCandidate { subkey: subkey.to_string(), desc: desc.map(|d| d.to_string()) }
}

#[test]
fn gpu_picks_highest_usable_subkey() {
    let cs = vec![
        cand("0000", Some("Intel(R) UHD  Graphics")),
        cand("0002", Some("NVIDIA GeForce RTX 3060")),
        cand("0001", Some("Microsoft Basic Render Driver")),
        cand("Configuration", Some("x")),
    ];
    assert_eq!(gpu_name_from(&cs), Some("NVIDIA GeForce RTX 3060".to_string()));
    let basic = vec![cand("0000", Some("Microsoft Basic Display Adapter"))];
    assert_eq!(gpu_name_from(&basic), Some("Microsoft Basic Display Adapter".to_string()));
    assert_eq!(gpu_name_from(&vec![cand("0000", None)]), None);
}

#[test]
fn system_summaries() {
    let mut sys = info(3600);
    sys.total_ram = 16 * 1024 * 1024 * 1024 + 5;
    sys.free_ram = 3 * 1024 * 1024 * 1024;
    sys.l3_cache_mb = 96;
    sys.large_pages = true;
    sys.large_page_size = 2 * 1024 * 1024;
    assert_eq!(sys.total_gb(), 16);
    assert_eq!(sys.free_gb(), 3);
    assert!(sys.has_big_cache());
    assert_eq!(sys.mem_tier().as_str(), "mid");
    assert_eq!(
        sys.describe("16.0", "3.0"),
        "8 cores, 16.0 GB RAM (3.0 GB free), L3 96 MB, large pages (2 MB), mem 3600 MT/s (mid)"
    );
}
