use stalcraft_jvm_wrapper::config::{generate, Config};
use stalcraft_jvm_wrapper::jvm::{filter_args, flags};
use stalcraft_jvm_wrapper::system::SystemInfo;

fn sys(total_gb: u64, threads: usize, mem: usize) -> SystemInfo {
    SystemInfo {
        total_ram: total_gb << 30,
        free_ram: 0,
        cpu_cores: threads / 2,
        cpu_threads: threads,
        l3_cache_mb: 32,
        mem_speed_mts: mem,
        large_pages: false,
        large_page_size: 0,
        cpu_name: String::new(),
        gpu_name: String::new(),
    }
}

fn strs(v: &[&str]) -> Vec<String> {
    v.iter().map(|s| s.to_string()).collect()
}

#[test]
fn flags_of_generated_profile() {
    let cfg = generate(&sys(16, 16, 3600));
    let f = flags(&cfg);
    assert_eq!(f[0], "-Xmx6g");
    assert_eq!(f[1], "-Xms4g");
    assert_eq!(f[2], "-XX:MetaspaceSize=512m");
    assert!(f.contains(&"-XX:ParallelGCThreads=10".to_string()));
    assert!(f.contains(&"-XX:ConcGCThreads=5".to_string()));
    assert!(f.contains(&"-XX:ReservedCodeCacheSize=400m".to_string()));
    assert!(f.contains(&"-XX:NonNMethodCodeHeapSize=20m".to_string()));
    assert!(f.contains(&"-XX:ProfiledCodeHeapSize=192m".to_string()));
    assert!(f.contains(&"-XX:NonProfiledCodeHeapSize=188m".to_string()));
    assert!(f.contains(&"-XX:+AlwaysPreTouch".to_string()));
    assert!(f.contains(&"-Dsun.reflect.inflationThreshold=0".to_string()));
    assert!(f.contains(&"-XX:CompileThresholdScaling=0.5".to_string()));
    assert!(!f.contains(&"-XX:+UseLargePages".to_string()));
    assert_eq!(f.last().unwrap(), "-XX:CompileThresholdScaling=0.5");
}

#[test]
fn filter_replaces_launcher_options() {
    let orig = strs(&[
        "-Xmx2g",
        "-XX:+UseG1GC",
        "-Dfoo=bar",
        "-cp",
        "a.jar;b.jar",
        "net.Main",
        "--gameDir",
        r"D:\g",
    ]);
    let injected = strs(&["-Xmx6g", "-XX:+UseG1GC"]);
    assert_eq!(
        filter_args(&orig, &injected),
        strs(&["-Dfoo=bar", "-cp", "a.jar;b.jar", "-Xmx6g", "-XX:+UseG1GC", "net.Main", "--gameDir", r"D:\g"])
    );
    // no main class: only the filtered options and the injected flags
    assert_eq!(filter_args(&strs(&["-Xms1g", "-Da=b"]), &injected), strs(&["-Da=b", "-Xmx6g", "-XX:+UseG1GC"]));
}

#[test]
fn generated_profile_tracks_hardware() {
    let small = generate(&sys(4, 2, 2400));
    assert_eq!(small.heap_size_gb, 2);
    assert!(!small.pre_touch);
    assert_eq!(small.g1_heap_region_size_mb, 4);
    assert_eq!(small.parallel_gc_threads, 2);
    assert_eq!(small.conc_gc_threads, 1);
    assert_eq!(small.max_gc_pause_millis, 150);
    let big: Config = generate(&sys(32, 32, 0));
    assert_eq!(big.heap_size_gb, 8);
    assert_eq!(big.g1_heap_region_size_mb, 16);
    assert_eq!(big.max_gc_pause_millis, 100);
    assert_eq!(big.g1_new_size_percent, 33);
}

#[test]
fn heap_and_region_tiers() {
    let cases: [(u64, u64, u64); 7] = [(32, 8, 16), (24, 8, 16), (16, 6, 16), (12, 5, 8), (8, 4, 8), (6, 3, 4), (5, 2, 4)];
    for (gb, heap, region) in cases {
        let cfg = generate(&sys(gb, 8, 3200));
        assert_eq!(cfg.heap_size_gb, heap, "heap at {gb} GB");
        assert_eq!(cfg.g1_heap_region_size_mb, region, "region at {gb} GB");
    }
}

#[test]
fn flags_are_options_with_one_inflation_threshold() {
    let mut cfg = generate(&sys(16, 8, 3200));
    for large in [false, true] {
        for threshold in [0i64, -5, 12] {
            cfg.use_large_pages = large;
            cfg.large_page_size_mb = 2;
            cfg.reflection_inflation_threshold = threshold;
            let f = flags(&cfg);
            assert!(f.iter().all(|a| a.starts_with('-')));
            assert_eq!(f.contains(&"-XX:+UseLargePages".to_string()), large);
            let inflation: Vec<&String> =
                f.iter().filter(|a| a.starts_with("-Dsun.reflect.inflationThreshold=")).collect();
            assert_eq!(inflation, vec![&format!("-Dsun.reflect.inflationThreshold={threshold}")]);
        }
    }
}
