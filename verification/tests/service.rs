use stalcraft_jvm_wrapper::config::{
    active_name, config_file, generate, load_active, needs_default_fallback, profile_names,
    requested_name,
    Config,
};
use stalcraft_jvm_wrapper::paths::HostEnv;
use stalcraft_jvm_wrapper::service::{inject_plan, passthrough_plan, JvmMode};
use stalcraft_jvm_wrapper::system::SystemInfo;

fn profile() -> Config {
    generate(&SystemInfo {
        total_ram: 16 << 30,
        free_ram: 0,
        cpu_cores: 8,
        cpu_threads: 16,
        l3_cache_mb: 32,
        mem_speed_mts: 3600,
        large_pages: false,
        large_page_size: 0,
        cpu_name: String::new(),
        gpu_name: String::new(),
    })
}

fn args() -> Vec<String> {
    vec!["-Xmx1g".to_string(), "net.Main".to_string()]
}

#[test]
fn plans_follow_the_loaded_profile() {
    let p = passthrough_plan(&args());
    assert_eq!(p.args, args());
    assert_eq!(p.mode.as_str(), "PASSTHROUGH");

    let p = inject_plan(&args(), &Err("read failed".to_string()));
    assert_eq!(p.mode, JvmMode::ConfigError);
    assert_eq!(p.args, args());

    let mut no_heap = profile();
    no_heap.heap_size_gb = 0;
    let p = inject_plan(&args(), &Ok((no_heap, "default".to_string())));
    assert_eq!(p.mode, JvmMode::NoHeap);
    assert_eq!(p.args, args());

    let p = inject_plan(&args(), &Ok((profile(), "default".to_string())));
    assert_eq!(p.mode.as_str(), "INJECTED");
    assert_eq!(p.args[0], "-Xmx6g");
    assert_eq!(p.args.last().unwrap(), "net.Main");
    assert!(!p.args.contains(&"-Xmx1g".to_string()));
}

#[test]
fn active_profile_selection() {
    assert_eq!(requested_name(&None), "default");
    assert_eq!(requested_name(&Some("pvp".to_string())), "pvp");
    let err: Result<Config, String> = Err("missing".to_string());
    assert!(needs_default_fallback("pvp", &err));
    assert!(!needs_default_fallback("default", &err));
    let (cfg, name) = load_active("pvp".to_string(), Ok(profile()), None).ok().unwrap();
    assert_eq!((cfg.heap_size_gb, name.as_str()), (6, "pvp"));
    let (_, name) = load_active("pvp".to_string(), Err("e1".to_string()), Some(Ok(profile()))).ok().unwrap();
    assert_eq!(name, "default");
    let e = load_active("pvp".to_string(), Err("e1".to_string()), Some(Err("e2".to_string()))).err().unwrap();
    assert_eq!(e, "e1");
    let e = load_active("default".to_string(), Err("e0".to_string()), None).err().unwrap();
    assert_eq!(e, "e0");
    assert_eq!(active_name(Some("a".into()), Some("b".into())), (Some("a".to_string()), false));
    assert_eq!(active_name(None, Some("b".into())), (Some("b".to_string()), true));
    assert_eq!(active_name(None, None), (None, false));
    let env = HostEnv { appdata: None, exe_dir: Some(r"D:\w".to_string()) };
    assert_eq!(config_file(&env, "pvp"), r"D:\w\configs\pvp.json");
}

#[test]
fn profile_listing_is_sorted_json_stems() {
    let files: Vec<String> = ["zeta.json", "notes.txt", "Alpha.json", ".json", "b.c.json", "default.json", "x.JSON", ".."]
        .iter()
        .map(|s| s.to_string())
        .collect();
    assert_eq!(
        profile_names(&files),
        vec!["Alpha".to_string(), "b.c".to_string(), "default".to_string(), "zeta".to_string()]
    );
    assert!(profile_names(&[]).is_empty());
}
