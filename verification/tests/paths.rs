use stalcraft_jvm_wrapper::paths::{
    classify_target, examples_dir, file_name_chars, parent_chars, game_dir_for_layout, game_dir_from_target, is_game_java,
    is_jvm_wrapper_dir, is_launcher_binary, known_wrapper_homes, is_runtime_java_bin, is_safe_ifeo_home, logs_dir,
    scope_label, should_inject_jvm, target_kind, wrapper_home, HostEnv, LauncherKind,
};

fn env() -> HostEnv {
    HostEnv {
        appdata: Some(r"C:\Users\me\AppData\Roaming".to_string()),
        exe_dir: None,
    }
}

#[test]
fn exbo_java_path_classifies() {
    let p = r"C:\Users\me\AppData\Roaming\EXBO\runtime\stalcraft\win64\java\bin\javaw.exe";
    let layout = classify_target(p, &env());
    assert_eq!(layout.kind, LauncherKind::Exbo);
    assert!(is_game_java(p, &env()));
}

#[test]
fn system_java_rejected() {
    assert!(!is_game_java(r"C:\Program Files\Java\bin\java.exe", &env()));
}

#[test]
fn exbo_game_dir_from_java() {
    let p = r"C:\Users\me\AppData\Roaming\EXBO\runtime\stalcraft\win64\java\bin\javaw.exe";
    let dir = game_dir_from_target(p, &env()).unwrap();
    assert!(dir.ends_with("stalcraft"));
}

#[test]
fn runtime_java_bin_detected() {
    assert!(is_runtime_java_bin(
        r"C:\Users\me\AppData\Roaming\EXBO\runtime\stalcraft\win64\java\bin\stalzone.exe"
    ));
    assert!(!is_runtime_java_bin(r"C:\Users\me\AppData\Roaming\EXBO\stalzone.exe"));
}

#[test]
fn exbo_runtime_stalzone_injects() {
    let p = r"C:\Users\me\AppData\Roaming\EXBO\runtime\stalcraft\win64\java\bin\stalzone.exe";
    assert!(should_inject_jvm(p, &env()));
    assert_eq!(target_kind(p, &env()), "launcher");
    assert_eq!(scope_label(p, &env()), "game");
}

#[test]
fn exbo_root_stalzone_injects() {
    let p = r"C:\Users\me\AppData\Roaming\EXBO\stalzone.exe";
    assert!(should_inject_jvm(p, &env()));
}

#[test]
fn paths_steam_stalcraftw_injects() {
    let p = r"D:\Steam\steamapps\common\stalcraft\stalcraftw.exe";
    let layout = classify_target(p, &env());
    assert_eq!(layout.kind, LauncherKind::Steam);
    assert!(should_inject_jvm(p, &env()));
}

#[test]
fn steam_stalzone_injects_and_classifies() {
    let p = r"D:\Steam\steamapps\common\stalcraft\stalzone.exe";
    assert!(is_launcher_binary(p));
    assert!(should_inject_jvm(p, &env()));
    assert_eq!(classify_target(p, &env()).kind, LauncherKind::Steam);
    assert_eq!(target_kind(p, &env()), "launcher");
}

#[test]
fn steam_game_javaw_injects() {
    let p = r"D:\Steam\steamapps\common\stalcraft\java\bin\javaw.exe";
    assert!(should_inject_jvm(p, &env()));
    assert_eq!(target_kind(p, &env()), "java");
}

#[test]
fn custom_path_stalzone_injects() {
    let p = r"E:\Portable\STALCRAFT\stalzone.exe";
    assert!(should_inject_jvm(p, &env()));
    assert_eq!(scope_label(p, &env()), "unknown");
}

#[test]
fn system_java_no_inject() {
    assert!(!should_inject_jvm(r"C:\Program Files\Java\bin\java.exe", &env()));
    assert_eq!(scope_label(r"C:\Program Files\Java\bin\java.exe", &env()), "unknown");
}

#[test]
fn cmd_exe_no_inject() {
    assert!(!should_inject_jvm(r"C:\Windows\System32\cmd.exe", &env()));
    assert_eq!(target_kind(r"C:\Windows\System32\cmd.exe", &env()), "other");
}

#[test]
fn examples_dir_prefers_sibling_folder() {
    let host = HostEnv {
        appdata: Some(r"C:\Users\me\AppData\Roaming".to_string()),
        exe_dir: Some(r"D:\tools\wrapper".to_string()),
    };
    let beside = format!(r"{}\examples", wrapper_home(&host));
    assert_eq!(examples_dir(&host), beside);
    assert!(examples_dir(&host).ends_with("examples"));
}

#[test]
fn safe_ifeo_home_rejects_misnamed_exbo_folder() {
    assert!(is_jvm_wrapper_dir(r"C:\Users\x\AppData\Roaming\EXBO\jvm_wrapper"));
    assert!(is_safe_ifeo_home(r"C:\Users\x\AppData\Roaming\EXBO\jvm_wrapper"));
    assert!(!is_safe_ifeo_home(r"C:\Users\x\AppData\Roaming\EXBO\STALZONE JVM Wrapper"));
    assert!(is_safe_ifeo_home(r"D:\tools\stalcraft-wrapper"));
    assert!(is_safe_ifeo_home(r"C:\Users\x\AppData\Local\STALZONE JVM Wrapper"));
}

// ───── further cases ─────

#[test]
fn wrapper_home_prefers_exe_folder_then_exbo() {
    let with_exe = HostEnv {
        appdata: Some(r"C:\Users\me\AppData\Roaming".to_string()),
        exe_dir: Some(r"D:\tools\wrapper".to_string()),
    };
    assert_eq!(wrapper_home(&with_exe), r"D:\tools\wrapper");
    assert_eq!(wrapper_home(&env()), r"C:\Users\me\AppData\Roaming\EXBO\jvm_wrapper");
    let bare = HostEnv { appdata: None, exe_dir: None };
    assert_eq!(wrapper_home(&bare), "jvm_wrapper");
    assert_eq!(logs_dir(&with_exe), r"D:\tools\wrapper\logs");
}

#[test]
fn exbo_layout_fields() {
    let p = r"C:\Users\me\AppData\Roaming\EXBO\stalzone.exe";
    let layout = classify_target(p, &env());
    assert_eq!(layout.root, r"C:\Users\me\AppData\Roaming\EXBO");
    assert_eq!(layout.wrapper, r"C:\Users\me\AppData\Roaming\EXBO\jvm_wrapper");
    assert_eq!(
        layout.runtime_stalcraft.as_deref(),
        Some(r"C:\Users\me\AppData\Roaming\EXBO\runtime\stalcraft")
    );
}

#[test]
fn egs_and_vkplay_layouts() {
    let egs = classify_target(r"C:\Epic Games\STALCRAFT\stalcraft.exe", &env());
    assert_eq!(egs.kind, LauncherKind::Egs);
    assert_eq!(egs.root, r"C:\Epic Games\STALCRAFT");
    assert_eq!(egs.wrapper, r"C:\Epic Games\STALCRAFT\jvm_wrapper");
    let vk = classify_target(r"D:/Games/VKPlay/stalcraft/stalcraft.exe", &env());
    assert_eq!(vk.kind, LauncherKind::VkPlay);
    assert_eq!(LauncherKind::VkPlay.as_str(), "vkplay");
}

#[test]
fn launcher_shims_always_inject() {
    assert!(should_inject_jvm(r"Z:\anywhere\STALCRAFTW.EXE", &env()));
    assert!(should_inject_jvm("stalzonew.exe", &env()));
}

#[test]
fn game_dir_depends_on_root_existing() {
    let p = r"D:\Steam\steamapps\common\stalcraft\stalcraftw.exe";
    assert_eq!(
        game_dir_for_layout(p, &env(), true).as_deref(),
        Some(r"D:\Steam\steamapps\common\stalcraft")
    );
    assert_eq!(game_dir_for_layout(p, &env(), false), None);
    assert_eq!(game_dir_for_layout(r"C:\Windows\System32\cmd.exe", &env(), true), None);
}

#[test]
fn known_homes_in_probe_order() {
    let homes = known_wrapper_homes(
        &env(),
        &Some(r"C:\Program Files".to_string()),
        &None,
    );
    assert_eq!(
        homes,
        vec![
            r"C:\Users\me\AppData\Roaming\EXBO\jvm_wrapper".to_string(),
            r"C:\Program Files\Steam\steamapps\common\STALCRAFT\jvm_wrapper".to_string(),
        ]
    );
    let none = known_wrapper_homes(&HostEnv { appdata: None, exe_dir: None }, &None, &None);
    assert!(none.is_empty());
}

fn chars(s: &str) -> Vec<char> {
    s.chars().collect()
}

fn name_of(p: &str) -> Option<String> {
    file_name_chars(&chars(p)).map(|v| v.into_iter().collect())
}

fn parent_text(p: &str) -> Option<String> {
    parent_chars(&chars(p)).map(|v| v.into_iter().collect())
}

#[test]
fn path_components_follow_std() {
    assert_eq!(name_of(r"C:\Games\stalcraft.exe").as_deref(), Some("stalcraft.exe"));
    assert_eq!(name_of(r"C:\Games\bin\").as_deref(), Some("bin"));
    assert_eq!(name_of(r"a\.").as_deref(), Some("a"));
    assert_eq!(name_of(r"a\b\.\.\").as_deref(), Some("b"));
    assert_eq!(name_of("."), None);
    assert_eq!(name_of(r"a\.."), None);
    assert_eq!(name_of("C:"), None);
    assert_eq!(name_of(r"C:\"), None);
    assert_eq!(name_of(r"C:."), None);
    assert_eq!(name_of(r"\\server\share"), None);
    assert_eq!(name_of(r"\\server\share\"), None);
    assert_eq!(name_of(r"\\server\share\x.exe").as_deref(), Some("x.exe"));
    assert_eq!(name_of(r"\\.\COM1"), None);

    assert_eq!(parent_text(r"C:\Games\stalcraft.exe").as_deref(), Some(r"C:\Games"));
    assert_eq!(parent_text(r"C:\x").as_deref(), Some(r"C:\"));
    assert_eq!(parent_text(r"a\b\.").as_deref(), Some("a"));
    assert_eq!(parent_text(r"\\server\share\x").as_deref(), Some(r"\\server\share\"));
    assert_eq!(parent_text("x").as_deref(), Some(""));
    assert_eq!(parent_text(r"\\server\share"), None);
}

#[test]
fn markers_found_in_any_case() {
    let p = "E:/Epic Games/STALCRAFT/bin/stalcraftw.exe";
    let layout = classify_target(p, &env());
    assert_eq!(layout.kind, LauncherKind::Egs);
    assert_eq!(layout.root, "E:/Epic Games/STALCRAFT");
    assert_eq!(layout.wrapper, r"E:/Epic Games/STALCRAFT\jvm_wrapper");
    assert!(layout.runtime_stalcraft.is_none());
    let q = r"D:\STEAM\SteamApps\Common\Stalcraft\java\bin\JAVAW.EXE";
    let l = classify_target(q, &env());
    assert_eq!(l.kind, LauncherKind::Steam);
    assert_eq!(l.root, r"D:\STEAM\SteamApps\Common\Stalcraft");
    assert!(is_game_java(q, &env()));
    let other = classify_target(r"C:\Tools\stalcraft.exe", &env());
    assert_eq!(other.kind, LauncherKind::Unknown);
    assert_eq!(other.root, "");
    // game java by folder marker, whatever the case
    assert!(is_game_java(r"F:\Games\EXBO\jre\bin\Java.exe", &env()));
    assert!(is_game_java(r"F:\x\Runtime\StalCraft\bin\javaw.exe", &env()));
}
