use stalcraft_jvm_wrapper::paths::HostEnv;
use stalcraft_jvm_wrapper::process::{
    build_cmd_line, classify_match, extract_game_dir, find_game_processes, is_candidate_exe_name,
    is_snapshot_candidate, match_score, rank_matches, search_result, strip_extended_path,
    GameProcessMatch, SnapshotEntry,
};

fn sample(name: &str, path: &str, launcher: &str, kind: &str, pid: u32) -> GameProcessMatch {
    GameProcessMatch {
        pid,
        name: name.to_string(),
        path: path.to_string(),
        kind: kind.to_string(),
        launcher: launcher.to_string(),
        has_window: false,
    }
}

#[test]
fn rank_prefers_steam_stalzone_over_legacy() {
    let matches = vec![
        sample(
            "stalcraftw.exe",
            r"D:\Steam\steamapps\common\stalcraft\stalcraftw.exe",
            "steam",
            "launcher",
            111,
        ),
        sample(
            "stalzone.exe",
            r"D:\Steam\steamapps\common\stalcraft\stalzone.exe",
            "steam",
            "launcher",
            222,
        ),
    ];
    let primary = rank_matches(&matches).expect("primary");
    assert_eq!(primary.pid, 222);
    assert_eq!(primary.name, "stalzone.exe");
}

#[test]
fn rank_prefers_stalzone_over_javaw() {
    let matches = vec![
        sample(
            "javaw.exe",
            r"C:\Users\me\AppData\Roaming\EXBO\runtime\stalcraft\win64\java\bin\javaw.exe",
            "exbo",
            "java",
            10,
        ),
        sample(
            "stalzone.exe",
            r"C:\Users\me\AppData\Roaming\EXBO\runtime\stalcraft\win64\java\bin\stalzone.exe",
            "exbo",
            "launcher",
            20,
        ),
    ];
    let primary = rank_matches(&matches).expect("primary");
    assert_eq!(primary.pid, 20);
}

#[test]
fn empty_rank_is_none() {
    assert!(rank_matches(&[]).is_none());
}

// ───── further cases ─────

fn env() -> HostEnv {
    HostEnv { appdata: Some(r"C:\Users\me\AppData\Roaming".to_string()), exe_dir: None }
}

#[test]
fn scores_and_ties() {
    let a = sample("StalZone.exe", "x", "steam", "launcher", 1);
    assert_eq!(match_score(&a), 100 + 20 + 5);
    let mut b = sample("java.exe", "x", "vkplay", "java", 2);
    b.has_window = true;
    assert_eq!(match_score(&b), 30 + 15 + 10);
    assert_eq!(match_score(&sample("cmd.exe", "x", "unknown", "other", 3)), 0);
    // equal scores: the last one wins
    let same = vec![sample("stalzone.exe", "x", "exbo", "launcher", 7), sample("stalzone.exe", "y", "exbo", "launcher", 8)];
    assert_eq!(rank_matches(&same).unwrap().pid, 8);
}

#[test]
fn search_sorts_best_first_stably() {
    let ps = vec![
        sample("javaw.exe", "a", "exbo", "java", 1),
        sample("stalzone.exe", "b", "steam", "launcher", 2),
        sample("java.exe", "c", "exbo", "java", 3),
        sample("stalzonew.exe", "d", "steam", "launcher", 4),
    ];
    let r = search_result(ps);
    assert!(r.running);
    let pids: Vec<u32> = r.processes.iter().map(|m| m.pid).collect();
    assert_eq!(pids, vec![2, 4, 1, 3]);
    assert_eq!(r.primary.unwrap().pid, 4);
    let empty = search_result(vec![]);
    assert!(!empty.running);
    assert!(empty.primary.is_none());
    assert!(empty.processes.is_empty());
}

#[test]
fn classify_running_candidates() {
    let m = classify_match(5, r"D:\Steam\steamapps\common\stalcraft\stalzone.exe", &env(), true).unwrap();
    assert_eq!(m.name, "stalzone.exe");
    assert_eq!(m.kind, "launcher");
    assert_eq!(m.launcher, "steam");
    assert!(m.has_window);
    let j = classify_match(6, r"C:\Users\me\AppData\Roaming\EXBO\runtime\stalcraft\win64\java\bin\javaw.exe", &env(), false).unwrap();
    assert_eq!(j.kind, "java");
    assert_eq!(j.launcher, "exbo");
    assert!(classify_match(7, r"C:\Program Files\Java\bin\java.exe", &env(), false).is_none());
    assert!(is_candidate_exe_name("JAVAW.EXE"));
    assert!(!is_candidate_exe_name("notepad.exe"));
}

#[test]
fn command_line_quoting() {
    let args = vec!["-Xmx4g".to_string(), "a b".to_string(), "x\"y".to_string()];
    assert_eq!(
        build_cmd_line(r"C:\Games\java.exe", &args),
        "\"C:\\Games\\java.exe\" -Xmx4g \"a b\" \"x\"y\""
    );
    assert_eq!(build_cmd_line("j.exe", &[]), "\"j.exe\"");
}

#[test]
fn game_dir_from_arguments() {
    let exe = r"D:\Games\STALCRAFT\runtime\java\bin\javaw.exe";
    let args = vec!["--gameDir".to_string(), r"D:\Games\STALCRAFT".to_string()];
    assert_eq!(extract_game_dir(exe, &args), r"D:\Games\STALCRAFT");
    let args = vec!["-Djava.library.path=runtime/java/bin".to_string()];
    assert_eq!(extract_game_dir(exe, &args), r"D:\Games\STALCRAFT\");
    let args = vec!["--gameDir".to_string()];
    assert_eq!(extract_game_dir(exe, &args), "");
    assert_eq!(strip_extended_path(r"\\?\C:\x"), r"C:\x");
    assert_eq!(strip_extended_path(r"C:\x"), r"C:\x");
}

fn entry(pid: u32, exe: &str, path: Option<&str>, has_window: bool) -> SnapshotEntry {
    SnapshotEntry {
        pid,
        exe_name: exe.to_string(),
        image_path: path.map(|p| p.to_string()),
        has_window,
    }
}

#[test]
fn snapshot_admits_only_real_candidates() {
    let steam = r"D:\Steam\steamapps\common\stalcraft\stalzone.exe";
    let game_java = r"C:\Users\me\AppData\Roaming\EXBO\runtime\stalcraft\win64\java\bin\javaw.exe";
    let entries = vec![
        entry(0, "stalzone.exe", Some(steam), false),
        entry(10, "explorer.exe", Some(r"C:\Windows\explorer.exe"), true),
        entry(11, "javaw.exe", None, false),
        entry(12, "java.exe", Some(r"C:\Program Files\Java\bin\java.exe"), false),
        entry(13, "JAVAW.EXE", Some(game_java), false),
        entry(14, "stalzone.exe", Some(steam), true),
    ];
    let r = find_game_processes(&entries, &env());
    assert!(r.running);
    let pids: Vec<u32> = r.processes.iter().map(|m| m.pid).collect();
    assert_eq!(pids, vec![14, 13]);
    assert_eq!(r.primary.map(|m| m.pid), Some(14));

    let none = find_game_processes(&entries[..4], &env());
    assert!(!none.running && none.primary.is_none() && none.processes.is_empty());
    assert!(!is_snapshot_candidate(0, "stalzone.exe"));
    assert!(is_snapshot_candidate(3, "StalCraftW.exe"));
    assert!(!is_snapshot_candidate(3, "notepad.exe"));
}
