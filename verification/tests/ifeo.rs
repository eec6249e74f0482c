use stalcraft_jvm_wrapper::ifeo::{
    debugger_matches, debugger_value, health, health_from_readings, install_result, normalize_path_key,
    repair_result, repair_skip_message, should_inject_jvm, status, target_health,
    uninstall_result, verify, verify_debugger_set, verify_readings, IfeoTargetHealth, IFEO_TARGETS,
    LEGACY_TARGETS,
};
use stalcraft_jvm_wrapper::paths::HostEnv;

fn env() -> HostEnv {
    HostEnv {
        appdata: Some(r"C:\Users\me\AppData\Roaming".to_string()),
        exe_dir: None,
    }
}

#[test]
fn ifeo_targets_include_runtime_launchers() {
    for name in [
        "stalcraft.exe",
        "stalcraftw.exe",
        "stalzone.exe",
        "stalzonew.exe",
        "java.exe",
        "javaw.exe",
    ] {
        assert!(IFEO_TARGETS.contains(&name));
    }
}

#[test]
fn normalize_strips_quotes_slashes_and_extended() {
    assert_eq!(
        normalize_path_key(r#""C:\Foo\service.exe""#),
        r"c:\foo\service.exe"
    );
    assert_eq!(
        normalize_path_key(r"\\?\C:\Foo/service.exe"),
        r"c:\foo\service.exe"
    );
    assert_eq!(
        normalize_path_key(r"C:/Foo\\service.exe"),
        r"c:\foo\service.exe"
    );
}

#[test]
fn debugger_matches_quoted_and_cased() {
    let p = r"C:\Apps\wrapper\service.exe";
    assert!(debugger_matches(p, r#""C:\Apps\wrapper\service.exe""#));
    assert!(debugger_matches(p, r"C:\APPS\WRAPPER\SERVICE.EXE"));
    assert!(!debugger_matches(p, r#""C:\Other\service.exe""#));
    assert!(!debugger_matches(p, r"C:\Apps\wrapper\other.exe"));
    assert!(!debugger_matches(p, ""));
}

#[test]
fn game_java_injects() {
    let p = r"C:\Users\me\AppData\Roaming\EXBO\runtime\stalcraft\win64\java\bin\javaw.exe";
    assert!(should_inject_jvm(p, &env()));
}

#[test]
fn runtime_stalzone_injects() {
    let p = r"C:\Users\me\AppData\Roaming\EXBO\runtime\stalcraft\win64\java\bin\stalzone.exe";
    assert!(should_inject_jvm(p, &env()));
}

#[test]
fn root_stalzone_injects() {
    let p = r"C:\Users\me\AppData\Roaming\EXBO\stalzone.exe";
    assert!(should_inject_jvm(p, &env()));
}

#[test]
fn ifeo_steam_stalcraftw_injects() {
    let p = r"D:\Steam\steamapps\common\stalcraft\stalcraftw.exe";
    assert!(should_inject_jvm(p, &env()));
}

#[test]
fn system_java_passthrough() {
    assert!(!should_inject_jvm(r"C:\Program Files\Java\bin\java.exe", &env()));
}

// ───── further cases ─────

const SVC: &str = r"C:\Users\Vasya\wrapper\service.exe";

fn healthy(target: &str) -> IfeoTargetHealth {
    let v = debugger_value(SVC);
    target_health(target, Some(v.clone()), Some(v), &Some(SVC.to_string()))
}

#[test]
fn installed_value_is_accepted_and_healthy() {
    let v = debugger_value(SVC);
    assert_eq!(v, format!("\"{}\"", SVC));
    assert!(debugger_matches(SVC, &v));
    let t = healthy("java.exe");
    assert!(t.ok);
    assert_eq!(t.detail, "ok");
}

#[test]
fn target_verdicts() {
    let svc = Some(SVC.to_string());
    let good = debugger_value(SVC);
    let t = target_health("java.exe", None, None, &svc);
    assert_eq!(t.detail, "not_installed");
    assert!(!t.ok);
    let t = target_health("java.exe", Some(good.clone()), None, &svc);
    assert_eq!(t.detail, "view_split");
    let t = target_health("java.exe", Some(r"C:\Old\service.exe".into()), Some(r"C:\Old\service.exe".into()), &svc);
    assert_eq!(t.detail, "path_mismatch");
    let t = target_health("java.exe", Some(r"C:\dbg\vsjitdebugger.exe".into()), None, &svc);
    assert_eq!(t.detail, "wrong_debugger");
    let t = target_health("java.exe", Some(good.clone()), Some(good.clone()), &None);
    assert_eq!(t.detail, "service_missing");
    assert!(!t.ok);
    let t = target_health("java.exe", None, None, &None);
    assert_eq!(t.detail, "not_installed");
}

#[test]
fn health_all_ok_needs_service_and_every_target() {
    let targets: Vec<IfeoTargetHealth> = IFEO_TARGETS.iter().map(|t| healthy(t)).collect();
    let h = health(Some(SVC.to_string()), targets.clone());
    assert!(h.all_ok);
    assert!(h.service_present);
    assert_eq!(h.targets.len(), 6);
    let lines: Vec<&str> = h.summary.lines().collect();
    assert_eq!(lines.len(), 8);
    assert_eq!(lines[0], r#"stalzone.exe: ok (Debugger="C:\Users\<user>\wrapper\service.exe")"#);
    assert_eq!(lines[6], r"service.exe: present (C:\Users\<user>\wrapper\service.exe)");
    assert_eq!(lines[7], "verify: all_ok (6 targets × 2 registry views)");
    assert!(verify(h.clone()).is_ok());
    assert_eq!(status(&h).unwrap(), h.summary);

    let missing = health(None, targets.clone());
    assert!(!missing.all_ok);
    let err = verify(missing.clone()).unwrap_err();
    assert_eq!(err, missing.summary);
    assert!(err.ends_with("verify: FAILED — run INSTALL or REPAIR"));

    let mut broken = targets;
    broken[2] = target_health("stalcraft.exe", None, None, &Some(SVC.to_string()));
    let h = health(Some(SVC.to_string()), broken);
    assert!(!h.all_ok);
    assert!(h.summary.contains("stalcraft.exe: not installed"));
}

#[test]
fn verify_debugger_set_reports_view_and_value() {
    let good = Some(debugger_value(SVC));
    assert!(verify_debugger_set("java.exe", SVC, &good, &good).is_ok());
    let err = verify_debugger_set("java.exe", SVC, &good, &Some(r"C:\x\other.exe".to_string()))
        .unwrap_err();
    assert_eq!(err, r#"IFEO verify failed for java.exe (32-bit): "C:\\x\\other.exe""#);
    let err = verify_debugger_set("java.exe", SVC, &None, &good).unwrap_err();
    assert_eq!(err, r#"IFEO verify failed for java.exe (64-bit): """#);
}

#[test]
fn install_repair_uninstall_messages() {
    let targets: Vec<IfeoTargetHealth> = IFEO_TARGETS.iter().map(|t| healthy(t)).collect();
    let ok = health(Some(SVC.to_string()), targets.clone());
    assert_eq!(
        install_result(&ok, SVC).unwrap(),
        format!(
            "IFEO installed for stalzone.exe, stalzonew.exe, stalcraft.exe, stalcraftw.exe, java.exe, javaw.exe (64-bit + 32-bit views). Debugger = \"{}\"",
            SVC
        )
    );
    let bad = health(None, targets);
    assert_eq!(
        install_result(&bad, SVC).unwrap_err(),
        format!("IFEO install wrote keys but mandatory verify failed:\n{}", bad.summary)
    );
    assert_eq!(
        repair_skip_message(&ok),
        Some(format!("IFEO already healthy.\n{}", ok.summary))
    );
    assert_eq!(repair_skip_message(&bad), None);
    assert_eq!(repair_result(Ok("done".into())).unwrap(), "IFEO repaired.\ndone");
    assert_eq!(repair_result(Err("no".into())).unwrap_err(), "no");
    assert_eq!(uninstall_result(&vec![]).unwrap(), "IFEO uninstalled.");
    assert_eq!(
        uninstall_result(&vec!["a: x".to_string(), "b: y".to_string()]).unwrap_err(),
        "a: x; b: y"
    );
    assert_eq!(LEGACY_TARGETS, ["stalart.exe", "stalartw.exe"]);
}

#[test]
fn health_from_readings_covers_every_target_in_order() {
    let svc = r"C:\Apps\wrapper\service.exe".to_string();
    let good = Some(format!("\"{}\"", svc));
    let mut readings: Vec<(Option<String>, Option<String>)> = (0..6).map(|_| (good.clone(), good.clone())).collect();
    let h = health_from_readings(Some(svc.clone()), readings.clone());
    let names: Vec<&str> = h.targets.iter().map(|t| t.target.as_str()).collect();
    assert_eq!(names, vec!["stalzone.exe", "stalzonew.exe", "stalcraft.exe", "stalcraftw.exe", "java.exe", "javaw.exe"]);
    assert!(h.all_ok);
    assert!(h.targets.iter().all(|t| t.ok && t.detail == "ok"));
    assert!(h.summary.ends_with("verify: all_ok (6 targets × 2 registry views)"));
    assert!(verify_readings(Some(svc.clone()), readings.clone()).is_ok());

    // the 32-bit view of java.exe lost its Debugger: one view split, not healthy
    readings[4].1 = None;
    let h = health_from_readings(Some(svc.clone()), readings.clone());
    assert!(!h.all_ok);
    assert_eq!(h.targets[4].detail, "view_split");
    assert!(!h.targets[4].ok);
    assert!(h.targets.iter().enumerate().all(|(i, t)| t.ok == (i != 4)));
    let err = verify_readings(Some(svc.clone()), readings.clone()).unwrap_err();
    assert_eq!(err, h.summary);
    assert!(err.ends_with("verify: FAILED — run INSTALL or REPAIR"));

    // no local service.exe: never healthy
    let all_good: Vec<(Option<String>, Option<String>)> = (0..6).map(|_| (good.clone(), good.clone())).collect();
    let h = health_from_readings(None, all_good.clone());
    assert!(!h.all_ok && !h.service_present);
    assert!(h.targets.iter().all(|t| t.detail == "service_missing"));
    assert!(verify_readings(None, all_good).is_err());

    // nothing registered
    let empty: Vec<(Option<String>, Option<String>)> = (0..6).map(|_| (None, None)).collect();
    let h = health_from_readings(Some(svc), empty);
    assert!(h.targets.iter().all(|t| t.detail == "not_installed" && t.native64.is_none()));
}

#[test]
fn written_debugger_value_is_accepted() {
    for p in [
        r"C:\Apps\wrapper\service.exe",
        r"D:\Games\STALCRAFT\jvm_wrapper\SERVICE.EXE",
        r"\\?\C:\X\Service.Exe",
        r"C:/mixed/seps//service.exe",
    ] {
        let v = debugger_value(p);
        assert!(debugger_matches(p, &v), "{p}");
    }
}
