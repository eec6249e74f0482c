//! Image File Execution Options: which images get `service.exe` as their
//! Debugger, how a registered Debugger value is compared with the expected
//! service path, and the fail-closed health verdict over both registry views
//! (native 64-bit and WOW64 32-bit).
//!
//! Reading and writing the registry is the host's part; here the values it
//! read are judged and the reports are written.

use vstd::prelude::*;

use crate::jvm::string_views;
use crate::log::{redact_of, redact_path};
use crate::paths::{is_sep, should_inject_of, HostEnv};
use crate::text::{
    append_chars, append_piece, chars_eq, collapse_chars, collapse_runs, ends_with, ends_with_chars, from_chars, join_sep,
    lower_text, replace_char, replace_chars, starts_with, starts_with_chars, str_eq, sub_chars,
    to_chars, to_lowercase, trim, trim_chars, trim_quotes, is_ascii_text, ascii_lower,
    ascii_lower_char, lemma_collapse_keeps_tail, lemma_collapse_ascii,
};

verus! {

/// Images whose launch is routed through `service.exe` (launcher shims and
/// the runtime JVM); `stalzone*` come first.
pub const IFEO_TARGETS: [&'static str; 6] = [
    "stalzone.exe",
    "stalzonew.exe",
    "stalcraft.exe",
    "stalcraftw.exe",
    "java.exe",
    "javaw.exe",
];

/// Images registered by older releases; cleared on install and uninstall.
pub const LEGACY_TARGETS: [&'static str; 2] = ["stalart.exe", "stalartw.exe"];

/// File name of the IFEO debugger binary.
pub const SERVICE_NAME: &'static str = "service.exe";

/// Whether an intercepted image gets JVM flags (see [`crate::paths`]).
pub fn should_inject_jvm(path: &str, env: &HostEnv) -> (r: bool)
    ensures
        r == should_inject_of(path@, env@),
{
    crate::paths::should_inject_jvm(path, env)
}

// ───────────────────────── Debugger path keys ─────────────────────────

/// Drops a `\\?\` or `//?/` extended-length prefix.
pub open spec fn strip_extended(t: Seq<char>) -> Seq<char> {
    if starts_with(t, "\\\\?\\"@) {
        t.skip("\\\\?\\"@.len() as int)
    } else if starts_with(t, "//?/"@) {
        t.skip("//?/"@.len() as int)
    } else {
        t
    }
}

/// The key before lower-casing: trimmed, unquoted, without an extended
/// prefix, `/` turned into `\` and backslash runs collapsed.
pub open spec fn path_key_text(s: Seq<char>) -> Seq<char> {
    collapse_runs(replace_char(strip_extended(trim_quotes(trim(s))), '/', '\\'), '\\')
}

/// Comparison key of a Debugger value or a file-system path.
pub open spec fn normalize_of(s: Seq<char>) -> Seq<char> {
    lower_text(path_key_text(s))
}

/// A registry Debugger value names the expected `service.exe`.
pub open spec fn debugger_matches_of(expected: Seq<char>, got: Seq<char>) -> bool {
    trim(got).len() > 0 && ends_with(normalize_of(got), "service.exe"@) && normalize_of(got)
        == normalize_of(expected)
}

fn strip_extended_chars(t: &[char]) -> (r: Vec<char>)
    ensures
        r@ == strip_extended(t@),
{
    let a = to_chars("\\\\?\\");
    let b = to_chars("//?/");
    if starts_with_chars(t, a.as_slice()) {
        sub_chars(t, a.len(), t.len())
    } else if starts_with_chars(t, b.as_slice()) {
        sub_chars(t, b.len(), t.len())
    } else {
        sub_chars(t, 0, t.len())
    }
}

fn path_key_chars(s: &str) -> (r: Vec<char>)
    ensures
        r@ == path_key_text(s@),
{
    let c = to_chars(s);
    let t1 = trim_chars(c.as_slice(), false);
    let t2 = trim_chars(t1.as_slice(), true);
    let t3 = strip_extended_chars(t2.as_slice());
    let t4 = replace_chars(t3.as_slice(), '/', '\\');
    collapse_chars(t4.as_slice(), '\\')
}

/// Normalizes a Debugger value or a path for equality checks.
pub fn normalize_path_key(s: &str) -> (r: String)
    ensures
        r@ == normalize_of(s@),
{
    let k = path_key_chars(s);
    let t = from_chars(k.as_slice());
    to_lowercase(t.as_str())
}

/// True when a registry Debugger value points at the expected `service.exe`.
pub fn debugger_matches(expected: &str, got: &str) -> (r: bool)
    ensures
        r == debugger_matches_of(expected@, got@),
{
    let g = to_chars(got);
    let gt = trim_chars(g.as_slice(), false);
    if gt.len() == 0 {
        return false;
    }
    let gk = normalize_path_key(got);
    let gkc = to_chars(gk.as_str());
    let tail = to_chars(SERVICE_NAME);
    if !ends_with_chars(gkc.as_slice(), tail.as_slice()) {
        return false;
    }
    let ek = normalize_path_key(expected);
    str_eq(gk.as_str(), ek.as_str())
}

/// The Debugger value written for a service path: the path in double quotes.
pub open spec fn debugger_value_of(service: Seq<char>) -> Seq<char> {
    seq!['"'] + service + seq!['"']
}

pub fn debugger_value(service: &str) -> (r: String)
    ensures
        r@ == debugger_value_of(service@),
{
    let mut v: Vec<char> = Vec::new();
    v.push('"');
    append_chars(&mut v, to_chars(service).as_slice());
    v.push('"');
    assert(v@ =~= debugger_value_of(service@));
    from_chars(v.as_slice())
}

// ───────────────────────── per-target health ─────────────────────────

/// Debugger state of one IFEO target in both registry views.
#[derive(Debug, Clone)]
pub struct IfeoTargetHealth {
    pub target: String,
    pub native64: Option<String>,
    pub wow32: Option<String>,
    pub ok: bool,
    pub detail: String,
}

/// The view's value, when there is one, names the expected service.
pub open spec fn opt_matches(expected: Seq<char>, got: Option<Seq<char>>) -> bool {
    match got {
        Some(d) => debugger_matches_of(expected, d),
        None => false,
    }
}

/// The 64-bit value, else the 32-bit one, else nothing.
pub open spec fn sample_of(n: Option<Seq<char>>, w: Option<Seq<char>>) -> Seq<char> {
    match n {
        Some(x) => x,
        None => match w {
            Some(y) => y,
            None => Seq::<char>::empty(),
        },
    }
}

/// A Debugger that names some `service.exe` elsewhere moved; anything else
/// is a foreign debugger.
pub open spec fn mismatch_detail(sample: Seq<char>) -> Seq<char> {
    if ends_with(normalize_of(sample), "service.exe"@) {
        "path_mismatch"@
    } else {
        "wrong_debugger"@
    }
}

/// Verdict for one target from its two registry values and the expected
/// service path (`None` when `service.exe` is missing locally).
pub open spec fn detail_of(
    n: Option<Seq<char>>,
    w: Option<Seq<char>>,
    expected: Option<Seq<char>>,
) -> Seq<char> {
    match expected {
        None => if n is None && w is None {
            "not_installed"@
        } else {
            "service_missing"@
        },
        Some(svc) => {
            let n_ok = opt_matches(svc, n);
            let w_ok = opt_matches(svc, w);
            if n_ok && w_ok {
                "ok"@
            } else if n is None && w is None {
                "not_installed"@
            } else if (n is Some) != (w is Some) || n_ok != w_ok {
                if !n_ok && !w_ok {
                    mismatch_detail(sample_of(n, w))
                } else {
                    "view_split"@
                }
            } else if !n_ok {
                mismatch_detail(sample_of(n, None))
            } else {
                "not_ok"@
            }
        },
    }
}

fn opt_debugger_matches(expected: &str, got: &Option<String>) -> (r: bool)
    ensures
        r == opt_matches(expected@, got.deep_view()),
{
    match got {
        Some(d) => debugger_matches(expected, d.as_str()),
        None => false,
    }
}

fn sample_text(n: &Option<String>, w: &Option<String>) -> (r: String)
    ensures
        r@ == sample_of(n.deep_view(), w.deep_view()),
{
    match n {
        Some(x) => x.clone(),
        None => match w {
            Some(y) => y.clone(),
            None => String::new(),
        },
    }
}

fn mismatch(sample: &str) -> (r: &'static str)
    ensures
        r@ == mismatch_detail(sample@),
{
    let k = normalize_path_key(sample);
    let kc = to_chars(k.as_str());
    let tail = to_chars(SERVICE_NAME);
    if ends_with_chars(kc.as_slice(), tail.as_slice()) {
        "path_mismatch"
    } else {
        "wrong_debugger"
    }
}

fn detail_text(native64: &Option<String>, wow32: &Option<String>, expected: &Option<String>) -> (r:
    &'static str)
    ensures
        r@ == detail_of(native64.deep_view(), wow32.deep_view(), expected.deep_view()),
{
    match expected {
        None => {
            if native64.is_none() && wow32.is_none() {
                "not_installed"
            } else {
                "service_missing"
            }
        },
        Some(svc) => {
            let n_ok = opt_debugger_matches(svc.as_str(), native64);
            let w_ok = opt_debugger_matches(svc.as_str(), wow32);
            if n_ok && w_ok {
                "ok"
            } else if native64.is_none() && wow32.is_none() {
                "not_installed"
            } else if native64.is_some() != wow32.is_some() || n_ok != w_ok {
                if !n_ok && !w_ok {
                    let s = sample_text(native64, wow32);
                    mismatch(s.as_str())
                } else {
                    "view_split"
                }
            } else if !n_ok {
                let none: Option<String> = None;
                let s = sample_text(native64, &none);
                mismatch(s.as_str())
            } else {
                "not_ok"
            }
        },
    }
}

/// Judges one target from the Debugger values read in the 64-bit and the
/// 32-bit registry view and the expected `service.exe` path.
pub fn target_health(
    target: &str,
    native64: Option<String>,
    wow32: Option<String>,
    expected: &Option<String>,
) -> (r: IfeoTargetHealth)
    ensures
        r.target@ == target@,
        r.native64.deep_view() == native64.deep_view(),
        r.wow32.deep_view() == wow32.deep_view(),
        r.detail@ == detail_of(native64.deep_view(), wow32.deep_view(), expected.deep_view()),
        r.ok == (r.detail@ == "ok"@),
{
    let d = detail_text(&native64, &wow32, expected);
    let ok = str_eq(d, "ok");
    IfeoTargetHealth {
        target: String::from_str(target),
        native64: native64,
        wow32: wow32,
        ok: ok,
        detail: String::from_str(d),
    }
}

// ───────────────────────── overall health ─────────────────────────

/// Dual-view health of every IFEO target plus the local `service.exe`.
#[derive(Debug, Clone)]
pub struct IfeoHealth {
    pub service_path: Option<String>,
    pub service_present: bool,
    pub targets: Vec<IfeoTargetHealth>,
    pub all_ok: bool,
    pub summary: String,
}

pub open spec fn all_targets_ok(ts: Seq<IfeoTargetHealth>) -> bool {
    forall|i: int| 0 <= i < ts.len() ==> #[trigger] ts[i].ok
}

/// The redacted Debugger value shown for a target.
pub open spec fn shown_of(n: Option<Seq<char>>, w: Option<Seq<char>>) -> Seq<char> {
    let sample = sample_of(n, w);
    if sample.len() == 0 {
        sample
    } else {
        redact_of(sample)
    }
}

/// The report line of image `name` with verdict `d` on the values `n`, `w`.
pub open spec fn line_of(
    name: Seq<char>,
    n: Option<Seq<char>>,
    w: Option<Seq<char>>,
    d: Seq<char>,
) -> Seq<char> {
    let shown = shown_of(n, w);
    if d == "ok"@ {
        name + ": ok (Debugger="@ + shown + ")"@
    } else if d == "not_installed"@ {
        name + ": not installed"@
    } else if d == "wrong_debugger"@ {
        name + ": wrong debugger (expected service.exe, got "@ + shown + ")"@
    } else if d == "path_mismatch"@ {
        name + ": installed but path moved — reinstall/repair IFEO (Debugger="@ + shown + ")"@
    } else if d == "view_split"@ {
        name + ": view split (64-bit/32-bit Debugger mismatch) — reinstall/repair"@
    } else if d == "service_missing"@ {
        name + ": Debugger set but service.exe MISSING locally"@
    } else {
        name + ": "@ + d
    }
}

/// The report line of one target.
pub open spec fn target_line(t: IfeoTargetHealth) -> Seq<char> {
    line_of(t.target@, t.native64.deep_view(), t.wow32.deep_view(), t.detail@)
}

pub open spec fn service_line(service: Option<Seq<char>>) -> Seq<char> {
    match service {
        Some(p) => "service.exe: present ("@ + redact_of(p) + ")"@,
        None => "service.exe: MISSING — keep service.exe next to stalcraft-jvm-wrapper.exe after unpack"@,
    }
}

pub open spec fn verify_line(all_ok: bool) -> Seq<char> {
    if all_ok {
        "verify: all_ok (6 targets × 2 registry views)"@
    } else {
        "verify: FAILED — run INSTALL or REPAIR"@
    }
}

/// Report lines: one per target, then the service and the verdict.
pub open spec fn summary_lines(
    service: Option<Seq<char>>,
    ts: Seq<IfeoTargetHealth>,
    all_ok: bool,
) -> Seq<Seq<char>> {
    ts.map_values(|t: IfeoTargetHealth| target_line(t)).push(service_line(service)).push(
        verify_line(all_ok),
    )
}

pub open spec fn summary_of(
    service: Option<Seq<char>>,
    ts: Seq<IfeoTargetHealth>,
    all_ok: bool,
) -> Seq<char> {
    join_sep(summary_lines(service, ts, all_ok), "\n"@)
}

/// The report for the IFEO targets read as `rs` (see [`health_from_readings`]).
pub open spec fn readings_summary(
    service: Option<Seq<char>>,
    rs: Seq<(Option<Seq<char>>, Option<Seq<char>>)>,
    all_ok: bool,
) -> Seq<char> {
    let lines = Seq::new(
        rs.len(),
        |i: int| line_of(target_names()[i], rs[i].0, rs[i].1, detail_of(rs[i].0, rs[i].1, service)),
    );
    join_sep(lines.push(service_line(service)).push(verify_line(all_ok)), "\n"@)
}

fn target_line_chars(t: &IfeoTargetHealth) -> (r: Vec<char>)
    ensures
        r@ == target_line(*t),
{
    let sample = sample_text(&t.native64, &t.wow32);
    let shown = if sample.as_str().unicode_len() == 0 {
        sample
    } else {
        redact_path(sample.as_str())
    };
    let name = t.target.as_str();
    let d = t.detail.as_str();
    let mut out = to_chars(name);
    let sh = to_chars(shown.as_str());
    if str_eq(d, "ok") {
        append_chars(&mut out, to_chars(": ok (Debugger=").as_slice());
        append_chars(&mut out, sh.as_slice());
        append_chars(&mut out, to_chars(")").as_slice());
    } else if str_eq(d, "not_installed") {
        append_chars(&mut out, to_chars(": not installed").as_slice());
    } else if str_eq(d, "wrong_debugger") {
        append_chars(&mut out, to_chars(": wrong debugger (expected service.exe, got ").as_slice());
        append_chars(&mut out, sh.as_slice());
        append_chars(&mut out, to_chars(")").as_slice());
    } else if str_eq(d, "path_mismatch") {
        append_chars(
            &mut out,
            to_chars(": installed but path moved — reinstall/repair IFEO (Debugger=").as_slice(),
        );
        append_chars(&mut out, sh.as_slice());
        append_chars(&mut out, to_chars(")").as_slice());
    } else if str_eq(d, "view_split") {
        append_chars(
            &mut out,
            to_chars(": view split (64-bit/32-bit Debugger mismatch) — reinstall/repair").as_slice(),
        );
    } else if str_eq(d, "service_missing") {
        append_chars(
            &mut out,
            to_chars(": Debugger set but service.exe MISSING locally").as_slice(),
        );
    } else {
        append_chars(&mut out, to_chars(": ").as_slice());
        append_chars(&mut out, to_chars(d).as_slice());
    }
    out
}

fn service_line_chars(service: &Option<String>) -> (r: Vec<char>)
    ensures
        r@ == service_line(service.deep_view()),
{
    match service {
        Some(p) => {
            let mut out = to_chars("service.exe: present (");
            append_chars(&mut out, to_chars(redact_path(p.as_str()).as_str()).as_slice());
            append_chars(&mut out, to_chars(")").as_slice());
            out
        },
        None => to_chars(
            "service.exe: MISSING — keep service.exe next to stalcraft-jvm-wrapper.exe after unpack",
        ),
    }
}

fn verify_line_chars(all_ok: bool) -> (r: Vec<char>)
    ensures
        r@ == verify_line(all_ok),
{
    if all_ok {
        to_chars("verify: all_ok (6 targets × 2 registry views)")
    } else {
        to_chars("verify: FAILED — run INSTALL or REPAIR")
    }
}

/// Overall health from the resolved `service.exe` path (if any) and the
/// per-target verdicts: healthy only with the service present and every
/// target `ok`.
pub fn health(service_path: Option<String>, targets: Vec<IfeoTargetHealth>) -> (r: IfeoHealth)
    ensures
        r.service_path.deep_view() == service_path.deep_view(),
        r.service_present == (service_path is Some),
        r.targets@ == targets@,
        r.all_ok == (service_path is Some && all_targets_ok(targets@)),
        r.summary@ == summary_of(service_path.deep_view(), targets@, r.all_ok),
{
    let nl = to_chars("\n");
    let mut out: Vec<char> = Vec::new();
    let ghost mut done: Seq<Seq<char>> = Seq::empty();
    let mut all = service_path.is_some();
    let mut i: usize = 0;
    while i < targets.len()
        invariant
            i <= targets@.len(),
            nl@ == "\n"@,
            done == targets@.take(i as int).map_values(|t: IfeoTargetHealth| target_line(t)),
            out@ == join_sep(done, "\n"@),
            all == (service_path is Some && all_targets_ok(targets@.take(i as int))),
        decreases targets@.len() - i,
    {
        let line = target_line_chars(&targets[i]);
        append_piece(&mut out, Ghost(done), i == 0, nl.as_slice(), line.as_slice());
        proof {
            assert(targets@.take(i + 1).map_values(|t: IfeoTargetHealth| target_line(t)) =~= done.push(
                line@,
            ));
            done = done.push(line@);
        }
        all = all && targets[i].ok;
        assert(all_targets_ok(targets@.take(i + 1)) == (all_targets_ok(targets@.take(i as int))
            && targets@[i as int].ok)) by {
            let a = targets@.take(i as int);
            let b = targets@.take(i + 1);
            if all_targets_ok(b) {
                assert forall|k: int| 0 <= k < a.len() implies #[trigger] a[k].ok by {
                    assert(a[k] == b[k]);
                }
                assert(b[i as int].ok);
            }
        }
        i = i + 1;
    }
    assert(targets@.take(targets@.len() as int) =~= targets@);
    let sl = service_line_chars(&service_path);
    append_piece(&mut out, Ghost(done), targets.len() == 0, nl.as_slice(), sl.as_slice());
    let ghost done2 = done.push(sl@);
    let vl = verify_line_chars(all);
    append_piece(&mut out, Ghost(done2), false, nl.as_slice(), vl.as_slice());
    assert(done2.push(vl@) =~= summary_lines(service_path.deep_view(), targets@, all));
    let present = service_path.is_some();
    IfeoHealth {
        service_path: service_path,
        service_present: present,
        targets: targets,
        all_ok: all,
        summary: from_chars(out.as_slice()),
    }
}

/// `t` is the verdict on image `name` from the Debugger values `n` (64-bit
/// view) and `w` (32-bit view) against the expected service path.
pub open spec fn target_read_as(
    t: IfeoTargetHealth,
    name: Seq<char>,
    n: Option<Seq<char>>,
    w: Option<Seq<char>>,
    expected: Option<Seq<char>>,
) -> bool {
    &&& t.target@ == name
    &&& t.native64.deep_view() == n
    &&& t.wow32.deep_view() == w
    &&& t.detail@ == detail_of(n, w, expected)
    &&& t.ok == (t.detail@ == "ok"@)
}

/// Every reading names the service in both registry views.
pub open spec fn readings_match(
    svc: Seq<char>,
    rs: Seq<(Option<Seq<char>>, Option<Seq<char>>)>,
) -> bool {
    forall|i: int| 0 <= i < rs.len() ==> opt_matches(svc, #[trigger] rs[i].0) && opt_matches(svc, rs[i].1)
}

fn clone_opt(o: &Option<String>) -> (r: Option<String>)
    ensures
        r.deep_view() == o.deep_view(),
{
    match o {
        Some(s) => Some(s.clone()),
        None => None,
    }
}

/// Health of the IFEO targets from what the registry holds: `readings[i]`
/// is the Debugger value of `IFEO_TARGETS[i]` in the 64-bit and in the
/// 32-bit view. Healthy exactly when `service.exe` is present and each of
/// the targets names it in both views.
pub fn health_from_readings(
    service_path: Option<String>,
    readings: Vec<(Option<String>, Option<String>)>,
) -> (r: IfeoHealth)
    requires
        readings@.len() == 6,
    ensures
        r.targets@.len() == 6,
        forall|i: int|
            0 <= i < 6 ==> target_read_as(
                #[trigger] r.targets@[i],
                target_names()[i],
                readings.deep_view()[i].0,
                readings.deep_view()[i].1,
                service_path.deep_view(),
            ),
        r.service_path.deep_view() == service_path.deep_view(),
        r.service_present == (service_path is Some),
        r.all_ok == (service_path is Some && all_targets_ok(r.targets@)),
        r.all_ok == (match service_path.deep_view() {
            Some(svc) => readings_match(svc, readings.deep_view()),
            None => false,
        }),
        r.summary@ == summary_of(service_path.deep_view(), r.targets@, r.all_ok),
        r.summary@ == readings_summary(service_path.deep_view(), readings.deep_view(), r.all_ok),
{
    let mut targets: Vec<IfeoTargetHealth> = Vec::new();
    let mut i: usize = 0;
    while i < 6
        invariant
            i <= 6,
            readings@.len() == 6,
            IFEO_TARGETS@.len() == 6,
            targets@.len() == i,
            forall|k: int|
                0 <= k < i ==> target_read_as(
                    #[trigger] targets@[k],
                    IFEO_TARGETS@[k]@,
                    readings@[k].0.deep_view(),
                    readings@[k].1.deep_view(),
                    service_path.deep_view(),
                ),
        decreases 6 - i,
    {
        let n = clone_opt(&readings[i].0);
        let w = clone_opt(&readings[i].1);
        let t = target_health(IFEO_TARGETS[i], n, w, &service_path);
        targets.push(t);
        i = i + 1;
    }
    let ghost ts = targets@;
    let ghost rs = readings.deep_view();
    assert forall|i: int| 0 <= i < 6 implies rs[i] == (readings@[i].0.deep_view(), readings@[i].1.deep_view())
        && target_names()[i] == IFEO_TARGETS@[i]@ by {}
    proof {
        match service_path.deep_view() {
            Some(svc) => {
                assert forall|i: int| 0 <= i < 6 implies #[trigger] ts[i].ok == (opt_matches(svc, rs[i].0)
                    && opt_matches(svc, rs[i].1)) by {
                    lemma_target_ok_iff_both_views_match(rs[i].0, rs[i].1, svc);
                }
                if all_targets_ok(ts) {
                    assert forall|i: int| 0 <= i < rs.len() implies opt_matches(svc, #[trigger] rs[i].0)
                        && opt_matches(svc, rs[i].1) by {
                        assert(ts[i].ok);
                    }
                }
                if readings_match(svc, rs) {
                    assert forall|i: int| 0 <= i < ts.len() implies #[trigger] ts[i].ok by {
                        assert(opt_matches(svc, rs[i].0) && opt_matches(svc, rs[i].1));
                    }
                }
            },
            None => {},
        }
    }
    let ghost lines = Seq::new(
        rs.len(),
        |i: int| line_of(target_names()[i], rs[i].0, rs[i].1, detail_of(rs[i].0, rs[i].1, service_path.deep_view())),
    );
    assert(ts.map_values(|t: IfeoTargetHealth| target_line(t)) =~= lines);
    health(service_path, targets)
}

/// Mandatory verification: the health itself when fully healthy, else its
/// report as the error.
pub fn verify(h: IfeoHealth) -> (r: Result<IfeoHealth, String>)
    ensures
        h.all_ok ==> r == Ok::<IfeoHealth, String>(h),
        !h.all_ok ==> (r matches Err(e) && e@ == h.summary@),
{
    if h.all_ok {
        Ok(h)
    } else {
        Err(h.summary)
    }
}

/// Mandatory verification over what the registry holds: succeeds, with the
/// health, exactly when `service.exe` is present and every IFEO target names
/// it in both registry views; otherwise the report is the error.
pub fn verify_readings(
    service_path: Option<String>,
    readings: Vec<(Option<String>, Option<String>)>,
) -> (r: Result<IfeoHealth, String>)
    requires
        readings@.len() == 6,
    ensures
        (r is Ok) == (match service_path.deep_view() {
            Some(svc) => readings_match(svc, readings.deep_view()),
            None => false,
        }),
        r matches Ok(h) ==> h.targets@.len() == 6 && h.all_ok,
        r matches Err(e) ==> e@ == readings_summary(service_path.deep_view(), readings.deep_view(), false),
{
    let h = health_from_readings(service_path, readings);
    verify(h)
}

/// The status report: the health summary.
pub fn status(h: &IfeoHealth) -> (r: Result<String, String>)
    ensures
        r matches Ok(s) && s@ == h.summary@,
{
    Ok(h.summary.clone())
}


// ───────────────────────── install / repair / uninstall outcomes ─────────────────────────

/// Result of `format!("{:?}", s)` on a text: the quoted, escaped form.
pub uninterp spec fn debug_escaped(s: Seq<char>) -> Seq<char>;

/// Calls `format!("{:?}", s)` (the `Debug` form of a `str`). Trusted: the
/// result is [`debug_escaped`] of the text, a name that depends on the text
/// alone; nothing is claimed about what the escaping looks like.
#[verifier::external_body]
fn debug_text(s: &str) -> (r: String)
    ensures
        r@ == debug_escaped(s@),
{
    format!("{:?}", s)
}

pub open spec fn verify_failed_of(target: Seq<char>, view: Seq<char>, got: Seq<char>) -> Seq<
    char,
> {
    "IFEO verify failed for "@ + target + " ("@ + view + "): "@ + debug_escaped(got)
}

pub open spec fn or_empty(o: Option<Seq<char>>) -> Seq<char> {
    match o {
        Some(s) => s,
        None => Seq::<char>::empty(),
    }
}

/// Check after writing one target: the 64-bit view first, then the 32-bit
/// view, must name the service (a missing value reads as empty).
pub open spec fn verify_debugger_set_of(
    target: Seq<char>,
    service: Seq<char>,
    got64: Option<Seq<char>>,
    got32: Option<Seq<char>>,
) -> Result<(), Seq<char>> {
    if !debugger_matches_of(service, or_empty(got64)) {
        Err(verify_failed_of(target, "64-bit"@, or_empty(got64)))
    } else if !debugger_matches_of(service, or_empty(got32)) {
        Err(verify_failed_of(target, "32-bit"@, or_empty(got32)))
    } else {
        Ok(())
    }
}

fn verify_failed(target: &str, view: &str, got: &str) -> (r: String)
    ensures
        r@ == verify_failed_of(target@, view@, got@),
{
    let mut out = to_chars("IFEO verify failed for ");
    append_chars(&mut out, to_chars(target).as_slice());
    append_chars(&mut out, to_chars(" (").as_slice());
    append_chars(&mut out, to_chars(view).as_slice());
    append_chars(&mut out, to_chars("): ").as_slice());
    append_chars(&mut out, to_chars(debug_text(got).as_str()).as_slice());
    from_chars(out.as_slice())
}

/// Confirms that both registry views of `target` now name `service`.
pub fn verify_debugger_set(
    target: &str,
    service: &str,
    got64: &Option<String>,
    got32: &Option<String>,
) -> (r: Result<(), String>)
    ensures
        match (r, verify_debugger_set_of(target@, service@, got64.deep_view(), got32.deep_view())) {
            (Ok(_), Ok(_)) => true,
            (Err(e), Err(f)) => e@ == f,
            _ => false,
        },
{
    let g64 = match got64 {
        Some(g) => g.clone(),
        None => String::new(),
    };
    if !debugger_matches(service, g64.as_str()) {
        return Err(verify_failed(target, "64-bit", g64.as_str()));
    }
    let g32 = match got32 {
        Some(g) => g.clone(),
        None => String::new(),
    };
    if !debugger_matches(service, g32.as_str()) {
        return Err(verify_failed(target, "32-bit", g32.as_str()));
    }
    Ok(())
}

/// The IFEO targets as texts.
pub open spec fn target_names() -> Seq<Seq<char>> {
    IFEO_TARGETS@.map_values(|t: &str| t@)
}

pub open spec fn install_ok_of(service: Seq<char>) -> Seq<char> {
    "IFEO installed for "@ + join_sep(target_names(), ", "@) + " (64-bit + 32-bit views). Debugger = \""@
        + service + "\""@
}

pub open spec fn install_failed_of(summary: Seq<char>) -> Seq<char> {
    "IFEO install wrote keys but mandatory verify failed:\n"@ + summary
}

fn joined_targets() -> (r: Vec<char>)
    ensures
        r@ == join_sep(target_names(), ", "@),
{
    let sep = to_chars(", ");
    let mut out: Vec<char> = Vec::new();
    let ghost mut done: Seq<Seq<char>> = Seq::empty();
    let mut i: usize = 0;
    while i < 6
        invariant
            i <= 6,
            sep@ == ", "@,
            IFEO_TARGETS@.len() == 6,
            done == IFEO_TARGETS@.take(i as int).map_values(|t: &str| t@),
            out@ == join_sep(done, ", "@),
        decreases 6 - i,
    {
        let name = to_chars(IFEO_TARGETS[i]);
        append_piece(&mut out, Ghost(done), i == 0, sep.as_slice(), name.as_slice());
        proof {
            assert(IFEO_TARGETS@.take(i + 1).map_values(|t: &str| t@) =~= done.push(name@));
            done = done.push(name@);
        }
        i = i + 1;
    }
    assert(IFEO_TARGETS@.take(6) =~= IFEO_TARGETS@);
    out
}

/// Outcome of an install once every target was written: the mandatory
/// health check decides between the success message and the report.
pub fn install_result(after: &IfeoHealth, service: &str) -> (r: Result<String, String>)
    ensures
        after.all_ok ==> (r matches Ok(m) && m@ == install_ok_of(service@)),
        !after.all_ok ==> (r matches Err(e) && e@ == install_failed_of(after.summary@)),
{
    if !after.all_ok {
        let mut out = to_chars("IFEO install wrote keys but mandatory verify failed:\n");
        append_chars(&mut out, to_chars(after.summary.as_str()).as_slice());
        return Err(from_chars(out.as_slice()));
    }
    let mut out = to_chars("IFEO installed for ");
    append_chars(&mut out, joined_targets().as_slice());
    append_chars(&mut out, to_chars(" (64-bit + 32-bit views). Debugger = \"").as_slice());
    append_chars(&mut out, to_chars(service).as_slice());
    append_chars(&mut out, to_chars("\"").as_slice());
    Ok(from_chars(out.as_slice()))
}

/// Repair does nothing when the health is already fine; this is its message.
pub fn repair_skip_message(before: &IfeoHealth) -> (r: Option<String>)
    ensures
        before.all_ok == (r is Some),
        r matches Some(m) ==> m@ == "IFEO already healthy.\n"@ + before.summary@,
{
    if before.all_ok {
        let mut out = to_chars("IFEO already healthy.\n");
        append_chars(&mut out, to_chars(before.summary.as_str()).as_slice());
        Some(from_chars(out.as_slice()))
    } else {
        None
    }
}

/// Outcome of a repair that had to reinstall.
pub fn repair_result(reinstall: Result<String, String>) -> (r: Result<String, String>)
    ensures
        reinstall matches Ok(m) ==> (r matches Ok(x) && x@ == "IFEO repaired.\n"@ + m@),
        reinstall matches Err(e) ==> (r matches Err(x) && x@ == e@),
{
    match reinstall {
        Ok(m) => {
            let mut out = to_chars("IFEO repaired.\n");
            append_chars(&mut out, to_chars(m.as_str()).as_slice());
            Ok(from_chars(out.as_slice()))
        },
        Err(e) => Err(e),
    }
}

/// Outcome of an uninstall from the per-target errors met while clearing.
pub fn uninstall_result(errors: &Vec<String>) -> (r: Result<String, String>)
    ensures
        errors@.len() == 0 ==> (r matches Ok(m) && m@ == "IFEO uninstalled."@),
        errors@.len() > 0 ==> (r matches Err(e) && e@ == join_sep(string_views(errors@), "; "@)),
{
    if errors.len() == 0 {
        return Ok(String::from_str("IFEO uninstalled."));
    }
    let sep = to_chars("; ");
    let mut out: Vec<char> = Vec::new();
    let ghost mut done: Seq<Seq<char>> = Seq::empty();
    let mut i: usize = 0;
    while i < errors.len()
        invariant
            i <= errors@.len(),
            sep@ == "; "@,
            done == string_views(errors@.take(i as int)),
            out@ == join_sep(done, "; "@),
        decreases errors@.len() - i,
    {
        let e = to_chars(errors[i].as_str());
        append_piece(&mut out, Ghost(done), i == 0, sep.as_slice(), e.as_slice());
        proof {
            assert(string_views(errors@.take(i + 1)) =~= done.push(e@));
            done = done.push(e@);
        }
        i = i + 1;
    }
    assert(errors@.take(errors@.len() as int) =~= errors@);
    Err(from_chars(out.as_slice()))
}

// ───────────────────────── laws ─────────────────────────

/// With the service present, a target is healthy exactly when both
/// registry views hold a Debugger naming it.
pub proof fn lemma_target_ok_iff_both_views_match(
    n: Option<Seq<char>>,
    w: Option<Seq<char>>,
    svc: Seq<char>,
)
    ensures
        (detail_of(n, w, Some(svc)) == "ok"@) == (opt_matches(svc, n) && opt_matches(svc, w)),
{
    lemma_details_differ_from_ok();
}

/// No verdict other than `ok` spells `ok`.
proof fn lemma_details_differ_from_ok()
    ensures
        "not_installed"@ != "ok"@,
        "service_missing"@ != "ok"@,
        "view_split"@ != "ok"@,
        "path_mismatch"@ != "ok"@,
        "wrong_debugger"@ != "ok"@,
        "not_ok"@ != "ok"@,
{
    reveal_strlit("ok");
    reveal_strlit("not_installed");
    reveal_strlit("service_missing");
    reveal_strlit("view_split");
    reveal_strlit("path_mismatch");
    reveal_strlit("wrong_debugger");
    reveal_strlit("not_ok");
    assert("ok"@.len() == 2);
    assert("not_installed"@.len() != 2);
    assert("service_missing"@.len() != 2);
    assert("view_split"@.len() != 2);
    assert("path_mismatch"@.len() != 2);
    assert("wrong_debugger"@.len() != 2);
    assert("not_ok"@.len() != 2);
}

/// Without a local `service.exe` no target is ever healthy (fail-closed).
pub proof fn lemma_missing_service_never_ok(n: Option<Seq<char>>, w: Option<Seq<char>>)
    ensures
        detail_of(n, w, None) != "ok"@,
{
    lemma_details_differ_from_ok();
}

/// The Debugger value written for a service path is accepted by the match
/// against that path, for a path with no surrounding white space or quotes
/// whose key names `service.exe`.
pub proof fn lemma_written_debugger_matches(p: Seq<char>)
    requires
        p.len() > 0,
        !crate::text::is_white_space(p[0]),
        !crate::text::is_white_space(p.last()),
        p[0] != '"',
        p.last() != '"',
        ends_with(normalize_of(p), "service.exe"@),
    ensures
        debugger_matches_of(p, debugger_value_of(p)),
{
    let q = debugger_value_of(p);
    let pq = p + seq!['"'];
    // white space trimming keeps the quoted value and the bare path
    assert(crate::text::trim_start(q, false) == q);
    assert(q.last() == '"');
    assert(crate::text::trim_end(q, false) == q);
    assert(trim(q) == q);
    assert(crate::text::trim_start(p, false) == p);
    assert(crate::text::trim_end(p, false) == p);
    assert(trim(p) == p);
    // quote trimming turns the quoted value into the bare path
    assert(q.drop_first() =~= pq);
    assert(crate::text::trim_start(pq, true) == pq) by {
        assert(pq[0] == p[0]);
    }
    assert(crate::text::trim_start(q, true) == pq);
    assert(pq.drop_last() =~= p);
    assert(crate::text::trim_end(pq, true) == crate::text::trim_end(p, true));
    assert(crate::text::trim_end(p, true) == p);
    assert(trim_quotes(q) == p);
    assert(crate::text::trim_start(p, true) == p);
    assert(trim_quotes(p) == p);
    assert(path_key_text(q) == path_key_text(p));
}

/// Both views holding the value that install writes make the target healthy.
pub proof fn lemma_installed_target_is_ok(p: Seq<char>)
    requires
        p.len() > 0,
        !crate::text::is_white_space(p[0]),
        !crate::text::is_white_space(p.last()),
        p[0] != '"',
        p.last() != '"',
        ends_with(normalize_of(p), "service.exe"@),
    ensures
        detail_of(Some(debugger_value_of(p)), Some(debugger_value_of(p)), Some(p)) == "ok"@,
{
    lemma_written_debugger_matches(p);
}

/// End to end: the value install writes in both views, read back from the
/// registry data, makes the target healthy.
pub proof fn lemma_written_value_reads_back_ok(p: Seq<char>)
    requires
        p.len() > 0,
        !crate::text::is_white_space(p[0]),
        !crate::text::is_white_space(p.last()),
        p[0] != '"',
        p.last() != '"',
        !p.contains('\0'),
        ends_with(normalize_of(p), "service.exe"@),
    ensures
        ({
            let read = crate::registry::reg_sz_of(
                crate::registry::reg_sz_data_of(debugger_value_of(p)),
            );
            detail_of(read, read, Some(p)) == "ok"@
        }),
{
    let v = debugger_value_of(p);
    assert(!v.contains('\0')) by {
        if v.contains('\0') {
            let k = choose|k: int| 0 <= k < v.len() && v[k] == '\0';
            assert(p[k - 1] == '\0');
        }
    }
    crate::registry::lemma_reg_sz_roundtrip(v);
    lemma_installed_target_is_ok(p);
}

/// An ASCII path with no surrounding white space or quotes whose text ends
/// in `service.exe` (any case) keeps that ending in its comparison key.
proof fn lemma_named_service_key(p: Seq<char>)
    requires
        is_ascii_text(p),
        p.len() > 0,
        !crate::text::is_white_space(p[0]),
        !crate::text::is_white_space(p.last()),
        p[0] != '"',
        p.last() != '"',
        ends_with(ascii_lower(p), "service.exe"@),
    ensures
        ends_with(normalize_of(p), "service.exe"@),
{
    let l = "service.exe"@;
    reveal_strlit("service.exe");
    reveal_strlit("\\\\?\\");
    reveal_strlit("//?/");
    let n = p.len() as int;
    assert(l.len() == 11);
    assert(ascii_lower(p).subrange(n - 11, n) == l);
    assert forall|j: int| 0 <= j < 11 implies ascii_lower_char(#[trigger] p[n - 11 + j]) == l[j] by {
        assert(ascii_lower(p).subrange(n - 11, n)[j] == ascii_lower(p)[n - 11 + j]);
    }
    assert forall|j: int| 0 <= j < 11 implies !is_sep(#[trigger] p[n - 11 + j]) by {
        assert(ascii_lower_char(p[n - 11 + j]) == l[j]);
    }
    // white space and quote trimming keep the path
    assert(crate::text::trim_start(p, false) == p);
    assert(crate::text::trim_end(p, false) == p);
    assert(trim(p) == p);
    assert(crate::text::trim_start(p, true) == p);
    assert(crate::text::trim_end(p, true) == p);
    assert(trim_quotes(p) == p);
    // an extended prefix cannot overlap the name
    let x = strip_extended(p);
    let d: int = if starts_with(p, "\\\\?\\"@) || starts_with(p, "//?/"@) { 4 } else { 0 };
    if d == 4 {
        assert(p[3] == '\\' || p[3] == '/') by {
            if starts_with(p, "\\\\?\\"@) {
                assert(p.subrange(0, 4)[3] == p[3]);
            } else {
                assert(p.subrange(0, 4)[3] == p[3]);
            }
        }
        if n < 15 {
            assert(!is_sep(p[n - 11 + (3 - (n - 11))]));
        }
    }
    assert(x =~= p.skip(d));
    assert(x.len() >= 11);
    let y = replace_char(x, '/', '\\');
    let m = y.len() as int;
    assert forall|i: int| m - 11 <= i < m implies #[trigger] y[i] == p[n - m + i] && y[i] != '\\' by {
        assert(x[i] == p[i + d]);
        assert(!is_sep(p[n - 11 + (i - (m - 11))]));
    }
    assert(is_ascii_text(y)) by {
        assert forall|i: int| 0 <= i < y.len() implies (#[trigger] y[i] as u32) < 128 by {
            assert(x[i] == p[i + d]);
        }
    }
    let z = collapse_runs(y, '\\');
    lemma_collapse_keeps_tail(y, '\\', 11);
    lemma_collapse_ascii(y, '\\');
    assert(path_key_text(p) == z);
    assert(normalize_of(p) == ascii_lower(z));
    let k = z.len() as int;
    assert forall|j: int| 0 <= j < 11 implies #[trigger] ascii_lower(z).subrange(k - 11, k)[j] == l[j] by {
        assert(z.skip(k - 11)[j] == y.skip(m - 11)[j]);
        assert(y[m - 11 + j] == p[n - 11 + j]);
    }
    assert(ascii_lower(z).subrange(k - 11, k) =~= l);
}

/// The Debugger value install writes for an ASCII service path named
/// `service.exe` in any case, with no surrounding white space or quotes, is
/// accepted against that path; written to both registry views and read back
/// from the registry data, it makes the target healthy.
pub proof fn lemma_install_value_accepted(p: Seq<char>)
    requires
        is_ascii_text(p),
        p.len() > 0,
        !crate::text::is_white_space(p[0]),
        !crate::text::is_white_space(p.last()),
        p[0] != '"',
        p.last() != '"',
        !p.contains('\0'),
        ends_with(ascii_lower(p), "service.exe"@),
    ensures
        debugger_matches_of(p, debugger_value_of(p)),
        ({
            let read = crate::registry::reg_sz_of(
                crate::registry::reg_sz_data_of(debugger_value_of(p)),
            );
            detail_of(read, read, Some(p)) == "ok"@
        }),
{
    lemma_named_service_key(p);
    lemma_written_debugger_matches(p);
    lemma_written_value_reads_back_ok(p);
}

} // verus!
