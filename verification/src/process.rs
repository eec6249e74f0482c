//! Child-process launch details and discovery of running game clients: the
//! command line and working directory of a launched image, and the
//! classification and ranking of running candidates. Creating processes,
//! enumerating them and looking for their windows is the host's part.

use vstd::prelude::*;

use crate::jvm::string_views;
use crate::paths::{
    classify_of, classify_target, file_name_or_empty, file_name_or_empty_chars, is_game_java,
    is_game_java_of, is_launcher_binary, is_launcher_binary_of, kind_name, parent_chars, parent_of,
    HostEnv,
};
use crate::text::{
    append_chars, append_piece, chars_eq, contains, contains_chars, ends_with, ends_with_chars,
    from_chars, join_sep, lower_chars, lower_text, replace_char, replace_chars, starts_with,
    starts_with_chars, str_eq, sub_chars, to_chars,
};

verus! {

// ───────────────────────── command line ─────────────────────────

pub open spec fn quoted(x: Seq<char>) -> Seq<char> {
    seq!['"'] + x + seq!['"']
}

/// An argument is quoted when it holds a space or a double quote.
pub open spec fn cmd_arg(a: Seq<char>) -> Seq<char> {
    if contains(a, " "@) || contains(a, "\""@) {
        quoted(a)
    } else {
        a
    }
}

/// The quoted image path followed by the arguments, separated by spaces.
pub open spec fn cmd_line_of(exe: Seq<char>, args: Seq<Seq<char>>) -> Seq<char> {
    join_sep(seq![quoted(exe)] + args.map_values(|a: Seq<char>| cmd_arg(a)), " "@)
}

fn quoted_chars(x: &[char]) -> (r: Vec<char>)
    ensures
        r@ == quoted(x@),
{
    let mut v: Vec<char> = Vec::new();
    v.push('"');
    append_chars(&mut v, x);
    v.push('"');
    assert(v@ =~= quoted(x@));
    v
}

/// Command line of a child process.
pub fn build_cmd_line(exe: &str, args: &[String]) -> (r: String)
    ensures
        r@ == cmd_line_of(exe@, string_views(args@)),
{
    let ghost parts = seq![quoted(exe@)] + string_views(args@).map_values(
        |a: Seq<char>| cmd_arg(a),
    );
    let sp = to_chars(" ");
    let space = to_chars(" ");
    let dq = to_chars("\"");
    let first = quoted_chars(to_chars(exe).as_slice());
    let mut out: Vec<char> = Vec::new();
    append_piece(&mut out, Ghost(Seq::empty()), true, sp.as_slice(), first.as_slice());
    assert(Seq::<Seq<char>>::empty().push(first@) =~= parts.take(1));
    let mut i: usize = 0;
    while i < args.len()
        invariant
            i <= args@.len(),
            sp@ == " "@,
            space@ == " "@,
            dq@ == "\""@,
            parts == seq![quoted(exe@)] + string_views(args@).map_values(
                |a: Seq<char>| cmd_arg(a),
            ),
            out@ == join_sep(parts.take(i + 1), " "@),
        decreases args@.len() - i,
    {
        let a = to_chars(args[i].as_str());
        let piece = if contains_chars(a.as_slice(), space.as_slice()) || contains_chars(
            a.as_slice(),
            dq.as_slice(),
        ) {
            quoted_chars(a.as_slice())
        } else {
            a
        };
        assert(piece@ == parts[i + 1]);
        append_piece(&mut out, Ghost(parts.take(i + 1)), false, sp.as_slice(), piece.as_slice());
        assert(parts.take(i + 1).push(piece@) =~= parts.take(i + 2));
        i = i + 1;
    }
    assert(parts.take(args@.len() + 1int) =~= parts);
    from_chars(out.as_slice())
}

// ───────────────────────── game directory ─────────────────────────

/// The value after the first `--gameDir` (at or after `i`) that has one.
pub open spec fn game_dir_arg(args: Seq<Seq<char>>, i: int) -> Option<Seq<char>>
    decreases args.len() - i,
{
    if i < 0 || i >= args.len() {
        None
    } else if args[i] == "--gameDir"@ && i + 1 < args.len() {
        Some(args[i + 1])
    } else {
        game_dir_arg(args, i + 1)
    }
}

/// For `-Djava.library.path=<lib>`: when the image folder ends with `<lib>`
/// (slashes as backslashes, any case), the folder without that ending.
pub open spec fn lib_path_dir(exe_dir: Seq<char>, a: Seq<char>) -> Option<Seq<char>> {
    if starts_with(a, "-Djava.library.path="@) {
        let lib = replace_char(a.skip("-Djava.library.path="@.len() as int), '/', '\\');
        let exe = replace_char(exe_dir, '/', '\\');
        if lib.len() <= exe.len() && ends_with(lower_text(exe), lower_text(lib)) {
            Some(exe.take(exe.len() - lib.len()))
        } else {
            None
        }
    } else {
        None
    }
}

pub open spec fn lib_dir_from(exe_dir: Seq<char>, args: Seq<Seq<char>>, i: int) -> Option<
    Seq<char>,
>
    decreases args.len() - i,
{
    if i < 0 || i >= args.len() {
        None
    } else {
        match lib_path_dir(exe_dir, args[i]) {
            Some(d) => Some(d),
            None => lib_dir_from(exe_dir, args, i + 1),
        }
    }
}

/// Game directory named by the launch arguments: `--gameDir <dir>`, else
/// derived from `-Djava.library.path`, else empty.
pub open spec fn extract_game_dir_of(exe_path: Seq<char>, args: Seq<Seq<char>>) -> Seq<char> {
    match game_dir_arg(args, 0) {
        Some(d) => d,
        None => {
            let exe_dir = match parent_of(exe_path) {
                Some(d) => d,
                None => Seq::<char>::empty(),
            };
            match lib_dir_from(exe_dir, args, 0) {
                Some(d) => d,
                None => Seq::<char>::empty(),
            }
        },
    }
}

fn lib_path_dir_chars(exe_dir: &[char], a: &[char]) -> (r: Option<Vec<char>>)
    ensures
        r.deep_view() == lib_path_dir(exe_dir@, a@),
{
    let pfx = to_chars("-Djava.library.path=");
    if !starts_with_chars(a, pfx.as_slice()) {
        return None;
    }
    let rest = sub_chars(a, pfx.len(), a.len());
    assert(rest@ =~= a@.skip(pfx@.len() as int));
    let lib = replace_chars(rest.as_slice(), '/', '\\');
    let exe = replace_chars(exe_dir, '/', '\\');
    if lib.len() > exe.len() {
        return None;
    }
    let lib_lower = lower_chars(from_chars(lib.as_slice()).as_str());
    let exe_lower = lower_chars(from_chars(exe.as_slice()).as_str());
    if ends_with_chars(exe_lower.as_slice(), lib_lower.as_slice()) {
        Some(sub_chars(exe.as_slice(), 0, exe.len() - lib.len()))
    } else {
        None
    }
}

/// Working directory named by the launch arguments (empty when none).
pub fn extract_game_dir(exe_path: &str, args: &[String]) -> (r: String)
    ensures
        r@ == extract_game_dir_of(exe_path@, string_views(args@)),
{
    let ghost a = string_views(args@);
    let flag = to_chars("--gameDir");
    let mut i: usize = 0;
    while i < args.len()
        invariant
            i <= args@.len(),
            a == string_views(args@),
            flag@ == "--gameDir"@,
            game_dir_arg(a, 0) == game_dir_arg(a, i as int),
        decreases args@.len() - i,
    {
        let c = to_chars(args[i].as_str());
        if chars_eq(c.as_slice(), flag.as_slice()) && i + 1 < args.len() {
            return args[i + 1].clone();
        }
        i = i + 1;
    }
    let p = to_chars(exe_path);
    let exe_dir = match parent_chars(p.as_slice()) {
        Some(d) => d,
        None => Vec::new(),
    };
    let mut j: usize = 0;
    while j < args.len()
        invariant
            j <= args@.len(),
            a == string_views(args@),
            game_dir_arg(a, 0) is None,
            exe_dir@ == (match parent_of(exe_path@) {
                Some(d) => d,
                None => Seq::<char>::empty(),
            }),
            lib_dir_from(exe_dir@, a, 0) == lib_dir_from(exe_dir@, a, j as int),
        decreases args@.len() - j,
    {
        let c = to_chars(args[j].as_str());
        match lib_path_dir_chars(exe_dir.as_slice(), c.as_slice()) {
            Some(d) => {
                return from_chars(d.as_slice());
            },
            None => {},
        }
        j = j + 1;
    }
    String::new()
}

/// Drops a `\\?\` extended-length prefix.
pub fn strip_extended_path(s: &str) -> (r: String)
    ensures
        r@ == (if starts_with(s@, "\\\\?\\"@) {
            s@.skip("\\\\?\\"@.len() as int)
        } else {
            s@
        }),
{
    let c = to_chars(s);
    let pfx = to_chars("\\\\?\\");
    if starts_with_chars(c.as_slice(), pfx.as_slice()) {
        from_chars(sub_chars(c.as_slice(), pfx.len(), c.len()).as_slice())
    } else {
        String::from_str(s)
    }
}

// ───────────────────────── running game clients ─────────────────────────

/// A running process that looks like the game.
#[derive(Debug, Clone)]
pub struct GameProcessMatch {
    pub pid: u32,
    pub name: String,
    pub path: String,
    pub kind: String,
    pub launcher: String,
    pub has_window: bool,
}

pub struct MatchView {
    pub pid: u32,
    pub name: Seq<char>,
    pub path: Seq<char>,
    pub kind: Seq<char>,
    pub launcher: Seq<char>,
    pub has_window: bool,
}

impl View for GameProcessMatch {
    type V = MatchView;

    open spec fn view(&self) -> MatchView {
        MatchView {
            pid: self.pid,
            name: self.name@,
            path: self.path@,
            kind: self.kind@,
            launcher: self.launcher@,
            has_window: self.has_window,
        }
    }
}

/// Outcome of a search for running clients.
#[derive(Debug, Clone)]
pub struct GameProcessSearchResult {
    /// True only when at least one live game client process was found.
    pub running: bool,
    pub primary: Option<GameProcessMatch>,
    pub processes: Vec<GameProcessMatch>,
}

/// Process names worth a closer look (any case).
pub open spec fn is_candidate_name(name: Seq<char>) -> bool {
    let n = lower_text(name);
    n == "stalzone.exe"@ || n == "stalzonew.exe"@ || n == "stalcraft.exe"@ || n
        == "stalcraftw.exe"@ || n == "java.exe"@ || n == "javaw.exe"@
}

pub fn is_candidate_exe_name(name: &str) -> (r: bool)
    ensures
        r == is_candidate_name(name@),
{
    let n = lower_chars(name);
    let s = from_chars(n.as_slice());
    let t = s.as_str();
    str_eq(t, "stalzone.exe") || str_eq(t, "stalzonew.exe") || str_eq(t, "stalcraft.exe")
        || str_eq(t, "stalcraftw.exe") || str_eq(t, "java.exe") || str_eq(t, "javaw.exe")
}

pub open spec fn name_score(lname: Seq<char>) -> int {
    if starts_with(lname, "stalzone"@) {
        100
    } else if starts_with(lname, "stalcraft"@) {
        80
    } else if lname == "javaw.exe"@ {
        40
    } else if lname == "java.exe"@ {
        30
    } else {
        0
    }
}

pub open spec fn launcher_score(l: Seq<char>) -> int {
    if l == "steam"@ || l == "exbo"@ {
        20
    } else if l == "egs"@ || l == "vkplay"@ {
        15
    } else {
        0
    }
}

/// Preference of a candidate: `stalzone*` over `stalcraft*` over game
/// `javaw`/`java`, known launchers, a visible window, launcher shims.
pub open spec fn score_of(m: MatchView) -> int {
    name_score(lower_text(m.name)) + launcher_score(m.launcher) + (if m.has_window {
        10int
    } else {
        0int
    }) + (if m.kind == "launcher"@ {
        5int
    } else {
        0int
    })
}

pub fn match_score(m: &GameProcessMatch) -> (r: i32)
    ensures
        r == score_of(m@),
{
    let mut score: i32 = 0;
    let name = lower_chars(m.name.as_str());
    if starts_with_chars(name.as_slice(), to_chars("stalzone").as_slice()) {
        score = score + 100;
    } else if starts_with_chars(name.as_slice(), to_chars("stalcraft").as_slice()) {
        score = score + 80;
    } else if chars_eq(name.as_slice(), to_chars("javaw.exe").as_slice()) {
        score = score + 40;
    } else if chars_eq(name.as_slice(), to_chars("java.exe").as_slice()) {
        score = score + 30;
    }
    let l = m.launcher.as_str();
    if str_eq(l, "steam") || str_eq(l, "exbo") {
        score = score + 20;
    } else if str_eq(l, "egs") || str_eq(l, "vkplay") {
        score = score + 15;
    }
    if m.has_window {
        score = score + 10;
    }
    if str_eq(m.kind.as_str(), "launcher") {
        score = score + 5;
    }
    score
}

/// Index of the best candidate among the first `n`: the last one with the
/// highest score.
pub open spec fn best_index(ms: Seq<MatchView>, n: int) -> int
    decreases n,
{
    if n <= 1 {
        0
    } else {
        let b = best_index(ms, n - 1);
        if score_of(ms[n - 1]) >= score_of(ms[b]) {
            n - 1
        } else {
            b
        }
    }
}

pub open spec fn match_views(ms: Seq<GameProcessMatch>) -> Seq<MatchView> {
    ms.map_values(|m: GameProcessMatch| m@)
}

fn copy_match(m: &GameProcessMatch) -> (r: GameProcessMatch)
    ensures
        r@ == m@,
{
    GameProcessMatch {
        pid: m.pid,
        name: m.name.clone(),
        path: m.path.clone(),
        kind: m.kind.clone(),
        launcher: m.launcher.clone(),
        has_window: m.has_window,
    }
}

/// The preferred candidate: highest score, the last one among equals.
pub fn rank_matches(matches: &[GameProcessMatch]) -> (r: Option<GameProcessMatch>)
    ensures
        matches@.len() == 0 <==> r is None,
        r matches Some(m) ==> m@ == match_views(matches@)[best_index(
            match_views(matches@),
            matches@.len() as int,
        )],
{
    if matches.len() == 0 {
        return None;
    }
    let ghost vs = match_views(matches@);
    let mut best: usize = 0;
    let mut best_score = match_score(&matches[0]);
    let mut i: usize = 1;
    while i < matches.len()
        invariant
            1 <= i <= matches@.len(),
            vs == match_views(matches@),
            best < i,
            best == best_index(vs, i as int),
            best_score == score_of(vs[best as int]),
        decreases matches@.len() - i,
    {
        let s = match_score(&matches[i]);
        if s >= best_score {
            best = i;
            best_score = s;
        }
        i = i + 1;
    }
    Some(copy_match(&matches[best]))
}

/// A running image at `path` as a game client: a launcher shim or game
/// java, with its launcher; `None` for anything else (system java included).
pub open spec fn classify_match_of(pid: u32, path: Seq<char>, env: crate::paths::HostView, has_window: bool) -> Option<
    MatchView,
> {
    let name = file_name_or_empty(path);
    let lower = lower_text(name);
    let kind = if is_launcher_binary_of(path) {
        Some("launcher"@)
    } else if is_game_java_of(path, env) {
        Some("java"@)
    } else {
        None
    };
    match kind {
        None => None,
        Some(k) => if (lower == "java.exe"@ || lower == "javaw.exe"@) && k != "java"@ {
            None
        } else {
            Some(
                MatchView {
                    pid: pid,
                    name: name,
                    path: path,
                    kind: k,
                    launcher: kind_name(classify_of(path, env).kind),
                    has_window: has_window,
                },
            )
        },
    }
}

/// Classifies one running candidate (`has_window`: whether it shows a
/// visible window).
pub fn classify_match(pid: u32, path: &str, env: &HostEnv, has_window: bool) -> (r: Option<
    GameProcessMatch,
>)
    ensures
        match r {
            Some(m) => classify_match_of(pid, path@, env@, has_window) == Some(m@),
            None => classify_match_of(pid, path@, env@, has_window) is None,
        },
{
    let p = to_chars(path);
    let name = file_name_or_empty_chars(p.as_slice());
    let name_s = from_chars(name.as_slice());
    let lower = lower_chars(name_s.as_str());
    let kind: &str = if is_launcher_binary(path) {
        "launcher"
    } else if is_game_java(path, env) {
        "java"
    } else {
        return None;
    };
    let lower_s = from_chars(lower.as_slice());
    if (str_eq(lower_s.as_str(), "java.exe") || str_eq(lower_s.as_str(), "javaw.exe")) && !str_eq(
        kind,
        "java",
    ) {
        return None;
    }
    let launcher = classify_target(path, env).kind.as_str();
    Some(
        GameProcessMatch {
            pid: pid,
            name: name_s,
            path: String::from_str(path),
            kind: String::from_str(kind),
            launcher: String::from_str(launcher),
            has_window: has_window,
        },
    )
}


// ───────────────────────── search result ─────────────────────────

/// Where [`insert_desc`] puts `m`: after every element scoring at least as
/// much, scanning from the back.
pub open spec fn insert_pos(s: Seq<MatchView>, m: MatchView) -> int
    decreases s.len(),
{
    if s.len() == 0 || score_of(s.last()) >= score_of(m) {
        s.len() as int
    } else {
        insert_pos(s.drop_last(), m)
    }
}

/// One step of a stable sort by descending score.
pub open spec fn insert_desc(s: Seq<MatchView>, m: MatchView) -> Seq<MatchView>
    decreases s.len(),
{
    if s.len() == 0 || score_of(s.last()) >= score_of(m) {
        s.push(m)
    } else {
        insert_desc(s.drop_last(), m).push(s.last())
    }
}

/// Stable sort by descending score (equal scores keep their order).
pub open spec fn sort_desc(ms: Seq<MatchView>) -> Seq<MatchView>
    decreases ms.len(),
{
    if ms.len() == 0 {
        ms
    } else {
        insert_desc(sort_desc(ms.drop_last()), ms.last())
    }
}

pub open spec fn sorted_desc(s: Seq<MatchView>) -> bool {
    forall|i: int, j: int| 0 <= i < j < s.len() ==> score_of(s[i]) >= score_of(s[j])
}

proof fn lemma_insert_desc_is_insert(s: Seq<MatchView>, m: MatchView)
    ensures
        0 <= insert_pos(s, m) <= s.len(),
        insert_desc(s, m) == s.insert(insert_pos(s, m), m),
    decreases s.len(),
{
    if s.len() == 0 || score_of(s.last()) >= score_of(m) {
        assert(s.push(m) =~= s.insert(s.len() as int, m));
    } else {
        lemma_insert_desc_is_insert(s.drop_last(), m);
        let p = insert_pos(s.drop_last(), m);
        assert(s.drop_last().insert(p, m).push(s.last()) =~= s.insert(p, m));
    }
}

fn insert_sorted(out: &mut Vec<GameProcessMatch>, m: GameProcessMatch)
    ensures
        match_views(final(out)@) == insert_desc(match_views(old(out)@), m@),
{
    let ghost s = match_views(out@);
    let sc = match_score(&m);
    let mut pos = out.len();
    assert(s.take(s.len() as int) =~= s);
    while pos > 0 && match_score(&out[pos - 1]) < sc
        invariant
            pos <= out@.len(),
            s == match_views(out@),
            sc == score_of(m@),
            insert_pos(s, m@) == insert_pos(s.take(pos as int), m@),
        decreases pos,
    {
        assert(s.take(pos as int).drop_last() =~= s.take(pos - 1));
        pos = pos - 1;
    }
    proof {
        lemma_insert_desc_is_insert(s, m@);
    }
    assert(insert_pos(s, m@) == pos);
    let ghost mv = m@;
    out.insert(pos, m);
    assert(match_views(out@) =~= s.insert(pos as int, mv));
}

/// Search outcome from the classified candidates: sorted best first (stable),
/// the preferred one, and whether any runs.
pub fn search_result(processes: Vec<GameProcessMatch>) -> (r: GameProcessSearchResult)
    ensures
        match_views(r.processes@) == sort_desc(match_views(processes@)),
        r.running == (processes@.len() > 0),
        r.primary is None <==> processes@.len() == 0,
        r.primary matches Some(m) ==> m@ == sort_desc(match_views(processes@))[best_index(
            sort_desc(match_views(processes@)),
            processes@.len() as int,
        )],
{
    let ghost vs = match_views(processes@);
    let n = processes.len();
    let mut sorted: Vec<GameProcessMatch> = Vec::new();
    let mut i: usize = 0;
    while i < n
        invariant
            n == processes@.len(),
            vs == match_views(processes@),
            i <= n,
            match_views(sorted@) == sort_desc(vs.take(i as int)),
            sorted@.len() == i,
        decreases n - i,
    {
        assert(vs.take(i + 1).drop_last() =~= vs.take(i as int));
        assert(vs.take(i + 1).last() == processes@[i as int]@);
        proof {
            lemma_insert_desc_is_insert(sort_desc(vs.take(i as int)), vs[i as int]);
        }
        let m = copy_match(&processes[i]);
        assert(m@ == vs[i as int]);
        insert_sorted(&mut sorted, m);
        assert(match_views(sorted@).len() == sorted@.len());
        assert(match_views(sorted@).len() == i + 1);
        i = i + 1;
    }
    assert(vs.take(n as int) =~= vs);
    let primary = rank_matches(sorted.as_slice());
    GameProcessSearchResult { running: n > 0, primary: primary, processes: sorted }
}

// ───────────────────────── process snapshot ─────────────────────────

/// One process of a system snapshot, with what was learnt about it.
pub struct SnapshotEntry {
    pub pid: u32,
    /// The image name the snapshot reports.
    pub exe_name: String,
    /// The full image path, where it could be queried.
    pub image_path: Option<String>,
    /// Whether the process shows a visible window.
    pub has_window: bool,
}

/// A snapshot entry worth a closer look: a real process (pid ≠ 0) with a
/// candidate image name.
pub fn is_snapshot_candidate(pid: u32, exe_name: &str) -> (r: bool)
    ensures
        r == (pid != 0 && is_candidate_name(exe_name@)),
{
    pid != 0 && is_candidate_exe_name(exe_name)
}

/// The client an entry stands for, if any: a candidate whose image path is
/// known and classifies as a game client.
pub open spec fn entry_match_of(e: SnapshotEntry, env: crate::paths::HostView) -> Option<MatchView> {
    if e.pid != 0 && is_candidate_name(e.exe_name@) {
        match e.image_path {
            Some(p) => classify_match_of(e.pid, p@, env, e.has_window),
            None => None,
        }
    } else {
        None
    }
}

/// The clients found in a snapshot, in snapshot order.
pub open spec fn matches_of(es: Seq<SnapshotEntry>, env: crate::paths::HostView) -> Seq<MatchView>
    decreases es.len(),
{
    if es.len() == 0 {
        Seq::empty()
    } else {
        let prev = matches_of(es.drop_last(), env);
        match entry_match_of(es.last(), env) {
            Some(m) => prev.push(m),
            None => prev,
        }
    }
}

/// Running game clients in a process snapshot: only entries with a non-zero
/// pid, a candidate name and a known image path that classifies as a client
/// are reported (no pid is invented), best first, with the preferred one.
pub fn find_game_processes(entries: &[SnapshotEntry], env: &HostEnv) -> (r: GameProcessSearchResult)
    ensures
        match_views(r.processes@) == sort_desc(matches_of(entries@, env@)),
        r.running == (matches_of(entries@, env@).len() > 0),
        r.primary is None <==> matches_of(entries@, env@).len() == 0,
        r.primary matches Some(m) ==> m@ == sort_desc(matches_of(entries@, env@))[best_index(
            sort_desc(matches_of(entries@, env@)),
            matches_of(entries@, env@).len() as int,
        )],
{
    let mut found: Vec<GameProcessMatch> = Vec::new();
    let mut i: usize = 0;
    while i < entries.len()
        invariant
            i <= entries@.len(),
            match_views(found@) == matches_of(entries@.take(i as int), env@),
        decreases entries@.len() - i,
    {
        assert(entries@.take(i + 1).drop_last() =~= entries@.take(i as int));
        assert(entries@.take(i + 1).last() == entries@[i as int]);
        let e = &entries[i];
        if is_snapshot_candidate(e.pid, e.exe_name.as_str()) {
            match &e.image_path {
                Some(p) => {
                    match classify_match(e.pid, p.as_str(), env, e.has_window) {
                        Some(m) => {
                            let ghost before = found@;
                            found.push(m);
                            assert(match_views(found@) =~= match_views(before).push(m@));
                        },
                        None => {},
                    }
                },
                None => {},
            }
        }
        i = i + 1;
    }
    assert(entries@.take(entries@.len() as int) =~= entries@);
    search_result(found)
}

// ───────────────────────── laws ─────────────────────────

/// The preferred candidate scores highest, and every later one scores less.
pub proof fn lemma_best_is_last_maximum(ms: Seq<MatchView>, n: int)
    requires
        1 <= n <= ms.len(),
    ensures
        0 <= best_index(ms, n) < n,
        forall|k: int| 0 <= k < n ==> score_of(#[trigger] ms[k]) <= score_of(ms[best_index(ms, n)]),
        forall|k: int|
            best_index(ms, n) < k < n ==> score_of(#[trigger] ms[k]) < score_of(
                ms[best_index(ms, n)],
            ),
    decreases n,
{
    if n > 1 {
        lemma_best_is_last_maximum(ms, n - 1);
    }
}

proof fn lemma_insert_desc_sorted(s: Seq<MatchView>, m: MatchView)
    requires
        sorted_desc(s),
    ensures
        sorted_desc(insert_desc(s, m)),
        forall|i: int|
            0 <= i < insert_desc(s, m).len() ==> insert_desc(s, m)[i] == m || s.contains(
                insert_desc(s, m)[i],
            ),
    decreases s.len(),
{
    lemma_insert_desc_is_insert(s, m);
    if s.len() == 0 || score_of(s.last()) >= score_of(m) {
        let r = s.push(m);
        assert forall|i: int| 0 <= i < r.len() implies r[i] == m || s.contains(r[i]) by {
            if i < s.len() {
                assert(r[i] == s[i]);
            }
        }
    } else {
        let sp = s.drop_last();
        assert(sorted_desc(sp)) by {
            assert forall|i: int, j: int| 0 <= i < j < sp.len() implies score_of(sp[i]) >= score_of(
                sp[j],
            ) by {
                assert(sp[i] == s[i] && sp[j] == s[j]);
            }
        }
        lemma_insert_desc_sorted(sp, m);
        let q = insert_desc(sp, m);
        let r = q.push(s.last());
        assert forall|i: int| 0 <= i < q.len() implies score_of(q[i]) >= score_of(s.last()) by {
            if q[i] != m {
                let k = choose|k: int| 0 <= k < sp.len() && sp[k] == q[i];
                assert(s[k] == sp[k]);
            }
        }
        assert forall|i: int, j: int| 0 <= i < j < r.len() implies score_of(r[i]) >= score_of(
            r[j],
        ) by {
            if j == q.len() {
                assert(r[i] == q[i]);
            } else {
                assert(r[i] == q[i] && r[j] == q[j]);
            }
        }
        assert forall|i: int| 0 <= i < r.len() implies r[i] == m || s.contains(r[i]) by {
            if i < q.len() {
                assert(r[i] == q[i]);
                if q[i] != m {
                    let k = choose|k: int| 0 <= k < sp.len() && sp[k] == q[i];
                    assert(s[k] == sp[k]);
                }
            } else {
                assert(r[i] == s[s.len() - 1]);
            }
        }
    }
}

/// The search lists candidates best first and loses or invents none.
pub proof fn lemma_sort_desc_sorted_permutation(ms: Seq<MatchView>)
    ensures
        sorted_desc(sort_desc(ms)),
        sort_desc(ms).to_multiset() == ms.to_multiset(),
    decreases ms.len(),
{
    if ms.len() > 0 {
        let prev = ms.drop_last();
        lemma_sort_desc_sorted_permutation(prev);
        lemma_insert_desc_sorted(sort_desc(prev), ms.last());
        lemma_insert_desc_is_insert(sort_desc(prev), ms.last());
        vstd::seq_lib::to_multiset_insert(
            sort_desc(prev),
            insert_pos(sort_desc(prev), ms.last()),
            ms.last(),
        );
        vstd::seq_lib::to_multiset_build(prev, ms.last());
        assert(prev.push(ms.last()) =~= ms);
    }
}

} // verus!
