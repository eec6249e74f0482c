//! Launcher layouts (EXBO / Steam / EGS / VK Play), the wrapper's home
//! directory and the rules that decide which intercepted images get JVM flags.
//!
//! Paths are Windows paths held as text; `\` and `/` both separate components.
//! What the host provides (the `APPDATA` directory, the folder of the running
//! executable) is handed in through [`HostEnv`].

use vstd::prelude::*;

use crate::text::{
    append_chars, chars_eq, concat_chars, contains, contains_chars, eq_ignore_ascii_case, eq_ignore_ascii_case_chars,
    find, find_chars, from_chars, lower_chars, lower_text, replace_char, replace_chars, split_char,
    split_chars, sub_chars, to_chars, views, lemma_lower_text_fixed, lemma_contains_prefix,
    is_ascii_text, lemma_find_from,
};

verus! {

pub const JVM_WRAPPER_DIR: &'static str = "jvm_wrapper";

/// Which launcher a game image belongs to.
#[derive(Debug, Clone, Copy, PartialEq, Eq, Structural)]
pub enum LauncherKind {
    Exbo,
    Steam,
    Egs,
    VkPlay,
    Unknown,
}

pub open spec fn kind_name(k: LauncherKind) -> Seq<char> {
    match k {
        LauncherKind::Exbo => "exbo"@,
        LauncherKind::Steam => "steam"@,
        LauncherKind::Egs => "egs"@,
        LauncherKind::VkPlay => "vkplay"@,
        LauncherKind::Unknown => "unknown"@,
    }
}

impl LauncherKind {
    pub fn as_str(self) -> (r: &'static str)
        ensures
            r@ == kind_name(self),
    {
        match self {
            LauncherKind::Exbo => "exbo",
            LauncherKind::Steam => "steam",
            LauncherKind::Egs => "egs",
            LauncherKind::VkPlay => "vkplay",
            LauncherKind::Unknown => "unknown",
        }
    }
}

/// Directories of one launcher installation.
#[derive(Debug, Clone)]
pub struct LauncherLayout {
    pub kind: LauncherKind,
    pub root: String,
    pub wrapper: String,
    pub runtime_stalcraft: Option<String>,
}

/// Mathematical form of a [`LauncherLayout`].
pub struct LayoutView {
    pub kind: LauncherKind,
    pub root: Seq<char>,
    pub wrapper: Seq<char>,
    pub runtime_stalcraft: Option<Seq<char>>,
}

impl View for LauncherLayout {
    type V = LayoutView;

    open spec fn view(&self) -> LayoutView {
        LayoutView {
            kind: self.kind,
            root: self.root@,
            wrapper: self.wrapper@,
            runtime_stalcraft: self.runtime_stalcraft.deep_view(),
        }
    }
}

/// What the host tells the library about its surroundings: the `APPDATA`
/// directory and the folder that holds the running executable.
#[derive(Debug, Clone)]
pub struct HostEnv {
    pub appdata: Option<String>,
    pub exe_dir: Option<String>,
}

pub struct HostView {
    pub appdata: Option<Seq<char>>,
    pub exe_dir: Option<Seq<char>>,
}

impl View for HostEnv {
    type V = HostView;

    open spec fn view(&self) -> HostView {
        HostView { appdata: self.appdata.deep_view(), exe_dir: self.exe_dir.deep_view() }
    }
}

// ───────────────────────── path text ─────────────────────────

pub open spec fn is_sep(c: char) -> bool {
    c == '\\' || c == '/'
}

pub open spec fn is_ascii_alpha(c: char) -> bool {
    ('a' <= c && c <= 'z') || ('A' <= c && c <= 'Z')
}

/// `X:` at the start of a path.
pub open spec fn has_drive_prefix(s: Seq<char>) -> bool {
    s.len() >= 2 && s[1] == ':' && is_ascii_alpha(s[0])
}

/// `PathBuf::join` with a relative `b`: a `\` is inserted unless `a` is
/// empty, is a bare drive (`C:`) or already ends with a separator.
pub open spec fn path_join(a: Seq<char>, b: Seq<char>) -> Seq<char> {
    if a.len() == 0 || (a.len() == 2 && has_drive_prefix(a)) || is_sep(a.last()) {
        a + b
    } else {
        a + seq!['\\'] + b
    }
}

/// Trailing separators and trailing `.` components dropped (the components
/// that `Path::components` skips at the end of a path).
pub open spec fn strip_tail(s: Seq<char>) -> Seq<char>
    decreases s.len(),
{
    if s.len() > 0 && is_sep(s.last()) {
        strip_tail(s.drop_last())
    } else if s.len() >= 2 && s.last() == '.' && is_sep(s[s.len() - 2]) {
        strip_tail(s.drop_last())
    } else {
        s
    }
}

/// Index of the last separator before position `i`.
pub open spec fn last_sep_before(s: Seq<char>, i: int) -> Option<int>
    decreases i,
{
    if i <= 0 {
        None
    } else if is_sep(s[i - 1]) {
        Some(i - 1)
    } else {
        last_sep_before(s, i - 1)
    }
}

/// Index of the first separator at or after `i` (the length when none).
pub open spec fn next_sep_from(s: Seq<char>, i: int) -> int
    decreases s.len() - i,
{
    if i < 0 || i >= s.len() {
        s.len() as int
    } else if is_sep(s[i]) {
        i
    } else {
        next_sep_from(s, i + 1)
    }
}

/// Length of a network prefix: `\\server\share` (both parts non-empty) or
/// the device form `\\.\name`; 0 for any other path.
pub open spec fn net_prefix_len(s: Seq<char>) -> int {
    if s.len() >= 2 && is_sep(s[0]) && is_sep(s[1]) {
        if s.len() >= 4 && s[2] == '.' && is_sep(s[3]) {
            next_sep_from(s, 4)
        } else if s.len() >= 4 && s[2] == '?' && is_sep(s[3]) {
            0
        } else {
            let a = next_sep_from(s, 2);
            let b = next_sep_from(s, a + 1);
            if a > 2 && a < s.len() && b > a + 1 {
                b
            } else {
                0
            }
        }
    } else {
        0
    }
}

/// Final component of a path (`Path::file_name`): trailing separators and
/// `.` components are ignored, a drive or network prefix is not a name, and
/// `.`, `..` or nothing gives `None`. Verbatim (`\\?\`) paths are read like
/// ordinary ones.
pub open spec fn file_name(p: Seq<char>) -> Option<Seq<char>> {
    let q = strip_tail(p);
    let seg = match last_sep_before(q, q.len() as int) {
        Some(k) => if k < net_prefix_len(p) {
            Seq::<char>::empty()
        } else {
            q.skip(k + 1)
        },
        None => if has_drive_prefix(q) {
            q.skip(2)
        } else {
            q
        },
    };
    if seg.len() == 0 || seg == seq!['.'] || seg == seq!['.', '.'] {
        None
    } else {
        Some(seg)
    }
}

/// Everything before the final component (`Path::parent` on Windows path
/// text): separators and `.` components between the two are dropped, a root
/// separator stays (`C:\a` gives `C:\`, `\\srv\share\a` gives
/// `\\srv\share\`), a bare name gives the empty text, and a path with no
/// file name gives `None`.
pub open spec fn parent_of(p: Seq<char>) -> Option<Seq<char>> {
    if file_name(p) is None {
        None
    } else {
        let q = strip_tail(p);
        match last_sep_before(q, q.len() as int) {
            Some(k) => {
                let head = strip_tail(q.take(k));
                if net_prefix_len(p) > 0 && head.len() <= net_prefix_len(p) {
                    Some(q.take(net_prefix_len(p) + 1))
                } else if head.len() == 0 || (head.len() == 2 && has_drive_prefix(head)) {
                    Some(q.take(head.len() + 1int))
                } else {
                    Some(head)
                }
            },
            None => if has_drive_prefix(q) {
                Some(q.take(2))
            } else {
                Some(Seq::<char>::empty())
            },
        }
    }
}

/// The file name, or the empty text when there is none.
pub open spec fn file_name_or_empty(p: Seq<char>) -> Seq<char> {
    match file_name(p) {
        Some(n) => n,
        None => Seq::<char>::empty(),
    }
}

/// `path.replace('/', "\\").to_lowercase()`.
pub open spec fn norm_lower(p: Seq<char>) -> Seq<char> {
    lower_text(replace_char(p, '/', '\\'))
}

/// Separator-delimited pieces of a path.
pub open spec fn segments(p: Seq<char>) -> Seq<Seq<char>> {
    split_char(replace_char(p, '/', '\\'), '\\')
}

/// The prefix of `path` up to the end of the first case-insensitive match of
/// `marker` (found in the normalized, lower-cased text).
pub open spec fn slice_dir(path: Seq<char>, marker: Seq<char>) -> Option<Seq<char>> {
    match find(norm_lower(path), lower_text(marker)) {
        Some(i) => if i + marker.len() <= path.len() {
            Some(path.take(i + marker.len()))
        } else {
            None
        },
        None => None,
    }
}

// ───────────────────────── layouts ─────────────────────────

pub open spec fn exbo_root_of(appdata: Option<Seq<char>>) -> Option<Seq<char>> {
    match appdata {
        Some(a) => Some(path_join(a, "EXBO"@)),
        None => None,
    }
}

pub open spec fn exbo_layout_of(appdata: Option<Seq<char>>) -> Option<LayoutView> {
    match exbo_root_of(appdata) {
        Some(root) => Some(
            LayoutView {
                kind: LauncherKind::Exbo,
                root: root,
                wrapper: path_join(root, "jvm_wrapper"@),
                runtime_stalcraft: Some(path_join(root, "runtime\\stalcraft"@)),
            },
        ),
        None => None,
    }
}

/// Folder of the running executable, else the EXBO `jvm_wrapper` folder,
/// else the bare name `jvm_wrapper`.
pub open spec fn wrapper_home_of(env: HostView) -> Seq<char> {
    match env.exe_dir {
        Some(d) => d,
        None => match exbo_layout_of(env.appdata) {
            Some(l) => l.wrapper,
            None => "jvm_wrapper"@,
        },
    }
}

pub open spec fn sliced_layout(kind: LauncherKind, root: Seq<char>) -> LayoutView {
    LayoutView {
        kind: kind,
        root: root,
        wrapper: path_join(root, "jvm_wrapper"@),
        runtime_stalcraft: None,
    }
}

/// Launcher layout of a running image path.
pub open spec fn classify_of(path: Seq<char>, env: HostView) -> LayoutView {
    let lower = norm_lower(path);
    let exbo = exbo_layout_of(env.appdata);
    if exbo is Some && (contains(lower, lower_text(exbo->0.root)) || contains(
        lower,
        "\\roaming\\exbo\\"@,
    )) {
        exbo->0
    } else if slice_dir(path, "\\steamapps\\common\\stalcraft"@) is Some {
        sliced_layout(LauncherKind::Steam, slice_dir(path, "\\steamapps\\common\\stalcraft"@)->0)
    } else if slice_dir(path, "\\epic games\\stalcraft"@) is Some {
        sliced_layout(LauncherKind::Egs, slice_dir(path, "\\epic games\\stalcraft"@)->0)
    } else if slice_dir(path, "\\vkplay\\stalcraft"@) is Some {
        sliced_layout(LauncherKind::VkPlay, slice_dir(path, "\\vkplay\\stalcraft"@)->0)
    } else {
        LayoutView {
            kind: LauncherKind::Unknown,
            root: Seq::<char>::empty(),
            wrapper: wrapper_home_of(env),
            runtime_stalcraft: None,
        }
    }
}

/// Lower-cased file name is one of the four launcher shims.
pub open spec fn is_launcher_binary_of(path: Seq<char>) -> bool {
    let name = lower_text(file_name_or_empty(path));
    name == "stalzone.exe"@ || name == "stalzonew.exe"@ || name == "stalcraft.exe"@ || name
        == "stalcraftw.exe"@
}

pub open spec fn is_java_name(path: Seq<char>) -> bool {
    let name = lower_text(file_name_or_empty(path));
    name == "java.exe"@ || name == "javaw.exe"@
}

/// The path lies under the root of a recognised launcher.
pub open spec fn under_launcher_root(path: Seq<char>, env: HostView) -> bool {
    let layout = classify_of(path, env);
    let root = lower_text(layout.root);
    layout.kind != LauncherKind::Unknown && root.len() > 0 && contains(norm_lower(path), root)
}

/// The path holds one of the game-folder markers.
pub open spec fn has_game_marker(path: Seq<char>) -> bool {
    let lower = norm_lower(path);
    contains(lower, lower_text("\\runtime\\stalcraft"@)) || contains(
        lower,
        lower_text("\\stalcraft\\"@),
    ) || contains(lower, lower_text("\\exbo\\"@)) || contains(
        lower,
        lower_text("\\steamapps\\common\\stalcraft"@),
    )
}

/// `java.exe` / `javaw.exe` that belongs to the game (not a system JDK).
pub open spec fn is_game_java_of(path: Seq<char>, env: HostView) -> bool {
    is_java_name(path) && (under_launcher_root(path, env) || has_game_marker(path))
}

pub open spec fn should_inject_of(path: Seq<char>, env: HostView) -> bool {
    is_launcher_binary_of(path) || is_game_java_of(path, env)
}

pub open spec fn target_kind_of(path: Seq<char>, env: HostView) -> Seq<char> {
    if is_game_java_of(path, env) {
        "java"@
    } else if is_launcher_binary_of(path) {
        "launcher"@
    } else {
        "other"@
    }
}

pub open spec fn scope_label_of(path: Seq<char>, env: HostView) -> Seq<char> {
    if classify_of(path, env).kind != LauncherKind::Unknown {
        "game"@
    } else {
        "unknown"@
    }
}

/// Game directory inferred from an image path, given whether the layout's
/// root currently exists as a directory.
pub open spec fn game_dir_given(path: Seq<char>, env: HostView, root_is_dir: bool) -> Option<
    Seq<char>,
> {
    let layout = classify_of(path, env);
    match layout.kind {
        LauncherKind::Exbo => if slice_dir(path, "runtime\\stalcraft"@) is Some {
            slice_dir(path, "runtime\\stalcraft"@)
        } else if root_is_dir {
            Some(layout.root)
        } else {
            None
        },
        LauncherKind::Unknown => None,
        _ => if root_is_dir {
            Some(layout.root)
        } else {
            None
        },
    }
}

/// Some separator-delimited piece of `p` reads `EXBO` in any ASCII case.
pub open spec fn has_exbo_segment(p: Seq<char>) -> bool {
    exists|i: int|
        0 <= i < segments(p).len() && eq_ignore_ascii_case(#[trigger] segments(p)[i], "EXBO"@)
}

pub open spec fn is_jvm_wrapper_dir_of(dir: Seq<char>) -> bool {
    match file_name(dir) {
        Some(n) => eq_ignore_ascii_case(n, "jvm_wrapper"@),
        None => false,
    }
}

// ───────────────────────── executable path text ─────────────────────────

fn is_sep_char(c: char) -> (r: bool)
    ensures
        r == is_sep(c),
{
    c == '\\' || c == '/'
}

/// `PathBuf::join` of a relative piece.
pub fn join_chars(a: &[char], b: &[char]) -> (r: Vec<char>)
    ensures
        r@ == path_join(a@, b@),
{
    let n = a.len();
    let bare_drive = n == 2 && a[1] == ':' && (('a' <= a[0] && a[0] <= 'z') || ('A' <= a[0]
        && a[0] <= 'Z'));
    if n == 0 || bare_drive || is_sep_char(a[n - 1]) {
        concat_chars(a, b)
    } else {
        let mut r: Vec<char> = Vec::new();
        append_chars(&mut r, a);
        r.push('\\');
        append_chars(&mut r, b);
        assert(r@ =~= a@ + seq!['\\'] + b@);
        r
    }
}

/// Joins two texts as paths.
pub fn join_str(a: &str, b: &str) -> (r: String)
    ensures
        r@ == path_join(a@, b@),
{
    let x = to_chars(a);
    let y = to_chars(b);
    let j = join_chars(x.as_slice(), y.as_slice());
    from_chars(j.as_slice())
}

/// Where the tail-stripped `p[..end]` ends.
fn strip_tail_end(p: &[char], end: usize) -> (r: usize)
    requires
        end <= p@.len(),
    ensures
        r <= end,
        strip_tail(p@.take(end as int)) == p@.take(r as int),
{
    let mut e = end;
    while e > 0 && (is_sep_char(p[e - 1]) || (e >= 2 && p[e - 1] == '.' && is_sep_char(p[e - 2])))
        invariant
            e <= end <= p@.len(),
            strip_tail(p@.take(end as int)) == strip_tail(p@.take(e as int)),
        decreases e,
    {
        assert(p@.take(e as int).drop_last() =~= p@.take(e - 1));
        e = e - 1;
    }
    e
}

/// Index of the last separator in `p[..end]`.
fn last_sep_index(p: &[char], end: usize) -> (r: Option<usize>)
    requires
        end <= p@.len(),
    ensures
        match r {
            Some(k) => k < end && last_sep_before(p@.take(end as int), end as int) == Some(k as int),
            None => last_sep_before(p@.take(end as int), end as int) is None,
        },
{
    let ghost q = p@.take(end as int);
    let mut k = end;
    while k > 0 && !is_sep_char(p[k - 1])
        invariant
            k <= end <= p@.len(),
            q == p@.take(end as int),
            last_sep_before(q, end as int) == last_sep_before(q, k as int),
        decreases k,
    {
        k = k - 1;
    }
    if k == 0 {
        None
    } else {
        Some(k - 1)
    }
}

/// Index of the first separator at or after `i`.
fn next_sep_index(p: &[char], i: usize) -> (r: usize)
    requires
        i <= p@.len(),
    ensures
        i <= r <= p@.len(),
        r == next_sep_from(p@, i as int),
{
    let mut j = i;
    while j < p.len() && !is_sep_char(p[j])
        invariant
            i <= j <= p@.len(),
            next_sep_from(p@, i as int) == next_sep_from(p@, j as int),
        decreases p@.len() - j,
    {
        j = j + 1;
    }
    j
}

fn net_prefix_len_chars(p: &[char]) -> (r: usize)
    ensures
        r == net_prefix_len(p@),
        r <= p@.len(),
{
    if p.len() >= 2 && is_sep_char(p[0]) && is_sep_char(p[1]) {
        if p.len() >= 4 && p[2] == '.' && is_sep_char(p[3]) {
            next_sep_index(p, 4)
        } else if p.len() >= 4 && p[2] == '?' && is_sep_char(p[3]) {
            0
        } else {
            let a = next_sep_index(p, 2);
            if a > 2 && a < p.len() {
                let b = next_sep_index(p, a + 1);
                if b > a + 1 {
                    b
                } else {
                    0
                }
            } else {
                0
            }
        }
    } else {
        0
    }
}

fn starts_with_drive(p: &[char], end: usize) -> (r: bool)
    requires
        end <= p@.len(),
    ensures
        r == has_drive_prefix(p@.take(end as int)),
{
    end >= 2 && p[1] == ':' && (('a' <= p[0] && p[0] <= 'z') || ('A' <= p[0] && p[0] <= 'Z'))
}

/// `Path::file_name` on Windows path text.
pub fn file_name_chars(p: &[char]) -> (r: Option<Vec<char>>)
    ensures
        match r {
            Some(v) => file_name(p@) == Some(v@),
            None => file_name(p@) is None,
        },
{
    assert(p@.take(p@.len() as int) =~= p@);
    let end = strip_tail_end(p, p.len());
    let ghost q = p@.take(end as int);
    assert(strip_tail(p@) == q);
    let plen = net_prefix_len_chars(p);
    let start: usize = match last_sep_index(p, end) {
        Some(k) => {
            if k < plen {
                return None;
            }
            k + 1
        },
        None => if starts_with_drive(p, end) {
            2
        } else {
            0
        },
    };
    let seg = sub_chars(p, start, end);
    assert(seg@ =~= (match last_sep_before(q, q.len() as int) {
        Some(j) => q.skip(j + 1),
        None => if has_drive_prefix(q) {
            q.skip(2)
        } else {
            q
        },
    }));
    if seg.len() == 0 || (seg.len() == 1 && seg[0] == '.') || (seg.len() == 2 && seg[0] == '.'
        && seg[1] == '.') {
        assert(seg.len() == 1 ==> seg@ =~= seq!['.']);
        assert(seg.len() == 2 ==> seg@ =~= seq!['.', '.']);
        None
    } else {
        assert(seg@.len() == 1 ==> seg@ != seq!['.'] || seg@[0] == '.');
        assert(seg@.len() == 2 ==> seg@ != seq!['.', '.'] || (seg@[0] == '.' && seg@[1] == '.'));
        Some(seg)
    }
}

/// `Path::parent` on Windows path text.
pub fn parent_chars(p: &[char]) -> (r: Option<Vec<char>>)
    ensures
        r.deep_view() == parent_of(p@),
{
    if file_name_chars(p).is_none() {
        return None;
    }
    assert(p@.take(p@.len() as int) =~= p@);
    let end = strip_tail_end(p, p.len());
    let ghost q = p@.take(end as int);
    assert(strip_tail(p@) == q);
    let plen = net_prefix_len_chars(p);
    match last_sep_index(p, end) {
        None => {
            if starts_with_drive(p, end) {
                assert(q.take(2) =~= p@.take(2));
                Some(sub_chars(p, 0, 2))
            } else {
                Some(Vec::new())
            }
        },
        Some(k) => {
            assert(q.take(k as int) =~= p@.take(k as int));
            let h = strip_tail_end(p, k);
            let ghost head = p@.take(h as int);
            assert(strip_tail(q.take(k as int)) == head);
            if plen > 0 && h <= plen {
                assert(q.take(plen + 1) =~= p@.take(plen + 1));
                Some(sub_chars(p, 0, plen + 1))
            } else if h == 0 || (h == 2 && starts_with_drive(p, h)) {
                assert(q.take(h + 1) =~= p@.take(h + 1));
                Some(sub_chars(p, 0, h + 1))
            } else {
                Some(sub_chars(p, 0, h))
            }
        },
    }
}

/// File name of a path, or the empty text.
pub fn file_name_or_empty_chars(p: &[char]) -> (r: Vec<char>)
    ensures
        r@ == file_name_or_empty(p@),
{
    match file_name_chars(p) {
        Some(v) => v,
        None => Vec::new(),
    }
}

/// Lower-cased characters of a character vector.
fn lower_of_chars(v: &[char]) -> (r: Vec<char>)
    ensures
        r@ == lower_text(v@),
{
    let s = from_chars(v);
    lower_chars(s.as_str())
}

/// `path.replace('/', "\\").to_lowercase()`.
pub fn norm_lower_chars(path: &[char]) -> (r: Vec<char>)
    ensures
        r@ == norm_lower(path@),
{
    let rep = replace_chars(path, '/', '\\');
    lower_of_chars(rep.as_slice())
}

/// Prefix of `path` that ends with the first case-insensitive match of `marker`.
pub fn slice_dir_chars(path: &[char], marker: &str) -> (r: Option<Vec<char>>)
    ensures
        match r {
            Some(v) => slice_dir(path@, marker@) == Some(v@),
            None => slice_dir(path@, marker@) is None,
        },
{
    let lower = norm_lower_chars(path);
    let m = lower_chars(marker);
    let mlen = to_chars(marker).len();
    match find_chars(lower.as_slice(), m.as_slice()) {
        Some(i) => {
            if i <= path.len() && mlen <= path.len() - i {
                Some(sub_chars(path, 0, i + mlen))
            } else {
                None
            }
        },
        None => None,
    }
}

// ───────────────────────── layouts ─────────────────────────

/// `APPDATA\EXBO`.
pub fn exbo_roaming_root(appdata: &Option<String>) -> (r: Option<String>)
    ensures
        r.deep_view() == exbo_root_of(appdata.deep_view()),
{
    match appdata {
        Some(a) => Some(join_str(a.as_str(), "EXBO")),
        None => None,
    }
}

impl LauncherLayout {
    /// Layout of the EXBO launcher under `APPDATA`.
    pub fn exbo(env: &HostEnv) -> (r: Option<LauncherLayout>)
        ensures
            match r {
                Some(l) => exbo_layout_of(env@.appdata) == Some(l@),
                None => exbo_layout_of(env@.appdata) is None,
            },
    {
        match exbo_roaming_root(&env.appdata) {
            Some(root) => {
                let wrapper = join_str(root.as_str(), JVM_WRAPPER_DIR);
                let runtime = join_str(root.as_str(), "runtime\\stalcraft");
                Some(
                    LauncherLayout {
                        kind: LauncherKind::Exbo,
                        root: root,
                        wrapper: wrapper,
                        runtime_stalcraft: Some(runtime),
                    },
                )
            },
            None => None,
        }
    }
}

/// Canonical wrapper directory: the folder that holds the running executable
/// (GUI and `service.exe` sit together after unpacking).
pub fn wrapper_home(env: &HostEnv) -> (r: String)
    ensures
        r@ == wrapper_home_of(env@),
{
    match &env.exe_dir {
        Some(d) => d.clone(),
        None => match LauncherLayout::exbo(env) {
            Some(l) => l.wrapper,
            None => String::from_str(JVM_WRAPPER_DIR),
        },
    }
}

/// True when `dir` is named `jvm_wrapper` (ASCII case-insensitive).
pub fn is_jvm_wrapper_dir(dir: &str) -> (r: bool)
    ensures
        r == is_jvm_wrapper_dir_of(dir@),
{
    let d = to_chars(dir);
    match file_name_chars(d.as_slice()) {
        Some(n) => {
            let w = to_chars(JVM_WRAPPER_DIR);
            eq_ignore_ascii_case_chars(n.as_slice(), w.as_slice())
        },
        None => false,
    }
}

fn path_has_exbo_segment(dir: &str) -> (r: bool)
    ensures
        r == has_exbo_segment(dir@),
{
    let d = to_chars(dir);
    let rep = replace_chars(d.as_slice(), '/', '\\');
    let parts = split_chars(rep.as_slice(), '\\');
    let exbo = to_chars("EXBO");
    let mut i: usize = 0;
    while i < parts.len()
        invariant
            i <= parts@.len(),
            views(parts@) == segments(dir@),
            exbo@ == "EXBO"@,
            forall|k: int| 0 <= k < i ==> !eq_ignore_ascii_case(segments(dir@)[k], "EXBO"@),
        decreases parts@.len() - i,
    {
        if eq_ignore_ascii_case_chars(parts[i].as_slice(), exbo.as_slice()) {
            assert(segments(dir@)[i as int] == parts@[i as int]@);
            return true;
        }
        assert(segments(dir@)[i as int] == parts@[i as int]@);
        i = i + 1;
    }
    false
}

/// Whether `dir` may be registered as IFEO Debugger home: a `jvm_wrapper`
/// folder, or any folder outside an `EXBO` tree.
pub fn is_safe_ifeo_home(dir: &str) -> (r: bool)
    ensures
        r == (is_jvm_wrapper_dir_of(dir@) || !has_exbo_segment(dir@)),
{
    if is_jvm_wrapper_dir(dir) {
        return true;
    }
    !path_has_exbo_segment(dir)
}

pub fn configs_dir(env: &HostEnv) -> (r: String)
    ensures
        r@ == path_join(wrapper_home_of(env@), "configs"@),
{
    let h = wrapper_home(env);
    join_str(h.as_str(), "configs")
}

pub fn logs_dir(env: &HostEnv) -> (r: String)
    ensures
        r@ == path_join(wrapper_home_of(env@), "logs"@),
{
    let h = wrapper_home(env);
    join_str(h.as_str(), "logs")
}

fn sliced(kind: LauncherKind, root: Vec<char>) -> (r: LauncherLayout)
    ensures
        r@ == sliced_layout(kind, root@),
{
    let w = to_chars(JVM_WRAPPER_DIR);
    let wrapper = join_chars(root.as_slice(), w.as_slice());
    LauncherLayout {
        kind: kind,
        root: from_chars(root.as_slice()),
        wrapper: from_chars(wrapper.as_slice()),
        runtime_stalcraft: None,
    }
}

/// Classifies a running image path into a launcher layout.
pub fn classify_target(path: &str, env: &HostEnv) -> (r: LauncherLayout)
    ensures
        r@ == classify_of(path@, env@),
{
    let p = to_chars(path);
    let lower = norm_lower_chars(p.as_slice());
    match LauncherLayout::exbo(env) {
        Some(layout) => {
            let root = lower_chars(layout.root.as_str());
            let m = to_chars("\\roaming\\exbo\\");
            if contains_chars(lower.as_slice(), root.as_slice()) || contains_chars(
                lower.as_slice(),
                m.as_slice(),
            ) {
                return layout;
            }
        },
        None => {},
    }
    match slice_dir_chars(p.as_slice(), "\\steamapps\\common\\stalcraft") {
        Some(root) => {
            return sliced(LauncherKind::Steam, root);
        },
        None => {},
    }
    match slice_dir_chars(p.as_slice(), "\\epic games\\stalcraft") {
        Some(root) => {
            return sliced(LauncherKind::Egs, root);
        },
        None => {},
    }
    match slice_dir_chars(p.as_slice(), "\\vkplay\\stalcraft") {
        Some(root) => {
            return sliced(LauncherKind::VkPlay, root);
        },
        None => {},
    }
    LauncherLayout {
        kind: LauncherKind::Unknown,
        root: String::new(),
        wrapper: wrapper_home(env),
        runtime_stalcraft: None,
    }
}

/// Lower-cased file name of a path.
fn lower_file_name(path: &str) -> (r: Vec<char>)
    ensures
        r@ == lower_text(file_name_or_empty(path@)),
{
    let p = to_chars(path);
    let n = file_name_or_empty_chars(p.as_slice());
    lower_of_chars(n.as_slice())
}

fn eq_lit(v: &Vec<char>, lit: &str) -> (r: bool)
    ensures
        r == (v@ == lit@),
{
    let l = to_chars(lit);
    chars_eq(v.as_slice(), l.as_slice())
}

/// One of the launcher shims `stalzone.exe`, `stalzonew.exe`,
/// `stalcraft.exe`, `stalcraftw.exe` (file name, any case).
pub fn is_launcher_binary(path: &str) -> (r: bool)
    ensures
        r == is_launcher_binary_of(path@),
{
    let name = lower_file_name(path);
    eq_lit(&name, "stalzone.exe") || eq_lit(&name, "stalzonew.exe") || eq_lit(
        &name,
        "stalcraft.exe",
    ) || eq_lit(&name, "stalcraftw.exe")
}

/// The image sits in `\runtime\stalcraft\…\java\bin\`.
pub fn is_runtime_java_bin(path: &str) -> (r: bool)
    ensures
        r == (contains(norm_lower(path@), "\\runtime\\stalcraft\\"@) && contains(
            norm_lower(path@),
            "\\java\\bin\\"@,
        )),
{
    let p = to_chars(path);
    let lower = norm_lower_chars(p.as_slice());
    let a = to_chars("\\runtime\\stalcraft\\");
    let b = to_chars("\\java\\bin\\");
    contains_chars(lower.as_slice(), a.as_slice()) && contains_chars(lower.as_slice(), b.as_slice())
}

fn contains_lowered(lower: &Vec<char>, marker: &str) -> (r: bool)
    ensures
        r == contains(lower@, lower_text(marker@)),
{
    let m = lower_chars(marker);
    contains_chars(lower.as_slice(), m.as_slice())
}

/// Game `java.exe` / `javaw.exe`: under a recognised launcher root or in a
/// game folder; a system JDK is not game java.
pub fn is_game_java(path: &str, env: &HostEnv) -> (r: bool)
    ensures
        r == is_game_java_of(path@, env@),
{
    let name = lower_file_name(path);
    if !eq_lit(&name, "java.exe") && !eq_lit(&name, "javaw.exe") {
        return false;
    }
    let layout = classify_target(path, env);
    let p = to_chars(path);
    let lower = norm_lower_chars(p.as_slice());
    if layout.kind != LauncherKind::Unknown {
        let root = lower_chars(layout.root.as_str());
        if root.len() > 0 && contains_chars(lower.as_slice(), root.as_slice()) {
            return true;
        }
    }
    contains_lowered(&lower, "\\runtime\\stalcraft") || contains_lowered(&lower, "\\stalcraft\\")
        || contains_lowered(&lower, "\\exbo\\") || contains_lowered(
        &lower,
        "\\steamapps\\common\\stalcraft",
    )
}

/// The image belongs to a recognised launcher.
pub fn is_game_scoped(path: &str, env: &HostEnv) -> (r: bool)
    ensures
        r == (classify_of(path@, env@).kind != LauncherKind::Unknown),
{
    classify_target(path, env).kind != LauncherKind::Unknown
}

/// `java`, `launcher` or `other`.
pub fn target_kind(path: &str, env: &HostEnv) -> (r: &'static str)
    ensures
        r@ == target_kind_of(path@, env@),
{
    if is_game_java(path, env) {
        "java"
    } else if is_launcher_binary(path) {
        "launcher"
    } else {
        "other"
    }
}

/// `game` for a recognised launcher, else `unknown`.
pub fn scope_label(path: &str, env: &HostEnv) -> (r: &'static str)
    ensures
        r@ == scope_label_of(path@, env@),
{
    if is_game_scoped(path, env) {
        "game"
    } else {
        "unknown"
    }
}

/// JVM flags are injected into launcher shims wherever they live, and into
/// game java/javaw; everything else runs untouched.
pub fn should_inject_jvm(path: &str, env: &HostEnv) -> (r: bool)
    ensures
        r == should_inject_of(path@, env@),
{
    if is_launcher_binary(path) {
        return true;
    }
    is_game_java(path, env)
}

/// Game directory inferred from the image path, given whether the layout root
/// exists as a directory.
pub fn game_dir_for_layout(path: &str, env: &HostEnv, root_is_dir: bool) -> (r: Option<String>)
    ensures
        r.deep_view() == game_dir_given(path@, env@, root_is_dir),
{
    let layout = classify_target(path, env);
    match layout.kind {
        LauncherKind::Exbo => {
            let p = to_chars(path);
            match slice_dir_chars(p.as_slice(), "runtime\\stalcraft") {
                Some(dir) => {
                    return Some(from_chars(dir.as_slice()));
                },
                None => {},
            }
            if root_is_dir {
                Some(layout.root)
            } else {
                None
            }
        },
        LauncherKind::Unknown => None,
        _ => if root_is_dir {
            Some(layout.root)
        } else {
            None
        },
    }
}

/// Working / game directory inferred from the image path when the arguments
/// carry no `--gameDir`. Whether a layout root is used depends on the disk.
pub fn game_dir_from_target(path: &str, env: &HostEnv) -> (r: Option<String>)
    ensures
        r.deep_view() == game_dir_given(path@, env@, true) || r.deep_view() == game_dir_given(
            path@,
            env@,
            false,
        ),
{
    let layout = classify_target(path, env);
    let root_is_dir = match layout.kind {
        LauncherKind::Unknown => false,
        _ => dir_exists(layout.root.as_str()),
    };
    game_dir_for_layout(path, env, root_is_dir)
}

/// Calls `std::path::Path::is_dir`: whether a directory exists at `path`
/// right now. Nothing is claimed of the answer (it depends on the disk).
#[verifier::external_body]
fn dir_exists(path: &str) -> bool {
    std::path::Path::new(path).is_dir()
}

/// Example presets folder shipped beside the app.
pub fn examples_dir(env: &HostEnv) -> (r: String)
    ensures
        r@ == path_join(wrapper_home_of(env@), "examples"@),
{
    let h = wrapper_home(env);
    join_str(h.as_str(), "examples")
}

/// `<dir>\Steam\steamapps\common\STALCRAFT\jvm_wrapper`.
pub open spec fn steam_home_under(dir: Seq<char>) -> Seq<char> {
    path_join(path_join(dir, "Steam\\steamapps\\common\\STALCRAFT"@), "jvm_wrapper"@)
}

pub open spec fn opt_seq(o: Option<Seq<char>>) -> Seq<Seq<char>> {
    match o {
        Some(x) => seq![x],
        None => Seq::empty(),
    }
}

/// Portable homes worth probing for `service.exe`: the EXBO `jvm_wrapper`,
/// then the Steam library under `Program Files` and `Program Files (x86)`,
/// each when its base folder is known.
pub open spec fn known_homes_of(
    appdata: Option<Seq<char>>,
    program_files: Option<Seq<char>>,
    program_files_x86: Option<Seq<char>>,
) -> Seq<Seq<char>> {
    opt_seq(
        match exbo_layout_of(appdata) {
            Some(l) => Some(l.wrapper),
            None => None,
        },
    ) + opt_seq(
        match program_files {
            Some(d) => Some(steam_home_under(d)),
            None => None,
        },
    ) + opt_seq(
        match program_files_x86 {
            Some(d) => Some(steam_home_under(d)),
            None => None,
        },
    )
}

fn steam_home(dir: &str) -> (r: String)
    ensures
        r@ == steam_home_under(dir@),
{
    let s = join_str(dir, "Steam\\steamapps\\common\\STALCRAFT");
    join_str(s.as_str(), JVM_WRAPPER_DIR)
}

pub fn known_wrapper_homes(
    env: &HostEnv,
    program_files: &Option<String>,
    program_files_x86: &Option<String>,
) -> (r: Vec<String>)
    ensures
        r@.map_values(|s: String| s@) == known_homes_of(
            env@.appdata,
            program_files.deep_view(),
            program_files_x86.deep_view(),
        ),
{
    let mut out: Vec<String> = Vec::new();
    match LauncherLayout::exbo(env) {
        Some(l) => out.push(l.wrapper),
        None => {},
    }
    match program_files {
        Some(d) => out.push(steam_home(d.as_str())),
        None => {},
    }
    match program_files_x86 {
        Some(d) => out.push(steam_home(d.as_str())),
        None => {},
    }
    assert(out@.map_values(|s: String| s@) =~= known_homes_of(
        env@.appdata,
        program_files.deep_view(),
        program_files_x86.deep_view(),
    ));
    out
}

// ───────────────────────── laws ─────────────────────────

/// Launcher shims are injected wherever they are installed: only the file
/// name decides, not the folder or the host.
pub proof fn lemma_launcher_shims_always_injected(p: Seq<char>, q: Seq<char>, env: HostView, other: HostView)
    requires
        is_launcher_binary_of(p),
        lower_text(file_name_or_empty(q)) == lower_text(file_name_or_empty(p)),
    ensures
        should_inject_of(p, env),
        should_inject_of(q, other),
{
}

/// `java.exe` / `javaw.exe` get flags only as game java, and an image that is
/// neither a launcher shim nor java never gets flags.
pub proof fn lemma_injection_scope(p: Seq<char>, env: HostView)
    ensures
        is_java_name(p) ==> (should_inject_of(p, env) <==> is_game_java_of(p, env)),
        !is_launcher_binary_of(p) && !is_java_name(p) ==> !should_inject_of(p, env),
{
    reveal_strlit("java.exe");
    reveal_strlit("javaw.exe");
    reveal_strlit("stalzone.exe");
    reveal_strlit("stalzonew.exe");
    reveal_strlit("stalcraft.exe");
    reveal_strlit("stalcraftw.exe");
    assert("java.exe"@.len() == 8 && "javaw.exe"@.len() == 9);
    assert("stalzone.exe"@.len() == 12 && "stalzonew.exe"@.len() == 13);
    assert("stalcraft.exe"@.len() == 13 && "stalcraftw.exe"@.len() == 14);
}

/// Game java is always named `java.exe`/`javaw.exe` (any case), and such an
/// image in a folder `\runtime\stalcraft\` or `\exbo\` (in the normalized,
/// lower-cased path) is always game java.
pub proof fn lemma_game_java_markers(p: Seq<char>, env: HostView)
    ensures
        is_game_java_of(p, env) ==> is_java_name(p),
        is_java_name(p) && (contains(norm_lower(p), "\\runtime\\stalcraft\\"@) || contains(
            norm_lower(p),
            "\\exbo\\"@,
        )) ==> is_game_java_of(p, env),
{
    reveal_strlit("\\runtime\\stalcraft\\");
    reveal_strlit("\\runtime\\stalcraft");
    reveal_strlit("\\exbo\\");
    lemma_lower_text_fixed("\\runtime\\stalcraft"@);
    lemma_lower_text_fixed("\\exbo\\"@);
    if contains(norm_lower(p), "\\runtime\\stalcraft\\"@) {
        lemma_contains_prefix(norm_lower(p), "\\runtime\\stalcraft\\"@, 18);
        assert("\\runtime\\stalcraft\\"@.take(18) =~= "\\runtime\\stalcraft"@);
    }
}

/// A `java.exe`/`javaw.exe` image (any case) whose normalized, lower-cased
/// path holds `\\stalcraft\\`, `\\runtime\\stalcraft`, `\\exbo\\` or
/// `\\steamapps\\common\\stalcraft` is game java and gets flags; a java image
/// holding none of them and lying under no launcher root is not game java.
pub proof fn lemma_java_folder_markers(p: Seq<char>, env: HostView)
    ensures
        ({
            let n = lower_text(file_name_or_empty(p));
            let l = norm_lower(p);
            (n == "java.exe"@ || n == "javaw.exe"@) && (contains(l, "\\stalcraft\\"@) || contains(
                l,
                "\\runtime\\stalcraft"@,
            ) || contains(l, "\\exbo\\"@) || contains(l, "\\steamapps\\common\\stalcraft"@))
                ==> is_game_java_of(p, env) && should_inject_of(p, env)
        }),
        ({
            let l = norm_lower(p);
            !contains(l, "\\stalcraft\\"@) && !contains(l, "\\runtime\\stalcraft"@) && !contains(
                l,
                "\\exbo\\"@,
            ) && !contains(l, "\\steamapps\\common\\stalcraft"@) && !under_launcher_root(p, env)
                ==> !is_game_java_of(p, env)
        }),
{
    reveal_strlit("\\stalcraft\\");
    reveal_strlit("\\runtime\\stalcraft");
    reveal_strlit("\\exbo\\");
    reveal_strlit("\\steamapps\\common\\stalcraft");
    lemma_lower_text_fixed("\\stalcraft\\"@);
    lemma_lower_text_fixed("\\runtime\\stalcraft"@);
    lemma_lower_text_fixed("\\exbo\\"@);
    lemma_lower_text_fixed("\\steamapps\\common\\stalcraft"@);
}

/// On an ASCII path a marker written in lower case is cut where it is first
/// found in the lower-cased path.
proof fn lemma_ascii_slice_dir(p: Seq<char>, m: Seq<char>)
    requires
        is_ascii_text(p),
        lower_text(m) == m,
    ensures
        slice_dir(p, m) == (match find(norm_lower(p), m) {
            Some(i) => Some(p.take(i + m.len())),
            None => None,
        }),
{
    let y = replace_char(p, '/', '\\');
    assert(is_ascii_text(y)) by {
        assert forall|i: int| 0 <= i < y.len() implies (#[trigger] y[i] as u32) < 128 by {
            assert(p[i] as u32 == p[i] as u32);
        }
    }
    assert(norm_lower(p).len() == p.len());
    lemma_find_from(norm_lower(p), m, 0);
}

/// On an ASCII path outside the EXBO folders, the layout comes from the
/// first of the Steam, EGS and VK Play markers found in the normalized,
/// lower-cased path: its kind, a root that ends where the marker ends in the
/// path, and `jvm_wrapper` under that root; with none of them the kind is
/// unknown and the root empty.
pub proof fn lemma_classify_ascii(p: Seq<char>, env: HostView)
    requires
        is_ascii_text(p),
        !(exbo_layout_of(env.appdata) is Some && (contains(
            norm_lower(p),
            lower_text(exbo_layout_of(env.appdata)->0.root),
        ) || contains(norm_lower(p), "\\roaming\\exbo\\"@))),
    ensures
        ({
            let l = norm_lower(p);
            let steam = "\\steamapps\\common\\stalcraft"@;
            let egs = "\\epic games\\stalcraft"@;
            let vk = "\\vkplay\\stalcraft"@;
            let r = classify_of(p, env);
            &&& contains(l, steam) ==> r == sliced_layout(
                LauncherKind::Steam,
                p.take(find(l, steam)->0 + steam.len()),
            )
            &&& !contains(l, steam) && contains(l, egs) ==> r == sliced_layout(
                LauncherKind::Egs,
                p.take(find(l, egs)->0 + egs.len()),
            )
            &&& !contains(l, steam) && !contains(l, egs) && contains(l, vk) ==> r == sliced_layout(
                LauncherKind::VkPlay,
                p.take(find(l, vk)->0 + vk.len()),
            )
            &&& !contains(l, steam) && !contains(l, egs) && !contains(l, vk) ==> r.kind
                == LauncherKind::Unknown && r.root.len() == 0
        }),
{
    reveal_strlit("\\steamapps\\common\\stalcraft");
    reveal_strlit("\\epic games\\stalcraft");
    reveal_strlit("\\vkplay\\stalcraft");
    lemma_lower_text_fixed("\\steamapps\\common\\stalcraft"@);
    lemma_lower_text_fixed("\\epic games\\stalcraft"@);
    lemma_lower_text_fixed("\\vkplay\\stalcraft"@);
    lemma_ascii_slice_dir(p, "\\steamapps\\common\\stalcraft"@);
    lemma_ascii_slice_dir(p, "\\epic games\\stalcraft"@);
    lemma_ascii_slice_dir(p, "\\vkplay\\stalcraft"@);
}

} // verus!
