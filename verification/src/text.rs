//! Character-sequence helpers shared by the rest of the library.
//!
//! Strings are modelled by their `Seq<char>` views; the executable helpers
//! work on `Vec<char>` / `&[char]` and convert at the edges.

use vstd::prelude::*;

verus! {

// ───────────────────────── specifications ─────────────────────────

/// `pat` occurs in `s` starting at character index `i`.
pub open spec fn matches_at(s: Seq<char>, pat: Seq<char>, i: int) -> bool {
    0 <= i && i + pat.len() <= s.len() && s.subrange(i, i + pat.len()) == pat
}

/// First occurrence of `pat` in `s` at an index `>= i`.
pub open spec fn find_from(s: Seq<char>, pat: Seq<char>, i: int) -> Option<int>
    decreases s.len() + 1 - i,
{
    if i < 0 || i + pat.len() > s.len() {
        None
    } else if matches_at(s, pat, i) {
        Some(i)
    } else {
        find_from(s, pat, i + 1)
    }
}

/// First occurrence of `pat` in `s` (as `str::find`, counted in characters).
pub open spec fn find(s: Seq<char>, pat: Seq<char>) -> Option<int> {
    find_from(s, pat, 0)
}

/// `s` contains `pat` as a contiguous run.
pub open spec fn contains(s: Seq<char>, pat: Seq<char>) -> bool {
    find(s, pat) is Some
}

pub open spec fn starts_with(s: Seq<char>, pat: Seq<char>) -> bool {
    matches_at(s, pat, 0)
}

pub open spec fn ends_with(s: Seq<char>, pat: Seq<char>) -> bool {
    matches_at(s, pat, s.len() - pat.len())
}

/// Every occurrence of `from` replaced by `to`.
pub open spec fn replace_char(s: Seq<char>, from: char, to: char) -> Seq<char> {
    s.map_values(|c: char| if c == from { to } else { c })
}

/// Unicode `White_Space` property (what `char::is_whitespace` tests).
pub open spec fn is_white_space(c: char) -> bool {
    let u = c as u32;
    (0x09 <= u && u <= 0x0D) || u == 0x20 || u == 0x85 || u == 0xA0 || u == 0x1680 || (0x2000
        <= u && u <= 0x200A) || u == 0x2028 || u == 0x2029 || u == 0x202F || u == 0x205F || u
        == 0x3000
}

/// Character class trimmed by [`trim_start`]/[`trim_end`]: white space, or
/// the double quote when `quote` is set.
pub open spec fn is_trimmed(c: char, quote: bool) -> bool {
    if quote {
        c == '"'
    } else {
        is_white_space(c)
    }
}

pub open spec fn trim_start(s: Seq<char>, quote: bool) -> Seq<char>
    decreases s.len(),
{
    if s.len() > 0 && is_trimmed(s[0], quote) {
        trim_start(s.drop_first(), quote)
    } else {
        s
    }
}

pub open spec fn trim_end(s: Seq<char>, quote: bool) -> Seq<char>
    decreases s.len(),
{
    if s.len() > 0 && is_trimmed(s.last(), quote) {
        trim_end(s.drop_last(), quote)
    } else {
        s
    }
}

/// `str::trim`: white space removed from both ends.
pub open spec fn trim(s: Seq<char>) -> Seq<char> {
    trim_end(trim_start(s, false), false)
}

/// `str::trim_matches('"')`: double quotes removed from both ends.
pub open spec fn trim_quotes(s: Seq<char>) -> Seq<char> {
    trim_end(trim_start(s, true), true)
}

/// Folding used by `eq_ignore_ascii_case`: ASCII upper case to lower case.
pub open spec fn ascii_fold(c: char) -> int {
    if 'A' <= c && c <= 'Z' {
        c as u32 + 32
    } else {
        c as u32 as int
    }
}

/// `str::eq_ignore_ascii_case`.
pub open spec fn eq_ignore_ascii_case(a: Seq<char>, b: Seq<char>) -> bool {
    a.len() == b.len() && forall|i: int| 0 <= i < a.len() ==> ascii_fold(a[i]) == ascii_fold(b[i])
}

pub open spec fn digit_char(d: nat) -> char {
    seq!['0', '1', '2', '3', '4', '5', '6', '7', '8', '9'][d as int]
}

/// Decimal digits of `n`, most significant first, no leading zeros.
pub open spec fn decimal(n: nat) -> Seq<char>
    decreases n,
{
    if n < 10 {
        seq![digit_char(n)]
    } else {
        decimal(n / 10).push(digit_char(n % 10))
    }
}

/// Decimal text of a signed number (`-` sign for negatives).
pub open spec fn signed_decimal(n: int) -> Seq<char> {
    if n < 0 {
        seq!['-'] + decimal((-n) as nat)
    } else {
        decimal(n as nat)
    }
}

pub open spec fn is_ascii_digit(c: char) -> bool {
    '0' <= c && c <= '9'
}

pub open spec fn all_digits(s: Seq<char>) -> bool {
    forall|i: int| 0 <= i < s.len() ==> is_ascii_digit(#[trigger] s[i])
}

/// Value of a run of decimal digits.
pub open spec fn digits_value(s: Seq<char>) -> nat
    decreases s.len(),
{
    if s.len() == 0 {
        0
    } else {
        digits_value(s.drop_last()) * 10 + (s.last() as u32 - '0' as u32) as nat
    }
}

/// `str::parse::<u32>`: an optional `+`, then at least one ASCII digit, and
/// a value that fits in 32 bits.
pub open spec fn parse_u32(s: Seq<char>) -> Option<u32> {
    let digits = if s.len() > 0 && s[0] == '+' {
        s.drop_first()
    } else {
        s
    };
    if digits.len() > 0 && all_digits(digits) && digits_value(digits) <= u32::MAX {
        Some(digits_value(digits) as u32)
    } else {
        None
    }
}

/// Pieces of `s` between occurrences of `sep` (as `str::split(sep)`):
/// a separator starts a new piece, any other character extends the last one.
pub open spec fn split_char(s: Seq<char>, sep: char) -> Seq<Seq<char>>
    decreases s.len(),
{
    if s.len() == 0 {
        seq![Seq::<char>::empty()]
    } else {
        let r = split_char(s.drop_last(), sep);
        if s.last() == sep {
            r.push(Seq::<char>::empty())
        } else {
            r.update(r.len() - 1, r.last().push(s.last()))
        }
    }
}

/// Every run of `c` shortened to a single `c`.
pub open spec fn collapse_runs(s: Seq<char>, c: char) -> Seq<char>
    decreases s.len(),
{
    if s.len() == 0 {
        s
    } else {
        let r = collapse_runs(s.drop_last(), c);
        if s.last() == c && r.len() > 0 && r.last() == c {
            r
        } else {
            r.push(s.last())
        }
    }
}

/// Pieces joined with `sep` between neighbours (as `[..].join(sep)`).
pub open spec fn join_sep(ls: Seq<Seq<char>>, sep: Seq<char>) -> Seq<char>
    decreases ls.len(),
{
    if ls.len() == 0 {
        Seq::empty()
    } else if ls.len() == 1 {
        ls[0]
    } else {
        join_sep(ls.drop_last(), sep) + sep + ls.last()
    }
}

/// Views of a vector of character vectors.
pub open spec fn views(v: Seq<Vec<char>>) -> Seq<Seq<char>> {
    v.map_values(|x: Vec<char>| x@)
}

/// Text form of an optional index.
pub open spec fn opt_int(o: Option<usize>) -> Option<int> {
    match o {
        Some(j) => Some(j as int),
        None => None,
    }
}

/// Result of `str::to_lowercase` on a text (Unicode lower case mapping).
pub uninterp spec fn lowercase(s: Seq<char>) -> Seq<char>;

/// Every character is ASCII.
pub open spec fn is_ascii_text(s: Seq<char>) -> bool {
    forall|i: int| 0 <= i < s.len() ==> (#[trigger] s[i] as u32) < 128
}

/// `A`..`Z` to `a`..`z`; any other character unchanged.
pub open spec fn ascii_lower_char(c: char) -> char {
    if 'A' <= c && c <= 'Z' {
        ((c as u32) + 32) as char
    } else {
        c
    }
}

/// `str::to_ascii_lowercase`.
pub open spec fn ascii_lower(s: Seq<char>) -> Seq<char> {
    s.map_values(|c: char| ascii_lower_char(c))
}

/// What `str::to_lowercase` gives: on ASCII text the ASCII mapping, on any
/// other text the Unicode mapping [`lowercase`].
pub open spec fn lower_text(s: Seq<char>) -> Seq<char> {
    if is_ascii_text(s) {
        ascii_lower(s)
    } else {
        lowercase(s)
    }
}

// ───────────────────────── lemmas ─────────────────────────

/// ASCII text without upper-case letters is its own lower case.
pub proof fn lemma_lower_text_fixed(s: Seq<char>)
    requires
        forall|i: int| 0 <= i < s.len() ==> (#[trigger] s[i] as u32) < 128 && !('A' <= s[i] && s[i] <= 'Z'),
    ensures
        lower_text(s) == s,
{
    assert(is_ascii_text(s));
    assert(ascii_lower(s) =~= s);
}

/// A text that holds `t` holds every prefix of `t`.
pub proof fn lemma_contains_prefix(s: Seq<char>, t: Seq<char>, n: int)
    requires
        contains(s, t),
        0 <= n <= t.len(),
    ensures
        contains(s, t.take(n)),
{
    lemma_find_from(s, t, 0);
    let j = find(s, t)->0;
    assert(s.subrange(j, j + t.len()) == t);
    assert(s.subrange(j, j + n) =~= t.take(n));
    assert(matches_at(s, t.take(n), j));
    lemma_find_from(s, t.take(n), 0);
}

/// Collapsing runs of `c` keeps a tail that holds no `c`.
pub proof fn lemma_collapse_keeps_tail(s: Seq<char>, c: char, n: int)
    requires
        0 <= n <= s.len(),
        forall|i: int| s.len() - n <= i < s.len() ==> #[trigger] s[i] != c,
    ensures
        collapse_runs(s, c).len() >= n,
        collapse_runs(s, c).skip(collapse_runs(s, c).len() - n) =~= s.skip(s.len() - n),
    decreases n,
{
    if n > 0 {
        let t = s.drop_last();
        assert forall|i: int| t.len() - (n - 1) <= i < t.len() implies #[trigger] t[i] != c by {
            assert(t[i] == s[i]);
        }
        lemma_collapse_keeps_tail(t, c, n - 1);
        let r = collapse_runs(t, c);
        assert(s.last() == s[s.len() - 1]);
        assert(collapse_runs(s, c) == r.push(s.last()));
        assert(r.push(s.last()).skip(r.len() + 1 - n) =~= r.skip(r.len() - (n - 1)).push(s.last()));
        assert(s.skip(s.len() - n) =~= t.skip(t.len() - (n - 1)).push(s.last()));
    }
}

/// Collapsing runs keeps a text ASCII.
pub proof fn lemma_collapse_ascii(s: Seq<char>, c: char)
    requires
        is_ascii_text(s),
    ensures
        is_ascii_text(collapse_runs(s, c)),
    decreases s.len(),
{
    if s.len() > 0 {
        let t = s.drop_last();
        assert forall|i: int| 0 <= i < t.len() implies (#[trigger] t[i] as u32) < 128 by {
            assert(t[i] == s[i]);
        }
        lemma_collapse_ascii(t, c);
        assert(s.last() == s[s.len() - 1]);
    }
}

/// What [`find_from`] returns: the first match at or after `i`.
pub proof fn lemma_find_from(s: Seq<char>, pat: Seq<char>, i: int)
    requires
        i >= 0,
    ensures
        match find_from(s, pat, i) {
            Some(j) => i <= j && matches_at(s, pat, j) && forall|k: int|
                i <= k < j ==> !matches_at(s, pat, k),
            None => forall|k: int| i <= k ==> !matches_at(s, pat, k),
        },
    decreases s.len() + 1 - i,
{
    if i + pat.len() > s.len() {
    } else if matches_at(s, pat, i) {
    } else {
        lemma_find_from(s, pat, i + 1);
    }
}

/// After [`trim_start`] the text is empty or starts with a kept character.
pub proof fn lemma_trim_start_front(s: Seq<char>, quote: bool)
    ensures
        trim_start(s, quote).len() == 0 || !is_trimmed(trim_start(s, quote)[0], quote),
        trim_start(s, quote).len() <= s.len(),
        trim_start(s, quote) == s.skip(s.len() - trim_start(s, quote).len()),
    decreases s.len(),
{
    if s.len() > 0 && is_trimmed(s[0], quote) {
        lemma_trim_start_front(s.drop_first(), quote);
        assert(s.drop_first().skip(s.drop_first().len() - trim_start(s, quote).len()) =~= s.skip(
            s.len() - trim_start(s, quote).len(),
        ));
    } else {
        assert(s.skip(0) =~= s);
    }
}

/// After [`trim_end`] the text is empty or ends with a kept character, and
/// it is a prefix of the input.
pub proof fn lemma_trim_end_back(s: Seq<char>, quote: bool)
    ensures
        trim_end(s, quote).len() == 0 || !is_trimmed(trim_end(s, quote).last(), quote),
        trim_end(s, quote).len() <= s.len(),
        trim_end(s, quote) == s.take(trim_end(s, quote).len() as int),
    decreases s.len(),
{
    if s.len() > 0 && is_trimmed(s.last(), quote) {
        lemma_trim_end_back(s.drop_last(), quote);
        assert(s.drop_last().take(trim_end(s, quote).len() as int) =~= s.take(
            trim_end(s, quote).len() as int,
        ));
    } else {
        assert(s.take(s.len() as int) =~= s);
    }
}

/// Trimming twice is trimming once.
pub proof fn lemma_trim_idempotent(s: Seq<char>)
    ensures
        trim(trim(s)) == trim(s),
{
    let a = trim_start(s, false);
    let b = trim_end(a, false);
    lemma_trim_start_front(s, false);
    lemma_trim_end_back(a, false);
    if b.len() > 0 {
        assert(b[0] == a[0]);
    }
    assert(trim_start(b, false) == b);
    assert(trim_end(b, false) == b);
}

// ───────────────────────── executable helpers ─────────────────────────

/// Copies the characters of `s` into a vector.
pub fn to_chars(s: &str) -> (v: Vec<char>)
    ensures
        v@ == s@,
{
    let mut v: Vec<char> = Vec::new();
    for c in it: s.chars()
        invariant
            v@ == it.seq().take(it.index() as int),
            it.seq() == s@,
    {
        v.push(c);
    }
    v
}

/// Calls `String::push`. Trusted, as std documents it: the text afterwards is
/// the text before with `c` appended.
#[verifier::external_body]
fn push_char(s: &mut String, c: char)
    ensures
        final(s)@ == old(s)@.push(c),
{
    s.push(c);
}

/// Calls `str::to_lowercase`. Trusted: on ASCII text the result maps `A`..`Z`
/// to `a`..`z` and keeps every other character (std documents that it
/// lower-cases ASCII letters as `to_ascii_lowercase` does, and the Unicode
/// mapping sends every other ASCII character to itself); on other text it is
/// [`lowercase`] of the text, a name for the Unicode lower-case mapping that
/// depends on the text alone, of which nothing more is claimed.
#[verifier::external_body]
pub(crate) fn to_lowercase(s: &str) -> (r: String)
    ensures
        is_ascii_text(s@) ==> r@ == ascii_lower(s@),
        !is_ascii_text(s@) ==> r@ == lowercase(s@),
{
    s.to_lowercase()
}

/// Builds a `String` holding exactly the characters of `v`.
pub fn from_chars(v: &[char]) -> (s: String)
    ensures
        s@ == v@,
{
    let mut s = String::new();
    let mut i: usize = 0;
    while i < v.len()
        invariant
            i <= v@.len(),
            s@ == v@.take(i as int),
        decreases v@.len() - i,
    {
        push_char(&mut s, v[i]);
        assert(v@.take(i as int).push(v@[i as int]) =~= v@.take(i + 1));
        i = i + 1;
    }
    assert(v@.take(v@.len() as int) =~= v@);
    s
}

/// Lower-cased characters of `s`.
pub fn lower_chars(s: &str) -> (v: Vec<char>)
    ensures
        v@ == lower_text(s@),
{
    let l = to_lowercase(s);
    to_chars(l.as_str())
}

/// Characters `v[from..to]`.
pub fn sub_chars(v: &[char], from: usize, to: usize) -> (r: Vec<char>)
    requires
        from <= to <= v@.len(),
    ensures
        r@ == v@.subrange(from as int, to as int),
{
    let mut r: Vec<char> = Vec::new();
    let mut i = from;
    while i < to
        invariant
            from <= i <= to <= v@.len(),
            r@ == v@.subrange(from as int, i as int),
        decreases to - i,
    {
        r.push(v[i]);
        assert(v@.subrange(from as int, i as int).push(v@[i as int]) =~= v@.subrange(
            from as int,
            i + 1,
        ));
        i = i + 1;
    }
    r
}

/// `a ++ b`.
pub fn concat_chars(a: &[char], b: &[char]) -> (r: Vec<char>)
    ensures
        r@ == a@ + b@,
{
    let mut r: Vec<char> = Vec::new();
    let mut i: usize = 0;
    while i < a.len()
        invariant
            i <= a@.len(),
            r@ == a@.take(i as int),
        decreases a@.len() - i,
    {
        r.push(a[i]);
        assert(a@.take(i as int).push(a@[i as int]) =~= a@.take(i + 1));
        i = i + 1;
    }
    let mut j: usize = 0;
    while j < b.len()
        invariant
            j <= b@.len(),
            i == a@.len(),
            r@ == a@ + b@.take(j as int),
        decreases b@.len() - j,
    {
        r.push(b[j]);
        assert((a@ + b@.take(j as int)).push(b@[j as int]) =~= a@ + b@.take(j + 1));
        j = j + 1;
    }
    assert(a@.take(a@.len() as int) =~= a@);
    assert(b@.take(b@.len() as int) =~= b@);
    r
}

/// Appends `b` to `a` in place.
pub fn append_chars(a: &mut Vec<char>, b: &[char])
    ensures
        final(a)@ == old(a)@ + b@,
{
    let mut j: usize = 0;
    while j < b.len()
        invariant
            j <= b@.len(),
            a@ == old(a)@ + b@.take(j as int),
        decreases b@.len() - j,
    {
        a.push(b[j]);
        assert((old(a)@ + b@.take(j as int)).push(b@[j as int]) =~= old(a)@ + b@.take(j + 1));
        j = j + 1;
    }
    assert(b@.take(b@.len() as int) =~= b@);
}

/// Appends one more piece to a text built by [`join_sep`]; `first` tells
/// whether nothing was joined yet.
pub fn append_piece(
    out: &mut Vec<char>,
    Ghost(done): Ghost<Seq<Seq<char>>>,
    first: bool,
    sep: &[char],
    piece: &[char],
)
    requires
        old(out)@ == join_sep(done, sep@),
        first == (done.len() == 0),
    ensures
        final(out)@ == join_sep(done.push(piece@), sep@),
{
    let ghost all = done.push(piece@);
    assert(all.drop_last() =~= done);
    if !first {
        append_chars(out, sep);
    }
    append_chars(out, piece);
    if first {
        assert(out@ =~= all[0]);
    }
}

/// Shortens every run of `c` to a single `c`.
pub fn collapse_chars(s: &[char], c: char) -> (r: Vec<char>)
    ensures
        r@ == collapse_runs(s@, c),
{
    let mut out: Vec<char> = Vec::new();
    let mut i: usize = 0;
    while i < s.len()
        invariant
            i <= s@.len(),
            out@ == collapse_runs(s@.take(i as int), c),
        decreases s@.len() - i,
    {
        let x = s[i];
        assert(s@.take(i + 1).drop_last() =~= s@.take(i as int));
        if x == c && out.len() > 0 && out[out.len() - 1] == c {
        } else {
            out.push(x);
        }
        i = i + 1;
    }
    assert(s@.take(s@.len() as int) =~= s@);
    out
}

/// Character-wise equality.
pub fn chars_eq(a: &[char], b: &[char]) -> (r: bool)
    ensures
        r == (a@ == b@),
{
    if a.len() != b.len() {
        return false;
    }
    let mut i: usize = 0;
    while i < a.len()
        invariant
            i <= a@.len() == b@.len(),
            forall|k: int| 0 <= k < i ==> a@[k] == b@[k],
        decreases a@.len() - i,
    {
        if a[i] != b[i] {
            return false;
        }
        i = i + 1;
    }
    assert(a@ =~= b@);
    true
}

/// Text equality of two string slices.
pub fn str_eq(a: &str, b: &str) -> (r: bool)
    ensures
        r == (a@ == b@),
{
    let x = to_chars(a);
    let y = to_chars(b);
    chars_eq(x.as_slice(), y.as_slice())
}

/// Does `pat` occur in `s` at index `i`?
pub fn match_at(s: &[char], pat: &[char], i: usize) -> (r: bool)
    ensures
        r == matches_at(s@, pat@, i as int),
{
    let n = s.len();
    if i > n || pat.len() > n - i {
        return false;
    }
    let mut j: usize = 0;
    while j < pat.len()
        invariant
            n == s@.len(),
            i + pat@.len() <= s@.len(),
            j <= pat@.len(),
            forall|k: int| 0 <= k < j ==> s@[i + k] == pat@[k],
        decreases pat@.len() - j,
    {
        assert(i + j < s@.len());
        if s[i + j] != pat[j] {
            assert(s@.subrange(i as int, i + pat@.len())[j as int] != pat@[j as int]);
            return false;
        }
        j = j + 1;
    }
    assert(s@.subrange(i as int, i + pat@.len()) =~= pat@);
    true
}

/// `str::find`: index of the first occurrence of `pat` in `s`.
pub fn find_chars(s: &[char], pat: &[char]) -> (r: Option<usize>)
    ensures
        opt_int(r) == find(s@, pat@),
{
    if pat.len() > s.len() {
        return None;
    }
    if pat.len() == 0 {
        assert(s@.subrange(0, 0) =~= pat@);
        return Some(0);
    }
    let n = s.len();
    let last = n - pat.len();
    let mut i: usize = 0;
    while i <= last
        invariant
            n == s@.len(),
            pat@.len() > 0,
            last + pat@.len() == s@.len(),
            i <= last + 1,
            find_from(s@, pat@, 0) == find_from(s@, pat@, i as int),
        decreases last + 1 - i,
    {
        if match_at(s, pat, i) {
            return Some(i);
        }
        i = i + 1;
    }
    None
}

/// `str::contains`.
pub fn contains_chars(s: &[char], pat: &[char]) -> (r: bool)
    ensures
        r == contains(s@, pat@),
{
    find_chars(s, pat).is_some()
}

/// `str::starts_with`.
pub fn starts_with_chars(s: &[char], pat: &[char]) -> (r: bool)
    ensures
        r == starts_with(s@, pat@),
{
    match_at(s, pat, 0)
}

/// `str::ends_with`.
pub fn ends_with_chars(s: &[char], pat: &[char]) -> (r: bool)
    ensures
        r == ends_with(s@, pat@),
{
    if pat.len() > s.len() {
        return false;
    }
    match_at(s, pat, s.len() - pat.len())
}

/// `str::replace(from, to)` for single characters.
pub fn replace_chars(s: &[char], from: char, to: char) -> (r: Vec<char>)
    ensures
        r@ == replace_char(s@, from, to),
{
    let mut r: Vec<char> = Vec::new();
    let mut i: usize = 0;
    while i < s.len()
        invariant
            i <= s@.len(),
            r@ == replace_char(s@.take(i as int), from, to),
        decreases s@.len() - i,
    {
        let c = s[i];
        r.push(if c == from { to } else { c });
        assert(replace_char(s@.take(i as int), from, to).push(if c == from { to } else { c })
            =~= replace_char(s@.take(i + 1), from, to));
        i = i + 1;
    }
    assert(s@.take(s@.len() as int) =~= s@);
    r
}

/// Is `c` trimmed by the class selected with `quote`?
pub fn trimmed_char(c: char, quote: bool) -> (r: bool)
    ensures
        r == is_trimmed(c, quote),
{
    if quote {
        c == '"'
    } else {
        let u = c as u32;
        (0x09 <= u && u <= 0x0D) || u == 0x20 || u == 0x85 || u == 0xA0 || u == 0x1680 || (0x2000
            <= u && u <= 0x200A) || u == 0x2028 || u == 0x2029 || u == 0x202F || u == 0x205F
            || u == 0x3000
    }
}

/// Removes the selected class from both ends of `s`.
pub fn trim_chars(s: &[char], quote: bool) -> (r: Vec<char>)
    ensures
        r@ == trim_end(trim_start(s@, quote), quote),
{
    let mut a: usize = 0;
    assert(s@.skip(0) =~= s@);
    while a < s.len() && trimmed_char(s[a], quote)
        invariant
            a <= s@.len(),
            trim_start(s@, quote) == trim_start(s@.skip(a as int), quote),
        decreases s@.len() - a,
    {
        assert(s@.skip(a as int).drop_first() =~= s@.skip(a + 1));
        a = a + 1;
    }
    let ghost mid = s@.skip(a as int);
    assert(trim_start(s@, quote) == mid);
    let mut b: usize = s.len();
    while b > a && trimmed_char(s[b - 1], quote)
        invariant
            a <= b <= s@.len(),
            mid == s@.skip(a as int),
            trim_end(mid, quote) == trim_end(s@.subrange(a as int, b as int), quote),
        decreases b - a,
    {
        assert(s@.subrange(a as int, b as int).drop_last() =~= s@.subrange(a as int, b - 1));
        b = b - 1;
    }
    assert(s@.subrange(a as int, s@.len() as int) =~= mid);
    sub_chars(s, a, b)
}

/// ASCII case-insensitive equality.
pub fn eq_ignore_ascii_case_chars(a: &[char], b: &[char]) -> (r: bool)
    ensures
        r == eq_ignore_ascii_case(a@, b@),
{
    if a.len() != b.len() {
        return false;
    }
    let mut i: usize = 0;
    while i < a.len()
        invariant
            i <= a@.len() == b@.len(),
            forall|k: int| 0 <= k < i ==> ascii_fold(a@[k]) == ascii_fold(b@[k]),
        decreases a@.len() - i,
    {
        let x = a[i];
        let y = b[i];
        let fx = if 'A' <= x && x <= 'Z' { x as u32 + 32 } else { x as u32 };
        let fy = if 'A' <= y && y <= 'Z' { y as u32 + 32 } else { y as u32 };
        if fx != fy {
            return false;
        }
        i = i + 1;
    }
    true
}

/// The character for a decimal digit.
pub fn digit(d: u64) -> (c: char)
    requires
        d < 10,
    ensures
        c == digit_char(d as nat),
{
    if d == 0 {
        '0'
    } else if d == 1 {
        '1'
    } else if d == 2 {
        '2'
    } else if d == 3 {
        '3'
    } else if d == 4 {
        '4'
    } else if d == 5 {
        '5'
    } else if d == 6 {
        '6'
    } else if d == 7 {
        '7'
    } else if d == 8 {
        '8'
    } else {
        '9'
    }
}

/// Decimal digits of `n`.
pub fn decimal_chars(n: u64) -> (r: Vec<char>)
    ensures
        r@ == decimal(n as nat),
    decreases n,
{
    if n < 10 {
        let mut r: Vec<char> = Vec::new();
        r.push(digit(n));
        assert(r@ =~= seq![digit_char(n as nat)]);
        r
    } else {
        let mut r = decimal_chars(n / 10);
        r.push(digit(n % 10));
        r
    }
}

/// Decimal text of a signed number.
pub fn signed_decimal_chars(n: i64) -> (r: Vec<char>)
    ensures
        r@ == signed_decimal(n as int),
{
    if n < 0 {
        let m: u64 = (-(n as i128)) as u64;
        let d = decimal_chars(m);
        let mut r: Vec<char> = Vec::new();
        r.push('-');
        append_chars(&mut r, d.as_slice());
        assert(r@ =~= seq!['-'] + decimal(m as nat));
        r
    } else {
        decimal_chars(n as u64)
    }
}

/// `str::parse::<u32>`.
pub fn parse_u32_chars(s: &[char]) -> (r: Option<u32>)
    ensures
        r == parse_u32(s@),
{
    let start: usize = if s.len() > 0 && s[0] == '+' { 1 } else { 0 };
    let ghost digits = if s@.len() > 0 && s@[0] == '+' { s@.drop_first() } else { s@ };
    assert(digits =~= s@.skip(start as int));
    if start >= s.len() {
        assert(digits.len() == 0);
        return None;
    }
    let mut v: u64 = 0;
    let mut i: usize = start;
    while i < s.len()
        invariant
            start <= i <= s@.len(),
            digits == s@.skip(start as int),
            digits == (if s@.len() > 0 && s@[0] == '+' { s@.drop_first() } else { s@ }),
            all_digits(digits.take(i - start)),
            v == digits_value(digits.take(i - start)),
            v <= u32::MAX,
        decreases s@.len() - i,
    {
        let c = s[i];
        let ghost n = i - start;
        assert(digits[n] == c);
        assert(digits.take(n + 1).drop_last() =~= digits.take(n));
        if !('0' <= c && c <= '9') {
            assert(!all_digits(digits));
            return None;
        }
        let d = (c as u32 - '0' as u32) as u64;
        assert(all_digits(digits.take(n + 1)));
        assert(digits_value(digits.take(n + 1)) == v * 10 + d);
        if v > (u32::MAX as u64 - d) / 10 {
            assert(v * 10 + d > u32::MAX) by (nonlinear_arith)
                requires
                    v > (u32::MAX as u64 - d) / 10,
                    d < 10,
            ;
            proof {
                lemma_digits_value_grows(digits, n + 1);
            }
            return None;
        }
        assert(v * 10 + d <= u32::MAX) by (nonlinear_arith)
            requires
                v <= (u32::MAX as u64 - d) / 10,
                d < 10,
        ;
        v = v * 10 + d;
        i = i + 1;
    }
    assert(digits.take(digits.len() as int) =~= digits);
    Some(v as u32)
}

/// A digit run's value never shrinks when digits are appended.
pub proof fn lemma_digits_value_grows(s: Seq<char>, n: int)
    requires
        0 <= n <= s.len(),
        all_digits(s.take(n)),
    ensures
        digits_value(s.take(n)) <= digits_value(s) || !all_digits(s),
    decreases s.len() - n,
{
    if n < s.len() && all_digits(s) {
        let t = s.take(n + 1);
        assert(t.drop_last() =~= s.take(n));
        assert(all_digits(t));
        lemma_digits_value_grows(s, n + 1);
    } else if n == s.len() {
        assert(s.take(n) =~= s);
    }
}

/// `str::split(sep)` for a single character separator.
pub fn split_chars(s: &[char], sep: char) -> (r: Vec<Vec<char>>)
    ensures
        views(r@) == split_char(s@, sep),
{
    let mut parts: Vec<Vec<char>> = Vec::new();
    let mut cur: Vec<char> = Vec::new();
    let mut i: usize = 0;
    while i < s.len()
        invariant
            i <= s@.len(),
            views(parts@).push(cur@) == split_char(s@.take(i as int), sep),
        decreases s@.len() - i,
    {
        let c = s[i];
        let ghost before = views(parts@).push(cur@);
        assert(s@.take(i + 1).drop_last() =~= s@.take(i as int));
        if c == sep {
            let done = cur;
            parts.push(done);
            cur = Vec::new();
            assert(views(parts@).push(cur@) =~= before.push(Seq::<char>::empty()));
        } else {
            cur.push(c);
            assert(views(parts@).push(cur@) =~= before.update(
                before.len() - 1,
                before.last().push(c),
            ));
        }
        i = i + 1;
    }
    assert(s@.take(s@.len() as int) =~= s@);
    let ghost before = views(parts@).push(cur@);
    parts.push(cur);
    assert(views(parts@) =~= before);
    parts
}

} // verus!
