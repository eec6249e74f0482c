//! Text held in registry values: `REG_SZ` data is little-endian UTF-16,
//! usually NUL-terminated. Opening keys and querying values is the host's
//! part; here the returned bytes are turned into text.

use vstd::prelude::*;

use crate::text::{from_chars, to_chars, trim, trim_chars};

verus! {

/// Character encoded by a surrogate pair.
pub open spec fn pair_char(hi: u16, lo: u16) -> char {
    (0x10000 + (hi - 0xD800) * 0x400 + (lo - 0xDC00)) as char
}

pub open spec fn is_surrogate(u: u16) -> bool {
    0xD800 <= u && u <= 0xDFFF
}

/// A high surrogate followed by a low one starts `u`.
pub open spec fn starts_with_pair(u: Seq<u16>) -> bool {
    u.len() >= 2 && 0xD800 <= u[0] && u[0] <= 0xDBFF && 0xDC00 <= u[1] && u[1] <= 0xDFFF
}

/// UTF-16 decoding: `None` when an unpaired surrogate occurs.
pub open spec fn utf16_decode(u: Seq<u16>) -> Option<Seq<char>>
    decreases u.len(),
{
    if u.len() == 0 {
        Some(Seq::<char>::empty())
    } else if !is_surrogate(u[0]) {
        match utf16_decode(u.drop_first()) {
            Some(t) => Some(seq![u[0] as char] + t),
            None => None,
        }
    } else if starts_with_pair(u) {
        match utf16_decode(u.skip(2)) {
            Some(t) => Some(seq![pair_char(u[0], u[1])] + t),
            None => None,
        }
    } else {
        None
    }
}

/// UTF-16 decoding where every unpaired surrogate becomes U+FFFD.
pub open spec fn utf16_decode_lossy(u: Seq<u16>) -> Seq<char>
    decreases u.len(),
{
    if u.len() == 0 {
        Seq::<char>::empty()
    } else if !is_surrogate(u[0]) {
        seq![u[0] as char] + utf16_decode_lossy(u.drop_first())
    } else if starts_with_pair(u) {
        seq![pair_char(u[0], u[1])] + utf16_decode_lossy(u.skip(2))
    } else {
        seq!['\u{FFFD}'] + utf16_decode_lossy(u.drop_first())
    }
}

/// Calls `String::from_utf16`. Trusted, as std documents it: the UTF-16
/// decoding of the units ([`utf16_decode`]) when it succeeds, `None` (from
/// the `Err`) exactly when an unpaired surrogate occurs.
#[verifier::external_body]
fn from_utf16(units: &[u16]) -> (r: Option<String>)
    ensures
        match r {
            Some(s) => utf16_decode(units@) == Some(s@),
            None => utf16_decode(units@) is None,
        },
{
    String::from_utf16(units).ok()
}

/// Calls `String::from_utf16_lossy`. Trusted, as std documents it: the
/// UTF-16 decoding with U+FFFD in place of every unpaired surrogate
/// ([`utf16_decode_lossy`]).
#[verifier::external_body]
fn from_utf16_lossy(units: &[u16]) -> (r: String)
    ensures
        r@ == utf16_decode_lossy(units@),
{
    String::from_utf16_lossy(units)
}

/// Little-endian 16-bit units of a byte string (a trailing odd byte is
/// ignored).
pub open spec fn le_units(b: Seq<u8>) -> Seq<u16> {
    Seq::new(b.len() / 2, |i: int| (b[2 * i] + 256 * b[2 * i + 1]) as u16)
}

/// Index of the first NUL unit at or after `i`, or the length.
pub open spec fn nul_from(u: Seq<u16>, i: int) -> int
    decreases u.len() - i,
{
    if i >= u.len() {
        u.len() as int
    } else if u[i] == 0 {
        i
    } else {
        nul_from(u, i + 1)
    }
}

/// The units before the first NUL.
pub open spec fn until_nul(u: Seq<u16>) -> Seq<u16> {
    u.take(nul_from(u, 0))
}

/// Text of `REG_SZ` data: decoded up to the first NUL; empty or undecodable
/// text gives `None`.
pub open spec fn reg_sz_of(data: Seq<u8>) -> Option<Seq<char>> {
    match utf16_decode(until_nul(le_units(data))) {
        Some(s) => if s.len() > 0 {
            Some(s)
        } else {
            None
        },
        None => None,
    }
}

/// Like [`reg_sz_of`], with surrounding white space removed first.
pub open spec fn reg_string_of(data: Seq<u8>) -> Option<Seq<char>> {
    match utf16_decode(until_nul(le_units(data))) {
        Some(s) => if trim(s).len() > 0 {
            Some(trim(s))
        } else {
            None
        },
        None => None,
    }
}

proof fn lemma_nul_from_bounds(u: Seq<u16>, i: int)
    requires
        0 <= i <= u.len(),
    ensures
        i <= nul_from(u, i) <= u.len(),
    decreases u.len() - i,
{
    if i < u.len() && u[i] != 0 {
        lemma_nul_from_bounds(u, i + 1);
    }
}

fn units_of(data: &[u8]) -> (r: Vec<u16>)
    ensures
        r@ == le_units(data@),
{
    let len = data.len();
    let n = len / 2;
    let mut r: Vec<u16> = Vec::new();
    let mut i: usize = 0;
    while i < n
        invariant
            len == data@.len(),
            n == data@.len() / 2,
            i <= n,
            r@ == le_units(data@).take(i as int),
        decreases n - i,
    {
        assert(2 * i + 1 < len) by (nonlinear_arith)
            requires
                i < n,
                n == len / 2,
        ;
        let lo = data[2 * i] as u16;
        let hi = data[2 * i + 1] as u16;
        let u: u16 = lo + 256 * hi;
        r.push(u);
        assert(r@ =~= le_units(data@).take(i + 1));
        i = i + 1;
    }
    assert(r@ =~= le_units(data@));
    r
}

/// Position of the first NUL unit, or the length.
fn nul_end(u: &[u16]) -> (r: usize)
    ensures
        r == nul_from(u@, 0),
{
    let mut i: usize = 0;
    while i < u.len() && u[i] != 0
        invariant
            i <= u@.len(),
            nul_from(u@, 0) == nul_from(u@, i as int),
        decreases u@.len() - i,
    {
        i = i + 1;
    }
    i
}

fn decode_until_nul(data: &[u8]) -> (r: Option<String>)
    ensures
        match r {
            Some(s) => utf16_decode(until_nul(le_units(data@))) == Some(s@),
            None => utf16_decode(until_nul(le_units(data@))) is None,
        },
{
    let u = units_of(data);
    let end = nul_end(u.as_slice());
    proof {
        lemma_nul_from_bounds(u@, 0);
    }
    let mut t: Vec<u16> = Vec::new();
    let mut i: usize = 0;
    while i < end
        invariant
            end <= u@.len(),
            i <= end,
            t@ == u@.take(i as int),
        decreases end - i,
    {
        t.push(u[i]);
        assert(t@ =~= u@.take(i + 1));
        i = i + 1;
    }
    from_utf16(t.as_slice())
}

/// Text of `REG_SZ` value data (the bytes the query returned).
pub fn reg_sz_text(data: &[u8]) -> (r: Option<String>)
    ensures
        r.deep_view() == reg_sz_of(data@),
{
    match decode_until_nul(data) {
        Some(s) => {
            if to_chars(s.as_str()).len() > 0 {
                Some(s)
            } else {
                None
            }
        },
        None => None,
    }
}

/// Trimmed text of `REG_SZ` value data; blank text gives `None`.
pub fn reg_string_text(data: &[u8]) -> (r: Option<String>)
    ensures
        r.deep_view() == reg_string_of(data@),
{
    match decode_until_nul(data) {
        Some(s) => {
            let c = to_chars(s.as_str());
            let t = trim_chars(c.as_slice(), false);
            if t.len() > 0 {
                Some(from_chars(t.as_slice()))
            } else {
                None
            }
        },
        None => None,
    }
}

/// Name of an enumerated subkey: the units before the first NUL of the name
/// buffer (or the `reported` count when there is none), decoded lossily;
/// an empty name gives `None`.
pub open spec fn subkey_name_of(units: Seq<u16>, reported: int) -> Option<Seq<char>> {
    let end = if nul_from(units, 0) < units.len() {
        nul_from(units, 0)
    } else {
        reported
    };
    let s = utf16_decode_lossy(units.take(end));
    if s.len() > 0 {
        Some(s)
    } else {
        None
    }
}

pub fn subkey_name(units: &[u16], reported: usize) -> (r: Option<String>)
    requires
        reported <= units@.len(),
    ensures
        r.deep_view() == subkey_name_of(units@, reported as int),
{
    let n = nul_end(units);
    proof {
        lemma_nul_from_bounds(units@, 0);
    }
    let end = if n < units.len() {
        n
    } else {
        reported
    };
    let mut t: Vec<u16> = Vec::new();
    let mut i: usize = 0;
    while i < end
        invariant
            end <= units@.len(),
            i <= end,
            t@ == units@.take(i as int),
        decreases end - i,
    {
        t.push(units[i]);
        assert(t@ =~= units@.take(i + 1));
        i = i + 1;
    }
    let s = from_utf16_lossy(t.as_slice());
    if to_chars(s.as_str()).len() > 0 {
        Some(s)
    } else {
        None
    }
}

// ───────────────────────── writing REG_SZ data ─────────────────────────

/// UTF-16 units of one character: one unit below U+10000, else a
/// surrogate pair.
pub open spec fn char_units(c: char) -> Seq<u16> {
    let v = c as u32;
    if v < 0x10000 {
        seq![v as u16]
    } else {
        seq![(0xD800 + (v - 0x10000) / 0x400) as u16, (0xDC00 + (v - 0x10000) % 0x400) as u16]
    }
}

/// UTF-16 encoding of a text.
pub open spec fn utf16_encode(s: Seq<char>) -> Seq<u16>
    decreases s.len(),
{
    if s.len() == 0 {
        Seq::empty()
    } else {
        char_units(s[0]) + utf16_encode(s.drop_first())
    }
}

/// Little-endian bytes of 16-bit units.
pub open spec fn le_bytes(u: Seq<u16>) -> Seq<u8> {
    Seq::new(
        2 * u.len(),
        |i: int|
            if i % 2 == 0 {
                (u[i / 2] % 256) as u8
            } else {
                (u[i / 2] / 256) as u8
            },
    )
}

/// `REG_SZ` data of a text: its UTF-16 units and a NUL, little-endian.
pub open spec fn reg_sz_data_of(s: Seq<char>) -> Seq<u8> {
    le_bytes(utf16_encode(s).push(0))
}

fn push_le(out: &mut Vec<u8>, u: u16)
    ensures
        final(out)@ == old(out)@ + le_bytes(seq![u]),
{
    out.push((u % 256) as u8);
    out.push((u / 256) as u8);
    assert(final(out)@ =~= old(out)@ + le_bytes(seq![u]));
}

proof fn lemma_le_bytes_append(a: Seq<u16>, b: Seq<u16>)
    ensures
        le_bytes(a + b) == le_bytes(a) + le_bytes(b),
{
    assert forall|i: int| 0 <= i < 2 * (a.len() + b.len()) implies #[trigger] le_bytes(a + b)[i]
        == (le_bytes(a) + le_bytes(b))[i] by {
        if i < 2 * a.len() {
            assert(i / 2 < a.len()) by (nonlinear_arith)
                requires
                    0 <= i < 2 * a.len(),
            ;
        } else {
            let j = i - 2 * a.len();
            assert(j / 2 == i / 2 - a.len() && j % 2 == i % 2) by (nonlinear_arith)
                requires
                    j == i - 2 * a.len(),
                    j >= 0,
            ;
        }
    }
    assert(le_bytes(a + b) =~= le_bytes(a) + le_bytes(b));
}

fn char_units_exec(c: char, out: &mut Vec<u16>)
    ensures
        final(out)@ == old(out)@ + char_units(c),
{
    let v = c as u32;
    if v < 0x10000 {
        out.push(v as u16);
        assert(final(out)@ =~= old(out)@ + char_units(c));
    } else {
        proof {
            vstd::utf8::char_is_scalar(c);
        }
        let w = v - 0x10000;
        assert(w / 0x400 < 0x400);
        out.push((0xD800 + w / 0x400) as u16);
        out.push((0xDC00 + w % 0x400) as u16);
        assert(final(out)@ =~= old(out)@ + char_units(c));
    }
}

/// `REG_SZ` data for `s`: UTF-16LE with a terminating NUL.
pub fn reg_sz_data(s: &str) -> (r: Vec<u8>)
    ensures
        r@ == reg_sz_data_of(s@),
{
    let chars = crate::text::to_chars(s);
    let mut units: Vec<u16> = Vec::new();
    let mut i: usize = 0;
    assert(s@.skip(0) =~= s@);
    while i < chars.len()
        invariant
            i <= chars@.len(),
            chars@ == s@,
            utf16_encode(s@) == units@ + utf16_encode(s@.skip(i as int)),
        decreases chars@.len() - i,
    {
        let ghost rest = s@.skip(i as int);
        assert(rest.drop_first() =~= s@.skip(i + 1));
        assert(rest[0] == chars@[i as int]);
        char_units_exec(chars[i], &mut units);
        i = i + 1;
    }
    assert(s@.skip(s@.len() as int) =~= Seq::<char>::empty());
    assert(units@ =~= utf16_encode(s@));
    units.push(0);
    let mut out: Vec<u8> = Vec::new();
    let mut k: usize = 0;
    while k < units.len()
        invariant
            k <= units@.len(),
            out@ == le_bytes(units@.take(k as int)),
        decreases units@.len() - k,
    {
        let ghost before = out@;
        push_le(&mut out, units[k]);
        proof {
            lemma_le_bytes_append(units@.take(k as int), seq![units@[k as int]]);
            assert(units@.take(k as int) + seq![units@[k as int]] =~= units@.take(k + 1));
        }
        k = k + 1;
    }
    assert(units@.take(units@.len() as int) =~= units@);
    out
}

// ───────────────────────── read-back law ─────────────────────────

proof fn lemma_le_roundtrip(u: Seq<u16>)
    ensures
        le_units(le_bytes(u)) == u,
{
    let b = le_bytes(u);
    assert(b.len() / 2 == u.len());
    assert forall|i: int| 0 <= i < u.len() implies #[trigger] le_units(b)[i] == u[i] by {
        assert((2 * i) / 2 == i && (2 * i) % 2 == 0 && (2 * i + 1) / 2 == i && (2 * i + 1) % 2 == 1)
            by (nonlinear_arith);
        let x = u[i] as int;
        assert(x % 256 + 256 * (x / 256) == x) by (nonlinear_arith);
        assert(x / 256 < 256) by (nonlinear_arith)
            requires
                0 <= x < 65536,
        ;
    }
    assert(le_units(b) =~= u);
}

proof fn lemma_decode_encode(s: Seq<char>)
    ensures
        utf16_decode(utf16_encode(s)) == Some(s),
        forall|i: int|
            0 <= i < utf16_encode(s).len() ==> (#[trigger] utf16_encode(s)[i] == 0 ==> s.contains(
                '\0',
            )),
    decreases s.len(),
{
    if s.len() > 0 {
        let c = s[0];
        let rest = s.drop_first();
        lemma_decode_encode(rest);
        let u = utf16_encode(s);
        let cu = char_units(c);
        assert(u == cu + utf16_encode(rest));
        let v = c as u32;
        vstd::utf8::char_is_scalar(c);
        vstd::utf8::char_u32_cast(c, v);
        if v < 0x10000 {
            assert(u.drop_first() =~= utf16_encode(rest));
            assert(!is_surrogate(u[0]));
            assert((u[0] as char) == c);
            assert(seq![c] + rest =~= s);
        } else {
            let w = v - 0x10000;
            assert(w / 0x400 < 0x400 && w % 0x400 < 0x400 && 0x10000 + (w / 0x400) * 0x400 + w
                % 0x400 == v) by (nonlinear_arith)
                requires
                    0 <= w <= 0xFFFFF,
                    w == v - 0x10000,
            ;
            assert(starts_with_pair(u));
            assert(u.skip(2) =~= utf16_encode(rest));
            assert(pair_char(u[0], u[1]) == c);
            assert(seq![c] + rest =~= s);
        }
        assert forall|i: int| 0 <= i < u.len() && #[trigger] u[i] == 0 implies s.contains('\0') by {
            {
                if i < cu.len() {
                    assert(v == 0);
                    assert(c == '\0');
                    assert(s[0] == '\0');
                } else {
                    assert(utf16_encode(rest)[i - cu.len()] == 0);
                    let k = choose|k: int| 0 <= k < rest.len() && rest[k] == '\0';
                    assert(s[k + 1] == '\0');
                }
            }
        }
    } else {
        assert(utf16_encode(s) =~= Seq::<u16>::empty());
    }
}

proof fn lemma_nul_from_skips_nonzero(u: Seq<u16>, i: int, n: int)
    requires
        0 <= i <= n < u.len(),
        u[n] == 0,
        forall|k: int| i <= k < n ==> u[k] != 0,
    ensures
        nul_from(u, i) == n,
    decreases n - i,
{
    if i < n {
        lemma_nul_from_skips_nonzero(u, i + 1, n);
    }
}

/// A non-empty text without NUL written as `REG_SZ` data reads back as
/// itself: what [`reg_sz_data`] writes, [`reg_sz_text`] returns.
pub proof fn lemma_reg_sz_roundtrip(s: Seq<char>)
    requires
        s.len() > 0,
        !s.contains('\0'),
    ensures
        reg_sz_of(reg_sz_data_of(s)) == Some(s),
{
    let e = utf16_encode(s);
    let u = e.push(0);
    lemma_le_roundtrip(u);
    lemma_decode_encode(s);
    assert forall|k: int| 0 <= k < e.len() implies u[k] != 0 by {
        assert(u[k] == e[k]);
    }
    lemma_nul_from_skips_nonzero(u, 0, e.len() as int);
    assert(until_nul(u) =~= e);
}

} // verus!
