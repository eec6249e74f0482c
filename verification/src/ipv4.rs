//! Dotted-quad IPv4 literals, read as `Ipv4Addr::from_str` reads them:
//! exactly four `.`-separated parts of one to three ASCII digits, no leading
//! zero in a part longer than one digit, each part at most 255.

use vstd::prelude::*;

use crate::text::{all_digits, digits_value, is_ascii_digit, split_char, split_chars, to_chars, views};

verus! {

/// One part of a dotted quad.
pub open spec fn octet_ok(p: Seq<char>) -> bool {
    1 <= p.len() <= 3 && all_digits(p) && (p.len() == 1 || p[0] != '0') && digits_value(p)
        <= 255
}

/// The four octets of an IPv4 literal, or `None` when `s` is not one.
pub open spec fn ipv4_of(s: Seq<char>) -> Option<(u8, u8, u8, u8)> {
    let parts = split_char(s, '.');
    if parts.len() == 4 && octet_ok(parts[0]) && octet_ok(parts[1]) && octet_ok(parts[2])
        && octet_ok(parts[3]) {
        Some(
            (
                digits_value(parts[0]) as u8,
                digits_value(parts[1]) as u8,
                digits_value(parts[2]) as u8,
                digits_value(parts[3]) as u8,
            ),
        )
    } else {
        None
    }
}

/// Reads one part; `None` unless [`octet_ok`].
fn parse_octet(p: &[char]) -> (r: Option<u8>)
    ensures
        match r {
            Some(v) => octet_ok(p@) && v == digits_value(p@),
            None => !octet_ok(p@),
        },
{
    let n = p.len();
    if n < 1 || n > 3 {
        return None;
    }
    if n > 1 && p[0] == '0' {
        return None;
    }
    let mut v: u32 = 0;
    let mut i: usize = 0;
    assert(p@.take(0) =~= Seq::<char>::empty());
    while i < n
        invariant
            n == p@.len(),
            1 <= n <= 3,
            i <= n,
            all_digits(p@.take(i as int)),
            v == digits_value(p@.take(i as int)),
            i == 0 ==> v == 0,
            i <= 1 ==> v < 10,
            i <= 2 ==> v < 100,
            v < 1000,
        decreases n - i,
    {
        let c = p[i];
        assert(p@.take(i + 1).drop_last() =~= p@.take(i as int));
        if !('0' <= c && c <= '9') {
            assert(!is_ascii_digit(p@[i as int]));
            assert(!all_digits(p@));
            return None;
        }
        proof {
            assert forall|k: int| 0 <= k < i + 1 implies is_ascii_digit(
                #[trigger] p@.take(i + 1)[k],
            ) by {
                if k < i {
                    assert(p@.take(i + 1)[k] == p@.take(i as int)[k]);
                }
            }
        }
        let d = (c as u32) - ('0' as u32);
        v = v * 10 + d;
        i = i + 1;
    }
    assert(p@.take(n as int) =~= p@);
    if v > 255 {
        return None;
    }
    Some(v as u8)
}

/// Reads a dotted-quad IPv4 literal.
pub fn parse_ipv4(s: &str) -> (r: Option<(u8, u8, u8, u8)>)
    ensures
        r == ipv4_of(s@),
{
    let c = to_chars(s);
    let parts = split_chars(c.as_slice(), '.');
    let ghost ps = views(parts@);
    assert(ps == split_char(s@, '.'));
    if parts.len() != 4 {
        return None;
    }
    assert(ps[0] == parts@[0]@ && ps[1] == parts@[1]@ && ps[2] == parts@[2]@ && ps[3]
        == parts@[3]@);
    let a = parse_octet(parts[0].as_slice());
    let b = parse_octet(parts[1].as_slice());
    let x = parse_octet(parts[2].as_slice());
    let y = parse_octet(parts[3].as_slice());
    match (a, b, x, y) {
        (Some(a), Some(b), Some(x), Some(y)) => Some((a, b, x, y)),
        _ => None,
    }
}

/// Text whose `sep`-separated pieces are all digits holds nothing but digits
/// and separators.
proof fn lemma_split_digits(s: Seq<char>, sep: char)
    requires
        forall|i: int| 0 <= i < split_char(s, sep).len() ==> all_digits(#[trigger] split_char(s, sep)[i]),
    ensures
        forall|k: int| 0 <= k < s.len() ==> #[trigger] s[k] == sep || is_ascii_digit(s[k]),
    decreases s.len(),
{
    if s.len() > 0 {
        let t = s.drop_last();
        let r = split_char(t, sep);
        crate::log::lemma_split_nonempty(t, sep);
        if s.last() == sep {
            assert forall|i: int| 0 <= i < r.len() implies all_digits(#[trigger] r[i]) by {
                assert(split_char(s, sep)[i] == r[i]);
            }
        } else {
            let ps = split_char(s, sep);
            assert forall|i: int| 0 <= i < r.len() implies all_digits(#[trigger] r[i]) by {
                if i < r.len() - 1 {
                    assert(ps[i] == r[i]);
                } else {
                    assert(ps[i] == r[i].push(s.last()));
                    assert forall|k: int| 0 <= k < r[i].len() implies is_ascii_digit(#[trigger] r[i][k]) by {
                        assert(ps[i][k] == r[i][k]);
                    }
                }
            }
            assert(ps[r.len() - 1] == r.last().push(s.last()));
            assert(ps[r.len() - 1][r.last().len() as int] == s.last());
        }
        lemma_split_digits(t, sep);
        assert forall|k: int| 0 <= k < s.len() implies #[trigger] s[k] == sep || is_ascii_digit(s[k]) by {
            if k < t.len() {
                assert(s[k] == t[k]);
            }
        }
    }
}

/// An IPv4 literal holds only digits and dots.
pub proof fn lemma_ipv4_chars(s: Seq<char>)
    requires
        ipv4_of(s) is Some,
    ensures
        forall|k: int| 0 <= k < s.len() ==> #[trigger] s[k] == '.' || is_ascii_digit(s[k]),
{
    let ps = split_char(s, '.');
    assert forall|i: int| 0 <= i < ps.len() implies all_digits(#[trigger] ps[i]) by {
        assert(octet_ok(ps[i]));
    }
    lemma_split_digits(s, '.');
}

} // verus!
