//! Wrapper log: its location, the line format, redaction of the user name in
//! logged paths, the size limit and the tail shown in the GUI.

use vstd::prelude::*;

use crate::paths::{logs_dir, path_join, join_str, wrapper_home_of, HostEnv};
use crate::text::{
    append_chars, decimal, decimal_chars, find, find_chars, from_chars, lemma_find_from,
    lower_chars, lower_text, split_char, split_chars, sub_chars, to_chars, views,
};

verus! {

/// Log size above which the file is emptied before the next append.
pub const MAX_LOG_BYTES: u64 = 2097152;

/// `logs\wrapper.log` under the wrapper home.
pub fn wrapper_log_path(env: &HostEnv) -> (r: String)
    ensures
        r@ == path_join(path_join(wrapper_home_of(env@), "logs"@), "wrapper.log"@),
{
    let d = logs_dir(env);
    join_str(d.as_str(), "wrapper.log")
}

/// Replaces the user-name segment after `\Users\` (matched in any case) by
/// `<user>`.
pub open spec fn redact_of(p: Seq<char>) -> Seq<char> {
    if p.len() == 0 {
        p
    } else {
        match find(lower_text(p), "\\users\\"@) {
            None => p,
            Some(idx) => {
                let start = idx + 7;
                if start >= p.len() {
                    p
                } else {
                    match find(p.skip(start), "\\"@) {
                        Some(rest) => p.take(start) + "<user>"@ + p.skip(start + rest),
                        None => p.take(start) + "<user>"@,
                    }
                }
            },
        }
    }
}

/// Redacts the Windows user-profile segment: `\Users\Vasya\` becomes
/// `\Users\<user>\`.
pub fn redact_path(p: &str) -> (r: String)
    ensures
        r@ == redact_of(p@),
{
    let pc = to_chars(p);
    if pc.len() == 0 {
        return String::from_str(p);
    }
    let lower = lower_chars(p);
    let marker = to_chars("\\users\\");
    match find_chars(lower.as_slice(), marker.as_slice()) {
        None => String::from_str(p),
        Some(idx) => {
            if idx >= pc.len() || 7 >= pc.len() - idx {
                return String::from_str(p);
            }
            let start = idx + 7;
            let tail = sub_chars(pc.as_slice(), start, pc.len());
            assert(tail@ =~= p@.skip(start as int));
            let bs = to_chars("\\");
            let mut out = sub_chars(pc.as_slice(), 0, start);
            append_chars(&mut out, to_chars("<user>").as_slice());
            let found = find_chars(tail.as_slice(), bs.as_slice());
            proof {
                lemma_find_from(tail@, bs@, 0);
            }
            match found {
                Some(rest) => {
                    let after = sub_chars(pc.as_slice(), start + rest, pc.len());
                    assert(after@ =~= p@.skip(start + rest));
                    append_chars(&mut out, after.as_slice());
                },
                None => {},
            }
            from_chars(out.as_slice())
        },
    }
}

/// `[timestamp] line`.
pub open spec fn log_line_of(ts: nat, line: Seq<char>) -> Seq<char> {
    seq!['['] + decimal(ts) + "] "@ + line
}

pub fn format_log_line(ts: u64, line: &str) -> (r: String)
    ensures
        r@ == log_line_of(ts as nat, line@),
{
    let mut v: Vec<char> = Vec::new();
    v.push('[');
    append_chars(&mut v, decimal_chars(ts).as_slice());
    append_chars(&mut v, to_chars("] ").as_slice());
    append_chars(&mut v, to_chars(line).as_slice());
    from_chars(v.as_slice())
}

/// The log is emptied once it grows past [`MAX_LOG_BYTES`].
pub fn should_truncate_log(len: u64) -> (r: bool)
    ensures
        r == (len > MAX_LOG_BYTES),
{
    len > MAX_LOG_BYTES
}

/// A line without its trailing `\r`.
pub open spec fn strip_cr(l: Seq<char>) -> Seq<char> {
    if l.len() > 0 && l.last() == '\r' {
        l.drop_last()
    } else {
        l
    }
}

/// `str::lines`: pieces between `\n`; a `\r` before a `\n` is dropped and
/// an empty piece after a final `\n` is no line.
pub open spec fn lines_of(s: Seq<char>) -> Seq<Seq<char>> {
    let pieces = split_char(s, '\n');
    let n = pieces.len();
    pieces.take(n - 1).map_values(|l: Seq<char>| strip_cr(l)) + (if pieces[n - 1].len() > 0 {
        seq![pieces[n - 1]]
    } else {
        Seq::empty()
    })
}

/// Lines joined with `\n`.
pub open spec fn join_lines(ls: Seq<Seq<char>>) -> Seq<char>
    decreases ls.len(),
{
    if ls.len() == 0 {
        Seq::empty()
    } else if ls.len() == 1 {
        ls[0]
    } else {
        join_lines(ls.drop_last()) + seq!['\n'] + ls.last()
    }
}

/// The non-empty lines among `ls`, in order.
pub open spec fn nonempty_of(ls: Seq<Seq<char>>) -> Seq<Seq<char>>
    decreases ls.len(),
{
    if ls.len() == 0 {
        ls
    } else if ls.last().len() > 0 {
        nonempty_of(ls.drop_last()).push(ls.last())
    } else {
        nonempty_of(ls.drop_last())
    }
}

/// How many lines the tail shows: at least one, at most 500.
pub open spec fn tail_count(max_lines: usize) -> int {
    if max_lines < 1 {
        1
    } else if max_lines > 500 {
        500
    } else {
        max_lines as int
    }
}

/// The last non-empty lines of the log, joined with `\n`.
pub open spec fn log_tail_of(data: Seq<char>, max_lines: usize) -> Seq<char> {
    let ls = nonempty_of(lines_of(data));
    let take = tail_count(max_lines);
    let start = if ls.len() > take {
        ls.len() - take
    } else {
        0
    };
    join_lines(ls.skip(start))
}

fn strip_cr_vec(l: Vec<char>) -> (r: Vec<char>)
    ensures
        r@ == strip_cr(l@),
{
    let mut l = l;
    if l.len() > 0 && l[l.len() - 1] == '\r' {
        l.pop();
    }
    l
}

/// The non-empty lines of `data`.
fn nonempty_lines(data: &str) -> (r: Vec<Vec<char>>)
    ensures
        views(r@) == nonempty_of(lines_of(data@)),
{
    let d = to_chars(data);
    let pieces = split_chars(d.as_slice(), '\n');
    let ghost ps = views(pieces@);
    let ghost lines = lines_of(data@);
    proof {
        lemma_lines_shape(data@);
    }
    let n = pieces.len();
    let mut out: Vec<Vec<char>> = Vec::new();
    let mut i: usize = 0;
    while i + 1 < n
        invariant
            n == pieces@.len() == ps.len(),
            n >= 1,
            ps == views(pieces@),
            i + 1 <= n,
            lines == lines_of(data@),
            lines.len() >= n - 1,
            forall|k: int| 0 <= k < n - 1 ==> #[trigger] lines[k] == strip_cr(ps[k]),
            views(out@) == nonempty_of(lines.take(i as int)),
        decreases n - i,
    {
        let piece = pieces[i].clone();
        assert(piece@ == ps[i as int]);
        let l = strip_cr_vec(piece);
        assert(lines.take(i + 1).drop_last() =~= lines.take(i as int));
        assert(l@ == lines[i as int]);
        if l.len() > 0 {
            out.push(l);
            assert(views(out@) =~= nonempty_of(lines.take(i as int)).push(lines[i as int]));
        }
        i = i + 1;
    }
    let last = pieces[n - 1].clone();
    assert(last@ == ps.last());
    if last.len() > 0 {
        assert(lines.drop_last() =~= lines.take(i as int));
        out.push(last);
        assert(views(out@) =~= nonempty_of(lines.take(i as int)).push(lines[i as int]));
    } else {
        assert(lines.take(i as int) =~= lines);
    }
    out
}

/// How [`lines_of`] is built from the pieces between newlines.
proof fn lemma_lines_shape(s: Seq<char>)
    ensures
        split_char(s, '\n').len() >= 1,
        lines_of(s).len() >= split_char(s, '\n').len() - 1,
        forall|k: int|
            0 <= k < split_char(s, '\n').len() - 1 ==> #[trigger] lines_of(s)[k] == strip_cr(
                split_char(s, '\n')[k],
            ),
        split_char(s, '\n').last().len() > 0 ==> lines_of(s).len() == split_char(s, '\n').len()
            && lines_of(s)[lines_of(s).len() - 1] == split_char(s, '\n').last(),
        split_char(s, '\n').last().len() == 0 ==> lines_of(s).len() == split_char(s, '\n').len()
            - 1,
{
    lemma_split_nonempty(s, '\n');
}

/// A split always has at least one piece.
pub proof fn lemma_split_nonempty(s: Seq<char>, sep: char)
    ensures
        split_char(s, sep).len() >= 1,
    decreases s.len(),
{
    if s.len() > 0 {
        lemma_split_nonempty(s.drop_last(), sep);
    }
}

/// The last `max_lines` (kept within 1..=500) non-empty lines of the log.
pub fn log_tail(data: &str, max_lines: usize) -> (r: String)
    ensures
        r@ == log_tail_of(data@, max_lines),
{
    let ls = nonempty_lines(data);
    let take: usize = if max_lines < 1 {
        1
    } else if max_lines > 500 {
        500
    } else {
        max_lines
    };
    let start = if ls.len() > take {
        ls.len() - take
    } else {
        0
    };
    let ghost tail = views(ls@).skip(start as int);
    let mut out: Vec<char> = Vec::new();
    let mut i = start;
    while i < ls.len()
        invariant
            start <= i <= ls@.len(),
            tail == views(ls@).skip(start as int),
            out@ == join_lines(tail.take(i - start)),
        decreases ls@.len() - i,
    {
        let ghost k = i - start;
        assert(tail.take(k + 1).drop_last() =~= tail.take(k));
        assert(tail.take(k + 1).last() == ls@[i as int]@);
        if i > start {
            out.push('\n');
        } else {
            assert(tail.take(1) =~= seq![ls@[i as int]@]);
        }
        append_chars(&mut out, ls[i].as_slice());
        i = i + 1;
    }
    assert(tail.take(ls@.len() - start) =~= tail);
    from_chars(out.as_slice())
}

// ───────────────────────── append / tail law ─────────────────────────

/// Text without a separator appended to a text extends its last piece.
proof fn lemma_split_append_plain(a: Seq<char>, x: Seq<char>, sep: char)
    requires
        !x.contains(sep),
    ensures
        split_char(a + x, sep).len() == split_char(a, sep).len(),
        split_char(a + x, sep) == split_char(a, sep).update(
            split_char(a, sep).len() - 1,
            split_char(a, sep).last() + x,
        ),
    decreases x.len(),
{
    lemma_split_nonempty(a, sep);
    if x.len() == 0 {
        assert(a + x =~= a);
        assert(split_char(a, sep).last() + x =~= split_char(a, sep).last());
        assert(split_char(a, sep).update(split_char(a, sep).len() - 1, split_char(a, sep).last())
            =~= split_char(a, sep));
    } else {
        let y = x.drop_last();
        assert(!y.contains(sep)) by {
            if y.contains(sep) {
                let k = choose|k: int| 0 <= k < y.len() && y[k] == sep;
                assert(x[k] == sep);
            }
        }
        lemma_split_append_plain(a, y, sep);
        assert((a + x).drop_last() =~= a + y);
        assert((a + x).last() == x.last());
        assert(x.last() != sep) by {
            assert(x[x.len() - 1] == x.last());
        }
        let r = split_char(a, sep);
        assert((r.last() + y).push(x.last()) =~= r.last() + x);
        assert(split_char(a + x, sep) =~= r.update(r.len() - 1, r.last() + x));
    }
}

proof fn lemma_decimal_digits(n: nat)
    ensures
        decimal(n).len() > 0,
        forall|i: int| 0 <= i < decimal(n).len() ==> '0' <= #[trigger] decimal(n)[i] <= '9',
    decreases n,
{
    if n >= 10 {
        lemma_decimal_digits(n / 10);
    }
}

proof fn lemma_join_lines_ends_with_last(q: Seq<Seq<char>>)
    requires
        q.len() > 0,
    ensures
        crate::text::ends_with(join_lines(q), q.last()),
{
    let j = join_lines(q);
    if q.len() == 1 {
        assert(j.subrange(j.len() - q.last().len(), j.len() as int) =~= q.last());
    } else {
        let pre = join_lines(q.drop_last()) + seq!['\n'];
        assert(j == pre + q.last());
        assert(j.subrange(j.len() - q.last().len(), j.len() as int) =~= q.last());
    }
}

/// A line appended to the log is the last line of the tail shown next, for
/// a log that ends at a line boundary and a line with no line break in it.
pub proof fn lemma_appended_line_ends_tail(data: Seq<char>, ts: nat, line: Seq<char>, max_lines: usize)
    requires
        data.len() == 0 || data.last() == '\n',
        !line.contains('\n'),
        line.len() == 0 || line.last() != '\r',
    ensures
        crate::text::ends_with(
            log_tail_of(data + log_line_of(ts, line) + seq!['\n'], max_lines),
            log_line_of(ts, line),
        ),
{
    let x = log_line_of(ts, line);
    reveal_strlit("] ");
    lemma_decimal_digits(ts);
    assert(!x.contains('\n')) by {
        if x.contains('\n') {
            let k = choose|k: int| 0 <= k < x.len() && x[k] == '\n';
            let d = decimal(ts);
            if k == 0 {
            } else if k < 1 + d.len() {
                assert(x[k] == d[k - 1]);
            } else if k < 3 + d.len() {
                assert(x[k] == "] "@[k - 1 - d.len()]);
            } else {
                assert(x[k] == line[k - 3 - d.len()]);
            }
        }
    }
    assert(x.len() > 0 && x.last() != '\r') by {
        if line.len() == 0 {
            assert(x.last() == ' ');
        } else {
            assert(x.last() == line.last());
        }
    }
    let s = data + x + seq!['\n'];
    // pieces of the log before the newline: the last one is exactly the new line
    lemma_split_nonempty(data, '\n');
    let pd = split_char(data, '\n');
    assert(pd.last().len() == 0) by {
        if data.len() > 0 {
            assert(pd == split_char(data.drop_last(), '\n').push(Seq::<char>::empty()));
        }
    }
    lemma_split_append_plain(data, x, '\n');
    let px = split_char(data + x, '\n');
    assert(pd.last() + x =~= x);
    assert(px.last() == x);
    assert(s.drop_last() =~= data + x);
    let ps = split_char(s, '\n');
    assert(ps == px.push(Seq::<char>::empty()));
    // the lines of the log end with the new line
    let ls = lines_of(s);
    assert(ls =~= px.map_values(|l: Seq<char>| strip_cr(l)));
    assert(ls.last() == x);
    let ne = nonempty_of(ls);
    assert(ls.drop_last() + seq![x] =~= ls);
    assert(ne == nonempty_of(ls.drop_last()).push(x));
    let take = tail_count(max_lines);
    let start = if ne.len() > take {
        ne.len() - take
    } else {
        0
    };
    let q = ne.skip(start);
    assert(q.len() > 0 && q.last() == x);
    lemma_join_lines_ends_with_last(q);
}

} // verus!
