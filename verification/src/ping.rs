//! Server latency probing: the timeout bounds, the literal-IPv4 socket
//! address of a target and the order of the reported results. Connecting
//! and timing is the host's part.

use vstd::prelude::*;

use crate::config::clamp_of;
use crate::ipv4::{ipv4_of, parse_ipv4};
use crate::text::{chars_eq, to_chars, trim, trim_chars, from_chars};

verus! {

/// Targets probed at the same time.
pub const PING_CONCURRENCY: usize = 10;

/// Timeout used when the caller gives none.
pub const DEFAULT_TIMEOUT_MS: u64 = 1200;

/// A server to probe.
#[derive(Debug, Clone)]
pub struct PingTarget {
    pub id: String,
    pub host: String,
    pub port: u16,
}

/// Latency of one target in milliseconds; `None` when it timed out or its
/// host is no IPv4 literal.
#[derive(Debug, Clone)]
pub struct PingResult {
    pub id: String,
    pub ms: Option<u32>,
}

/// Keeps a timeout within 100..=10000 ms.
pub fn clamp_timeout_ms(timeout_ms: u64) -> (r: u64)
    ensures
        r == clamp_of(timeout_ms as int, 100, 10000),
{
    if timeout_ms < 100 {
        100
    } else if timeout_ms > 10000 {
        10000
    } else {
        timeout_ms
    }
}

/// An IPv4 socket address.
#[derive(Debug, Clone, Copy)]
pub struct PingAddr {
    pub octets: (u8, u8, u8, u8),
    pub port: u16,
}

impl PingAddr {
    pub fn port(&self) -> (r: u16)
        ensures
            r == self.port,
    {
        self.port
    }

    pub fn octets(&self) -> (r: (u8, u8, u8, u8))
        ensures
            r == self.octets,
    {
        self.octets
    }
}

/// Socket address of `host` (an IPv4 literal, surrounding white space
/// ignored) and `port`; no name resolution.
pub fn socket_addr_v4(host: &str, port: u16) -> (r: Option<PingAddr>)
    ensures
        match ipv4_of(trim(host@)) {
            Some(o) => r == Some(PingAddr { octets: o, port: port }),
            None => r is None,
        },
{
    let c = to_chars(host);
    let t = trim_chars(c.as_slice(), false);
    let ts = from_chars(t.as_slice());
    match parse_ipv4(ts.as_str()) {
        Some(o) => Some(PingAddr { octets: o, port: port }),
        None => None,
    }
}

/// Index of the last result with `id` at or before `n`.
pub open spec fn last_with_id(measured: Seq<PingResult>, id: Seq<char>, n: int) -> Option<int>
    decreases n,
{
    if n <= 0 {
        None
    } else if measured[n - 1].id@ == id {
        Some(n - 1)
    } else {
        last_with_id(measured, id, n - 1)
    }
}

/// What is reported for one target: the latest measurement carrying its id,
/// or no latency.
pub open spec fn reported_for(t: PingTarget, measured: Seq<PingResult>) -> (Seq<char>, Option<u32>) {
    match last_with_id(measured, t.id@, measured.len() as int) {
        Some(j) => (measured[j].id@, measured[j].ms),
        None => (t.id@, None),
    }
}

/// Results in target order from the measurements that came back (in the
/// order they came back); a later measurement for an id replaces an
/// earlier one.
pub fn results_in_target_order(targets: &[PingTarget], measured: &Vec<PingResult>) -> (r: Vec<
    PingResult,
>)
    ensures
        r@.len() == targets@.len(),
        forall|i: int|
            0 <= i < targets@.len() ==> (#[trigger] r@[i].id@, r@[i].ms) == reported_for(
                targets@[i],
                measured@,
            ),
{
    let mut out: Vec<PingResult> = Vec::new();
    let mut i: usize = 0;
    while i < targets.len()
        invariant
            i <= targets@.len(),
            out@.len() == i,
            forall|k: int|
                0 <= k < i ==> (#[trigger] out@[k].id@, out@[k].ms) == reported_for(
                    targets@[k],
                    measured@,
                ),
        decreases targets@.len() - i,
    {
        let id = to_chars(targets[i].id.as_str());
        let mut j: usize = measured.len();
        let mut found: Option<usize> = None;
        while j > 0 && found.is_none()
            invariant
                i < targets@.len(),
                j <= measured@.len(),
                id@ == targets@[i as int].id@,
                found is None ==> last_with_id(measured@, id@, measured@.len() as int)
                    == last_with_id(measured@, id@, j as int),
                found matches Some(f) ==> last_with_id(measured@, id@, measured@.len() as int)
                    == Some(f as int) && f < measured@.len(),
            decreases j + (if found is None { 1int } else { 0int }),
        {
            let c = to_chars(measured[j - 1].id.as_str());
            if chars_eq(c.as_slice(), id.as_slice()) {
                assert(last_with_id(measured@, id@, j as int) == Some(j - 1));
                found = Some(j - 1);
            } else {
                j = j - 1;
            }
        }
        let res = match found {
            Some(f) => PingResult { id: measured[f].id.clone(), ms: measured[f].ms },
            None => PingResult { id: targets[i].id.clone(), ms: None },
        };
        out.push(res);
        i = i + 1;
    }
    out
}

/// A timeout never leaves 100..=10000 ms, and clamping twice is clamping once.
pub proof fn lemma_clamp_timeout_bounds(t: int)
    ensures
        100 <= clamp_of(t, 100, 10000) <= 10000,
        clamp_of(clamp_of(t, 100, 10000), 100, 10000) == clamp_of(t, 100, 10000),
        100 <= t <= 10000 ==> clamp_of(t, 100, 10000) == t,
{
}


/// A found measurement carries the id that was looked for.
proof fn lemma_last_with_id_matches(measured: Seq<PingResult>, id: Seq<char>, n: int)
    requires
        n <= measured.len(),
    ensures
        last_with_id(measured, id, n) matches Some(j) ==> 0 <= j < n && measured[j].id@ == id,
    decreases n,
{
    if n > 0 && measured[n - 1].id@ != id {
        lemma_last_with_id_matches(measured, id, n - 1);
    }
}

/// Every reported result carries its target's id, so results line up with
/// the targets one for one.
pub proof fn lemma_results_keep_target_ids(t: PingTarget, measured: Seq<PingResult>)
    ensures
        reported_for(t, measured).0 == t.id@,
{
    lemma_last_with_id_matches(measured, t.id@, measured.len() as int);
}

} // verus!
