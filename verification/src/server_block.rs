//! Outbound firewall blocking of game tunnel addresses (ports 29450–29460):
//! which addresses are blocked, the rule names, the PowerShell script that
//! creates the rules and how the script's output is read. Running
//! PowerShell is the host's part.

use vstd::prelude::*;

use crate::ipv4::{ipv4_of, parse_ipv4};
use crate::jvm::string_views;
use crate::text::{
    append_chars, append_piece, decimal, decimal_chars, from_chars, join_sep,
    parse_u32, parse_u32_chars, replace_char, replace_chars, to_chars, trim, trim_chars,
};

verus! {

/// Display-name prefix of every rule this tool creates.
pub const RULE_PREFIX: &'static str = "STALZONE-SB-";

/// Whether `ip` is a dotted-quad IPv4 literal.
pub fn is_valid_ipv4(ip: &str) -> (r: bool)
    ensures
        r == (ipv4_of(ip@) is Some),
{
    parse_ipv4(ip).is_some()
}

pub open spec fn rule_name_of(protocol: Seq<char>, ip: Seq<char>) -> Seq<char> {
    "STALZONE-SB-"@ + protocol + "-"@ + replace_char(ip, '.', '-')
}

/// `STALZONE-SB-<protocol>-<ip with dashes>`.
pub fn rule_name(protocol: &str, ip: &str) -> (r: String)
    ensures
        r@ == rule_name_of(protocol@, ip@),
{
    let mut out = to_chars(RULE_PREFIX);
    append_chars(&mut out, to_chars(protocol).as_slice());
    append_chars(&mut out, to_chars("-").as_slice());
    let ipc = to_chars(ip);
    append_chars(&mut out, replace_chars(ipc.as_slice(), '.', '-').as_slice());
    from_chars(out.as_slice())
}

/// Trimmed valid addresses of `ips`, each once, in first-seen order.
pub open spec fn unique_of(ips: Seq<Seq<char>>) -> Seq<Seq<char>>
    decreases ips.len(),
{
    if ips.len() == 0 {
        Seq::empty()
    } else {
        let r = unique_of(ips.drop_last());
        let t = trim(ips.last());
        if t.len() > 0 && ipv4_of(t) is Some && !r.contains(t) {
            r.push(t)
        } else {
            r
        }
    }
}

/// Is `t` among the first `n` texts of `v`?
fn contains_text(v: &Vec<String>, t: &[char]) -> (r: bool)
    ensures
        r == string_views(v@).contains(t@),
{
    let mut i: usize = 0;
    while i < v.len()
        invariant
            i <= v@.len(),
            forall|k: int| 0 <= k < i ==> string_views(v@)[k] != t@,
        decreases v@.len() - i,
    {
        let c = to_chars(v[i].as_str());
        if crate::text::chars_eq(c.as_slice(), t) {
            assert(string_views(v@)[i as int] == t@);
            return true;
        }
        i = i + 1;
    }
    false
}

/// Deduplicated valid IPv4 addresses, preserving first-seen order.
pub fn unique_valid_ipv4(ips: &[String]) -> (r: Vec<String>)
    ensures
        string_views(r@) == unique_of(string_views(ips@)),
{
    let mut unique: Vec<String> = Vec::new();
    let mut i: usize = 0;
    while i < ips.len()
        invariant
            i <= ips@.len(),
            string_views(unique@) == unique_of(string_views(ips@.take(i as int))),
        decreases ips@.len() - i,
    {
        let ghost before = string_views(ips@.take(i as int));
        assert(string_views(ips@.take(i + 1)).drop_last() =~= before);
        assert(string_views(ips@.take(i + 1)).last() == ips@[i as int]@);
        let c = to_chars(ips[i].as_str());
        let t = trim_chars(c.as_slice(), false);
        let ts = from_chars(t.as_slice());
        if t.len() > 0 && is_valid_ipv4(ts.as_str()) && !contains_text(&unique, t.as_slice()) {
            unique.push(ts);
            assert(string_views(unique@) =~= string_views(unique@).drop_last().push(t@));
        }
        i = i + 1;
    }
    assert(ips@.take(ips@.len() as int) =~= ips@);
    unique
}

// ───────────────────────── the firewall script ─────────────────────────

/// One `New-NetFirewallRule` call blocking outbound `protocol` traffic to `ip`.
pub open spec fn rule_line_of(protocol: Seq<char>, ip: Seq<char>) -> Seq<char> {
    let name = rule_name_of(protocol, ip);
    "New-NetFirewallRule -DisplayName '"@ + name + "' -Name '"@ + name
        + "' -Direction Outbound -RemoteAddress '"@ + ip + "' -Action Block -Protocol "@ + protocol
        + " -RemotePort 29450-29460 -Enabled True -Profile Any -ErrorAction Stop"@
}

/// A TCP and a UDP rule for every address, in order.
pub open spec fn rule_lines_of(ips: Seq<Seq<char>>) -> Seq<Seq<char>>
    decreases ips.len(),
{
    if ips.len() == 0 {
        Seq::empty()
    } else {
        rule_lines_of(ips.drop_last()).push(rule_line_of("TCP"@, ips.last())).push(
            rule_line_of("UDP"@, ips.last()),
        )
    }
}

pub open spec fn blocked_message_of(n: nat) -> Seq<char> {
    "Blocked "@ + decimal(n) + " IP address(es) on ports 29450–29460"@
}

/// What applying a block runs and reports.
pub struct BlockPlan {
    /// The addresses blocked.
    pub ips: Vec<String>,
    /// The PowerShell script that creates the rules.
    pub script: String,
    /// The message reported once the script succeeded.
    pub message: String,
}

fn rule_line(protocol: &str, ip: &str) -> (r: Vec<char>)
    ensures
        r@ == rule_line_of(protocol@, ip@),
{
    let name = rule_name(protocol, ip);
    let nm = to_chars(name.as_str());
    let mut out = to_chars("New-NetFirewallRule -DisplayName '");
    append_chars(&mut out, nm.as_slice());
    append_chars(&mut out, to_chars("' -Name '").as_slice());
    append_chars(&mut out, nm.as_slice());
    append_chars(&mut out, to_chars("' -Direction Outbound -RemoteAddress '").as_slice());
    append_chars(&mut out, to_chars(ip).as_slice());
    append_chars(&mut out, to_chars("' -Action Block -Protocol ").as_slice());
    append_chars(&mut out, to_chars(protocol).as_slice());
    append_chars(
        &mut out,
        to_chars(" -RemotePort 29450-29460 -Enabled True -Profile Any -ErrorAction Stop").as_slice(),
    );
    out
}

/// The rules script: the rule calls joined with `; `.
pub fn rules_script(ips: &Vec<String>) -> (r: String)
    ensures
        r@ == join_sep(rule_lines_of(string_views(ips@)), "; "@),
{
    let sep = to_chars("; ");
    let mut out: Vec<char> = Vec::new();
    let ghost mut done: Seq<Seq<char>> = Seq::empty();
    let mut i: usize = 0;
    while i < ips.len()
        invariant
            i <= ips@.len(),
            sep@ == "; "@,
            done == rule_lines_of(string_views(ips@.take(i as int))),
            done.len() == 2 * i,
            out@ == join_sep(done, "; "@),
        decreases ips@.len() - i,
    {
        let ghost prev = string_views(ips@.take(i as int));
        assert(string_views(ips@.take(i + 1)).drop_last() =~= prev);
        assert(string_views(ips@.take(i + 1)).last() == ips@[i as int]@);
        let tcp = rule_line("TCP", ips[i].as_str());
        append_piece(&mut out, Ghost(done), i == 0, sep.as_slice(), tcp.as_slice());
        proof {
            done = done.push(tcp@);
        }
        let udp = rule_line("UDP", ips[i].as_str());
        append_piece(&mut out, Ghost(done), false, sep.as_slice(), udp.as_slice());
        proof {
            done = done.push(udp@);
        }
        i = i + 1;
    }
    assert(ips@.take(ips@.len() as int) =~= ips@);
    from_chars(out.as_slice())
}

/// Plans blocking `ips`: the valid addresses (trimmed, each once), the
/// script that creates their rules and the success message; an error when
/// no address is valid.
pub fn apply_blocks(ips: &[String]) -> (r: Result<BlockPlan, String>)
    ensures
        unique_of(string_views(ips@)).len() == 0 <==> r is Err,
        r matches Err(e) ==> e@ == "No valid IPv4 addresses to block"@,
        r matches Ok(p) ==> {
            &&& string_views(p.ips@) == unique_of(string_views(ips@))
            &&& p.script@ == join_sep(rule_lines_of(string_views(p.ips@)), "; "@)
            &&& p.message@ == blocked_message_of(p.ips@.len())
        },
{
    let unique = unique_valid_ipv4(ips);
    if unique.len() == 0 {
        return Err(String::from_str("No valid IPv4 addresses to block"));
    }
    let script = rules_script(&unique);
    let mut msg = to_chars("Blocked ");
    append_chars(&mut msg, decimal_chars(unique.len() as u64).as_slice());
    append_chars(&mut msg, to_chars(" IP address(es) on ports 29450–29460").as_slice());
    Ok(BlockPlan { ips: unique, script: script, message: from_chars(msg.as_slice()) })
}

/// What follows running a plan's rules script.
pub struct ApplyOutcome {
    /// What applying the block reports.
    pub result: Result<String, String>,
    /// Whether the rules already created must be cleared again.
    pub roll_back: bool,
}

pub open spec fn apply_failed_of(e: Seq<char>) -> Seq<char> {
    "Failed to apply firewall rules: "@ + e
}

/// Decides on the outcome of the rules script: on success the plan's
/// message; on failure a roll-back of the rules and the failure as the
/// error.
pub fn apply_outcome(plan: &BlockPlan, script_run: Result<String, String>) -> (r: ApplyOutcome)
    ensures
        r.roll_back == (script_run is Err),
        script_run is Ok ==> (r.result matches Ok(m) && m@ == plan.message@),
        script_run matches Err(e) ==> (r.result matches Err(x) && x@ == apply_failed_of(e@)),
{
    match script_run {
        Ok(_) => ApplyOutcome { result: Ok(plan.message.clone()), roll_back: false },
        Err(e) => {
            let mut m = to_chars("Failed to apply firewall rules: ");
            append_chars(&mut m, to_chars(e.as_str()).as_slice());
            ApplyOutcome { result: Err(from_chars(m.as_slice())), roll_back: true }
        },
    }
}

// ───────────────────────── reading script output ─────────────────────────

/// The script that removes every rule with the prefix and prints how many.
pub const CLEAR_RULES_SCRIPT: &'static str = "$n = 0; Get-NetFirewallRule -ErrorAction SilentlyContinue | Where-Object { $_.DisplayName -like 'STALZONE-SB-*' } | ForEach-Object { Remove-NetFirewallRule -Name $_.Name -ErrorAction SilentlyContinue; $n++ }; Write-Output $n";

/// The script that counts the enabled rules with the prefix.
pub const STATUS_SCRIPT: &'static str = "$r = @(Get-NetFirewallRule -ErrorAction SilentlyContinue | Where-Object { $_.DisplayName -like 'STALZONE-SB-*' -and $_.Enabled -eq 'True' }); Write-Output $r.Count";

/// Number of rules removed, from the (trimmed) output of the clearing
/// script; a PowerShell failure is passed on.
pub fn clear_rules(output: Result<String, String>) -> (r: Result<u32, String>)
    ensures
        output matches Err(e) ==> (r matches Err(x) && x@ == e@),
        output matches Ok(o) ==> match parse_u32(o@) {
            Some(n) => r == Ok::<u32, String>(n),
            None => r matches Err(x) && x@ == "unexpected output: "@ + o@,
        },
{
    match output {
        Err(e) => Err(e),
        Ok(o) => {
            let c = to_chars(o.as_str());
            match parse_u32_chars(c.as_slice()) {
                Some(n) => Ok(n),
                None => {
                    let mut m = to_chars("unexpected output: ");
                    append_chars(&mut m, c.as_slice());
                    Err(from_chars(m.as_slice()))
                },
            }
        },
    }
}

/// Whether blocking rules are active.
pub struct BlockStatus {
    pub active: bool,
    pub rule_count: u32,
}

/// Blocking status from the (trimmed) output of the counting script; an
/// unreadable count counts as zero, a PowerShell failure is passed on.
pub fn blocking_status(output: Result<String, String>) -> (r: Result<BlockStatus, String>)
    ensures
        output matches Err(e) ==> (r matches Err(x) && x@ == e@),
        output matches Ok(o) ==> (r matches Ok(s) && s.rule_count == match parse_u32(o@) {
            Some(n) => n,
            None => 0,
        } && s.active == (s.rule_count > 0)),
{
    match output {
        Err(e) => Err(e),
        Ok(o) => {
            let c = to_chars(o.as_str());
            let count = match parse_u32_chars(c.as_slice()) {
                Some(n) => n,
                None => 0,
            };
            Ok(BlockStatus { active: count > 0, rule_count: count })
        },
    }
}


// ───────────────────────── laws ─────────────────────────

/// The deduplicated list holds no address twice.
pub proof fn lemma_unique_has_no_duplicates(ips: Seq<Seq<char>>)
    ensures
        forall|i: int, j: int|
            0 <= i < j < unique_of(ips).len() ==> unique_of(ips)[i] != unique_of(ips)[j],
    decreases ips.len(),
{
    if ips.len() > 0 {
        lemma_unique_has_no_duplicates(ips.drop_last());
        let r = unique_of(ips.drop_last());
        let t = trim(ips.last());
        if t.len() > 0 && ipv4_of(t) is Some && !r.contains(t) {
            assert forall|i: int, j: int|
                0 <= i < j < unique_of(ips).len() implies unique_of(ips)[i] != unique_of(ips)[j] by {
                if j == r.len() {
                    assert(unique_of(ips)[i] == r[i]);
                    if r[i] == t {
                        assert(r.contains(t));
                    }
                }
            }
        }
    }
}

/// Every kept address is a trimmed, valid IPv4 literal taken from the input.
pub proof fn lemma_unique_members_valid(ips: Seq<Seq<char>>)
    ensures
        forall|i: int|
            0 <= i < unique_of(ips).len() ==> {
                &&& ipv4_of(#[trigger] unique_of(ips)[i]) is Some
                &&& trim(unique_of(ips)[i]) == unique_of(ips)[i]
                &&& exists|k: int| 0 <= k < ips.len() && trim(ips[k]) == unique_of(ips)[i]
            },
    decreases ips.len(),
{
    if ips.len() > 0 {
        let prev = ips.drop_last();
        lemma_unique_members_valid(prev);
        let r = unique_of(prev);
        let t = trim(ips.last());
        crate::text::lemma_trim_idempotent(ips.last());
        assert forall|i: int| 0 <= i < unique_of(ips).len() implies {
            &&& ipv4_of(#[trigger] unique_of(ips)[i]) is Some
            &&& trim(unique_of(ips)[i]) == unique_of(ips)[i]
            &&& exists|k: int| 0 <= k < ips.len() && trim(ips[k]) == unique_of(ips)[i]
        } by {
            if i < r.len() {
                assert(unique_of(ips)[i] == r[i]);
                let k = choose|k: int| 0 <= k < prev.len() && trim(prev[k]) == r[i];
                assert(ips[k] == prev[k]);
            } else {
                assert(unique_of(ips)[i] == t);
                assert(trim(ips[ips.len() - 1]) == t);
            }
        }
    }
}

/// Every input whose trimmed text is a valid address is kept.
pub proof fn lemma_unique_keeps_every_valid(ips: Seq<Seq<char>>, k: int)
    requires
        0 <= k < ips.len(),
        ipv4_of(trim(ips[k])) is Some,
    ensures
        unique_of(ips).contains(trim(ips[k])),
    decreases ips.len(),
{
    let prev = ips.drop_last();
    let r = unique_of(prev);
    let t = trim(ips.last());
    if k < ips.len() - 1 {
        assert(prev[k] == ips[k]);
        lemma_unique_keeps_every_valid(prev, k);
        let j = choose|j: int| 0 <= j < r.len() && r[j] == trim(ips[k]);
        assert(unique_of(ips)[j] == r[j]);
    } else {
        lemma_empty_not_ipv4();
        if !r.contains(t) {
            assert(unique_of(ips)[r.len() as int] == t);
        } else {
            let j = choose|j: int| 0 <= j < r.len() && r[j] == t;
            assert(unique_of(ips)[j] == r[j]);
        }
    }
}

/// The empty text is no address.
proof fn lemma_empty_not_ipv4()
    ensures
        ipv4_of(Seq::<char>::empty()) is None,
{
    assert(crate::text::split_char(Seq::<char>::empty(), '.').len() == 1);
}

/// Deduplicating twice changes nothing.
pub proof fn lemma_unique_idempotent(ips: Seq<Seq<char>>)
    ensures
        unique_of(unique_of(ips)) == unique_of(ips),
    decreases ips.len(),
{
    if ips.len() > 0 {
        let prev = ips.drop_last();
        lemma_unique_idempotent(prev);
        let r = unique_of(prev);
        let t = trim(ips.last());
        crate::text::lemma_trim_idempotent(ips.last());
        if t.len() > 0 && ipv4_of(t) is Some && !r.contains(t) {
            let u = r.push(t);
            assert(u.drop_last() =~= r);
            assert(unique_of(u) == unique_of(r).push(t));
        }
    }
}

/// Every blocked address gets exactly a TCP rule and a UDP rule, in address
/// order.
pub proof fn lemma_two_rules_per_address(ips: Seq<Seq<char>>)
    ensures
        rule_lines_of(ips).len() == 2 * ips.len(),
        forall|i: int|
            0 <= i < ips.len() ==> rule_lines_of(ips)[2 * i] == rule_line_of("TCP"@, #[trigger] ips[i])
                && rule_lines_of(ips)[2 * i + 1] == rule_line_of("UDP"@, ips[i]),
    decreases ips.len(),
{
    if ips.len() > 0 {
        let prev = ips.drop_last();
        lemma_two_rules_per_address(prev);
        assert forall|i: int| 0 <= i < ips.len() implies rule_lines_of(ips)[2 * i] == rule_line_of(
            "TCP"@,
            #[trigger] ips[i],
        ) && rule_lines_of(ips)[2 * i + 1] == rule_line_of("UDP"@, ips[i]) by {
            if i < prev.len() {
                assert(prev[i] == ips[i]);
            }
        }
    }
}

/// First-seen order: an address first met before another comes before it in
/// the deduplicated list.
pub proof fn lemma_unique_keeps_first_seen_order(ips: Seq<Seq<char>>, i: int, j: int)
    requires
        0 <= i < j < ips.len(),
        ipv4_of(trim(ips[i])) is Some,
        ipv4_of(trim(ips[j])) is Some,
        forall|k: int| 0 <= k < j ==> trim(#[trigger] ips[k]) != trim(ips[j]),
    ensures
        exists|p: int, q: int|
            0 <= p < q < unique_of(ips).len() && unique_of(ips)[p] == trim(ips[i])
                && unique_of(ips)[q] == trim(ips[j]),
    decreases ips.len(),
{
    let prev = ips.drop_last();
    let r = unique_of(prev);
    if j < ips.len() - 1 {
        assert(prev[i] == ips[i] && prev[j] == ips[j]);
        assert forall|k: int| 0 <= k < j implies trim(#[trigger] prev[k]) != trim(prev[j]) by {
            assert(prev[k] == ips[k]);
        }
        lemma_unique_keeps_first_seen_order(prev, i, j);
        let (p, q) = choose|p: int, q: int|
            0 <= p < q < r.len() && r[p] == trim(prev[i]) && r[q] == trim(prev[j]);
        assert(unique_of(ips)[p] == r[p] && unique_of(ips)[q] == r[q]);
    } else {
        let b = trim(ips[j]);
        lemma_unique_members_valid(prev);
        assert(!r.contains(b)) by {
            if r.contains(b) {
                let m = choose|m: int| 0 <= m < r.len() && r[m] == b;
                let k = choose|k: int| 0 <= k < prev.len() && trim(prev[k]) == r[m];
                assert(prev[k] == ips[k]);
            }
        }
        lemma_empty_not_ipv4();
        assert(unique_of(ips) == r.push(b));
        assert(prev[i] == ips[i]);
        lemma_unique_keeps_every_valid(prev, i);
        let p = choose|p: int| 0 <= p < r.len() && r[p] == trim(prev[i]);
        assert(unique_of(ips)[p] == r[p]);
        assert(unique_of(ips)[r.len() as int] == b);
    }
}

/// Distinct addresses get distinct rule names (for one protocol), so no two
/// blocked addresses share a firewall rule.
pub proof fn lemma_rule_names_distinct(protocol: Seq<char>, a: Seq<char>, b: Seq<char>)
    requires
        ipv4_of(a) is Some,
        ipv4_of(b) is Some,
        a != b,
    ensures
        rule_name_of(protocol, a) != rule_name_of(protocol, b),
{
    crate::ipv4::lemma_ipv4_chars(a);
    crate::ipv4::lemma_ipv4_chars(b);
    let head = "STALZONE-SB-"@ + protocol + "-"@;
    let ra = replace_char(a, '.', '-');
    let rb = replace_char(b, '.', '-');
    if rule_name_of(protocol, a) == rule_name_of(protocol, b) {
        assert(rule_name_of(protocol, a) == head + ra);
        assert(rule_name_of(protocol, b) == head + rb);
        assert((head + ra).skip(head.len() as int) =~= ra);
        assert((head + rb).skip(head.len() as int) =~= rb);
        assert(ra == rb);
        assert(a.len() == b.len());
        assert forall|k: int| 0 <= k < a.len() implies a[k] == b[k] by {
            assert(ra[k] == rb[k]);
            assert(a[k] == '.' || crate::text::is_ascii_digit(a[k]));
            assert(b[k] == '.' || crate::text::is_ascii_digit(b[k]));
        }
        assert(a =~= b);
    }
}

} // verus!
