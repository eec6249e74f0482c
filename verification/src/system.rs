//! Hardware facts used to size the JVM, and the parsers for the raw tables
//! Windows hands back (SMBIOS memory devices, processor information records)
//! and the hardware names read from the registry.

use vstd::prelude::*;

use crate::text::{
    append_chars, contains, contains_chars, decimal, decimal_chars, eq_ignore_ascii_case,
    eq_ignore_ascii_case_chars, from_chars, is_white_space, lower_chars, lower_text, starts_with,
    starts_with_chars, to_chars, trim, trim_chars,
};

verus! {

/// Memory bandwidth tier used for G1 tuning.
#[derive(Debug, Clone, Copy, PartialEq, Eq, Structural)]
pub enum MemTier {
    Slow,
    Mid,
}

pub open spec fn tier_name(t: MemTier) -> Seq<char> {
    match t {
        MemTier::Slow => "slow"@,
        MemTier::Mid => "mid"@,
    }
}

impl MemTier {
    pub fn as_str(self) -> (r: &'static str)
        ensures
            r@ == tier_name(self),
    {
        match self {
            MemTier::Slow => "slow",
            MemTier::Mid => "mid",
        }
    }
}

/// What the host reports about its hardware.
pub struct SystemInfo {
    pub total_ram: u64,
    pub free_ram: u64,
    /// Physical cores (without SMT siblings).
    pub cpu_cores: usize,
    /// Logical threads; drives the GC thread counts.
    pub cpu_threads: usize,
    /// Largest unified L3 cache of one core complex, in MB.
    pub l3_cache_mb: usize,
    /// Highest configured memory clock from SMBIOS, MT/s (0 = unknown).
    pub mem_speed_mts: usize,
    pub large_pages: bool,
    pub large_page_size: u64,
    pub cpu_name: String,
    pub gpu_name: String,
}

pub const GIB: u64 = 1073741824;

pub open spec fn mem_tier_of(mem_speed_mts: usize) -> MemTier {
    if mem_speed_mts > 0 && mem_speed_mts <= 2933 {
        MemTier::Slow
    } else {
        MemTier::Mid
    }
}

impl SystemInfo {
    /// Whole GiB of physical memory.
    pub fn total_gb(&self) -> (r: u64)
        ensures
            r == self.total_ram / GIB,
    {
        self.total_ram / GIB
    }

    /// Whole GiB of free memory.
    pub fn free_gb(&self) -> (r: u64)
        ensures
            r == self.free_ram / GIB,
    {
        self.free_ram / GIB
    }

    /// X3D-class CPU: at least 64 MB of L3 per core complex.
    pub fn has_big_cache(&self) -> (r: bool)
        ensures
            r == (self.l3_cache_mb >= 64),
    {
        self.l3_cache_mb >= 64
    }

    /// Slow memory is a known clock of at most 2933 MT/s; everything else,
    /// unknown included, is mid.
    pub fn mem_tier(&self) -> (r: MemTier)
        ensures
            r == mem_tier_of(self.mem_speed_mts),
    {
        if self.mem_speed_mts > 0 && self.mem_speed_mts <= 2933 {
            MemTier::Slow
        } else {
            MemTier::Mid
        }
    }

    /// One-line summary; the two memory sizes arrive already printed with
    /// one decimal.
    pub fn describe(&self, total_gb_text: &str, free_gb_text: &str) -> (r: String)
        ensures
            r@ == describe_of(self, total_gb_text@, free_gb_text@),
    {
        let head = self.describe_head(total_gb_text, free_gb_text);
        let l3 = self.describe_l3();
        let lp = self.describe_large_pages();
        let mem = self.describe_mem();
        let mut s = head;
        append_chars(&mut s, l3.as_slice());
        append_chars(&mut s, lp.as_slice());
        append_chars(&mut s, mem.as_slice());
        from_chars(s.as_slice())
    }

    fn describe_head(&self, total_gb_text: &str, free_gb_text: &str) -> (r: Vec<char>)
        ensures
            r@ == decimal(self.cpu_cores as nat) + " cores, "@ + total_gb_text@ + " GB RAM ("@
                + free_gb_text@ + " GB free)"@,
    {
        let mut s: Vec<char> = decimal_chars(self.cpu_cores as u64);
        append_chars(&mut s, to_chars(" cores, ").as_slice());
        append_chars(&mut s, to_chars(total_gb_text).as_slice());
        append_chars(&mut s, to_chars(" GB RAM (").as_slice());
        append_chars(&mut s, to_chars(free_gb_text).as_slice());
        append_chars(&mut s, to_chars(" GB free)").as_slice());
        s
    }

    fn describe_l3(&self) -> (r: Vec<char>)
        ensures
            r@ == describe_l3_of(self),
    {
        let mut s: Vec<char> = Vec::new();
        if self.l3_cache_mb > 0 {
            append_chars(&mut s, to_chars(", L3 ").as_slice());
            append_chars(&mut s, decimal_chars(self.l3_cache_mb as u64).as_slice());
            append_chars(&mut s, to_chars(" MB").as_slice());
        }
        s
    }

    fn describe_large_pages(&self) -> (r: Vec<char>)
        ensures
            r@ == describe_large_pages_of(self),
    {
        let mut s: Vec<char> = Vec::new();
        if self.large_pages {
            if self.large_page_size > 0 {
                append_chars(&mut s, to_chars(", large pages (").as_slice());
                append_chars(&mut s, decimal_chars(self.large_page_size / 1048576).as_slice());
                append_chars(&mut s, to_chars(" MB)").as_slice());
            } else {
                append_chars(&mut s, to_chars(", large pages available").as_slice());
            }
        }
        s
    }

    fn describe_mem(&self) -> (r: Vec<char>)
        ensures
            r@ == describe_mem_of(self),
    {
        let mut s: Vec<char> = Vec::new();
        if self.mem_speed_mts > 0 {
            append_chars(&mut s, to_chars(", mem ").as_slice());
            append_chars(&mut s, decimal_chars(self.mem_speed_mts as u64).as_slice());
            append_chars(&mut s, to_chars(" MT/s (").as_slice());
            append_chars(&mut s, to_chars(self.mem_tier().as_str()).as_slice());
            append_chars(&mut s, to_chars(")").as_slice());
        }
        s
    }
}

pub open spec fn describe_l3_of(sys: &SystemInfo) -> Seq<char> {
    if sys.l3_cache_mb > 0 {
        ", L3 "@ + decimal(sys.l3_cache_mb as nat) + " MB"@
    } else {
        Seq::<char>::empty()
    }
}

pub open spec fn describe_large_pages_of(sys: &SystemInfo) -> Seq<char> {
    if sys.large_pages {
        if sys.large_page_size > 0 {
            ", large pages ("@ + decimal((sys.large_page_size / 1048576) as nat) + " MB)"@
        } else {
            ", large pages available"@
        }
    } else {
        Seq::<char>::empty()
    }
}

pub open spec fn describe_mem_of(sys: &SystemInfo) -> Seq<char> {
    if sys.mem_speed_mts > 0 {
        ", mem "@ + decimal(sys.mem_speed_mts as nat) + " MT/s ("@ + tier_name(
            mem_tier_of(sys.mem_speed_mts),
        ) + ")"@
    } else {
        Seq::<char>::empty()
    }
}

/// The summary line: cores and memory, then the L3 size, large pages and
/// memory clock when known.
pub open spec fn describe_of(sys: &SystemInfo, total: Seq<char>, free: Seq<char>) -> Seq<char> {
    decimal(sys.cpu_cores as nat) + " cores, "@ + total + " GB RAM ("@ + free + " GB free)"@
        + describe_l3_of(sys) + describe_large_pages_of(sys) + describe_mem_of(sys)
}


// ───────────────────────── raw table readers ─────────────────────────

/// Little-endian 16-bit value at `i`.
pub open spec fn le16(b: Seq<u8>, i: int) -> int {
    b[i] + 256 * b[i + 1]
}

/// Little-endian 32-bit value at `i`.
pub open spec fn le32(b: Seq<u8>, i: int) -> int {
    b[i] + 256 * b[i + 1] + 65536 * b[i + 2] + 16777216 * b[i + 3]
}

fn read_le16(b: &[u8], i: usize) -> (r: u32)
    requires
        i + 2 <= b@.len(),
    ensures
        r == le16(b@, i as int),
{
    b[i] as u32 + 256 * (b[i + 1] as u32)
}

fn read_le32(b: &[u8], i: usize) -> (r: u32)
    requires
        i + 4 <= b@.len(),
    ensures
        r == le32(b@, i as int),
{
    b[i] as u32 + 256 * (b[i + 1] as u32) + 65536 * (b[i + 2] as u32) + 16777216 * (b[i
        + 3] as u32)
}

/// A configured speed field: a plain value, or `0xFFFF` pointing at the
/// 32-bit extended field at `ext` (when the record is long enough).
pub open spec fn speed_field(rec: Seq<u8>, at: int, ext: int) -> Option<int> {
    let v = le16(rec, at);
    if v != 0 && v != 0xFFFF {
        Some(v)
    } else if rec.len() >= ext + 4 && v == 0xFFFF && le32(rec, ext) != 0 {
        Some(le32(rec, ext))
    } else {
        None
    }
}

/// Speed of an SMBIOS type-17 (memory device) record in MT/s: the
/// configured clock (offset 0x20, extended at 0x58), else the rated speed
/// (offset 0x15, extended at 0x54); `None` for an empty slot or a short
/// record.
pub open spec fn mem_speed_of(rec: Seq<u8>) -> Option<int> {
    if rec.len() < 0x0E || le16(rec, 0x0C) == 0 {
        None
    } else {
        let configured = if rec.len() >= 0x22 {
            speed_field(rec, 0x20, 0x58)
        } else {
            None
        };
        match configured {
            Some(v) => Some(v),
            None => if rec.len() >= 0x17 {
                speed_field(rec, 0x15, 0x54)
            } else {
                None
            },
        }
    }
}

fn read_speed_field(rec: &[u8], at: usize, ext: usize) -> (r: Option<usize>)
    requires
        at + 2 <= rec@.len(),
        ext <= 0x100,
    ensures
        opt_usize(r) == speed_field(rec@, at as int, ext as int),
{
    let v = read_le16(rec, at);
    if v != 0 && v != 0xFFFF {
        return Some(v as usize);
    }
    if rec.len() >= ext + 4 && v == 0xFFFF {
        let e = read_le32(rec, ext);
        if e != 0 {
            return Some(e as usize);
        }
    }
    None
}

pub open spec fn opt_usize(o: Option<usize>) -> Option<int> {
    match o {
        Some(v) => Some(v as int),
        None => None,
    }
}

/// Speed of one SMBIOS memory-device record.
pub fn mem_device_speed_mts(rec: &[u8]) -> (r: Option<usize>)
    ensures
        opt_usize(r) == mem_speed_of(rec@),
{
    if rec.len() < 0x0E {
        return None;
    }
    let size = read_le16(rec, 0x0C);
    if size == 0 {
        return None;
    }
    if rec.len() >= 0x22 {
        match read_speed_field(rec, 0x20, 0x58) {
            Some(v) => {
                return Some(v);
            },
            None => {},
        }
    }
    if rec.len() >= 0x17 {
        return read_speed_field(rec, 0x15, 0x54);
    }
    None
}

/// First index at or after `p` that starts a double NUL (the end of a
/// structure's string set), or the last index when there is none.
pub open spec fn strings_end(t: Seq<u8>, p: int) -> int
    decreases t.len() - p,
{
    if p + 1 < t.len() && !(t[p] == 0 && t[p + 1] == 0) {
        strings_end(t, p + 1)
    } else {
        p
    }
}

/// Walk over the SMBIOS structure table from `off`, keeping the highest
/// memory-device speed; stops at a malformed header or the end-of-table
/// structure (type 127).
pub open spec fn smbios_walk(t: Seq<u8>, off: int, best: int) -> int
    decreases t.len() + 2 - off,
{
    if off < 0 || off + 4 > t.len() {
        best
    } else {
        let typ = t[off];
        let length = t[off + 1] as int;
        if length < 4 || off + length > t.len() {
            best
        } else {
            let best2 = if typ == 17 {
                match mem_speed_of(t.subrange(off, off + length)) {
                    Some(s) => if s > best {
                        s
                    } else {
                        best
                    },
                    None => best,
                }
            } else {
                best
            };
            if typ == 127 {
                best2
            } else {
                proof {
                    lemma_strings_end_bounds(t, off + length);
                }
                smbios_walk(t, strings_end(t, off + length) + 2, best2)
            }
        }
    }
}

/// Highest memory speed in a raw SMBIOS firmware table (8-byte header, then
/// the structure table); 0 when unknown.
pub open spec fn smbios_mem_speed_of(buf: Seq<u8>) -> int {
    if buf.len() < 8 {
        0
    } else {
        let tl = le32(buf, 4);
        if tl == 0 || 8 + tl > buf.len() {
            0
        } else {
            smbios_walk(buf.subrange(8, 8 + tl), 0, 0)
        }
    }
}

pub proof fn lemma_strings_end_bounds(t: Seq<u8>, p: int)
    requires
        0 <= p <= t.len(),
    ensures
        p <= strings_end(t, p) <= t.len(),
    decreases t.len() - p,
{
    if p + 1 < t.len() && !(t[p] == 0 && t[p + 1] == 0) {
        lemma_strings_end_bounds(t, p + 1);
    }
}

fn sub_bytes(b: &[u8], from: usize, to: usize) -> (r: Vec<u8>)
    requires
        from <= to <= b@.len(),
    ensures
        r@ == b@.subrange(from as int, to as int),
{
    let mut r: Vec<u8> = Vec::new();
    let mut i = from;
    while i < to
        invariant
            from <= i <= to <= b@.len(),
            r@ == b@.subrange(from as int, i as int),
        decreases to - i,
    {
        r.push(b[i]);
        assert(r@ =~= b@.subrange(from as int, i + 1));
        i = i + 1;
    }
    r
}

fn smbios_walk_exec(t: &[u8]) -> (r: usize)
    ensures
        r == smbios_walk(t@, 0, 0),
{
    let len = t.len();
    let mut off: usize = 0;
    let mut best: usize = 0;
    loop
        invariant
            len == t@.len(),
            off <= len,
            smbios_walk(t@, 0, 0) == smbios_walk(t@, off as int, best as int),
        decreases len - off,
    {
        if len - off < 4 {
            return best;
        }
        let typ = t[off];
        let length = t[off + 1] as usize;
        if length < 4 || length > len - off {
            return best;
        }
        let mut best2 = best;
        if typ == 17 {
            let rec = sub_bytes(t, off, off + length);
            match mem_device_speed_mts(rec.as_slice()) {
                Some(s) => {
                    if s > best {
                        best2 = s;
                    }
                },
                None => {},
            }
        }
        if typ == 127 {
            return best2;
        }
        let mut p = off + length;
        proof {
            lemma_strings_end_bounds(t@, p as int);
        }
        while p < len - 1 && !(t[p] == 0 && t[p + 1] == 0)
            invariant
                len == t@.len(),
                len >= 4,
                off + length <= p <= len,
                strings_end(t@, (off + length) as int) == strings_end(t@, p as int),
            decreases len - p,
        {
            p = p + 1;
        }
        assert(strings_end(t@, (off + length) as int) == p);
        assert(smbios_walk(t@, off as int, best as int) == smbios_walk(t@, p + 2, best2 as int));
        if p > len - 2 {
            return best2;
        }
        off = p + 2;
        best = best2;
    }
}

/// Highest memory speed found in the raw SMBIOS firmware table.
pub fn smbios_mem_speed(buf: &[u8]) -> (r: usize)
    ensures
        r == smbios_mem_speed_of(buf@),
{
    if buf.len() < 8 {
        return 0;
    }
    let tl = read_le32(buf, 4) as usize;
    if tl == 0 || tl > buf.len() - 8 {
        return 0;
    }
    let table = sub_bytes(buf, 8, 8 + tl);
    smbios_walk_exec(table.as_slice())
}

/// The bytes of an optional buffer.
pub open spec fn bytes_view(o: Option<Vec<u8>>) -> Option<Seq<u8>> {
    match o {
        Some(b) => Some(b@),
        None => None,
    }
}

/// Number of processor-core records in a `RelationProcessorCore` buffer
/// from `off`: each record's size is at offset 4; a zero size or a record
/// header past the end stops the count.
pub open spec fn core_records_from(b: Seq<u8>, off: int) -> int
    decreases b.len() - off,
{
    if off < 0 || off + 8 > b.len() {
        0
    } else {
        let size = le32(b, off + 4);
        if size == 0 {
            0
        } else if off + size > b.len() {
            1
        } else {
            1 + core_records_from(b, off + size)
        }
    }
}

/// Physical cores: the record count, or `fallback` (the logical thread
/// count) when the buffer is missing or holds no record.
pub open spec fn physical_cores_of(buf: Option<Seq<u8>>, fallback: int) -> int {
    match buf {
        None => fallback,
        Some(b) => if core_records_from(b, 0) == 0 {
            fallback
        } else {
            core_records_from(b, 0)
        },
    }
}

fn count_core_records(b: &[u8]) -> (r: usize)
    ensures
        r == core_records_from(b@, 0),
{
    let len = b.len();
    let mut off: usize = 0;
    let mut cores: usize = 0;
    loop
        invariant
            len == b@.len(),
            off <= len,
            cores <= off,
            core_records_from(b@, 0) == cores + core_records_from(b@, off as int),
        decreases len - off,
    {
        if len - off < 8 {
            return cores;
        }
        let size = read_le32(b, off + 4) as usize;
        if size == 0 {
            return cores;
        }
        if size > len - off {
            return cores + 1;
        }
        cores = cores + 1;
        off = off + size;
    }
}

pub fn physical_cores(buf: &Option<Vec<u8>>, fallback: usize) -> (r: usize)
    ensures
        r == physical_cores_of(bytes_view(*buf), fallback as int),
{
    match buf {
        None => fallback,
        Some(b) => {
            let cores = count_core_records(b.as_slice());
            if cores == 0 {
                fallback
            } else {
                cores
            }
        },
    }
}

/// Largest unified level-3 cache (bytes) in a `RelationCache` buffer from
/// `off`: records carry their size at 4, the level at 8, the cache size at
/// 12 and the type at 16 (0 = unified).
pub open spec fn l3_max_from(b: Seq<u8>, off: int, max: int) -> int
    decreases b.len() - off,
{
    if off < 0 || off + 20 > b.len() {
        max
    } else {
        let size = le32(b, off + 4);
        if size == 0 || off + size > b.len() {
            max
        } else {
            let m2 = if b[off + 8] == 3 && le32(b, off + 16) == 0 && le32(b, off + 12) > max {
                le32(b, off + 12)
            } else {
                max
            };
            l3_max_from(b, off + size, m2)
        }
    }
}

/// L3 cache per core complex in MB (0 when unknown).
pub open spec fn l3_cache_mb_of(buf: Option<Seq<u8>>) -> int {
    match buf {
        None => 0,
        Some(b) => l3_max_from(b, 0, 0) / 1048576,
    }
}

pub fn l3_cache_mb(buf: &Option<Vec<u8>>) -> (r: usize)
    ensures
        r == l3_cache_mb_of(bytes_view(*buf)),
{
    match buf {
        None => 0,
        Some(b) => {
            let len = b.len();
            let mut off: usize = 0;
            let mut max: u64 = 0;
            loop
                invariant
                    bytes_view(*buf) == Some(b@),
                    len == b@.len(),
                    max <= u32::MAX,
                    l3_max_from(b@, 0, 0) == l3_max_from(b@, off as int, max as int),
                decreases len + 1 - off,
            {
                if off >= len || len - off < 20 {
                    return (max / 1048576) as usize;
                }
                let size = read_le32(b.as_slice(), off + 4) as usize;
                if size == 0 || size > len - off {
                    return (max / 1048576) as usize;
                }
                let level = b[off + 8];
                let cache_size = read_le32(b.as_slice(), off + 12) as u64;
                let cache_type = read_le32(b.as_slice(), off + 16);
                if level == 3 && cache_type == 0 && cache_size > max {
                    max = cache_size;
                }
                off = off + size;
            }
        },
    }
}

// ───────────────────────── hardware names ─────────────────────────

/// Trimmed, with runs of spaces shortened to one.
pub open spec fn clean_name_of(s: Seq<char>) -> Seq<char> {
    crate::text::collapse_runs(trim(s), ' ')
}

pub fn clean_hardware_name(s: &str) -> (r: String)
    ensures
        r@ == clean_name_of(s@),
{
    let c = to_chars(s);
    let t = trim_chars(c.as_slice(), false);
    from_chars(crate::text::collapse_chars(t.as_slice(), ' ').as_slice())
}

/// Placeholder CPU descriptions (`Intel64 Family …`, `AMD64 Family …`,
/// `x86 Family …`, `unknown`) that are no model name.
pub open spec fn is_generic_cpu_of(s: Seq<char>) -> bool {
    let t = trim(s);
    starts_with(t, "Intel64 Family"@) || starts_with(t, "AMD64 Family"@) || starts_with(
        t,
        "x86 Family"@,
    ) || eq_ignore_ascii_case(t, "unknown"@)
}

pub fn is_generic_cpu_identifier(s: &str) -> (r: bool)
    ensures
        r == is_generic_cpu_of(s@),
{
    let c = to_chars(s);
    let t = trim_chars(c.as_slice(), false);
    starts_with_chars(t.as_slice(), to_chars("Intel64 Family").as_slice()) || starts_with_chars(
        t.as_slice(),
        to_chars("AMD64 Family").as_slice(),
    ) || starts_with_chars(t.as_slice(), to_chars("x86 Family").as_slice())
        || eq_ignore_ascii_case_chars(t.as_slice(), to_chars("unknown").as_slice())
}

/// A registry CPU name worth showing: not blank and no placeholder; cleaned.
pub fn usable_cpu_name(s: &Option<String>) -> (r: Option<String>)
    ensures
        match s.deep_view() {
            Some(v) => if trim(v).len() > 0 && !is_generic_cpu_of(v) {
                r.deep_view() == Some(clean_name_of(v))
            } else {
                r is None
            },
            None => r is None,
        },
{
    match s {
        Some(v) => {
            let c = to_chars(v.as_str());
            let t = trim_chars(c.as_slice(), false);
            if t.len() > 0 && !is_generic_cpu_identifier(v.as_str()) {
                Some(clean_hardware_name(v.as_str()))
            } else {
                None
            }
        },
        None => None,
    }
}

pub open spec fn is_hex_digit(c: char) -> bool {
    ('0' <= c && c <= '9') || ('a' <= c && c <= 'f') || ('A' <= c && c <= 'F')
}

/// A display-class subkey name: exactly four hex digits (`0000`, `0001`, …).
pub open spec fn is_display_subkey_of(name: Seq<char>) -> bool {
    name.len() == 4 && forall|i: int| 0 <= i < 4 ==> is_hex_digit(#[trigger] name[i])
}

pub fn is_display_class_subkey(name: &str) -> (r: bool)
    ensures
        r == is_display_subkey_of(name@),
{
    let c = to_chars(name);
    if c.len() != 4 {
        return false;
    }
    let mut i: usize = 0;
    while i < 4
        invariant
            c@ == name@,
            c@.len() == 4,
            i <= 4,
            forall|k: int| 0 <= k < i ==> is_hex_digit(#[trigger] c@[k]),
        decreases 4 - i,
    {
        let x = c[i];
        if !(('0' <= x && x <= '9') || ('a' <= x && x <= 'f') || ('A' <= x && x <= 'F')) {
            return false;
        }
        i = i + 1;
    }
    true
}

/// Value of one hex digit.
pub open spec fn hex_value(c: char) -> int {
    if '0' <= c && c <= '9' {
        c as int - '0' as int
    } else if 'a' <= c && c <= 'f' {
        c as int - 'a' as int + 10
    } else {
        c as int - 'A' as int + 10
    }
}

/// Number written by a display-class subkey name.
pub open spec fn subkey_ordinal_of(name: Seq<char>) -> int {
    hex_value(name[0]) * 4096 + hex_value(name[1]) * 256 + hex_value(name[2]) * 16 + hex_value(
        name[3],
    )
}

fn hex_digit_value(c: char) -> (r: u32)
    requires
        is_hex_digit(c),
    ensures
        r == hex_value(c),
        r < 16,
{
    if '0' <= c && c <= '9' {
        (c as u32) - ('0' as u32)
    } else if 'a' <= c && c <= 'f' {
        (c as u32) - ('a' as u32) + 10
    } else {
        (c as u32) - ('A' as u32) + 10
    }
}

/// A driver description that names a real adapter (not blank, not the
/// Microsoft basic render/display driver).
pub open spec fn gpu_desc_usable_of(s: Seq<char>) -> bool {
    let t = lower_text(trim(s));
    t.len() > 0 && !contains(t, "microsoft basic render"@) && !contains(
        t,
        "microsoft basic display"@,
    )
}

pub fn gpu_driver_desc_usable(s: &str) -> (r: bool)
    ensures
        r == gpu_desc_usable_of(s@),
{
    let c = to_chars(s);
    let t = trim_chars(c.as_slice(), false);
    let l = lower_chars(from_chars(t.as_slice()).as_str());
    l.len() > 0 && !contains_chars(l.as_slice(), to_chars("microsoft basic render").as_slice())
        && !contains_chars(l.as_slice(), to_chars("microsoft basic display").as_slice())
}

/// A display-class subkey and the `DriverDesc` value read under it.
pub struct GpuCandidate {
    pub subkey: String,
    pub desc: Option<String>,
}

/// Candidate `i` has a display-class subkey and a usable description.
pub open spec fn gpu_usable(c: GpuCandidate) -> bool {
    is_display_subkey_of(c.subkey@) && (c.desc.deep_view() matches Some(d)
        && gpu_desc_usable_of(d))
}

/// Index of the usable candidate with the highest subkey number among the
/// first `n` (the last one among equals), if any.
pub open spec fn best_gpu(cs: Seq<GpuCandidate>, n: int) -> Option<int>
    decreases n,
{
    if n <= 0 {
        None
    } else {
        let prev = best_gpu(cs, n - 1);
        if gpu_usable(cs[n - 1]) && (prev matches Some(b) ==> subkey_ordinal_of(cs[n - 1].subkey@)
            >= subkey_ordinal_of(cs[b].subkey@)) {
            Some(n - 1)
        } else {
            prev
        }
    }
}

/// Index of the first display-class candidate with a non-blank description
/// at or after `i`.
pub open spec fn first_described(cs: Seq<GpuCandidate>, i: int) -> Option<int>
    decreases cs.len() - i,
{
    if i < 0 || i >= cs.len() {
        None
    } else if is_display_subkey_of(cs[i].subkey@) && (cs[i].desc.deep_view() matches Some(d)
        && trim(d).len() > 0) {
        Some(i)
    } else {
        first_described(cs, i + 1)
    }
}

/// GPU name from the display-class candidates: the usable adapter with the
/// highest subkey number, else the first described adapter; cleaned.
pub open spec fn gpu_name_of(cs: Seq<GpuCandidate>) -> Option<Seq<char>> {
    match best_gpu(cs, cs.len() as int) {
        Some(b) => Some(clean_name_of(cs[b].desc.deep_view()->0)),
        None => match first_described(cs, 0) {
            Some(f) => Some(clean_name_of(cs[f].desc.deep_view()->0)),
            None => None,
        },
    }
}

proof fn lemma_best_gpu_usable(cs: Seq<GpuCandidate>, n: int)
    requires
        n <= cs.len(),
    ensures
        best_gpu(cs, n) matches Some(b) ==> 0 <= b < n && gpu_usable(cs[b]),
    decreases n,
{
    if n > 0 {
        lemma_best_gpu_usable(cs, n - 1);
    }
}

fn subkey_ordinal(name: &str) -> (r: u32)
    requires
        is_display_subkey_of(name@),
    ensures
        r == subkey_ordinal_of(name@),
{
    let c = to_chars(name);
    let a = hex_digit_value(c[0]);
    let b = hex_digit_value(c[1]);
    let x = hex_digit_value(c[2]);
    let y = hex_digit_value(c[3]);
    a * 4096 + b * 256 + x * 16 + y
}

pub fn gpu_name_from(cs: &Vec<GpuCandidate>) -> (r: Option<String>)
    ensures
        r.deep_view() == gpu_name_of(cs@),
{
    let mut best: Option<usize> = None;
    let mut best_ord: u32 = 0;
    let mut i: usize = 0;
    while i < cs.len()
        invariant
            i <= cs@.len(),
            best_gpu(cs@, i as int) == opt_usize(best),
            best matches Some(b) ==> b < i && best_ord == subkey_ordinal_of(cs@[b as int].subkey@),
        decreases cs@.len() - i,
    {
        let c = &cs[i];
        if is_display_class_subkey(c.subkey.as_str()) {
            match &c.desc {
                Some(d) => {
                    if gpu_driver_desc_usable(d.as_str()) {
                        let ord = subkey_ordinal(c.subkey.as_str());
                        let better = match best {
                            Some(_) => ord >= best_ord,
                            None => true,
                        };
                        if better {
                            best = Some(i);
                            best_ord = ord;
                        }
                    }
                },
                None => {},
            }
        }
        i = i + 1;
    }
    proof {
        lemma_best_gpu_usable(cs@, cs@.len() as int);
    }
    match best {
        Some(b) => {
            match &cs[b].desc {
                Some(d) => {
                    return Some(clean_hardware_name(d.as_str()));
                },
                None => {
                    return None;
                },
            }
        },
        None => {},
    }
    let mut j: usize = 0;
    while j < cs.len()
        invariant
            best_gpu(cs@, cs@.len() as int) is None,
            j <= cs@.len(),
            first_described(cs@, 0) == first_described(cs@, j as int),
        decreases cs@.len() - j,
    {
        let c = &cs[j];
        if is_display_class_subkey(c.subkey.as_str()) {
            match &c.desc {
                Some(d) => {
                    let dc = to_chars(d.as_str());
                    if trim_chars(dc.as_slice(), false).len() > 0 {
                        return Some(clean_hardware_name(d.as_str()));
                    }
                },
                None => {},
            }
        }
        j = j + 1;
    }
    None
}

// ───────────────────────── assembling the hardware report ─────────────────────────

/// What the host read from the operating system, unparsed.
pub struct HardwareProbe {
    pub total_ram: u64,
    pub free_ram: u64,
    /// `GetLargePageMinimum` (0 = large pages unsupported).
    pub large_page_minimum: u64,
    /// The process holds `SeLockMemoryPrivilege`.
    pub lock_memory_privilege: bool,
    /// `RelationProcessorCore` records, when the query succeeded.
    pub core_records: Option<Vec<u8>>,
    /// Logical processors the OS reports (4 when unknown).
    pub logical_threads: usize,
    /// `RelationCache` records, when the query succeeded.
    pub cache_records: Option<Vec<u8>>,
    /// The raw SMBIOS firmware table, when it could be read.
    pub smbios: Option<Vec<u8>>,
    pub cpu_name: String,
    pub gpu_name: String,
}

/// The hardware report: large pages count only with the privilege to lock
/// memory, cores fall back to the logical threads, unknown speeds are 0.
pub fn system_info_from(p: &HardwareProbe) -> (r: SystemInfo)
    ensures
        r.total_ram == p.total_ram,
        r.free_ram == p.free_ram,
        r.large_pages == (p.large_page_minimum > 0 && p.lock_memory_privilege),
        r.large_page_size == p.large_page_minimum,
        r.cpu_cores == physical_cores_of(bytes_view(p.core_records), p.logical_threads as int),
        r.cpu_threads == p.logical_threads,
        r.l3_cache_mb == l3_cache_mb_of(bytes_view(p.cache_records)),
        r.mem_speed_mts == match bytes_view(p.smbios) {
            Some(b) => smbios_mem_speed_of(b),
            None => 0,
        },
        r.cpu_name@ == p.cpu_name@,
        r.gpu_name@ == p.gpu_name@,
{
    let large = p.large_page_minimum > 0 && p.lock_memory_privilege;
    let speed = match &p.smbios {
        Some(b) => smbios_mem_speed(b.as_slice()),
        None => 0,
    };
    SystemInfo {
        total_ram: p.total_ram,
        free_ram: p.free_ram,
        cpu_cores: physical_cores(&p.core_records, p.logical_threads),
        cpu_threads: p.logical_threads,
        l3_cache_mb: l3_cache_mb(&p.cache_records),
        mem_speed_mts: speed,
        large_pages: large,
        large_page_size: p.large_page_minimum,
        cpu_name: p.cpu_name.clone(),
        gpu_name: p.gpu_name.clone(),
    }
}

} // verus!
