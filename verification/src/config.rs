//! JVM tuning profiles: the profile model, the profile generated from the
//! hardware, the listing of the profiles folder and the decisions taken
//! while loading the active profile.

use vstd::prelude::*;

use crate::paths::{configs_dir, path_join, wrapper_home_of, HostEnv};
use crate::system::{mem_tier_of, MemTier, SystemInfo, GIB};

verus! {

/// A JVM tuning profile (one `configs/<name>.json`).
///
/// `compile_threshold_scaling_text` is the factor as it prints, and
/// `compile_threshold_scaling_applies` tells whether it is positive and not 1
/// (only then is a flag emitted for it).
pub struct Config {
    pub heap_size_gb: u64,
    pub pre_touch: bool,
    pub metaspace_mb: u64,
    pub max_gc_pause_millis: u64,
    pub g1_heap_region_size_mb: u64,
    pub g1_new_size_percent: u64,
    pub g1_max_new_size_percent: u64,
    pub g1_reserve_percent: u64,
    pub g1_heap_waste_percent: u64,
    pub g1_mixed_gc_count_target: u64,
    pub initiating_heap_occupancy_percent: u64,
    pub g1_mixed_gc_live_threshold_percent: u64,
    pub g1_rset_updating_pause_time_percent: u64,
    pub survivor_ratio: u64,
    pub max_tenuring_threshold: u64,
    pub g1_satb_buffer_enqueuing_threshold_percent: u64,
    pub g1_conc_rs_hot_card_limit: u64,
    pub g1_conc_refinement_service_interval_millis: u64,
    pub gc_time_ratio: u64,
    pub use_dynamic_number_of_gc_threads: bool,
    pub use_string_deduplication: bool,
    pub parallel_gc_threads: u64,
    pub conc_gc_threads: u64,
    pub soft_ref_lru_policy_ms_per_mb: u64,
    pub reserved_code_cache_size_mb: u64,
    pub max_inline_level: u64,
    pub freq_inline_size: u64,
    pub inline_small_code: u64,
    pub max_node_limit: u64,
    pub node_limit_fudge_factor: u64,
    pub nmethod_sweep_activity: u64,
    pub dont_compile_huge_methods: bool,
    pub allocate_prefetch_style: u64,
    pub always_act_as_server_class: bool,
    pub use_xmm_for_array_copy: bool,
    pub use_fpu_for_spilling: bool,
    pub use_large_pages: bool,
    pub large_page_size_mb: u64,
    pub reflection_inflation_threshold: i64,
    pub auto_box_cache_max: u64,
    pub use_thread_priorities: bool,
    pub thread_priority_policy: u64,
    pub use_counter_decay: bool,
    pub compile_threshold_scaling_text: String,
    pub compile_threshold_scaling_applies: bool,
}

/// Heap size in GB for the installed memory.
pub open spec fn heap_for(total_gb: u64) -> u64 {
    if total_gb >= 24 {
        8
    } else if total_gb >= 16 {
        6
    } else if total_gb >= 12 {
        5
    } else if total_gb >= 8 {
        4
    } else if total_gb >= 6 {
        3
    } else {
        2
    }
}

pub open spec fn clamp_of(v: int, lo: int, hi: int) -> int {
    let m = if v > lo {
        v
    } else {
        lo
    };
    if m < hi {
        m
    } else {
        hi
    }
}

/// Parallel GC threads: logical threads minus two, kept within 2..=10.
pub open spec fn parallel_for(threads: usize) -> int {
    clamp_of(if threads >= 2 {
        threads - 2
    } else {
        0
    }, 2, 10)
}

/// Concurrent GC threads: half the parallel ones, kept within 1..=5.
pub open spec fn concurrent_for(threads: usize) -> int {
    clamp_of(parallel_for(threads) / 2, 1, 5)
}

/// G1 region size in MB.
pub open spec fn region_for(heap_gb: u64) -> u64 {
    if heap_gb <= 3 {
        4
    } else if heap_gb <= 5 {
        8
    } else {
        16
    }
}

/// The profile `generate` builds for `sys`.
pub open spec fn generated_from(cfg: Config, sys: &SystemInfo) -> bool {
    let tier = mem_tier_of(sys.mem_speed_mts);
    let slow = tier == MemTier::Slow;
    let heap = heap_for((sys.total_ram / GIB) as u64);
    &&& cfg.heap_size_gb == heap
    &&& cfg.pre_touch == (sys.total_ram / GIB >= 12)
    &&& cfg.metaspace_mb == 512
    &&& cfg.max_gc_pause_millis == (if slow {
        150u64
    } else {
        100
    })
    &&& cfg.g1_heap_region_size_mb == region_for(heap)
    &&& cfg.g1_new_size_percent == (if slow {
        30u64
    } else {
        33
    })
    &&& cfg.g1_max_new_size_percent == 50
    &&& cfg.g1_reserve_percent == 15
    &&& cfg.g1_heap_waste_percent == 10
    &&& cfg.g1_mixed_gc_count_target == (if slow {
        4u64
    } else {
        6
    })
    &&& cfg.initiating_heap_occupancy_percent == 25
    &&& cfg.g1_mixed_gc_live_threshold_percent == 85
    &&& cfg.g1_rset_updating_pause_time_percent == (if slow {
        5u64
    } else {
        8
    })
    &&& cfg.survivor_ratio == 12
    &&& cfg.max_tenuring_threshold == 3
    &&& cfg.g1_satb_buffer_enqueuing_threshold_percent == 30
    &&& cfg.g1_conc_rs_hot_card_limit == 16
    &&& cfg.g1_conc_refinement_service_interval_millis == 150
    &&& cfg.gc_time_ratio == 99
    &&& cfg.use_dynamic_number_of_gc_threads
    &&& !cfg.use_string_deduplication
    &&& cfg.parallel_gc_threads == parallel_for(sys.cpu_threads)
    &&& cfg.conc_gc_threads == concurrent_for(sys.cpu_threads)
    &&& cfg.soft_ref_lru_policy_ms_per_mb == 50
    &&& cfg.reserved_code_cache_size_mb == 400
    &&& cfg.max_inline_level == 15
    &&& cfg.freq_inline_size == 500
    &&& cfg.inline_small_code == 4000
    &&& cfg.max_node_limit == 240000
    &&& cfg.node_limit_fudge_factor == 8000
    &&& cfg.nmethod_sweep_activity == 1
    &&& !cfg.dont_compile_huge_methods
    &&& cfg.allocate_prefetch_style == 3
    &&& cfg.always_act_as_server_class
    &&& cfg.use_xmm_for_array_copy
    &&& cfg.use_fpu_for_spilling
    &&& cfg.use_large_pages == sys.large_pages
    &&& cfg.large_page_size_mb == 0
    &&& cfg.reflection_inflation_threshold == 0
    &&& cfg.auto_box_cache_max == 4096
    &&& cfg.use_thread_priorities
    &&& cfg.thread_priority_policy == 1
    &&& !cfg.use_counter_decay
    &&& cfg.compile_threshold_scaling_text@ == "0.5"@
    &&& cfg.compile_threshold_scaling_applies
}

/// The profile tuned for the detected hardware.
pub fn generate(sys: &SystemInfo) -> (cfg: Config)
    ensures
        generated_from(cfg, sys),
{
    let heap = size_heap(sys.total_gb());
    let (parallel, concurrent) = gc_threads(sys.cpu_threads);
    let (pause_ms, mixed_count_target, rset_updating_pct, new_size_percent) = match sys.mem_tier() {
        MemTier::Slow => (150u64, 4u64, 5u64, 30u64),
        MemTier::Mid => (100, 6, 8, 33),
    };
    let ihop = 25u64;
    let soft_ref_ms = 50u64;
    let tenuring = 3u64;
    let survivor_ratio = 12u64;
    Config {
        heap_size_gb: heap,
        pre_touch: sys.total_gb() >= 12,
        metaspace_mb: 512,
        max_gc_pause_millis: pause_ms,
        g1_heap_region_size_mb: region_size(heap),
        g1_new_size_percent: new_size_percent,
        g1_max_new_size_percent: 50,
        g1_reserve_percent: 15,
        g1_heap_waste_percent: 10,
        g1_mixed_gc_count_target: mixed_count_target,
        initiating_heap_occupancy_percent: ihop,
        g1_mixed_gc_live_threshold_percent: 85,
        g1_rset_updating_pause_time_percent: rset_updating_pct,
        survivor_ratio,
        max_tenuring_threshold: tenuring,
        g1_satb_buffer_enqueuing_threshold_percent: 30,
        g1_conc_rs_hot_card_limit: 16,
        g1_conc_refinement_service_interval_millis: 150,
        gc_time_ratio: 99,
        use_dynamic_number_of_gc_threads: true,
        use_string_deduplication: false,
        parallel_gc_threads: parallel as u64,
        conc_gc_threads: concurrent as u64,
        soft_ref_lru_policy_ms_per_mb: soft_ref_ms,
        reserved_code_cache_size_mb: 400,
        max_inline_level: 15,
        freq_inline_size: 500,
        inline_small_code: 4000,
        max_node_limit: 240_000,
        node_limit_fudge_factor: 8000,
        nmethod_sweep_activity: 1,
        dont_compile_huge_methods: false,
        allocate_prefetch_style: 3,
        always_act_as_server_class: true,
        use_xmm_for_array_copy: true,
        use_fpu_for_spilling: true,
        use_large_pages: sys.large_pages,
        large_page_size_mb: 0,
        reflection_inflation_threshold: 0,
        auto_box_cache_max: 4096,
        use_thread_priorities: true,
        thread_priority_policy: 1,
        use_counter_decay: false,
        compile_threshold_scaling_text: String::from_str("0.5"),
        compile_threshold_scaling_applies: true,
    }
}

fn size_heap(total_gb: u64) -> (r: u64)
    ensures
        r == heap_for(total_gb),
{
    if total_gb >= 24 {
        8
    } else if total_gb >= 16 {
        6
    } else if total_gb >= 12 {
        5
    } else if total_gb >= 8 {
        4
    } else if total_gb >= 6 {
        3
    } else {
        2
    }
}

fn gc_threads(threads: usize) -> (r: (usize, usize))
    ensures
        r.0 == parallel_for(threads),
        r.1 == concurrent_for(threads),
{
    let parallel = clamp(threads.saturating_sub(2), 2, 10);
    let concurrent = clamp(parallel / 2, 1, 5);
    (parallel, concurrent)
}

fn region_size(heap_gb: u64) -> (r: u64)
    ensures
        r == region_for(heap_gb),
{
    if heap_gb <= 3 {
        4
    } else if heap_gb <= 5 {
        8
    } else {
        16
    }
}

fn clamp(v: usize, lo: usize, hi: usize) -> (r: usize)
    ensures
        r == clamp_of(v as int, lo as int, hi as int),
{
    let m = if v > lo {
        v
    } else {
        lo
    };
    if m < hi {
        m
    } else {
        hi
    }
}

/// The heap of a generated profile is 2 to 8 GB, at most half the installed
/// memory from 4 GB on, and exactly 8 GB from 24 GB on.
pub proof fn lemma_heap_bounds(total_gb: u64)
    ensures
        2 <= heap_for(total_gb) <= 8,
        total_gb >= 24 ==> heap_for(total_gb) == 8,
        total_gb >= 4 ==> heap_for(total_gb) * 2 <= total_gb,
        total_gb < 6 ==> heap_for(total_gb) == 2,
{
}

/// G1 regions grow with the heap: 4 MB up to a 3 GB heap, 16 MB above 5 GB,
/// 8 MB in between.
pub proof fn lemma_region_tiers(a: u64, b: u64)
    ensures
        region_for(a) == 4 || region_for(a) == 8 || region_for(a) == 16,
        a <= b ==> region_for(a) <= region_for(b),
        a <= 3 ==> region_for(a) == 4,
        a > 5 ==> region_for(a) == 16,
{
}

/// What a generated profile holds for memory: a 2 to 8 GB heap (8 GB from
/// 24 GB of memory on, at most half the memory from 4 GB on) and 16 MB G1
/// regions whenever the heap is above 5 GB.
pub proof fn lemma_generated_memory(cfg: Config, sys: &SystemInfo)
    requires
        generated_from(cfg, sys),
    ensures
        2 <= cfg.heap_size_gb <= 8,
        sys.total_ram / GIB >= 24 ==> cfg.heap_size_gb == 8,
        sys.total_ram / GIB >= 4 ==> cfg.heap_size_gb * 2 <= sys.total_ram / GIB,
        cfg.heap_size_gb > 5 ==> cfg.g1_heap_region_size_mb == 16,
        cfg.heap_size_gb <= 3 ==> cfg.g1_heap_region_size_mb == 4,
{
    lemma_heap_bounds((sys.total_ram / GIB) as u64);
    lemma_region_tiers(cfg.heap_size_gb, cfg.heap_size_gb);
}

/// More memory never yields a smaller heap.
pub proof fn lemma_heap_monotone(a: u64, b: u64)
    requires
        a <= b,
    ensures
        heap_for(a) <= heap_for(b),
{
}

/// The generated GC thread counts stay within their bounds, and the
/// concurrent threads never outnumber the parallel ones.
pub proof fn lemma_gc_threads_bounds(threads: usize)
    ensures
        2 <= parallel_for(threads) <= 10,
        1 <= concurrent_for(threads) <= 5,
        concurrent_for(threads) <= parallel_for(threads),
{
}

/// Directory of the profiles.
pub fn config_dir(env: &HostEnv) -> (r: String)
    ensures
        r@ == path_join(wrapper_home_of(env@), "configs"@),
{
    configs_dir(env)
}


/// `<configs>\<name>.json`.
pub fn config_file(env: &HostEnv, name: &str) -> (r: String)
    ensures
        r@ == path_join(path_join(wrapper_home_of(env@), "configs"@), name@ + ".json"@),
{
    let dir = config_dir(env);
    let mut file = crate::text::to_chars(name);
    crate::text::append_chars(&mut file, crate::text::to_chars(".json").as_slice());
    let f = crate::text::from_chars(file.as_slice());
    crate::paths::join_str(dir.as_str(), f.as_str())
}

/// The profile to load: the registered active name, else `default`.
pub fn requested_name(active: &Option<String>) -> (r: String)
    ensures
        r@ == match active.deep_view() {
            Some(n) => n,
            None => "default"@,
        },
{
    match active {
        Some(n) => n.clone(),
        None => String::from_str("default"),
    }
}

/// Whether loading `default` is the next step after the first attempt.
pub open spec fn needs_fallback(requested: Seq<char>, first_ok: bool) -> bool {
    !first_ok && requested != "default"@
}

pub fn needs_default_fallback(requested: &str, first: &Result<Config, String>) -> (r: bool)
    ensures
        r == needs_fallback(requested@, first is Ok),
{
    first.is_err() && !crate::text::str_eq(requested, "default")
}

/// The active profile and its name: the requested profile, else (when that
/// fails and was not `default`) the `default` profile; when both fail, the
/// first error.
pub fn load_active(
    requested: String,
    first: Result<Config, String>,
    fallback: Option<Result<Config, String>>,
) -> (r: Result<(Config, String), String>)
    requires
        fallback is Some <==> needs_fallback(requested@, first is Ok),
    ensures
        first is Ok ==> (r matches Ok((c, n)) && n@ == requested@ && Ok::<Config, String>(c)
            == first),
        first matches Err(e) ==> match fallback {
            Some(Ok(c)) => r matches Ok((d, n)) && d == c && n@ == "default"@,
            _ => r matches Err(x) && x@ == e@,
        },
{
    match first {
        Ok(c) => Ok((c, requested)),
        Err(e) => match fallback {
            Some(Ok(c)) => Ok((c, String::from_str("default"))),
            _ => Err(e),
        },
    }
}

/// The registered active profile name: the current key's value, else the
/// legacy key's value, which then has to be written to the current key
/// (the second component says so).
pub fn active_name(current: Option<String>, legacy: Option<String>) -> (r: (Option<String>, bool))
    ensures
        current is Some ==> r.0.deep_view() == current.deep_view() && !r.1,
        current is None ==> r.0.deep_view() == legacy.deep_view() && r.1 == (legacy is Some),
{
    match current {
        Some(n) => (Some(n), false),
        None => match legacy {
            Some(l) => (Some(l), true),
            None => (None, false),
        },
    }
}

// ───────────────────────── profile listing ─────────────────────────

/// Strict lexicographic order of texts by code point (the order of `str`).
pub open spec fn text_lt(a: Seq<char>, b: Seq<char>) -> bool
    decreases a.len(),
{
    if a.len() == 0 {
        b.len() > 0
    } else if b.len() == 0 {
        false
    } else if a[0] != b[0] {
        (a[0] as u32) < (b[0] as u32)
    } else {
        text_lt(a.drop_first(), b.drop_first())
    }
}

/// Split of a file name at its last dot (`Path::file_stem` /
/// `Path::extension`): no split for `..` or when the dot is the first
/// character.
pub open spec fn last_dot(name: Seq<char>, i: int) -> Option<int>
    decreases i,
{
    if i <= 0 {
        None
    } else if name[i - 1] == '.' {
        Some(i - 1)
    } else {
        last_dot(name, i - 1)
    }
}

/// The stem of a `.json` file name, if it is one.
pub open spec fn json_stem(name: Seq<char>) -> Option<Seq<char>> {
    if name == ".."@ {
        None
    } else {
        match last_dot(name, name.len() as int) {
            Some(d) => if d > 0 && name.skip(d + 1) == "json"@ {
                Some(name.take(d))
            } else {
                None
            },
            None => None,
        }
    }
}

/// Stems of the `.json` names, in the order met.
pub open spec fn json_stems(names: Seq<Seq<char>>) -> Seq<Seq<char>>
    decreases names.len(),
{
    if names.len() == 0 {
        Seq::empty()
    } else {
        let r = json_stems(names.drop_last());
        match json_stem(names.last()) {
            Some(st) => r.push(st),
            None => r,
        }
    }
}

/// Inserts `x` after every element not greater than it (stable).
pub open spec fn insert_sorted(s: Seq<Seq<char>>, x: Seq<char>) -> Seq<Seq<char>>
    decreases s.len(),
{
    if s.len() == 0 || !text_lt(x, s.last()) {
        s.push(x)
    } else {
        insert_sorted(s.drop_last(), x).push(s.last())
    }
}

pub open spec fn sort_texts(s: Seq<Seq<char>>) -> Seq<Seq<char>>
    decreases s.len(),
{
    if s.len() == 0 {
        s
    } else {
        insert_sorted(sort_texts(s.drop_last()), s.last())
    }
}

/// Profile names from the file names of the profiles folder: the stems of
/// the `.json` files, sorted.
pub open spec fn profile_names_of(names: Seq<Seq<char>>) -> Seq<Seq<char>> {
    sort_texts(json_stems(names))
}

fn text_lt_exec(a: &[char], b: &[char]) -> (r: bool)
    ensures
        r == text_lt(a@, b@),
{
    let mut i: usize = 0;
    assert(a@.skip(0) =~= a@ && b@.skip(0) =~= b@);
    while i < a.len() && i < b.len() && a[i] == b[i]
        invariant
            i <= a@.len(),
            i <= b@.len(),
            text_lt(a@, b@) == text_lt(a@.skip(i as int), b@.skip(i as int)),
        decreases a@.len() - i,
    {
        assert(a@.skip(i as int).drop_first() =~= a@.skip(i + 1));
        assert(b@.skip(i as int).drop_first() =~= b@.skip(i + 1));
        i = i + 1;
    }
    if i == a.len() {
        i < b.len()
    } else if i == b.len() {
        false
    } else {
        (a[i] as u32) < (b[i] as u32)
    }
}

fn json_stem_exec(name: &[char]) -> (r: Option<Vec<char>>)
    ensures
        match r {
            Some(v) => json_stem(name@) == Some(v@),
            None => json_stem(name@) is None,
        },
{
    if name.len() == 2 && name[0] == '.' && name[1] == '.' {
        assert(name@ =~= ".."@) by {
            reveal_strlit("..");
        }
        return None;
    }
    assert(name@ != ".."@) by {
        reveal_strlit("..");
        if name@ == ".."@ {
            assert(name@.len() == 2);
        }
    }
    let mut i = name.len();
    while i > 0 && name[i - 1] != '.'
        invariant
            i <= name@.len(),
            last_dot(name@, name@.len() as int) == last_dot(name@, i as int),
        decreases i,
    {
        i = i - 1;
    }
    if i <= 1 {
        return None;
    }
    let d = i - 1;
    let ext = crate::text::sub_chars(name, d + 1, name.len());
    assert(ext@ =~= name@.skip(d + 1));
    if crate::text::chars_eq(ext.as_slice(), crate::text::to_chars("json").as_slice()) {
        Some(crate::text::sub_chars(name, 0, d))
    } else {
        None
    }
}

proof fn lemma_insert_sorted_is_insert(s: Seq<Seq<char>>, x: Seq<char>)
    ensures
        exists|p: int| 0 <= p <= s.len() && insert_sorted(s, x) == s.insert(p, x),
    decreases s.len(),
{
    if s.len() == 0 || !text_lt(x, s.last()) {
        assert(s.push(x) =~= s.insert(s.len() as int, x));
    } else {
        lemma_insert_sorted_is_insert(s.drop_last(), x);
        let p = choose|p: int|
            0 <= p <= s.drop_last().len() && insert_sorted(s.drop_last(), x) == s.drop_last().insert(
                p,
                x,
            );
        assert(s.drop_last().insert(p, x).push(s.last()) =~= s.insert(p, x));
    }
}

/// Sorted names for a listing of the profiles folder.
pub fn profile_names(file_names: &[String]) -> (r: Vec<String>)
    ensures
        crate::jvm::string_views(r@) == profile_names_of(crate::jvm::string_views(file_names@)),
{
    let ghost names = crate::jvm::string_views(file_names@);
    let mut out: Vec<Vec<char>> = Vec::new();
    let mut i: usize = 0;
    while i < file_names.len()
        invariant
            i <= file_names@.len(),
            names == crate::jvm::string_views(file_names@),
            crate::text::views(out@) == sort_texts(json_stems(names.take(i as int))),
        decreases file_names@.len() - i,
    {
        let ghost prev = names.take(i as int);
        assert(names.take(i + 1).drop_last() =~= prev);
        assert(names.take(i + 1).last() == file_names@[i as int]@);
        let c = crate::text::to_chars(file_names[i].as_str());
        match json_stem_exec(c.as_slice()) {
            Some(st) => {
                let ghost sorted = crate::text::views(out@);
                assert(json_stems(names.take(i + 1)) == json_stems(prev).push(st@));
                assert(sort_texts(json_stems(prev).push(st@)) == insert_sorted(sort_texts(json_stems(prev)), st@)) by {
                    assert(json_stems(prev).push(st@).drop_last() =~= json_stems(prev));
                }
                let mut pos = out.len();
                assert(sorted.take(sorted.len() as int) =~= sorted);
                while pos > 0 && text_lt_exec(st.as_slice(), out[pos - 1].as_slice())
                    invariant
                        pos <= out@.len(),
                        sorted == crate::text::views(out@),
                        insert_sorted(sorted, st@) == insert_sorted(sorted.take(pos as int), st@)
                            + sorted.skip(pos as int),
                    decreases pos,
                {
                    assert(sorted.take(pos as int).drop_last() =~= sorted.take(pos - 1));
                    assert(sorted.take(pos as int).last() == out@[pos - 1]@);
                    assert(insert_sorted(sorted.take(pos - 1), st@).push(sorted[pos - 1])
                        + sorted.skip(pos as int) =~= insert_sorted(sorted.take(pos - 1), st@)
                        + sorted.skip(pos - 1));
                    pos = pos - 1;
                }
                assert(insert_sorted(sorted.take(pos as int), st@) == sorted.take(pos as int).push(st@));
                let ghost stv = st@;
                out.insert(pos, st);
                assert(crate::text::views(out@) =~= sorted.take(pos as int).push(stv) + sorted.skip(
                    pos as int,
                ));
            },
            None => {
                assert(json_stems(names.take(i + 1)) == json_stems(prev));
            },
        }
        i = i + 1;
    }
    assert(names.take(file_names@.len() as int) =~= names);
    let mut r: Vec<String> = Vec::new();
    let mut k: usize = 0;
    while k < out.len()
        invariant
            k <= out@.len(),
            r@.len() == k,
            crate::jvm::string_views(r@) == crate::text::views(out@).take(k as int),
        decreases out@.len() - k,
    {
        let st = crate::text::from_chars(out[k].as_slice());
        let ghost before = r@;
        let ghost stv = st@;
        r.push(st);
        assert(r@ =~= before.push(r@[k as int]));
        assert(crate::jvm::string_views(r@) =~= crate::jvm::string_views(before).push(stv));
        assert(crate::text::views(out@).take(k + 1) =~= crate::text::views(out@).take(k as int).push(
            out@[k as int]@,
        ));
        k = k + 1;
    }
    assert(crate::text::views(out@).take(out@.len() as int) =~= crate::text::views(out@));
    r
}

// ───────────────────────── laws of the listing ─────────────────────────

proof fn lemma_text_lt_asym(a: Seq<char>, b: Seq<char>)
    ensures
        text_lt(a, b) ==> !text_lt(b, a),
    decreases a.len(),
{
    if a.len() > 0 && b.len() > 0 && a[0] == b[0] {
        lemma_text_lt_asym(a.drop_first(), b.drop_first());
    }
}

proof fn lemma_text_lt_trans(a: Seq<char>, b: Seq<char>, c: Seq<char>)
    ensures
        text_lt(a, b) && text_lt(b, c) ==> text_lt(a, c),
    decreases a.len(),
{
    if a.len() > 0 && b.len() > 0 && c.len() > 0 {
        lemma_text_lt_trans(a.drop_first(), b.drop_first(), c.drop_first());
    }
}

proof fn lemma_text_lt_total(a: Seq<char>, b: Seq<char>)
    ensures
        a != b ==> text_lt(a, b) || text_lt(b, a),
    decreases a.len(),
{
    if a.len() > 0 && b.len() > 0 {
        if a[0] == b[0] {
            lemma_text_lt_total(a.drop_first(), b.drop_first());
            if a.drop_first() == b.drop_first() {
                assert(a =~= seq![a[0]] + a.drop_first());
                assert(b =~= seq![b[0]] + b.drop_first());
            }
        } else {
            vstd::utf8::char_u32_cast(a[0], a[0] as u32);
            vstd::utf8::char_u32_cast(b[0], b[0] as u32);
        }
    } else if a.len() == 0 && b.len() == 0 {
        assert(a =~= b);
    }
}

/// No later name sorts before an earlier one.
pub open spec fn texts_sorted(s: Seq<Seq<char>>) -> bool {
    forall|i: int, j: int| 0 <= i < j < s.len() ==> !text_lt(#[trigger] s[j], #[trigger] s[i])
}

proof fn lemma_insert_sorted_keeps_order(s: Seq<Seq<char>>, x: Seq<char>)
    requires
        texts_sorted(s),
    ensures
        texts_sorted(insert_sorted(s, x)),
        forall|i: int|
            0 <= i < insert_sorted(s, x).len() ==> #[trigger] insert_sorted(s, x)[i] == x
                || s.contains(insert_sorted(s, x)[i]),
    decreases s.len(),
{
    if s.len() == 0 || !text_lt(x, s.last()) {
        let r = s.push(x);
        assert forall|i: int, j: int| 0 <= i < j < r.len() implies !text_lt(#[trigger] r[j], #[trigger] r[i]) by {
            if j == s.len() {
                assert(r[i] == s[i]);
                let l = s.last();
                if i < s.len() - 1 {
                    assert(!text_lt(l, s[i]));
                }
                lemma_text_lt_total(l, s[i]);
                lemma_text_lt_trans(x, s[i], l);
            } else {
                assert(r[i] == s[i] && r[j] == s[j]);
            }
        }
        assert forall|i: int| 0 <= i < r.len() implies #[trigger] r[i] == x || s.contains(r[i]) by {
            if i < s.len() {
                assert(r[i] == s[i]);
            }
        }
    } else {
        let sp = s.drop_last();
        let l = s.last();
        assert(texts_sorted(sp)) by {
            assert forall|i: int, j: int| 0 <= i < j < sp.len() implies !text_lt(#[trigger] sp[j], #[trigger] sp[i]) by {
                assert(sp[i] == s[i] && sp[j] == s[j]);
            }
        }
        lemma_insert_sorted_keeps_order(sp, x);
        let q = insert_sorted(sp, x);
        let r = q.push(l);
        lemma_text_lt_asym(x, l);
        assert forall|i: int| 0 <= i < q.len() implies !text_lt(l, #[trigger] q[i]) by {
            if q[i] != x {
                let k = choose|k: int| 0 <= k < sp.len() && sp[k] == q[i];
                assert(s[k] == sp[k]);
                assert(s[s.len() - 1] == l);
            }
        }
        assert forall|i: int, j: int| 0 <= i < j < r.len() implies !text_lt(#[trigger] r[j], #[trigger] r[i]) by {
            if j == q.len() {
                assert(r[i] == q[i]);
            } else {
                assert(r[i] == q[i] && r[j] == q[j]);
            }
        }
        assert forall|i: int| 0 <= i < r.len() implies #[trigger] r[i] == x || s.contains(r[i]) by {
            if i < q.len() {
                assert(r[i] == q[i]);
                if q[i] != x {
                    let k = choose|k: int| 0 <= k < sp.len() && sp[k] == q[i];
                    assert(s[k] == sp[k]);
                }
            } else {
                assert(r[i] == s[s.len() - 1]);
            }
        }
    }
}

/// The profile listing is sorted and holds exactly the `.json` stems, each
/// as often as it occurs.
pub proof fn lemma_profile_names_sorted_permutation(names: Seq<Seq<char>>)
    ensures
        texts_sorted(profile_names_of(names)),
        profile_names_of(names).to_multiset() == json_stems(names).to_multiset(),
{
    lemma_sort_texts(json_stems(names));
}

proof fn lemma_sort_texts(s: Seq<Seq<char>>)
    ensures
        texts_sorted(sort_texts(s)),
        sort_texts(s).to_multiset() == s.to_multiset(),
    decreases s.len(),
{
    if s.len() > 0 {
        let prev = s.drop_last();
        lemma_sort_texts(prev);
        lemma_insert_sorted_keeps_order(sort_texts(prev), s.last());
        lemma_insert_sorted_is_insert(sort_texts(prev), s.last());
        let p = choose|p: int|
            0 <= p <= sort_texts(prev).len() && insert_sorted(sort_texts(prev), s.last())
                == sort_texts(prev).insert(p, s.last());
        vstd::seq_lib::to_multiset_insert(sort_texts(prev), p, s.last());
        vstd::seq_lib::to_multiset_build(prev, s.last());
        assert(prev.push(s.last()) =~= s);
    }
}

} // verus!
