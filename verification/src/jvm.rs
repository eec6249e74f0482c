//! JVM command line: the flags a profile stands for, and the filter that
//! replaces the launcher's conflicting JVM options by those flags.

use vstd::prelude::*;

use crate::config::Config;
use crate::text::{
    append_chars, chars_eq, decimal, decimal_chars, from_chars, signed_decimal,
    signed_decimal_chars, starts_with, starts_with_chars, to_chars,
};

verus! {

/// Views of a vector of strings.
pub open spec fn string_views(v: Seq<String>) -> Seq<Seq<char>> {
    v.map_values(|s: String| s@)
}

/// `prefix{n}suffix`.
pub open spec fn nflag(prefix: Seq<char>, n: nat, suffix: Seq<char>) -> Seq<char> {
    prefix + decimal(n) + suffix
}

/// `s` when `b` holds, nothing otherwise.
#[verifier::opaque]
pub open spec fn when(b: bool, s: Seq<Seq<char>>) -> Seq<Seq<char>> {
    if b {
        s
    } else {
        Seq::<Seq<char>>::empty()
    }
}

/// Reserved code cache in MB (256 when the profile leaves it at 0).
pub open spec fn code_cache_of(cfg: &Config) -> nat {
    if cfg.reserved_code_cache_size_mb == 0 {
        256
    } else {
        cfg.reserved_code_cache_size_mb as nat
    }
}

/// Initial heap: the maximum heap, capped at 4 GB.
pub open spec fn xms_of(cfg: &Config) -> nat {
    if cfg.heap_size_gb < 4 {
        cfg.heap_size_gb as nat
    } else {
        4
    }
}

/// Heap, metaspace and G1 flags.
pub open spec fn heap_gc_flags(cfg: &Config) -> Seq<Seq<char>> {
    seq![
        nflag("-Xmx"@, cfg.heap_size_gb as nat, "g"@),
        nflag("-Xms"@, xms_of(cfg), "g"@),
        nflag("-XX:MetaspaceSize="@, cfg.metaspace_mb as nat, "m"@),
        nflag("-XX:MaxMetaspaceSize="@, cfg.metaspace_mb as nat, "m"@),
        "-XX:+UseG1GC"@,
        "-XX:+UnlockExperimentalVMOptions"@,
        nflag("-XX:MaxGCPauseMillis="@, cfg.max_gc_pause_millis as nat, ""@),
        nflag("-XX:G1HeapRegionSize="@, cfg.g1_heap_region_size_mb as nat, "m"@),
        nflag("-XX:G1NewSizePercent="@, cfg.g1_new_size_percent as nat, ""@),
        nflag("-XX:G1MaxNewSizePercent="@, cfg.g1_max_new_size_percent as nat, ""@),
        nflag("-XX:G1ReservePercent="@, cfg.g1_reserve_percent as nat, ""@),
        nflag("-XX:G1HeapWastePercent="@, cfg.g1_heap_waste_percent as nat, ""@),
        nflag("-XX:G1MixedGCCountTarget="@, cfg.g1_mixed_gc_count_target as nat, ""@),
        "-XX:+G1UseAdaptiveIHOP"@,
        nflag(
            "-XX:InitiatingHeapOccupancyPercent="@,
            cfg.initiating_heap_occupancy_percent as nat,
            ""@,
        ),
        nflag(
            "-XX:G1MixedGCLiveThresholdPercent="@,
            cfg.g1_mixed_gc_live_threshold_percent as nat,
            ""@,
        ),
        nflag(
            "-XX:G1RSetUpdatingPauseTimePercent="@,
            cfg.g1_rset_updating_pause_time_percent as nat,
            ""@,
        ),
        nflag("-XX:SurvivorRatio="@, cfg.survivor_ratio as nat, ""@),
        nflag("-XX:MaxTenuringThreshold="@, cfg.max_tenuring_threshold as nat, ""@),
    ]
}

/// GC thread, reference, code cache and inlining flags.
pub open spec fn thread_code_flags(cfg: &Config) -> Seq<Seq<char>> {
    let cc = code_cache_of(cfg);
    seq![
        nflag("-XX:ParallelGCThreads="@, cfg.parallel_gc_threads as nat, ""@),
        nflag("-XX:ConcGCThreads="@, cfg.conc_gc_threads as nat, ""@),
        "-XX:+ParallelRefProcEnabled"@,
        "-XX:+DisableExplicitGC"@,
        nflag("-XX:SoftRefLRUPolicyMSPerMB="@, cfg.soft_ref_lru_policy_ms_per_mb as nat, ""@),
        "-XX:-UseBiasedLocking"@,
        "-XX:+DisableAttachMechanism"@,
        nflag("-XX:ReservedCodeCacheSize="@, cc, "m"@),
        nflag("-XX:NonNMethodCodeHeapSize="@, cc * 5 / 100, "m"@),
        nflag("-XX:ProfiledCodeHeapSize="@, cc * 48 / 100, "m"@),
        nflag("-XX:NonProfiledCodeHeapSize="@, (cc - cc * 5 / 100 - cc * 48 / 100) as nat, "m"@),
        nflag("-XX:MaxInlineLevel="@, cfg.max_inline_level as nat, ""@),
        nflag("-XX:FreqInlineSize="@, cfg.freq_inline_size as nat, ""@),
        "-Djdk.nio.maxCachedBufferSize=131072"@,
    ]
}

/// Flags emitted only when the profile asks for them (first group).
pub open spec fn optional_gc_flags(cfg: &Config) -> Seq<Seq<char>> {
    when(cfg.pre_touch, seq!["-XX:+AlwaysPreTouch"@]) + when(
        cfg.g1_satb_buffer_enqueuing_threshold_percent > 0,
        seq![
            nflag(
                "-XX:G1SATBBufferEnqueueingThresholdPercent="@,
                cfg.g1_satb_buffer_enqueuing_threshold_percent as nat,
                ""@,
            ),
        ],
    ) + when(
        cfg.g1_conc_rs_hot_card_limit > 0,
        seq![nflag("-XX:G1ConcRSHotCardLimit="@, cfg.g1_conc_rs_hot_card_limit as nat, ""@)],
    ) + when(
        cfg.g1_conc_refinement_service_interval_millis > 0,
        seq![
            nflag(
                "-XX:G1ConcRefinementServiceIntervalMillis="@,
                cfg.g1_conc_refinement_service_interval_millis as nat,
                ""@,
            ),
        ],
    ) + when(
        cfg.gc_time_ratio > 0,
        seq![nflag("-XX:GCTimeRatio="@, cfg.gc_time_ratio as nat, ""@)],
    ) + when(cfg.use_dynamic_number_of_gc_threads, seq!["-XX:+UseDynamicNumberOfGCThreads"@])
        + when(cfg.use_string_deduplication, seq!["-XX:+UseStringDeduplication"@])
}

/// Flags emitted only when the profile asks for them (compiler group).
pub open spec fn optional_compiler_flags(cfg: &Config) -> Seq<Seq<char>> {
    when(
        cfg.inline_small_code > 0,
        seq![nflag("-XX:InlineSmallCode="@, cfg.inline_small_code as nat, ""@)],
    ) + when(
        cfg.max_node_limit > 0 && cfg.node_limit_fudge_factor > 0,
        seq![
            nflag("-XX:NodeLimitFudgeFactor="@, cfg.node_limit_fudge_factor as nat, ""@),
            nflag("-XX:MaxNodeLimit="@, cfg.max_node_limit as nat, ""@),
        ],
    ) + when(
        cfg.nmethod_sweep_activity > 0,
        seq![nflag("-XX:NmethodSweepActivity="@, cfg.nmethod_sweep_activity as nat, ""@)],
    ) + when(!cfg.dont_compile_huge_methods, seq!["-XX:-DontCompileHugeMethods"@]) + when(
        cfg.allocate_prefetch_style > 0,
        seq![nflag("-XX:AllocatePrefetchStyle="@, cfg.allocate_prefetch_style as nat, ""@)],
    ) + when(cfg.always_act_as_server_class, seq!["-XX:+AlwaysActAsServerClassMachine"@])
        + when(cfg.use_xmm_for_array_copy, seq!["-XX:+UseXMMForArrayCopy"@]) + when(
        cfg.use_fpu_for_spilling,
        seq!["-XX:+UseFPUForSpilling"@],
    )
}

/// Flags emitted only when the profile asks for them (runtime group).
pub open spec fn optional_runtime_flags(cfg: &Config) -> Seq<Seq<char>> {
    when(
        cfg.use_large_pages,
        seq!["-XX:+UseLargePages"@] + when(
            cfg.large_page_size_mb > 0,
            seq![nflag("-XX:LargePageSizeInBytes="@, cfg.large_page_size_mb as nat, "m"@)],
        ),
    ) + seq![
        "-Dsun.reflect.inflationThreshold="@ + signed_decimal(
            cfg.reflection_inflation_threshold as int,
        ),
    ] + when(
        cfg.auto_box_cache_max > 0,
        seq![nflag("-XX:AutoBoxCacheMax="@, cfg.auto_box_cache_max as nat, ""@)],
    ) + when(
        cfg.use_thread_priorities,
        seq!["-XX:+UseThreadPriorities"@] + when(
            cfg.thread_priority_policy > 0,
            seq![nflag("-XX:ThreadPriorityPolicy="@, cfg.thread_priority_policy as nat, ""@)],
        ),
    ) + when(!cfg.use_counter_decay, seq!["-XX:-UseCounterDecay"@]) + when(
        cfg.compile_threshold_scaling_applies,
        seq!["-XX:CompileThresholdScaling="@ + cfg.compile_threshold_scaling_text@],
    )
}

/// All JVM flags of a profile, in emission order.
pub open spec fn flags_of(cfg: &Config) -> Seq<Seq<char>> {
    heap_gc_flags(cfg) + thread_code_flags(cfg) + optional_gc_flags(cfg)
        + optional_compiler_flags(cfg) + optional_runtime_flags(cfg)
}

/// The profile's code cache numbers fit in 64-bit arithmetic.
pub open spec fn flags_computable(cfg: &Config) -> bool {
    cfg.reserved_code_cache_size_mb <= u64::MAX / 48
}

fn lit(s: &str) -> (r: String)
    ensures
        r@ == s@,
{
    String::from_str(s)
}

fn num(prefix: &str, n: u64, suffix: &str) -> (r: String)
    ensures
        r@ == nflag(prefix@, n as nat, suffix@),
{
    let mut v = to_chars(prefix);
    append_chars(&mut v, decimal_chars(n).as_slice());
    append_chars(&mut v, to_chars(suffix).as_slice());
    from_chars(v.as_slice())
}

fn push(f: &mut Vec<String>, s: String)
    ensures
        string_views(final(f)@) == string_views(old(f)@).push(s@),
{
    f.push(s);
    assert(string_views(f@) =~= string_views(old(f)@).push(s@));
}

fn push_when(f: &mut Vec<String>, b: bool, s: String)
    ensures
        string_views(final(f)@) == string_views(old(f)@) + when(b, seq![s@]),
{
    reveal(when);
    if b {
        push(f, s);
        assert(string_views(f@) =~= string_views(old(f)@) + seq![s@]);
    } else {
        assert(string_views(f@) =~= string_views(old(f)@) + Seq::<Seq<char>>::empty());
    }
}

/// Appends every string of `g`.
fn append_strings(f: &mut Vec<String>, g: Vec<String>)
    ensures
        string_views(final(f)@) == string_views(old(f)@) + string_views(g@),
{
    let ghost s0 = string_views(f@);
    let mut i: usize = 0;
    while i < g.len()
        invariant
            i <= g@.len(),
            string_views(f@) == s0 + string_views(g@).take(i as int),
        decreases g@.len() - i,
    {
        push(f, g[i].clone());
        assert(s0 + string_views(g@).take(i + 1) =~= (s0 + string_views(g@).take(
            i as int,
        )).push(g@[i as int]@));
        i = i + 1;
    }
    assert(string_views(g@).take(g@.len() as int) =~= string_views(g@));
}

fn append_when(f: &mut Vec<String>, b: bool, g: Vec<String>)
    ensures
        string_views(final(f)@) == string_views(old(f)@) + when(b, string_views(g@)),
{
    reveal(when);
    if b {
        append_strings(f, g);
    } else {
        assert(string_views(f@) =~= string_views(old(f)@) + Seq::<Seq<char>>::empty());
    }
}

fn first_when(b: bool, s: String) -> (g: Vec<String>)
    ensures
        string_views(g@) == when(b, seq![s@]),
{
    let mut g: Vec<String> = Vec::new();
    push_when(&mut g, b, s);
    assert(string_views(g@) =~= when(b, seq![s@]));
    g
}

fn heap_gc_vec(cfg: &Config) -> (f: Vec<String>)
    ensures
        string_views(f@) == heap_gc_flags(cfg),
{
    let xms = if cfg.heap_size_gb < 4 {
        cfg.heap_size_gb
    } else {
        4
    };
    let mut f: Vec<String> = Vec::new();
    push(&mut f, num("-Xmx", cfg.heap_size_gb, "g"));
    push(&mut f, num("-Xms", xms, "g"));
    push(&mut f, num("-XX:MetaspaceSize=", cfg.metaspace_mb, "m"));
    push(&mut f, num("-XX:MaxMetaspaceSize=", cfg.metaspace_mb, "m"));
    push(&mut f, lit("-XX:+UseG1GC"));
    push(&mut f, lit("-XX:+UnlockExperimentalVMOptions"));
    push(&mut f, num("-XX:MaxGCPauseMillis=", cfg.max_gc_pause_millis, ""));
    push(&mut f, num("-XX:G1HeapRegionSize=", cfg.g1_heap_region_size_mb, "m"));
    push(&mut f, num("-XX:G1NewSizePercent=", cfg.g1_new_size_percent, ""));
    push(&mut f, num("-XX:G1MaxNewSizePercent=", cfg.g1_max_new_size_percent, ""));
    push(&mut f, num("-XX:G1ReservePercent=", cfg.g1_reserve_percent, ""));
    push(&mut f, num("-XX:G1HeapWastePercent=", cfg.g1_heap_waste_percent, ""));
    push(&mut f, num("-XX:G1MixedGCCountTarget=", cfg.g1_mixed_gc_count_target, ""));
    push(&mut f, lit("-XX:+G1UseAdaptiveIHOP"));
    push(
        &mut f,
        num("-XX:InitiatingHeapOccupancyPercent=", cfg.initiating_heap_occupancy_percent, ""),
    );
    push(
        &mut f,
        num("-XX:G1MixedGCLiveThresholdPercent=", cfg.g1_mixed_gc_live_threshold_percent, ""),
    );
    push(
        &mut f,
        num("-XX:G1RSetUpdatingPauseTimePercent=", cfg.g1_rset_updating_pause_time_percent, ""),
    );
    push(&mut f, num("-XX:SurvivorRatio=", cfg.survivor_ratio, ""));
    push(&mut f, num("-XX:MaxTenuringThreshold=", cfg.max_tenuring_threshold, ""));
    assert(string_views(f@) =~= heap_gc_flags(cfg));
    f
}

fn thread_code_vec(cfg: &Config) -> (f: Vec<String>)
    requires
        flags_computable(cfg),
    ensures
        string_views(f@) == thread_code_flags(cfg),
{
    let cc: u64 = if cfg.reserved_code_cache_size_mb == 0 {
        256
    } else {
        cfg.reserved_code_cache_size_mb
    };
    let non_nmethod = cc * 5 / 100;
    let profiled = cc * 48 / 100;
    assert(non_nmethod + profiled <= cc) by (nonlinear_arith)
        requires
            non_nmethod == cc * 5 / 100,
            profiled == cc * 48 / 100,
    ;
    let mut f: Vec<String> = Vec::new();
    push(&mut f, num("-XX:ParallelGCThreads=", cfg.parallel_gc_threads, ""));
    push(&mut f, num("-XX:ConcGCThreads=", cfg.conc_gc_threads, ""));
    push(&mut f, lit("-XX:+ParallelRefProcEnabled"));
    push(&mut f, lit("-XX:+DisableExplicitGC"));
    push(&mut f, num("-XX:SoftRefLRUPolicyMSPerMB=", cfg.soft_ref_lru_policy_ms_per_mb, ""));
    push(&mut f, lit("-XX:-UseBiasedLocking"));
    push(&mut f, lit("-XX:+DisableAttachMechanism"));
    push(&mut f, num("-XX:ReservedCodeCacheSize=", cc, "m"));
    push(&mut f, num("-XX:NonNMethodCodeHeapSize=", non_nmethod, "m"));
    push(&mut f, num("-XX:ProfiledCodeHeapSize=", profiled, "m"));
    push(&mut f, num("-XX:NonProfiledCodeHeapSize=", cc - non_nmethod - profiled, "m"));
    push(&mut f, num("-XX:MaxInlineLevel=", cfg.max_inline_level, ""));
    push(&mut f, num("-XX:FreqInlineSize=", cfg.freq_inline_size, ""));
    push(&mut f, lit("-Djdk.nio.maxCachedBufferSize=131072"));
    assert(string_views(f@) =~= thread_code_flags(cfg));
    f
}

fn optional_gc_vec(cfg: &Config) -> (f: Vec<String>)
    ensures
        string_views(f@) == optional_gc_flags(cfg),
{
    let mut f = first_when(cfg.pre_touch, lit("-XX:+AlwaysPreTouch"));
    push_when(
        &mut f,
        cfg.g1_satb_buffer_enqueuing_threshold_percent > 0,
        num(
            "-XX:G1SATBBufferEnqueueingThresholdPercent=",
            cfg.g1_satb_buffer_enqueuing_threshold_percent,
            "",
        ),
    );
    push_when(
        &mut f,
        cfg.g1_conc_rs_hot_card_limit > 0,
        num("-XX:G1ConcRSHotCardLimit=", cfg.g1_conc_rs_hot_card_limit, ""),
    );
    push_when(
        &mut f,
        cfg.g1_conc_refinement_service_interval_millis > 0,
        num(
            "-XX:G1ConcRefinementServiceIntervalMillis=",
            cfg.g1_conc_refinement_service_interval_millis,
            "",
        ),
    );
    push_when(&mut f, cfg.gc_time_ratio > 0, num("-XX:GCTimeRatio=", cfg.gc_time_ratio, ""));
    push_when(
        &mut f,
        cfg.use_dynamic_number_of_gc_threads,
        lit("-XX:+UseDynamicNumberOfGCThreads"),
    );
    push_when(&mut f, cfg.use_string_deduplication, lit("-XX:+UseStringDeduplication"));
    f
}

fn node_limit_vec(cfg: &Config) -> (g: Vec<String>)
    ensures
        string_views(g@) == seq![
            nflag("-XX:NodeLimitFudgeFactor="@, cfg.node_limit_fudge_factor as nat, ""@),
            nflag("-XX:MaxNodeLimit="@, cfg.max_node_limit as nat, ""@),
        ],
{
    let mut g: Vec<String> = Vec::new();
    push(&mut g, num("-XX:NodeLimitFudgeFactor=", cfg.node_limit_fudge_factor, ""));
    push(&mut g, num("-XX:MaxNodeLimit=", cfg.max_node_limit, ""));
    assert(string_views(g@) =~= seq![
        nflag("-XX:NodeLimitFudgeFactor="@, cfg.node_limit_fudge_factor as nat, ""@),
        nflag("-XX:MaxNodeLimit="@, cfg.max_node_limit as nat, ""@),
    ]);
    g
}

fn optional_compiler_vec(cfg: &Config) -> (f: Vec<String>)
    ensures
        string_views(f@) == optional_compiler_flags(cfg),
{
    let mut f = first_when(
        cfg.inline_small_code > 0,
        num("-XX:InlineSmallCode=", cfg.inline_small_code, ""),
    );
    append_when(
        &mut f,
        cfg.max_node_limit > 0 && cfg.node_limit_fudge_factor > 0,
        node_limit_vec(cfg),
    );
    push_when(
        &mut f,
        cfg.nmethod_sweep_activity > 0,
        num("-XX:NmethodSweepActivity=", cfg.nmethod_sweep_activity, ""),
    );
    push_when(&mut f, !cfg.dont_compile_huge_methods, lit("-XX:-DontCompileHugeMethods"));
    push_when(
        &mut f,
        cfg.allocate_prefetch_style > 0,
        num("-XX:AllocatePrefetchStyle=", cfg.allocate_prefetch_style, ""),
    );
    push_when(
        &mut f,
        cfg.always_act_as_server_class,
        lit("-XX:+AlwaysActAsServerClassMachine"),
    );
    push_when(&mut f, cfg.use_xmm_for_array_copy, lit("-XX:+UseXMMForArrayCopy"));
    push_when(&mut f, cfg.use_fpu_for_spilling, lit("-XX:+UseFPUForSpilling"));
    f
}

fn large_pages_vec(cfg: &Config) -> (g: Vec<String>)
    ensures
        string_views(g@) == seq!["-XX:+UseLargePages"@] + when(
            cfg.large_page_size_mb > 0,
            seq![nflag("-XX:LargePageSizeInBytes="@, cfg.large_page_size_mb as nat, "m"@)],
        ),
{
    let mut g: Vec<String> = Vec::new();
    push(&mut g, lit("-XX:+UseLargePages"));
    assert(string_views(g@) =~= seq!["-XX:+UseLargePages"@]);
    push_when(
        &mut g,
        cfg.large_page_size_mb > 0,
        num("-XX:LargePageSizeInBytes=", cfg.large_page_size_mb, "m"),
    );
    g
}

fn thread_priority_vec(cfg: &Config) -> (g: Vec<String>)
    ensures
        string_views(g@) == seq!["-XX:+UseThreadPriorities"@] + when(
            cfg.thread_priority_policy > 0,
            seq![nflag("-XX:ThreadPriorityPolicy="@, cfg.thread_priority_policy as nat, ""@)],
        ),
{
    let mut g: Vec<String> = Vec::new();
    push(&mut g, lit("-XX:+UseThreadPriorities"));
    assert(string_views(g@) =~= seq!["-XX:+UseThreadPriorities"@]);
    push_when(
        &mut g,
        cfg.thread_priority_policy > 0,
        num("-XX:ThreadPriorityPolicy=", cfg.thread_priority_policy, ""),
    );
    g
}

fn optional_runtime_vec(cfg: &Config) -> (f: Vec<String>)
    ensures
        string_views(f@) == optional_runtime_flags(cfg),
{
    let mut f: Vec<String> = Vec::new();
    append_when(&mut f, cfg.use_large_pages, large_pages_vec(cfg));
    let ghost lp = when(
        cfg.use_large_pages,
        seq!["-XX:+UseLargePages"@] + when(
            cfg.large_page_size_mb > 0,
            seq![nflag("-XX:LargePageSizeInBytes="@, cfg.large_page_size_mb as nat, "m"@)],
        ),
    );
    assert(string_views(f@) =~= lp);
    let mut refl = to_chars("-Dsun.reflect.inflationThreshold=");
    append_chars(&mut refl, signed_decimal_chars(cfg.reflection_inflation_threshold).as_slice());
    let r = from_chars(refl.as_slice());
    let ghost rv = r@;
    push(&mut f, r);
    assert(string_views(f@) =~= lp + seq![rv]);
    push_when(
        &mut f,
        cfg.auto_box_cache_max > 0,
        num("-XX:AutoBoxCacheMax=", cfg.auto_box_cache_max, ""),
    );
    append_when(&mut f, cfg.use_thread_priorities, thread_priority_vec(cfg));
    push_when(&mut f, !cfg.use_counter_decay, lit("-XX:-UseCounterDecay"));
    let mut cts = to_chars("-XX:CompileThresholdScaling=");
    append_chars(&mut cts, to_chars(cfg.compile_threshold_scaling_text.as_str()).as_slice());
    push_when(&mut f, cfg.compile_threshold_scaling_applies, from_chars(cts.as_slice()));
    f
}

/// JVM flags for a profile: heap and G1 settings, GC threads, code cache and
/// inlining, then every optional flag the profile enables.
pub fn flags(cfg: &Config) -> (f: Vec<String>)
    requires
        flags_computable(cfg),
    ensures
        string_views(f@) == flags_of(cfg),
{
    let mut f = heap_gc_vec(cfg);
    append_strings(&mut f, thread_code_vec(cfg));
    append_strings(&mut f, optional_gc_vec(cfg));
    append_strings(&mut f, optional_compiler_vec(cfg));
    append_strings(&mut f, optional_runtime_vec(cfg));
    f
}

// ───────────────────────── launcher argument filter ─────────────────────────

/// Launcher options removed when they match exactly.
pub open spec fn exact_remove() -> Seq<Seq<char>> {
    seq![
        "-XX:-PrintCommandLineFlags"@,
        "-XX:+UseG1GC"@,
        "-XX:+UseCompressedOops"@,
        "-XX:+PerfDisableSharedMem"@,
        "-XX:+UseBiasedLocking"@,
        "-XX:-UseBiasedLocking"@,
        "-XX:+UseStringDeduplication"@,
        "-XX:+UseNUMA"@,
        "-XX:+DisableAttachMechanism"@,
        "-XX:+UseDynamicNumberOfGCThreads"@,
        "-XX:+AlwaysActAsServerClassMachine"@,
        "-XX:+UseXMMForArrayCopy"@,
        "-XX:+UseFPUForSpilling"@,
        "-XX:-DontCompileHugeMethods"@,
        "-XX:+DontCompileHugeMethods"@,
        "-XX:+AlwaysPreTouch"@,
        "-XX:-AlwaysPreTouch"@,
        "-XX:+ParallelRefProcEnabled"@,
        "-XX:+DisableExplicitGC"@,
        "-XX:+G1UseAdaptiveIHOP"@,
        "-XX:+UnlockExperimentalVMOptions"@,
        "-XX:+UseThreadPriorities"@,
        "-XX:-UseThreadPriorities"@,
        "-XX:+UseCounterDecay"@,
        "-XX:-UseCounterDecay"@,
        "-XX:+UseLargePages"@,
        "-XX:-UseLargePages"@,
        "-XX:+UseCompressedClassPointerCompression"@,
    ]
}

/// Launcher options removed when they start with one of these.
pub open spec fn prefix_remove() -> Seq<Seq<char>> {
    seq![
        "-XX:MaxGCPauseMillis="@,
        "-XX:MetaspaceSize="@,
        "-XX:MaxMetaspaceSize="@,
        "-XX:G1HeapRegionSize="@,
        "-XX:G1NewSizePercent="@,
        "-XX:G1MaxNewSizePercent="@,
        "-XX:G1ReservePercent="@,
        "-XX:G1HeapWastePercent="@,
        "-XX:G1MixedGCCountTarget="@,
        "-XX:InitiatingHeapOccupancyPercent="@,
        "-XX:G1MixedGCLiveThresholdPercent="@,
        "-XX:G1RSetUpdatingPauseTimePercent="@,
        "-XX:G1SATBBufferEnqueueingThresholdPercent="@,
        "-XX:G1ConcRSHotCardLimit="@,
        "-XX:G1ConcRefinementServiceIntervalMillis="@,
        "-XX:GCTimeRatio="@,
        "-XX:SurvivorRatio="@,
        "-XX:MaxTenuringThreshold="@,
        "-XX:ParallelGCThreads="@,
        "-XX:ConcGCThreads="@,
        "-XX:SoftRefLRUPolicyMSPerMB="@,
        "-XX:ReservedCodeCacheSize="@,
        "-XX:NonNMethodCodeHeapSize="@,
        "-XX:ProfiledCodeHeapSize="@,
        "-XX:NonProfiledCodeHeapSize="@,
        "-XX:MaxInlineLevel="@,
        "-XX:FreqInlineSize="@,
        "-XX:InlineSmallCode="@,
        "-XX:MaxNodeLimit="@,
        "-XX:NodeLimitFudgeFactor="@,
        "-XX:NmethodSweepActivity="@,
        "-XX:AllocatePrefetchStyle="@,
        "-XX:LargePageSizeInBytes="@,
        "-XX:AutoBoxCacheMax="@,
        "-XX:ThreadPriorityPolicy="@,
        "-XX:CompileThresholdScaling="@,
        "-XX:InitialHeapSize="@,
        "-XX:MaxHeapSize="@,
        "-XX:MinHeapDeltaBytes="@,
        "-XX:SoftRefLRUPolicyMSPerMB="@,
        "-XX:TieredCompilation="@,
        "-XX:CICompilerCount="@,
        "-XX:AutoBoxCacheMax="@,
        "-Dsun.reflect.inflationThreshold="@,
        "-Dsun.nio.maxCachedBufferSize="@,
        "-Xms"@,
        "-Xmx"@,
        "-Xbootclasspath"@,
        "-Xbootclasspath/a"@,
        "-Xbootclasspath/p"@,
    ]
}

/// A launcher JVM option that conflicts with the injected flags.
pub open spec fn should_remove_of(a: Seq<char>) -> bool {
    exact_remove().contains(a) || exists|i: int|
        0 <= i < prefix_remove().len() && starts_with(a, #[trigger] prefix_remove()[i])
}

/// Kept by the filter.
pub open spec fn keep_arg(a: Seq<char>) -> bool {
    !should_remove_of(a)
}

/// How a launcher command line splits: JVM options, the main class (if any)
/// and the application arguments after it.
pub struct SplitView {
    pub jvm: Seq<Seq<char>>,
    pub main_class: Option<Seq<char>>,
    pub app: Seq<Seq<char>>,
}

/// An option that takes the next argument as its value.
pub open spec fn takes_value(a: Seq<char>) -> bool {
    a == "-classpath"@ || a == "-cp"@ || a == "-jar"@
}

/// Split of `args` from position `i` on: `-classpath`/`-cp`/`-jar` take the
/// following argument along, other `-` arguments are options, and the first
/// other argument is the main class; everything after it belongs to the app.
pub open spec fn split_from(args: Seq<Seq<char>>, i: int) -> SplitView
    decreases args.len() + 1 - i,
{
    if i < 0 || i >= args.len() {
        SplitView { jvm: Seq::empty(), main_class: None, app: Seq::empty() }
    } else if takes_value(args[i]) {
        let rest = split_from(args, i + 2);
        SplitView {
            jvm: (if i + 1 < args.len() {
                seq![args[i], args[i + 1]]
            } else {
                seq![args[i]]
            }) + rest.jvm,
            main_class: rest.main_class,
            app: rest.app,
        }
    } else if starts_with(args[i], "-"@) {
        let rest = split_from(args, i + 1);
        SplitView { jvm: seq![args[i]] + rest.jvm, main_class: rest.main_class, app: rest.app }
    } else {
        SplitView { jvm: Seq::empty(), main_class: Some(args[i]), app: args.skip(i + 1) }
    }
}

pub open spec fn split_of(args: Seq<Seq<char>>) -> SplitView {
    split_from(args, 0)
}

pub open spec fn main_class_text(sp: SplitView) -> Seq<char> {
    match sp.main_class {
        Some(m) => m,
        None => Seq::empty(),
    }
}

/// The filtered command line: kept launcher options, the injected flags,
/// the main class when it is not empty, then the application arguments.
pub open spec fn filter_args_of(orig: Seq<Seq<char>>, injected: Seq<Seq<char>>) -> Seq<Seq<char>> {
    let sp = split_of(orig);
    let m = main_class_text(sp);
    sp.jvm.filter(|a: Seq<char>| keep_arg(a)) + injected + (if m.len() > 0 {
        seq![m]
    } else {
        Seq::empty()
    }) + sp.app
}

fn strs_push(v: &mut Vec<&'static str>, s: &'static str)
    ensures
        final(v)@.map_values(|x: &str| x@) == old(v)@.map_values(|x: &str| x@).push(s@),
{
    v.push(s);
    assert(v@.map_values(|x: &str| x@) =~= old(v)@.map_values(|x: &str| x@).push(s@));
}

fn exact_remove_list() -> (v: Vec<&'static str>)
    ensures
        v@.map_values(|x: &str| x@) == exact_remove(),
{
    let mut v: Vec<&'static str> = Vec::new();
    strs_push(&mut v, "-XX:-PrintCommandLineFlags");
    strs_push(&mut v, "-XX:+UseG1GC");
    strs_push(&mut v, "-XX:+UseCompressedOops");
    strs_push(&mut v, "-XX:+PerfDisableSharedMem");
    strs_push(&mut v, "-XX:+UseBiasedLocking");
    strs_push(&mut v, "-XX:-UseBiasedLocking");
    strs_push(&mut v, "-XX:+UseStringDeduplication");
    strs_push(&mut v, "-XX:+UseNUMA");
    strs_push(&mut v, "-XX:+DisableAttachMechanism");
    strs_push(&mut v, "-XX:+UseDynamicNumberOfGCThreads");
    strs_push(&mut v, "-XX:+AlwaysActAsServerClassMachine");
    strs_push(&mut v, "-XX:+UseXMMForArrayCopy");
    strs_push(&mut v, "-XX:+UseFPUForSpilling");
    strs_push(&mut v, "-XX:-DontCompileHugeMethods");
    strs_push(&mut v, "-XX:+DontCompileHugeMethods");
    strs_push(&mut v, "-XX:+AlwaysPreTouch");
    strs_push(&mut v, "-XX:-AlwaysPreTouch");
    strs_push(&mut v, "-XX:+ParallelRefProcEnabled");
    strs_push(&mut v, "-XX:+DisableExplicitGC");
    strs_push(&mut v, "-XX:+G1UseAdaptiveIHOP");
    strs_push(&mut v, "-XX:+UnlockExperimentalVMOptions");
    strs_push(&mut v, "-XX:+UseThreadPriorities");
    strs_push(&mut v, "-XX:-UseThreadPriorities");
    strs_push(&mut v, "-XX:+UseCounterDecay");
    strs_push(&mut v, "-XX:-UseCounterDecay");
    strs_push(&mut v, "-XX:+UseLargePages");
    strs_push(&mut v, "-XX:-UseLargePages");
    strs_push(&mut v, "-XX:+UseCompressedClassPointerCompression");
    assert(v@.map_values(|x: &str| x@) =~= exact_remove());
    v
}

fn prefix_remove_list() -> (v: Vec<&'static str>)
    ensures
        v@.map_values(|x: &str| x@) == prefix_remove(),
{
    let mut v: Vec<&'static str> = Vec::new();
    strs_push(&mut v, "-XX:MaxGCPauseMillis=");
    strs_push(&mut v, "-XX:MetaspaceSize=");
    strs_push(&mut v, "-XX:MaxMetaspaceSize=");
    strs_push(&mut v, "-XX:G1HeapRegionSize=");
    strs_push(&mut v, "-XX:G1NewSizePercent=");
    strs_push(&mut v, "-XX:G1MaxNewSizePercent=");
    strs_push(&mut v, "-XX:G1ReservePercent=");
    strs_push(&mut v, "-XX:G1HeapWastePercent=");
    strs_push(&mut v, "-XX:G1MixedGCCountTarget=");
    strs_push(&mut v, "-XX:InitiatingHeapOccupancyPercent=");
    strs_push(&mut v, "-XX:G1MixedGCLiveThresholdPercent=");
    strs_push(&mut v, "-XX:G1RSetUpdatingPauseTimePercent=");
    strs_push(&mut v, "-XX:G1SATBBufferEnqueueingThresholdPercent=");
    strs_push(&mut v, "-XX:G1ConcRSHotCardLimit=");
    strs_push(&mut v, "-XX:G1ConcRefinementServiceIntervalMillis=");
    strs_push(&mut v, "-XX:GCTimeRatio=");
    strs_push(&mut v, "-XX:SurvivorRatio=");
    strs_push(&mut v, "-XX:MaxTenuringThreshold=");
    strs_push(&mut v, "-XX:ParallelGCThreads=");
    strs_push(&mut v, "-XX:ConcGCThreads=");
    strs_push(&mut v, "-XX:SoftRefLRUPolicyMSPerMB=");
    strs_push(&mut v, "-XX:ReservedCodeCacheSize=");
    strs_push(&mut v, "-XX:NonNMethodCodeHeapSize=");
    strs_push(&mut v, "-XX:ProfiledCodeHeapSize=");
    strs_push(&mut v, "-XX:NonProfiledCodeHeapSize=");
    strs_push(&mut v, "-XX:MaxInlineLevel=");
    strs_push(&mut v, "-XX:FreqInlineSize=");
    strs_push(&mut v, "-XX:InlineSmallCode=");
    strs_push(&mut v, "-XX:MaxNodeLimit=");
    strs_push(&mut v, "-XX:NodeLimitFudgeFactor=");
    strs_push(&mut v, "-XX:NmethodSweepActivity=");
    strs_push(&mut v, "-XX:AllocatePrefetchStyle=");
    strs_push(&mut v, "-XX:LargePageSizeInBytes=");
    strs_push(&mut v, "-XX:AutoBoxCacheMax=");
    strs_push(&mut v, "-XX:ThreadPriorityPolicy=");
    strs_push(&mut v, "-XX:CompileThresholdScaling=");
    strs_push(&mut v, "-XX:InitialHeapSize=");
    strs_push(&mut v, "-XX:MaxHeapSize=");
    strs_push(&mut v, "-XX:MinHeapDeltaBytes=");
    strs_push(&mut v, "-XX:SoftRefLRUPolicyMSPerMB=");
    strs_push(&mut v, "-XX:TieredCompilation=");
    strs_push(&mut v, "-XX:CICompilerCount=");
    strs_push(&mut v, "-XX:AutoBoxCacheMax=");
    strs_push(&mut v, "-Dsun.reflect.inflationThreshold=");
    strs_push(&mut v, "-Dsun.nio.maxCachedBufferSize=");
    strs_push(&mut v, "-Xms");
    strs_push(&mut v, "-Xmx");
    strs_push(&mut v, "-Xbootclasspath");
    strs_push(&mut v, "-Xbootclasspath/a");
    strs_push(&mut v, "-Xbootclasspath/p");
    assert(v@.map_values(|x: &str| x@) =~= prefix_remove());
    v
}

fn should_remove(arg: &str) -> (r: bool)
    ensures
        r == should_remove_of(arg@),
{
    let a = to_chars(arg);
    let ex = exact_remove_list();
    let mut i: usize = 0;
    while i < ex.len()
        invariant
            i <= ex@.len(),
            ex@.map_values(|x: &str| x@) == exact_remove(),
            a@ == arg@,
            forall|k: int| 0 <= k < i ==> exact_remove()[k] != arg@,
        decreases ex@.len() - i,
    {
        let e = to_chars(ex[i]);
        assert(exact_remove()[i as int] == ex@[i as int]@);
        if chars_eq(a.as_slice(), e.as_slice()) {
            assert(exact_remove().contains(arg@));
            return true;
        }
        i = i + 1;
    }
    assert(!exact_remove().contains(arg@));
    let px = prefix_remove_list();
    let mut j: usize = 0;
    while j < px.len()
        invariant
            j <= px@.len(),
            px@.map_values(|x: &str| x@) == prefix_remove(),
            a@ == arg@,
            !exact_remove().contains(arg@),
            forall|k: int| 0 <= k < j ==> !starts_with(arg@, #[trigger] prefix_remove()[k]),
        decreases px@.len() - j,
    {
        let p = to_chars(px[j]);
        assert(prefix_remove()[j as int] == px@[j as int]@);
        if starts_with_chars(a.as_slice(), p.as_slice()) {
            return true;
        }
        j = j + 1;
    }
    false
}

/// Split of a launcher command line into JVM options, main class and app
/// arguments (the main class is empty when there is none).
fn split_args(args: &[String]) -> (r: (Vec<String>, String, Vec<String>))
    ensures
        string_views(r.0@) == split_of(string_views(args@)).jvm,
        r.1@ == main_class_text(split_of(string_views(args@))),
        string_views(r.2@) == split_of(string_views(args@)).app,
{
    let ghost sa = string_views(args@);
    let mut jvm: Vec<String> = Vec::new();
    let mut i: usize = 0;
    while i < args.len()
        invariant
            i <= args@.len(),
            sa == string_views(args@),
            split_from(sa, 0).jvm == string_views(jvm@) + split_from(sa, i as int).jvm,
            split_from(sa, 0).main_class == split_from(sa, i as int).main_class,
            split_from(sa, 0).app == split_from(sa, i as int).app,
        decreases args@.len() - i,
    {
        let a = &args[i];
        let ac = to_chars(a.as_str());
        assert(sa[i as int] == a@);
        if str_is(&ac, "-classpath") || str_is(&ac, "-cp") || str_is(&ac, "-jar") {
            let ghost before = string_views(jvm@);
            jvm.push(a.clone());
            if i + 1 < args.len() {
                jvm.push(args[i + 1].clone());
                assert(sa[i + 1] == args@[i + 1]@);
                assert(string_views(jvm@) =~= before + seq![sa[i as int], sa[i + 1]]);
                i = i + 2;
            } else {
                assert(string_views(jvm@) =~= before + seq![sa[i as int]]);
                i = i + 1;
                assert(split_from(sa, i as int + 1).jvm =~= Seq::<Seq<char>>::empty());
                assert(split_from(sa, i as int).jvm =~= Seq::<Seq<char>>::empty());
            }
            continue;
        }
        let dash = to_chars("-");
        if starts_with_chars(ac.as_slice(), dash.as_slice()) {
            let ghost before = string_views(jvm@);
            jvm.push(a.clone());
            assert(string_views(jvm@) =~= before + seq![sa[i as int]]);
            i = i + 1;
            continue;
        }
        let main_class = a.clone();
        let mut app: Vec<String> = Vec::new();
        let mut k = i + 1;
        while k < args.len()
            invariant
                i < k <= args@.len(),
                sa == string_views(args@),
                string_views(app@) == sa.subrange(i + 1, k as int),
            decreases args@.len() - k,
        {
            app.push(args[k].clone());
            assert(sa.subrange(i + 1, k + 1) =~= sa.subrange(i + 1, k as int).push(
                args@[k as int]@,
            ));
            k = k + 1;
        }
        assert(sa.subrange(i + 1, args@.len() as int) =~= sa.skip(i + 1));
        assert(string_views(jvm@) + Seq::<Seq<char>>::empty() =~= string_views(jvm@));
        return (jvm, main_class, app);
    }
    assert(string_views(jvm@) + Seq::<Seq<char>>::empty() =~= string_views(jvm@));
    (jvm, String::new(), Vec::new())
}

fn str_is(v: &Vec<char>, lit: &str) -> (r: bool)
    ensures
        r == (v@ == lit@),
{
    let l = to_chars(lit);
    chars_eq(v.as_slice(), l.as_slice())
}

/// Replaces the launcher's conflicting JVM options by `injected`: kept
/// launcher options, then the injected flags, then the main class (when not
/// empty) and the application arguments.
pub fn filter_args(orig: &[String], injected: &[String]) -> (r: Vec<String>)
    ensures
        string_views(r@) == filter_args_of(string_views(orig@), string_views(injected@)),
{
    let (jvm_args, main_class, app) = split_args(orig);
    let ghost jv = string_views(jvm_args@);
    let mut result: Vec<String> = Vec::new();
    let mut i: usize = 0;
    while i < jvm_args.len()
        invariant
            i <= jvm_args@.len(),
            jv == string_views(jvm_args@),
            string_views(result@) == jv.take(i as int).filter(|a: Seq<char>| keep_arg(a)),
        decreases jvm_args@.len() - i,
    {
        let a = &jvm_args[i];
        proof {
            jv.take(i as int).lemma_filter_push(jv[i as int], |a: Seq<char>| keep_arg(a));
            assert(jv.take(i as int).push(jv[i as int]) =~= jv.take(i + 1));
        }
        if !should_remove(a.as_str()) {
            result.push(a.clone());
            assert(string_views(result@) =~= jv.take(i as int).filter(|a: Seq<char>| keep_arg(a)).push(jv[i as int]));
        } else {
            assert(string_views(result@) =~= jv.take(i as int).filter(|a: Seq<char>| keep_arg(a)));
        }
        i = i + 1;
    }
    assert(jv.take(jv.len() as int) =~= jv);
    let ghost kept = string_views(result@);
    let mut j: usize = 0;
    while j < injected.len()
        invariant
            j <= injected@.len(),
            string_views(result@) == kept + string_views(injected@).take(j as int),
        decreases injected@.len() - j,
    {
        result.push(injected[j].clone());
        assert(kept + string_views(injected@).take(j + 1) =~= (kept + string_views(injected@).take(
            j as int,
        )).push(injected@[j as int]@));
        j = j + 1;
    }
    assert(string_views(injected@).take(injected@.len() as int) =~= string_views(injected@));
    let ghost with_inj = string_views(result@);
    if !main_class.as_str().is_empty() {
        result.push(main_class);
    }
    let ghost with_main = string_views(result@);
    assert(with_main =~= with_inj + (if main_class_text(split_of(string_views(orig@))).len() > 0 {
        seq![main_class_text(split_of(string_views(orig@)))]
    } else {
        Seq::<Seq<char>>::empty()
    }));
    let mut k: usize = 0;
    while k < app.len()
        invariant
            k <= app@.len(),
            string_views(result@) == with_main + string_views(app@).take(k as int),
        decreases app@.len() - k,
    {
        result.push(app[k].clone());
        assert(with_main + string_views(app@).take(k + 1) =~= (with_main + string_views(app@).take(
            k as int,
        )).push(app@[k as int]@));
        k = k + 1;
    }
    assert(string_views(app@).take(app@.len() as int) =~= string_views(app@));
    result
}

// ───────────────────────── laws ─────────────────────────

pub open spec fn main_class_seq(sp: SplitView) -> Seq<Seq<char>> {
    match sp.main_class {
        Some(m) => seq![m],
        None => Seq::empty(),
    }
}

proof fn lemma_split_from_reassembles(args: Seq<Seq<char>>, i: int)
    requires
        0 <= i <= args.len(),
    ensures
        split_from(args, i).jvm + main_class_seq(split_from(args, i)) + split_from(args, i).app
            == args.skip(i),
    decreases args.len() + 1 - i,
{
    let sp = split_from(args, i);
    if i >= args.len() {
        assert(args.skip(i) =~= Seq::<Seq<char>>::empty());
        assert(sp.jvm + main_class_seq(sp) + sp.app =~= Seq::<Seq<char>>::empty());
    } else if takes_value(args[i]) {
        if i + 1 < args.len() {
            lemma_split_from_reassembles(args, i + 2);
            assert(args.skip(i) =~= seq![args[i], args[i + 1]] + args.skip(i + 2));
        } else {
            assert(args.skip(i) =~= seq![args[i]]);
            assert(split_from(args, i + 2).jvm =~= Seq::<Seq<char>>::empty());
        }
        assert(sp.jvm + main_class_seq(sp) + sp.app =~= args.skip(i));
    } else if starts_with(args[i], "-"@) {
        lemma_split_from_reassembles(args, i + 1);
        assert(args.skip(i) =~= seq![args[i]] + args.skip(i + 1));
        assert(sp.jvm + main_class_seq(sp) + sp.app =~= args.skip(i));
    } else {
        assert(args.skip(i) =~= seq![args[i]] + args.skip(i + 1));
        assert(sp.jvm + main_class_seq(sp) + sp.app =~= args.skip(i));
    }
}

/// Splitting loses nothing: the JVM options, the main class (when there is
/// one) and the application arguments put back together are the given
/// command line.
pub proof fn lemma_split_reassembles(args: Seq<Seq<char>>)
    ensures
        split_of(args).jvm + main_class_seq(split_of(args)) + split_of(args).app == args,
{
    lemma_split_from_reassembles(args, 0);
    assert(args.skip(0) =~= args);
}

/// Shape of a filtered command line: first the launcher options the filter
/// keeps (none of them conflicts with the injected flags), then exactly the
/// injected flags as one block, and it ends with the application arguments.
pub proof fn lemma_filter_args_layout(orig: Seq<Seq<char>>, injected: Seq<Seq<char>>)
    ensures
        ({
            let r = filter_args_of(orig, injected);
            let kept = split_of(orig).jvm.filter(|a: Seq<char>| keep_arg(a));
            let app = split_of(orig).app;
            &&& forall|k: int| 0 <= k < kept.len() ==> !should_remove_of(#[trigger] r[k])
            &&& r.subrange(kept.len() as int, (kept.len() + injected.len()) as int) == injected
            &&& r.len() >= kept.len() + injected.len() + app.len()
            &&& r.skip(r.len() - app.len()) == app
        }),
{
    let r = filter_args_of(orig, injected);
    let jvm = split_of(orig).jvm;
    let pred = |a: Seq<char>| keep_arg(a);
    let kept = jvm.filter(pred);
    let app = split_of(orig).app;
    assert forall|k: int| 0 <= k < kept.len() implies !should_remove_of(#[trigger] r[k]) by {
        jvm.lemma_filter_pred(pred, k);
        assert(r[k] == kept[k]);
    }
    assert(r.subrange(kept.len() as int, (kept.len() + injected.len()) as int) =~= injected);
    assert(r.skip(r.len() - app.len()) =~= app);
}

/// The initial heap flag never exceeds the maximum heap flag: the first two
/// flags are `-Xmx{heap}g` and `-Xms{min(heap, 4)}g`.
pub proof fn lemma_initial_heap_within_max(cfg: &Config)
    ensures
        flags_of(cfg).len() >= 2,
        flags_of(cfg)[0] == nflag("-Xmx"@, cfg.heap_size_gb as nat, "g"@),
        flags_of(cfg)[1] == nflag("-Xms"@, xms_of(cfg), "g"@),
        xms_of(cfg) <= cfg.heap_size_gb,
        xms_of(cfg) <= 4,
{
}

/// The flag is a JVM option: it starts with `-`.
pub open spec fn is_option(f: Seq<char>) -> bool {
    f.len() > 0 && f[0] == '-'
}

pub open spec fn all_options(fs: Seq<Seq<char>>) -> bool {
    forall|i: int| 0 <= i < fs.len() ==> is_option(#[trigger] fs[i])
}

proof fn lemma_options_concat(a: Seq<Seq<char>>, b: Seq<Seq<char>>)
    requires
        all_options(a),
        all_options(b),
    ensures
        all_options(a + b),
{
    assert forall|i: int| 0 <= i < (a + b).len() implies is_option(#[trigger] (a + b)[i]) by {
        if i < a.len() {
            assert((a + b)[i] == a[i]);
        } else {
            assert((a + b)[i] == b[i - a.len()]);
        }
    }
}

proof fn lemma_options_when(c: bool, s: Seq<Seq<char>>)
    requires
        all_options(s),
    ensures
        all_options(when(c, s)),
{
    reveal(when);
}

proof fn lemma_nflag_option(prefix: Seq<char>, n: nat, suffix: Seq<char>)
    requires
        is_option(prefix),
    ensures
        is_option(nflag(prefix, n, suffix)),
{
    assert((prefix + decimal(n) + suffix)[0] == prefix[0]);
}

proof fn lemma_heap_gc_options(cfg: &Config)
    ensures
        all_options(heap_gc_flags(cfg)),
{
    reveal_strlit("-XX:+G1UseAdaptiveIHOP");
    reveal_strlit("-XX:+UnlockExperimentalVMOptions");
    reveal_strlit("-XX:+UseG1GC");
    reveal_strlit("-XX:G1HeapRegionSize=");
    reveal_strlit("-XX:G1HeapWastePercent=");
    reveal_strlit("-XX:G1MaxNewSizePercent=");
    reveal_strlit("-XX:G1MixedGCCountTarget=");
    reveal_strlit("-XX:G1MixedGCLiveThresholdPercent=");
    reveal_strlit("-XX:G1NewSizePercent=");
    reveal_strlit("-XX:G1RSetUpdatingPauseTimePercent=");
    reveal_strlit("-XX:G1ReservePercent=");
    reveal_strlit("-XX:InitiatingHeapOccupancyPercent=");
    reveal_strlit("-XX:MaxGCPauseMillis=");
    reveal_strlit("-XX:MaxMetaspaceSize=");
    reveal_strlit("-XX:MaxTenuringThreshold=");
    reveal_strlit("-XX:MetaspaceSize=");
    reveal_strlit("-XX:SurvivorRatio=");
    reveal_strlit("-Xms");
    reveal_strlit("-Xmx");
    assert forall|p: Seq<char>, n: nat, x: Seq<char>| is_option(p) implies #[trigger] is_option(
        nflag(p, n, x),
    ) by {
        lemma_nflag_option(p, n, x);
    }
}

proof fn lemma_thread_code_options(cfg: &Config)
    ensures
        all_options(thread_code_flags(cfg)),
{
    reveal_strlit("-Djdk.nio.maxCachedBufferSize=131072");
    reveal_strlit("-XX:+DisableAttachMechanism");
    reveal_strlit("-XX:+DisableExplicitGC");
    reveal_strlit("-XX:+ParallelRefProcEnabled");
    reveal_strlit("-XX:-UseBiasedLocking");
    reveal_strlit("-XX:ConcGCThreads=");
    reveal_strlit("-XX:FreqInlineSize=");
    reveal_strlit("-XX:MaxInlineLevel=");
    reveal_strlit("-XX:NonNMethodCodeHeapSize=");
    reveal_strlit("-XX:NonProfiledCodeHeapSize=");
    reveal_strlit("-XX:ParallelGCThreads=");
    reveal_strlit("-XX:ProfiledCodeHeapSize=");
    reveal_strlit("-XX:ReservedCodeCacheSize=");
    reveal_strlit("-XX:SoftRefLRUPolicyMSPerMB=");
    assert forall|p: Seq<char>, n: nat, x: Seq<char>| is_option(p) implies #[trigger] is_option(
        nflag(p, n, x),
    ) by {
        lemma_nflag_option(p, n, x);
    }
}

#[verifier::rlimit(60)]
proof fn lemma_optional_gc_options(cfg: &Config)
    ensures
        all_options(optional_gc_flags(cfg)),
{
    reveal_strlit("-XX:+AlwaysPreTouch");
    reveal_strlit("-XX:+UseDynamicNumberOfGCThreads");
    reveal_strlit("-XX:+UseStringDeduplication");
    reveal_strlit("-XX:G1ConcRSHotCardLimit=");
    reveal_strlit("-XX:G1ConcRefinementServiceIntervalMillis=");
    reveal_strlit("-XX:G1SATBBufferEnqueueingThresholdPercent=");
    reveal_strlit("-XX:GCTimeRatio=");
    assert forall|p: Seq<char>, n: nat, x: Seq<char>| is_option(p) implies #[trigger] is_option(
        nflag(p, n, x),
    ) by {
        lemma_nflag_option(p, n, x);
    }
    reveal(when);
}

#[verifier::rlimit(60)]
proof fn lemma_optional_compiler_options(cfg: &Config)
    ensures
        all_options(optional_compiler_flags(cfg)),
{
    reveal_strlit("-XX:+AlwaysActAsServerClassMachine");
    reveal_strlit("-XX:+UseFPUForSpilling");
    reveal_strlit("-XX:+UseXMMForArrayCopy");
    reveal_strlit("-XX:-DontCompileHugeMethods");
    reveal_strlit("-XX:AllocatePrefetchStyle=");
    reveal_strlit("-XX:InlineSmallCode=");
    reveal_strlit("-XX:MaxNodeLimit=");
    reveal_strlit("-XX:NmethodSweepActivity=");
    reveal_strlit("-XX:NodeLimitFudgeFactor=");
    assert forall|p: Seq<char>, n: nat, x: Seq<char>| is_option(p) implies #[trigger] is_option(
        nflag(p, n, x),
    ) by {
        lemma_nflag_option(p, n, x);
    }
    reveal(when);
}

proof fn lemma_optional_runtime_options(cfg: &Config)
    ensures
        all_options(optional_runtime_flags(cfg)),
{
    reveal_strlit("-Dsun.reflect.inflationThreshold=");
    reveal_strlit("-XX:+UseLargePages");
    reveal_strlit("-XX:+UseThreadPriorities");
    reveal_strlit("-XX:-UseCounterDecay");
    reveal_strlit("-XX:AutoBoxCacheMax=");
    reveal_strlit("-XX:CompileThresholdScaling=");
    reveal_strlit("-XX:LargePageSizeInBytes=");
    reveal_strlit("-XX:ThreadPriorityPolicy=");
    assert forall|p: Seq<char>, n: nat, x: Seq<char>| is_option(p) implies #[trigger] is_option(
        nflag(p, n, x),
    ) by {
        lemma_nflag_option(p, n, x);
    }
    reveal(when);
    assert(("-Dsun.reflect.inflationThreshold="@ + signed_decimal(
        cfg.reflection_inflation_threshold as int,
    ))[0] == '-');
    assert(("-XX:CompileThresholdScaling="@ + cfg.compile_threshold_scaling_text@)[0] == '-');
}

/// Every flag of every profile is a JVM option: it starts with `-`.
pub proof fn lemma_flags_are_options(cfg: &Config)
    ensures
        forall|i: int| 0 <= i < flags_of(cfg).len() ==> is_option(#[trigger] flags_of(cfg)[i]),
{
    lemma_heap_gc_options(cfg);
    lemma_thread_code_options(cfg);
    lemma_optional_gc_options(cfg);
    lemma_optional_compiler_options(cfg);
    lemma_optional_runtime_options(cfg);
    lemma_options_concat(heap_gc_flags(cfg), thread_code_flags(cfg));
    lemma_options_concat(heap_gc_flags(cfg) + thread_code_flags(cfg), optional_gc_flags(cfg));
    lemma_options_concat(
        heap_gc_flags(cfg) + thread_code_flags(cfg) + optional_gc_flags(cfg),
        optional_compiler_flags(cfg),
    );
    lemma_options_concat(
        heap_gc_flags(cfg) + thread_code_flags(cfg) + optional_gc_flags(cfg) + optional_compiler_flags(
            cfg,
        ),
        optional_runtime_flags(cfg),
    );
}

/// The flag that turns large pages on.
pub open spec fn large_pages_flag() -> Seq<char> {
    "-XX:+UseLargePages"@
}

/// The flag that sets the reflection inflation threshold.
pub open spec fn is_inflation_flag(f: Seq<char>) -> bool {
    starts_with(f, "-Dsun.reflect.inflationThreshold="@)
}

/// Neither the large-pages flag (told apart by the characters at 1, 2, 4
/// and 8) nor an inflation flag (told apart at 1 and 2).
spec fn plain_flag(f: Seq<char>) -> bool {
    &&& (f.len() < 9 || f[1] != 'X' || f[2] != 'X' || f[4] != '+' || f[8] != 'L')
    &&& (f.len() < 3 || f[1] != 'D' || f[2] != 's')
}

spec fn all_plain(fs: Seq<Seq<char>>) -> bool {
    forall|i: int| 0 <= i < fs.len() ==> plain_flag(#[trigger] fs[i])
}

proof fn lemma_plain_flag(f: Seq<char>)
    requires
        plain_flag(f),
    ensures
        f != large_pages_flag(),
        !is_inflation_flag(f),
{
    reveal_strlit("-XX:+UseLargePages");
    reveal_strlit("-Dsun.reflect.inflationThreshold=");
    if f == large_pages_flag() {
        assert(f[1] == 'X' && f[2] == 'X' && f[4] == '+' && f[8] == 'L');
    }
    if is_inflation_flag(f) {
        assert(f.subrange(0, 33)[1] == f[1] && f.subrange(0, 33)[2] == f[2]);
    }
}

proof fn lemma_plain_concat(a: Seq<Seq<char>>, b: Seq<Seq<char>>)
    requires
        all_plain(a),
        all_plain(b),
    ensures
        all_plain(a + b),
{
    assert forall|i: int| 0 <= i < (a + b).len() implies plain_flag(#[trigger] (a + b)[i]) by {
        if i < a.len() {
            assert((a + b)[i] == a[i]);
        } else {
            assert((a + b)[i] == b[i - a.len()]);
        }
    }
}

proof fn lemma_heap_gc_plain(cfg: &Config)
    ensures
        all_plain(heap_gc_flags(cfg)),
{
    reveal_strlit("-XX:+G1UseAdaptiveIHOP");
    reveal_strlit("-XX:+UnlockExperimentalVMOptions");
    reveal_strlit("-XX:+UseG1GC");
    reveal_strlit("-XX:G1HeapRegionSize=");
    reveal_strlit("-XX:G1HeapWastePercent=");
    reveal_strlit("-XX:G1MaxNewSizePercent=");
    reveal_strlit("-XX:G1MixedGCCountTarget=");
    reveal_strlit("-XX:G1MixedGCLiveThresholdPercent=");
    reveal_strlit("-XX:G1NewSizePercent=");
    reveal_strlit("-XX:G1RSetUpdatingPauseTimePercent=");
    reveal_strlit("-XX:G1ReservePercent=");
    reveal_strlit("-XX:InitiatingHeapOccupancyPercent=");
    reveal_strlit("-XX:MaxGCPauseMillis=");
    reveal_strlit("-XX:MaxMetaspaceSize=");
    reveal_strlit("-XX:MaxTenuringThreshold=");
    reveal_strlit("-XX:MetaspaceSize=");
    reveal_strlit("-XX:SurvivorRatio=");
    reveal_strlit("-Xms");
    reveal_strlit("-Xmx");
    assert forall|p: Seq<char>, n: nat, x: Seq<char>, k: int| 0 <= k < p.len() implies #[trigger] nflag(
        p,
        n,
        x,
    )[k] == p[k] && nflag(p, n, x).len() >= p.len() by {
        assert((p + decimal(n) + x)[k] == p[k]);
    }
}

proof fn lemma_thread_code_plain(cfg: &Config)
    ensures
        all_plain(thread_code_flags(cfg)),
{
    reveal_strlit("-Djdk.nio.maxCachedBufferSize=131072");
    reveal_strlit("-XX:+DisableAttachMechanism");
    reveal_strlit("-XX:+DisableExplicitGC");
    reveal_strlit("-XX:+ParallelRefProcEnabled");
    reveal_strlit("-XX:-UseBiasedLocking");
    reveal_strlit("-XX:ConcGCThreads=");
    reveal_strlit("-XX:FreqInlineSize=");
    reveal_strlit("-XX:MaxInlineLevel=");
    reveal_strlit("-XX:NonNMethodCodeHeapSize=");
    reveal_strlit("-XX:NonProfiledCodeHeapSize=");
    reveal_strlit("-XX:ParallelGCThreads=");
    reveal_strlit("-XX:ProfiledCodeHeapSize=");
    reveal_strlit("-XX:ReservedCodeCacheSize=");
    reveal_strlit("-XX:SoftRefLRUPolicyMSPerMB=");
    assert forall|p: Seq<char>, n: nat, x: Seq<char>, k: int| 0 <= k < p.len() implies #[trigger] nflag(
        p,
        n,
        x,
    )[k] == p[k] && nflag(p, n, x).len() >= p.len() by {
        assert((p + decimal(n) + x)[k] == p[k]);
    }
}

#[verifier::rlimit(60)]
proof fn lemma_optional_gc_plain(cfg: &Config)
    ensures
        all_plain(optional_gc_flags(cfg)),
{
    reveal_strlit("-XX:+AlwaysPreTouch");
    reveal_strlit("-XX:+UseDynamicNumberOfGCThreads");
    reveal_strlit("-XX:+UseStringDeduplication");
    reveal_strlit("-XX:G1ConcRSHotCardLimit=");
    reveal_strlit("-XX:G1ConcRefinementServiceIntervalMillis=");
    reveal_strlit("-XX:G1SATBBufferEnqueueingThresholdPercent=");
    reveal_strlit("-XX:GCTimeRatio=");
    assert forall|p: Seq<char>, n: nat, x: Seq<char>, k: int| 0 <= k < p.len() implies #[trigger] nflag(
        p,
        n,
        x,
    )[k] == p[k] && nflag(p, n, x).len() >= p.len() by {
        assert((p + decimal(n) + x)[k] == p[k]);
    }
    reveal(when);
}

#[verifier::rlimit(60)]
proof fn lemma_optional_compiler_plain(cfg: &Config)
    ensures
        all_plain(optional_compiler_flags(cfg)),
{
    reveal_strlit("-XX:+AlwaysActAsServerClassMachine");
    reveal_strlit("-XX:+UseFPUForSpilling");
    reveal_strlit("-XX:+UseXMMForArrayCopy");
    reveal_strlit("-XX:-DontCompileHugeMethods");
    reveal_strlit("-XX:AllocatePrefetchStyle=");
    reveal_strlit("-XX:InlineSmallCode=");
    reveal_strlit("-XX:MaxNodeLimit=");
    reveal_strlit("-XX:NmethodSweepActivity=");
    reveal_strlit("-XX:NodeLimitFudgeFactor=");
    assert forall|p: Seq<char>, n: nat, x: Seq<char>, k: int| 0 <= k < p.len() implies #[trigger] nflag(
        p,
        n,
        x,
    )[k] == p[k] && nflag(p, n, x).len() >= p.len() by {
        assert((p + decimal(n) + x)[k] == p[k]);
    }
    reveal(when);
}

/// The runtime flags after the inflation threshold.
spec fn runtime_tail(cfg: &Config) -> Seq<Seq<char>> {
    when(
        cfg.auto_box_cache_max > 0,
        seq![nflag("-XX:AutoBoxCacheMax="@, cfg.auto_box_cache_max as nat, ""@)],
    ) + when(
        cfg.use_thread_priorities,
        seq!["-XX:+UseThreadPriorities"@] + when(
            cfg.thread_priority_policy > 0,
            seq![nflag("-XX:ThreadPriorityPolicy="@, cfg.thread_priority_policy as nat, ""@)],
        ),
    ) + when(!cfg.use_counter_decay, seq!["-XX:-UseCounterDecay"@]) + when(
        cfg.compile_threshold_scaling_applies,
        seq!["-XX:CompileThresholdScaling="@ + cfg.compile_threshold_scaling_text@],
    )
}

/// The runtime flags before the inflation threshold.
spec fn runtime_head(cfg: &Config) -> Seq<Seq<char>> {
    when(
        cfg.use_large_pages,
        seq!["-XX:+UseLargePages"@] + when(
            cfg.large_page_size_mb > 0,
            seq![nflag("-XX:LargePageSizeInBytes="@, cfg.large_page_size_mb as nat, "m"@)],
        ),
    )
}

spec fn inflation_flag_of(cfg: &Config) -> Seq<char> {
    "-Dsun.reflect.inflationThreshold="@ + signed_decimal(cfg.reflection_inflation_threshold as int)
}

#[verifier::rlimit(60)]
proof fn lemma_runtime_parts(cfg: &Config)
    ensures
        optional_runtime_flags(cfg) == runtime_head(cfg) + seq![inflation_flag_of(cfg)] + runtime_tail(cfg),
        all_plain(runtime_tail(cfg)),
        cfg.use_large_pages ==> runtime_head(cfg)[0] == large_pages_flag() && runtime_head(cfg).len() >= 1,
        !cfg.use_large_pages ==> runtime_head(cfg).len() == 0,
        forall|i: int| 0 <= i < runtime_head(cfg).len() ==> !is_inflation_flag(#[trigger] runtime_head(cfg)[i]),
        is_inflation_flag(inflation_flag_of(cfg)),
        inflation_flag_of(cfg) != large_pages_flag(),
{
    reveal_strlit("-Dsun.reflect.inflationThreshold=");
    reveal_strlit("-XX:+UseLargePages");
    reveal_strlit("-XX:+UseThreadPriorities");
    reveal_strlit("-XX:-UseCounterDecay");
    reveal_strlit("-XX:AutoBoxCacheMax=");
    reveal_strlit("-XX:CompileThresholdScaling=");
    reveal_strlit("-XX:LargePageSizeInBytes=");
    reveal_strlit("-XX:ThreadPriorityPolicy=");
    reveal_strlit("-Dsun.reflect.inflationThreshold=");
    assert forall|p: Seq<char>, n: nat, x: Seq<char>, k: int| 0 <= k < p.len() implies #[trigger] nflag(
        p,
        n,
        x,
    )[k] == p[k] && nflag(p, n, x).len() >= p.len() by {
        assert((p + decimal(n) + x)[k] == p[k]);
    }
    reveal(when);
    let t = inflation_flag_of(cfg);
    assert(t.subrange(0, 33) =~= "-Dsun.reflect.inflationThreshold="@);
    assert(t[1] == 'D');
    assert(large_pages_flag()[1] == 'X');
    assert(!is_inflation_flag(large_pages_flag())) by {
        assert(large_pages_flag().len() < 33);
    }
    assert(optional_runtime_flags(cfg) =~= runtime_head(cfg) + seq![inflation_flag_of(cfg)] + runtime_tail(cfg));
    assert(all_plain(runtime_tail(cfg)));
}

/// `-XX:+UseLargePages` is among the flags exactly when the profile asks for
/// large pages, and the reflection inflation threshold is set by exactly one
/// flag, whatever its value.
pub proof fn lemma_large_pages_and_inflation_flags(cfg: &Config)
    ensures
        flags_of(cfg).contains(large_pages_flag()) == cfg.use_large_pages,
        exists|i: int|
            0 <= i < flags_of(cfg).len() && is_inflation_flag(#[trigger] flags_of(cfg)[i]) && forall|j: int|
                0 <= j < flags_of(cfg).len() && is_inflation_flag(#[trigger] flags_of(cfg)[j]) ==> j == i,
{
    lemma_heap_gc_plain(cfg);
    lemma_thread_code_plain(cfg);
    lemma_optional_gc_plain(cfg);
    lemma_optional_compiler_plain(cfg);
    lemma_runtime_parts(cfg);
    let a = heap_gc_flags(cfg) + thread_code_flags(cfg) + optional_gc_flags(cfg) + optional_compiler_flags(cfg);
    lemma_plain_concat(heap_gc_flags(cfg), thread_code_flags(cfg));
    lemma_plain_concat(heap_gc_flags(cfg) + thread_code_flags(cfg), optional_gc_flags(cfg));
    lemma_plain_concat(heap_gc_flags(cfg) + thread_code_flags(cfg) + optional_gc_flags(cfg), optional_compiler_flags(cfg));
    let h = runtime_head(cfg);
    let t = runtime_tail(cfg);
    let x = inflation_flag_of(cfg);
    let fs = flags_of(cfg);
    assert(fs =~= a + h + seq![x] + t);
    let ix: int = (a.len() + h.len()) as int;
    assert(fs[ix] == x);
    assert forall|j: int| 0 <= j < fs.len() && j != ix implies !is_inflation_flag(#[trigger] fs[j]) by {
        if j < a.len() {
            assert(fs[j] == a[j]);
            lemma_plain_flag(a[j]);
        } else if j < ix {
            assert(fs[j] == h[j - a.len()]);
        } else {
            assert(fs[j] == t[j - ix - 1]);
            lemma_plain_flag(t[j - ix - 1]);
        }
    }
    if cfg.use_large_pages {
        assert(fs[a.len() as int] == large_pages_flag());
    } else {
        assert forall|j: int| 0 <= j < fs.len() implies #[trigger] fs[j] != large_pages_flag() by {
            if j < a.len() {
                assert(fs[j] == a[j]);
                lemma_plain_flag(a[j]);
            } else if j == ix {
            } else {
                assert(fs[j] == t[j - ix - 1]);
                lemma_plain_flag(t[j - ix - 1]);
            }
        }
    }
}

/// An `-XX:+Name` / `-XX:-Name` switch: an option without a value.
pub open spec fn is_switch(f: Seq<char>) -> bool {
    &&& f.len() >= 5
    &&& f[0] == '-' && f[1] == 'X' && f[2] == 'X' && f[3] == ':'
    &&& (f[4] == '+' || f[4] == '-')
}

proof fn lemma_contains_facts()
    ensures
        forall|a: Seq<Seq<char>>, b: Seq<Seq<char>>, x: Seq<char>| #[trigger] (a + b).contains(x) <==> (
        a.contains(x) || b.contains(x)),
        forall|c: bool, t: Seq<Seq<char>>, x: Seq<char>| #[trigger] when(c, t).contains(x) <==> (c
            && t.contains(x)),
        forall|y: Seq<char>, x: Seq<char>| #[trigger] seq![y].contains(x) <==> y == x,
{
    reveal(when);
    assert forall|a: Seq<Seq<char>>, b: Seq<Seq<char>>, x: Seq<char>| #[trigger] (a + b).contains(x) <==> (
    a.contains(x) || b.contains(x)) by {
        if (a + b).contains(x) {
            let i = choose|i: int| 0 <= i < (a + b).len() && (a + b)[i] == x;
            if i < a.len() {
                assert(a[i] == x);
            } else {
                assert(b[i - a.len()] == x);
            }
        }
        if a.contains(x) {
            let i = choose|i: int| 0 <= i < a.len() && a[i] == x;
            assert((a + b)[i] == x);
        }
        if b.contains(x) {
            let i = choose|i: int| 0 <= i < b.len() && b[i] == x;
            assert((a + b)[i + a.len()] == x);
        }
    }
    assert forall|y: Seq<char>, x: Seq<char>| #[trigger] seq![y].contains(x) <==> y == x by {
        if y == x {
            assert(seq![y][0] == x);
        }
    }
}

#[verifier::rlimit(80)]
proof fn lemma_heap_gc_switches(cfg: &Config)
    ensures
        forall|x: Seq<char>| is_switch(x) ==> (#[trigger] heap_gc_flags(cfg).contains(x) <==> (x == "-XX:+UseG1GC"@ || x == "-XX:+UnlockExperimentalVMOptions"@ || x == "-XX:+G1UseAdaptiveIHOP"@)),
{
    reveal_strlit("-XX:+G1UseAdaptiveIHOP");
    reveal_strlit("-XX:+UnlockExperimentalVMOptions");
    reveal_strlit("-XX:+UseG1GC");
    reveal_strlit("-XX:G1HeapRegionSize=");
    reveal_strlit("-XX:G1HeapWastePercent=");
    reveal_strlit("-XX:G1MaxNewSizePercent=");
    reveal_strlit("-XX:G1MixedGCCountTarget=");
    reveal_strlit("-XX:G1MixedGCLiveThresholdPercent=");
    reveal_strlit("-XX:G1NewSizePercent=");
    reveal_strlit("-XX:G1RSetUpdatingPauseTimePercent=");
    reveal_strlit("-XX:G1ReservePercent=");
    reveal_strlit("-XX:InitiatingHeapOccupancyPercent=");
    reveal_strlit("-XX:MaxGCPauseMillis=");
    reveal_strlit("-XX:MaxMetaspaceSize=");
    reveal_strlit("-XX:MaxTenuringThreshold=");
    reveal_strlit("-XX:MetaspaceSize=");
    reveal_strlit("-XX:SurvivorRatio=");
    reveal_strlit("-Xms");
    reveal_strlit("-Xmx");
    assert forall|p: Seq<char>, n: nat, x: Seq<char>, k: int| 0 <= k < p.len() implies #[trigger] nflag(
        p,
        n,
        x,
    )[k] == p[k] && nflag(p, n, x).len() >= p.len() by {
        assert((p + decimal(n) + x)[k] == p[k]);
    }
    assert forall|x: Seq<char>| is_switch(x) implies (#[trigger] heap_gc_flags(cfg).contains(x) <==> (x == "-XX:+UseG1GC"@ || x == "-XX:+UnlockExperimentalVMOptions"@ || x == "-XX:+G1UseAdaptiveIHOP"@)) by {
        let fs = heap_gc_flags(cfg);
        if fs.contains(x) {
            let i = choose|i: int| 0 <= i < fs.len() && fs[i] == x;
            assert(is_switch(fs[i]));
        }
        if x == "-XX:+UseG1GC"@ {
            assert(fs[4] == x);
        }
        if x == "-XX:+UnlockExperimentalVMOptions"@ {
            assert(fs[5] == x);
        }
        if x == "-XX:+G1UseAdaptiveIHOP"@ {
            assert(fs[13] == x);
        }
    }
}

#[verifier::rlimit(80)]
proof fn lemma_thread_code_switches(cfg: &Config)
    ensures
        forall|x: Seq<char>| is_switch(x) ==> (#[trigger] thread_code_flags(cfg).contains(x) <==> (x == "-XX:+ParallelRefProcEnabled"@ || x == "-XX:+DisableExplicitGC"@ || x == "-XX:-UseBiasedLocking"@ || x == "-XX:+DisableAttachMechanism"@)),
{
    reveal_strlit("-Djdk.nio.maxCachedBufferSize=131072");
    reveal_strlit("-XX:+DisableAttachMechanism");
    reveal_strlit("-XX:+DisableExplicitGC");
    reveal_strlit("-XX:+ParallelRefProcEnabled");
    reveal_strlit("-XX:-UseBiasedLocking");
    reveal_strlit("-XX:ConcGCThreads=");
    reveal_strlit("-XX:FreqInlineSize=");
    reveal_strlit("-XX:MaxInlineLevel=");
    reveal_strlit("-XX:NonNMethodCodeHeapSize=");
    reveal_strlit("-XX:NonProfiledCodeHeapSize=");
    reveal_strlit("-XX:ParallelGCThreads=");
    reveal_strlit("-XX:ProfiledCodeHeapSize=");
    reveal_strlit("-XX:ReservedCodeCacheSize=");
    reveal_strlit("-XX:SoftRefLRUPolicyMSPerMB=");
    assert forall|p: Seq<char>, n: nat, x: Seq<char>, k: int| 0 <= k < p.len() implies #[trigger] nflag(
        p,
        n,
        x,
    )[k] == p[k] && nflag(p, n, x).len() >= p.len() by {
        assert((p + decimal(n) + x)[k] == p[k]);
    }
    assert forall|x: Seq<char>| is_switch(x) implies (#[trigger] thread_code_flags(cfg).contains(x) <==> (x == "-XX:+ParallelRefProcEnabled"@ || x == "-XX:+DisableExplicitGC"@ || x == "-XX:-UseBiasedLocking"@ || x == "-XX:+DisableAttachMechanism"@)) by {
        let fs = thread_code_flags(cfg);
        if fs.contains(x) {
            let i = choose|i: int| 0 <= i < fs.len() && fs[i] == x;
            assert(is_switch(fs[i]));
        }
        if x == "-XX:+ParallelRefProcEnabled"@ {
            assert(fs[2] == x);
        }
        if x == "-XX:+DisableExplicitGC"@ {
            assert(fs[3] == x);
        }
        if x == "-XX:-UseBiasedLocking"@ {
            assert(fs[5] == x);
        }
        if x == "-XX:+DisableAttachMechanism"@ {
            assert(fs[6] == x);
        }
    }
}

#[verifier::rlimit(80)]
proof fn lemma_optional_gc_switches(cfg: &Config)
    ensures
        forall|x: Seq<char>| is_switch(x) ==> (#[trigger] optional_gc_flags(cfg).contains(x) <==> ((cfg.pre_touch && x == "-XX:+AlwaysPreTouch"@) || (cfg.use_dynamic_number_of_gc_threads && x == "-XX:+UseDynamicNumberOfGCThreads"@) || (cfg.use_string_deduplication && x == "-XX:+UseStringDeduplication"@))),
{
    reveal_strlit("-XX:+AlwaysPreTouch");
    reveal_strlit("-XX:+UseDynamicNumberOfGCThreads");
    reveal_strlit("-XX:+UseStringDeduplication");
    reveal_strlit("-XX:G1ConcRSHotCardLimit=");
    reveal_strlit("-XX:G1ConcRefinementServiceIntervalMillis=");
    reveal_strlit("-XX:G1SATBBufferEnqueueingThresholdPercent=");
    reveal_strlit("-XX:GCTimeRatio=");
    assert forall|p: Seq<char>, n: nat, x: Seq<char>, k: int| 0 <= k < p.len() implies #[trigger] nflag(
        p,
        n,
        x,
    )[k] == p[k] && nflag(p, n, x).len() >= p.len() by {
        assert((p + decimal(n) + x)[k] == p[k]);
    }
    lemma_contains_facts();
    reveal(when);
    assert forall|x: Seq<char>| is_switch(x) implies (#[trigger] optional_gc_flags(cfg).contains(x) <==> ((cfg.pre_touch && x == "-XX:+AlwaysPreTouch"@) || (cfg.use_dynamic_number_of_gc_threads && x == "-XX:+UseDynamicNumberOfGCThreads"@) || (cfg.use_string_deduplication && x == "-XX:+UseStringDeduplication"@))) by {
        assert(is_switch(x));
    }
}

#[verifier::rlimit(80)]
proof fn lemma_optional_compiler_switches(cfg: &Config)
    ensures
        forall|x: Seq<char>| is_switch(x) ==> (#[trigger] optional_compiler_flags(cfg).contains(x) <==> ((!cfg.dont_compile_huge_methods && x == "-XX:-DontCompileHugeMethods"@) || (cfg.always_act_as_server_class && x == "-XX:+AlwaysActAsServerClassMachine"@) || (cfg.use_xmm_for_array_copy && x == "-XX:+UseXMMForArrayCopy"@) || (cfg.use_fpu_for_spilling && x == "-XX:+UseFPUForSpilling"@))),
{
    reveal_strlit("-XX:+AlwaysActAsServerClassMachine");
    reveal_strlit("-XX:+UseFPUForSpilling");
    reveal_strlit("-XX:+UseXMMForArrayCopy");
    reveal_strlit("-XX:-DontCompileHugeMethods");
    reveal_strlit("-XX:AllocatePrefetchStyle=");
    reveal_strlit("-XX:InlineSmallCode=");
    reveal_strlit("-XX:MaxNodeLimit=");
    reveal_strlit("-XX:NmethodSweepActivity=");
    reveal_strlit("-XX:NodeLimitFudgeFactor=");
    assert forall|p: Seq<char>, n: nat, x: Seq<char>, k: int| 0 <= k < p.len() implies #[trigger] nflag(
        p,
        n,
        x,
    )[k] == p[k] && nflag(p, n, x).len() >= p.len() by {
        assert((p + decimal(n) + x)[k] == p[k]);
    }
    lemma_contains_facts();
    reveal(when);
    assert forall|x: Seq<char>| is_switch(x) implies (#[trigger] optional_compiler_flags(cfg).contains(x) <==> ((!cfg.dont_compile_huge_methods && x == "-XX:-DontCompileHugeMethods"@) || (cfg.always_act_as_server_class && x == "-XX:+AlwaysActAsServerClassMachine"@) || (cfg.use_xmm_for_array_copy && x == "-XX:+UseXMMForArrayCopy"@) || (cfg.use_fpu_for_spilling && x == "-XX:+UseFPUForSpilling"@))) by {
        assert(is_switch(x));
    }
}

#[verifier::rlimit(80)]
proof fn lemma_optional_runtime_switches(cfg: &Config)
    ensures
        forall|x: Seq<char>| is_switch(x) ==> (#[trigger] optional_runtime_flags(cfg).contains(x) <==> ((cfg.use_large_pages && x == "-XX:+UseLargePages"@) || (cfg.use_thread_priorities && x == "-XX:+UseThreadPriorities"@) || (!cfg.use_counter_decay && x == "-XX:-UseCounterDecay"@))),
{
    reveal_strlit("-Dsun.reflect.inflationThreshold=");
    reveal_strlit("-XX:+UseLargePages");
    reveal_strlit("-XX:+UseThreadPriorities");
    reveal_strlit("-XX:-UseCounterDecay");
    reveal_strlit("-XX:AutoBoxCacheMax=");
    reveal_strlit("-XX:CompileThresholdScaling=");
    reveal_strlit("-XX:LargePageSizeInBytes=");
    reveal_strlit("-XX:ThreadPriorityPolicy=");
    assert forall|p: Seq<char>, n: nat, x: Seq<char>, k: int| 0 <= k < p.len() implies #[trigger] nflag(
        p,
        n,
        x,
    )[k] == p[k] && nflag(p, n, x).len() >= p.len() by {
        assert((p + decimal(n) + x)[k] == p[k]);
    }
    lemma_contains_facts();
    reveal(when);
    assert forall|x: Seq<char>| is_switch(x) implies (#[trigger] optional_runtime_flags(cfg).contains(x) <==> ((cfg.use_large_pages && x == "-XX:+UseLargePages"@) || (cfg.use_thread_priorities && x == "-XX:+UseThreadPriorities"@) || (!cfg.use_counter_decay && x == "-XX:-UseCounterDecay"@))) by {
        assert(is_switch(x));
    }
}

/// Each switch of a profile is among its flags exactly when the profile
/// turns it on (`-XX:-DontCompileHugeMethods` and `-XX:-UseCounterDecay`
/// when the profile turns those features off); the fixed switches are always
/// there, and their opposites never.
pub proof fn lemma_switch_flags_follow_profile(cfg: &Config)
    ensures
        flags_of(cfg).contains("-XX:+AlwaysPreTouch"@) == (cfg.pre_touch),
        flags_of(cfg).contains("-XX:+UseDynamicNumberOfGCThreads"@) == (cfg.use_dynamic_number_of_gc_threads),
        flags_of(cfg).contains("-XX:+UseStringDeduplication"@) == (cfg.use_string_deduplication),
        flags_of(cfg).contains("-XX:-DontCompileHugeMethods"@) == (!cfg.dont_compile_huge_methods),
        flags_of(cfg).contains("-XX:+AlwaysActAsServerClassMachine"@) == (cfg.always_act_as_server_class),
        flags_of(cfg).contains("-XX:+UseXMMForArrayCopy"@) == (cfg.use_xmm_for_array_copy),
        flags_of(cfg).contains("-XX:+UseFPUForSpilling"@) == (cfg.use_fpu_for_spilling),
        flags_of(cfg).contains("-XX:+UseLargePages"@) == (cfg.use_large_pages),
        flags_of(cfg).contains("-XX:+UseThreadPriorities"@) == (cfg.use_thread_priorities),
        flags_of(cfg).contains("-XX:-UseCounterDecay"@) == (!cfg.use_counter_decay),
        flags_of(cfg).contains("-XX:+UseG1GC"@),
        flags_of(cfg).contains("-XX:+UnlockExperimentalVMOptions"@),
        flags_of(cfg).contains("-XX:+G1UseAdaptiveIHOP"@),
        flags_of(cfg).contains("-XX:+ParallelRefProcEnabled"@),
        flags_of(cfg).contains("-XX:+DisableExplicitGC"@),
        flags_of(cfg).contains("-XX:-UseBiasedLocking"@),
        flags_of(cfg).contains("-XX:+DisableAttachMechanism"@),
        !flags_of(cfg).contains("-XX:+UseBiasedLocking"@),
        !flags_of(cfg).contains("-XX:+DontCompileHugeMethods"@),
        !flags_of(cfg).contains("-XX:+UseCounterDecay"@),
{
    reveal_strlit("-XX:+AlwaysPreTouch");
    reveal_strlit("-XX:+UseDynamicNumberOfGCThreads");
    reveal_strlit("-XX:+UseStringDeduplication");
    reveal_strlit("-XX:-DontCompileHugeMethods");
    reveal_strlit("-XX:+AlwaysActAsServerClassMachine");
    reveal_strlit("-XX:+UseXMMForArrayCopy");
    reveal_strlit("-XX:+UseFPUForSpilling");
    reveal_strlit("-XX:+UseLargePages");
    reveal_strlit("-XX:+UseThreadPriorities");
    reveal_strlit("-XX:-UseCounterDecay");
    reveal_strlit("-XX:+UseG1GC");
    reveal_strlit("-XX:+UnlockExperimentalVMOptions");
    reveal_strlit("-XX:+G1UseAdaptiveIHOP");
    reveal_strlit("-XX:+ParallelRefProcEnabled");
    reveal_strlit("-XX:+DisableExplicitGC");
    reveal_strlit("-XX:-UseBiasedLocking");
    reveal_strlit("-XX:+DisableAttachMechanism");
    reveal_strlit("-XX:+UseBiasedLocking");
    reveal_strlit("-XX:+DontCompileHugeMethods");
    reveal_strlit("-XX:+UseCounterDecay");
    assert("-XX:+AlwaysPreTouch"@.len() == 19 && "-XX:+AlwaysPreTouch"@[4] == '+' && "-XX:+AlwaysPreTouch"@[6] == 'l');
    assert("-XX:+UseDynamicNumberOfGCThreads"@.len() == 32 && "-XX:+UseDynamicNumberOfGCThreads"@[4] == '+' && "-XX:+UseDynamicNumberOfGCThreads"@[6] == 's');
    assert("-XX:+UseStringDeduplication"@.len() == 27 && "-XX:+UseStringDeduplication"@[4] == '+' && "-XX:+UseStringDeduplication"@[6] == 's');
    assert("-XX:-DontCompileHugeMethods"@.len() == 27 && "-XX:-DontCompileHugeMethods"@[4] == '-' && "-XX:-DontCompileHugeMethods"@[6] == 'o');
    assert("-XX:+AlwaysActAsServerClassMachine"@.len() == 34 && "-XX:+AlwaysActAsServerClassMachine"@[4] == '+' && "-XX:+AlwaysActAsServerClassMachine"@[6] == 'l');
    assert("-XX:+UseXMMForArrayCopy"@.len() == 23 && "-XX:+UseXMMForArrayCopy"@[4] == '+' && "-XX:+UseXMMForArrayCopy"@[6] == 's');
    assert("-XX:+UseFPUForSpilling"@.len() == 22 && "-XX:+UseFPUForSpilling"@[4] == '+' && "-XX:+UseFPUForSpilling"@[6] == 's');
    assert("-XX:+UseLargePages"@.len() == 18 && "-XX:+UseLargePages"@[4] == '+' && "-XX:+UseLargePages"@[6] == 's');
    assert("-XX:+UseThreadPriorities"@.len() == 24 && "-XX:+UseThreadPriorities"@[4] == '+' && "-XX:+UseThreadPriorities"@[6] == 's');
    assert("-XX:-UseCounterDecay"@.len() == 20 && "-XX:-UseCounterDecay"@[4] == '-' && "-XX:-UseCounterDecay"@[6] == 's');
    assert("-XX:+UseG1GC"@.len() == 12 && "-XX:+UseG1GC"@[4] == '+' && "-XX:+UseG1GC"@[6] == 's');
    assert("-XX:+UnlockExperimentalVMOptions"@.len() == 32 && "-XX:+UnlockExperimentalVMOptions"@[4] == '+' && "-XX:+UnlockExperimentalVMOptions"@[6] == 'n');
    assert("-XX:+G1UseAdaptiveIHOP"@.len() == 22 && "-XX:+G1UseAdaptiveIHOP"@[4] == '+' && "-XX:+G1UseAdaptiveIHOP"@[6] == '1');
    assert("-XX:+ParallelRefProcEnabled"@.len() == 27 && "-XX:+ParallelRefProcEnabled"@[4] == '+' && "-XX:+ParallelRefProcEnabled"@[6] == 'a');
    assert("-XX:+DisableExplicitGC"@.len() == 22 && "-XX:+DisableExplicitGC"@[4] == '+' && "-XX:+DisableExplicitGC"@[6] == 'i');
    assert("-XX:-UseBiasedLocking"@.len() == 21 && "-XX:-UseBiasedLocking"@[4] == '-' && "-XX:-UseBiasedLocking"@[6] == 's');
    assert("-XX:+DisableAttachMechanism"@.len() == 27 && "-XX:+DisableAttachMechanism"@[4] == '+' && "-XX:+DisableAttachMechanism"@[6] == 'i');
    assert("-XX:+UseBiasedLocking"@.len() == 21 && "-XX:+UseBiasedLocking"@[4] == '+' && "-XX:+UseBiasedLocking"@[6] == 's');
    assert("-XX:+DontCompileHugeMethods"@.len() == 27 && "-XX:+DontCompileHugeMethods"@[4] == '+' && "-XX:+DontCompileHugeMethods"@[6] == 'o');
    assert("-XX:+UseCounterDecay"@.len() == 20 && "-XX:+UseCounterDecay"@[4] == '+' && "-XX:+UseCounterDecay"@[6] == 's');
    lemma_contains_facts();
    lemma_heap_gc_switches(cfg);
    lemma_thread_code_switches(cfg);
    lemma_optional_gc_switches(cfg);
    lemma_optional_compiler_switches(cfg);
    lemma_optional_runtime_switches(cfg);
}

/// Every switch the flags can hold is removed when the launcher passes it,
/// so the profile alone decides each of them.
pub proof fn lemma_flag_switches_are_filtered()
    ensures
        should_remove_of("-XX:+UseG1GC"@),
        should_remove_of("-XX:-UseBiasedLocking"@),
        should_remove_of("-XX:+UseStringDeduplication"@),
        should_remove_of("-XX:+DisableAttachMechanism"@),
        should_remove_of("-XX:+UseDynamicNumberOfGCThreads"@),
        should_remove_of("-XX:+AlwaysActAsServerClassMachine"@),
        should_remove_of("-XX:+UseXMMForArrayCopy"@),
        should_remove_of("-XX:+UseFPUForSpilling"@),
        should_remove_of("-XX:-DontCompileHugeMethods"@),
        should_remove_of("-XX:+AlwaysPreTouch"@),
        should_remove_of("-XX:+ParallelRefProcEnabled"@),
        should_remove_of("-XX:+DisableExplicitGC"@),
        should_remove_of("-XX:+G1UseAdaptiveIHOP"@),
        should_remove_of("-XX:+UnlockExperimentalVMOptions"@),
        should_remove_of("-XX:+UseThreadPriorities"@),
        should_remove_of("-XX:-UseCounterDecay"@),
        should_remove_of("-XX:+UseLargePages"@),
{
    assert(exact_remove()[1] == "-XX:+UseG1GC"@);
    assert(exact_remove()[5] == "-XX:-UseBiasedLocking"@);
    assert(exact_remove()[6] == "-XX:+UseStringDeduplication"@);
    assert(exact_remove()[8] == "-XX:+DisableAttachMechanism"@);
    assert(exact_remove()[9] == "-XX:+UseDynamicNumberOfGCThreads"@);
    assert(exact_remove()[10] == "-XX:+AlwaysActAsServerClassMachine"@);
    assert(exact_remove()[11] == "-XX:+UseXMMForArrayCopy"@);
    assert(exact_remove()[12] == "-XX:+UseFPUForSpilling"@);
    assert(exact_remove()[13] == "-XX:-DontCompileHugeMethods"@);
    assert(exact_remove()[15] == "-XX:+AlwaysPreTouch"@);
    assert(exact_remove()[17] == "-XX:+ParallelRefProcEnabled"@);
    assert(exact_remove()[18] == "-XX:+DisableExplicitGC"@);
    assert(exact_remove()[19] == "-XX:+G1UseAdaptiveIHOP"@);
    assert(exact_remove()[20] == "-XX:+UnlockExperimentalVMOptions"@);
    assert(exact_remove()[21] == "-XX:+UseThreadPriorities"@);
    assert(exact_remove()[24] == "-XX:-UseCounterDecay"@);
    assert(exact_remove()[25] == "-XX:+UseLargePages"@);
}

/// Removed by the filter, or the NIO buffer cap (which no launcher option
/// overrides).
spec fn filtered_out(f: Seq<char>) -> bool {
    should_remove_of(f) || f == "-Djdk.nio.maxCachedBufferSize=131072"@
}

spec fn all_filtered_out(fs: Seq<Seq<char>>) -> bool {
    forall|i: int| 0 <= i < fs.len() ==> filtered_out(#[trigger] fs[i])
}

proof fn lemma_starts_with_add(a: Seq<char>, b: Seq<char>)
    ensures
        starts_with(a + b, a),
{
    assert((a + b).subrange(0, a.len() as int) =~= a);
}

proof fn lemma_removal_lists()
    ensures
        forall|a: Seq<char>, b: Seq<char>| #[trigger] starts_with(a + b, a),
        forall|p: Seq<char>, n: nat, x: Seq<char>| #[trigger] starts_with(nflag(p, n, x), p),
        exact_remove()[0] == "-XX:-PrintCommandLineFlags"@,
        exact_remove()[1] == "-XX:+UseG1GC"@,
        exact_remove()[2] == "-XX:+UseCompressedOops"@,
        exact_remove()[3] == "-XX:+PerfDisableSharedMem"@,
        exact_remove()[4] == "-XX:+UseBiasedLocking"@,
        exact_remove()[5] == "-XX:-UseBiasedLocking"@,
        exact_remove()[6] == "-XX:+UseStringDeduplication"@,
        exact_remove()[7] == "-XX:+UseNUMA"@,
        exact_remove()[8] == "-XX:+DisableAttachMechanism"@,
        exact_remove()[9] == "-XX:+UseDynamicNumberOfGCThreads"@,
        exact_remove()[10] == "-XX:+AlwaysActAsServerClassMachine"@,
        exact_remove()[11] == "-XX:+UseXMMForArrayCopy"@,
        exact_remove()[12] == "-XX:+UseFPUForSpilling"@,
        exact_remove()[13] == "-XX:-DontCompileHugeMethods"@,
        exact_remove()[14] == "-XX:+DontCompileHugeMethods"@,
        exact_remove()[15] == "-XX:+AlwaysPreTouch"@,
        exact_remove()[16] == "-XX:-AlwaysPreTouch"@,
        exact_remove()[17] == "-XX:+ParallelRefProcEnabled"@,
        exact_remove()[18] == "-XX:+DisableExplicitGC"@,
        exact_remove()[19] == "-XX:+G1UseAdaptiveIHOP"@,
        exact_remove()[20] == "-XX:+UnlockExperimentalVMOptions"@,
        exact_remove()[21] == "-XX:+UseThreadPriorities"@,
        exact_remove()[22] == "-XX:-UseThreadPriorities"@,
        exact_remove()[23] == "-XX:+UseCounterDecay"@,
        exact_remove()[24] == "-XX:-UseCounterDecay"@,
        exact_remove()[25] == "-XX:+UseLargePages"@,
        exact_remove()[26] == "-XX:-UseLargePages"@,
        exact_remove()[27] == "-XX:+UseCompressedClassPointerCompression"@,
        prefix_remove()[0] == "-XX:MaxGCPauseMillis="@,
        prefix_remove()[1] == "-XX:MetaspaceSize="@,
        prefix_remove()[2] == "-XX:MaxMetaspaceSize="@,
        prefix_remove()[3] == "-XX:G1HeapRegionSize="@,
        prefix_remove()[4] == "-XX:G1NewSizePercent="@,
        prefix_remove()[5] == "-XX:G1MaxNewSizePercent="@,
        prefix_remove()[6] == "-XX:G1ReservePercent="@,
        prefix_remove()[7] == "-XX:G1HeapWastePercent="@,
        prefix_remove()[8] == "-XX:G1MixedGCCountTarget="@,
        prefix_remove()[9] == "-XX:InitiatingHeapOccupancyPercent="@,
        prefix_remove()[10] == "-XX:G1MixedGCLiveThresholdPercent="@,
        prefix_remove()[11] == "-XX:G1RSetUpdatingPauseTimePercent="@,
        prefix_remove()[12] == "-XX:G1SATBBufferEnqueueingThresholdPercent="@,
        prefix_remove()[13] == "-XX:G1ConcRSHotCardLimit="@,
        prefix_remove()[14] == "-XX:G1ConcRefinementServiceIntervalMillis="@,
        prefix_remove()[15] == "-XX:GCTimeRatio="@,
        prefix_remove()[16] == "-XX:SurvivorRatio="@,
        prefix_remove()[17] == "-XX:MaxTenuringThreshold="@,
        prefix_remove()[18] == "-XX:ParallelGCThreads="@,
        prefix_remove()[19] == "-XX:ConcGCThreads="@,
        prefix_remove()[20] == "-XX:SoftRefLRUPolicyMSPerMB="@,
        prefix_remove()[21] == "-XX:ReservedCodeCacheSize="@,
        prefix_remove()[22] == "-XX:NonNMethodCodeHeapSize="@,
        prefix_remove()[23] == "-XX:ProfiledCodeHeapSize="@,
        prefix_remove()[24] == "-XX:NonProfiledCodeHeapSize="@,
        prefix_remove()[25] == "-XX:MaxInlineLevel="@,
        prefix_remove()[26] == "-XX:FreqInlineSize="@,
        prefix_remove()[27] == "-XX:InlineSmallCode="@,
        prefix_remove()[28] == "-XX:MaxNodeLimit="@,
        prefix_remove()[29] == "-XX:NodeLimitFudgeFactor="@,
        prefix_remove()[30] == "-XX:NmethodSweepActivity="@,
        prefix_remove()[31] == "-XX:AllocatePrefetchStyle="@,
        prefix_remove()[32] == "-XX:LargePageSizeInBytes="@,
        prefix_remove()[33] == "-XX:AutoBoxCacheMax="@,
        prefix_remove()[34] == "-XX:ThreadPriorityPolicy="@,
        prefix_remove()[35] == "-XX:CompileThresholdScaling="@,
        prefix_remove()[36] == "-XX:InitialHeapSize="@,
        prefix_remove()[37] == "-XX:MaxHeapSize="@,
        prefix_remove()[38] == "-XX:MinHeapDeltaBytes="@,
        prefix_remove()[39] == "-XX:SoftRefLRUPolicyMSPerMB="@,
        prefix_remove()[40] == "-XX:TieredCompilation="@,
        prefix_remove()[41] == "-XX:CICompilerCount="@,
        prefix_remove()[42] == "-XX:AutoBoxCacheMax="@,
        prefix_remove()[43] == "-Dsun.reflect.inflationThreshold="@,
        prefix_remove()[44] == "-Dsun.nio.maxCachedBufferSize="@,
        prefix_remove()[45] == "-Xms"@,
        prefix_remove()[46] == "-Xmx"@,
        prefix_remove()[47] == "-Xbootclasspath"@,
        prefix_remove()[48] == "-Xbootclasspath/a"@,
        prefix_remove()[49] == "-Xbootclasspath/p"@,
{
    assert forall|a: Seq<char>, b: Seq<char>| #[trigger] starts_with(a + b, a) by {
        lemma_starts_with_add(a, b);
    }
    assert forall|p: Seq<char>, n: nat, x: Seq<char>| #[trigger] starts_with(nflag(p, n, x), p) by {
        assert(nflag(p, n, x).subrange(0, p.len() as int) =~= p);
    }
}

proof fn lemma_filtered_concat(a: Seq<Seq<char>>, b: Seq<Seq<char>>)
    requires
        all_filtered_out(a),
        all_filtered_out(b),
    ensures
        all_filtered_out(a + b),
{
    assert forall|i: int| 0 <= i < (a + b).len() implies filtered_out(#[trigger] (a + b)[i]) by {
        if i < a.len() {
            assert((a + b)[i] == a[i]);
        } else {
            assert((a + b)[i] == b[i - a.len()]);
        }
    }
}

#[verifier::rlimit(100)]
proof fn lemma_heap_gc_filtered(cfg: &Config)
    ensures
        all_filtered_out(heap_gc_flags(cfg)),
{
    lemma_removal_lists();
}

#[verifier::rlimit(100)]
proof fn lemma_thread_code_filtered(cfg: &Config)
    ensures
        all_filtered_out(thread_code_flags(cfg)),
{
    lemma_removal_lists();
}

#[verifier::rlimit(100)]
proof fn lemma_optional_gc_filtered(cfg: &Config)
    ensures
        all_filtered_out(optional_gc_flags(cfg)),
{
    lemma_removal_lists();
    reveal(when);
}

#[verifier::rlimit(100)]
proof fn lemma_optional_compiler_filtered(cfg: &Config)
    ensures
        all_filtered_out(optional_compiler_flags(cfg)),
{
    lemma_removal_lists();
    reveal(when);
}

#[verifier::rlimit(100)]
proof fn lemma_optional_runtime_filtered(cfg: &Config)
    ensures
        all_filtered_out(optional_runtime_flags(cfg)),
{
    lemma_removal_lists();
    reveal(when);
}

/// The filter removes every flag a profile can emit, whatever the profile,
/// except the fixed NIO buffer cap: launcher options never override them.
pub proof fn lemma_flags_are_filtered(cfg: &Config)
    ensures
        forall|i: int|
            0 <= i < flags_of(cfg).len() && flags_of(cfg)[i] != "-Djdk.nio.maxCachedBufferSize=131072"@
                ==> should_remove_of(#[trigger] flags_of(cfg)[i]),
{
    lemma_heap_gc_filtered(cfg);
    lemma_thread_code_filtered(cfg);
    lemma_optional_gc_filtered(cfg);
    lemma_optional_compiler_filtered(cfg);
    lemma_optional_runtime_filtered(cfg);
    lemma_filtered_concat(heap_gc_flags(cfg), thread_code_flags(cfg));
    lemma_filtered_concat(heap_gc_flags(cfg) + thread_code_flags(cfg), optional_gc_flags(cfg));
    lemma_filtered_concat(
        heap_gc_flags(cfg) + thread_code_flags(cfg) + optional_gc_flags(cfg),
        optional_compiler_flags(cfg),
    );
    lemma_filtered_concat(
        heap_gc_flags(cfg) + thread_code_flags(cfg) + optional_gc_flags(cfg) + optional_compiler_flags(
            cfg,
        ),
        optional_runtime_flags(cfg),
    );
    assert forall|i: int|
        0 <= i < flags_of(cfg).len() && flags_of(cfg)[i] != "-Djdk.nio.maxCachedBufferSize=131072"@ implies should_remove_of(
        #[trigger] flags_of(cfg)[i],
    ) by {
        assert(filtered_out(flags_of(cfg)[i]));
    }
}

} // verus!
