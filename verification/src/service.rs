//! Decisions of the IFEO service entry (`service.exe <target> <args…>`):
//! whether the intercepted image gets JVM flags, and which arguments it is
//! started with. Spawning, waiting and logging is the host's part.

use vstd::prelude::*;

use crate::config::Config;
use crate::jvm::{filter_args, filter_args_of, flags, flags_computable, flags_of, string_views};

verus! {

/// How the child was started.
#[derive(Debug, Clone, Copy, PartialEq, Eq, Structural)]
pub enum JvmMode {
    /// Not a game image: started untouched.
    Passthrough,
    /// No profile could be loaded: started untouched.
    ConfigError,
    /// The profile sets no heap: started untouched.
    NoHeap,
    /// Started with the profile's flags.
    Injected,
}

pub open spec fn mode_name(m: JvmMode) -> Seq<char> {
    match m {
        JvmMode::Passthrough => "PASSTHROUGH"@,
        JvmMode::ConfigError => "CONFIG_ERROR"@,
        JvmMode::NoHeap => "NO_HEAP"@,
        JvmMode::Injected => "INJECTED"@,
    }
}

impl JvmMode {
    pub fn as_str(self) -> (r: &'static str)
        ensures
            r@ == mode_name(self),
    {
        match self {
            JvmMode::Passthrough => "PASSTHROUGH",
            JvmMode::ConfigError => "CONFIG_ERROR",
            JvmMode::NoHeap => "NO_HEAP",
            JvmMode::Injected => "INJECTED",
        }
    }
}

/// The arguments a child is started with, and why.
pub struct LaunchPlan {
    pub args: Vec<String>,
    pub mode: JvmMode,
}

/// Arguments for an image that does not get flags.
pub fn passthrough_plan(orig_args: &[String]) -> (r: LaunchPlan)
    ensures
        string_views(r.args@) == string_views(orig_args@),
        r.mode == JvmMode::Passthrough,
{
    LaunchPlan { args: copy_args(orig_args), mode: JvmMode::Passthrough }
}

fn copy_args(a: &[String]) -> (r: Vec<String>)
    ensures
        string_views(r@) == string_views(a@),
{
    let mut r: Vec<String> = Vec::new();
    let mut i: usize = 0;
    while i < a.len()
        invariant
            i <= a@.len(),
            string_views(r@) == string_views(a@.take(i as int)),
        decreases a@.len() - i,
    {
        let s = a[i].clone();
        assert(s@ == a@[i as int]@);
        let ghost before = r@;
        r.push(s);
        assert(r@ =~= before.push(s));
        assert(string_views(r@) =~= string_views(before).push(s@));
        assert(string_views(a@.take(i + 1)) =~= string_views(a@.take(i as int)).push(a@[i as int]@));
        i = i + 1;
    }
    assert(a@.take(a@.len() as int) =~= a@);
    r
}

/// Arguments for a game image from the outcome of loading the active
/// profile: untouched when loading failed or the profile has no heap,
/// otherwise the launcher's options filtered and the profile's flags added.
pub fn inject_plan(orig_args: &[String], loaded: &Result<(Config, String), String>) -> (r:
    LaunchPlan)
    requires
        loaded matches Ok((cfg, _)) ==> (cfg.heap_size_gb != 0 ==> flags_computable(&cfg)),
    ensures
        loaded is Err ==> r.mode == JvmMode::ConfigError && string_views(r.args@) == string_views(
            orig_args@,
        ),
        loaded matches Ok((cfg, _)) ==> (cfg.heap_size_gb == 0 ==> r.mode == JvmMode::NoHeap
            && string_views(r.args@) == string_views(orig_args@)),
        loaded matches Ok((cfg, _)) ==> (cfg.heap_size_gb != 0 ==> r.mode == JvmMode::Injected
            && string_views(r.args@) == filter_args_of(string_views(orig_args@), flags_of(&cfg))),
{
    match loaded {
        Err(_) => LaunchPlan { args: copy_args(orig_args), mode: JvmMode::ConfigError },
        Ok((cfg, _)) => {
            if cfg.heap_size_gb == 0 {
                LaunchPlan { args: copy_args(orig_args), mode: JvmMode::NoHeap }
            } else {
                let f = flags(cfg);
                LaunchPlan { args: filter_args(orig_args, f.as_slice()), mode: JvmMode::Injected }
            }
        },
    }
}

} // verus!
