//! How many workers run, what they are called and where they are pinned.
use vstd::prelude::*;

use crate::router::config::{number_of, number_upto, parse_usize};
use crate::text::{decimal, push_decimal};

verus! {

/// The exit code for a configuration that cannot be used.
pub const EX_USAGE: i32 = 64;

/// The core that the first shard is pinned to; the others count down from it.
pub const LAST_CORE: usize = 15;

/// How many workers run: what the variable says, where it is a number of at
/// least one, and one otherwise.
pub fn num_workers(variable: Option<&str>) -> (r: usize)
    ensures
        r == match variable {
            Some(text) => match number_upto(text@, usize::MAX as nat) {
                Some(n) => if n >= 1 {
                    n as int
                } else {
                    1
                },
                None => 1,
            },
            None => 1,
        },
{
    match variable {
        Some(text) => match parse_usize(text) {
            Ok(n) => {
                if n >= 1 {
                    n
                } else {
                    1
                }
            },
            Err(_) => 1,
        },
        None => 1,
    }
}

/// The name that a worker's server is configured with.
pub fn server_name(variable: Option<String>) -> (r: String)
    ensures
        match variable {
            Some(name) => r@ == name@,
            None => r@ == "DPUMesh0"@,
        },
{
    match variable {
        Some(name) => name,
        None => "DPUMesh0".to_owned(),
    }
}

/// The name of a worker's server: the configured one where it is alone, and
/// otherwise one by its number.
pub fn worker_name(configured: &String, workers: usize, worker: usize) -> (r: String)
    ensures
        r@ == if workers == 1 {
            configured@
        } else {
            "DPUMesh"@ + decimal(worker as nat)
        },
{
    if workers == 1 {
        return configured.clone();
    }
    let mut name: String = "DPUMesh".to_owned();
    push_decimal(&mut name, worker as u64);
    name
}

/// The name of a shard's thread.
pub fn shard_name(worker: usize) -> (r: String)
    ensures
        r@ == "dmesh-shard-"@ + decimal(worker as nat),
{
    let mut name: String = "dmesh-shard-".to_owned();
    push_decimal(&mut name, worker as u64);
    name
}

/// The core that a shard is pinned to.
pub fn shard_core(worker: usize) -> (r: usize)
    ensures
        r == if worker <= LAST_CORE {
            LAST_CORE - worker
        } else {
            0
        },
{
    LAST_CORE.saturating_sub(worker)
}

/// As many workers run as the variable says, where it is a number from one up;
/// otherwise one does.
pub proof fn at_least_one_worker_runs(variable: Option<&str>, r: usize)
    requires
        call_ensures(num_workers, (variable,), r),
    ensures
        r >= 1,
        variable is Some && number_of(variable->0@) is Some && 1 <= number_of(variable->0@)->0
            <= usize::MAX ==> r == number_of(variable->0@)->0,
        variable is None || number_of(variable->0@) is None || number_of(variable->0@)->0 == 0
            || number_of(variable->0@)->0 > usize::MAX ==> r == 1,
{
}

/// A worker that is alone has the configured name, which is `DPUMesh0` where
/// none is set; of several each has its own, by its number.
pub proof fn workers_are_told_by_name(variable: Option<String>, workers: usize, worker: usize)
    ensures
        forall|r: String| #[trigger]
            call_ensures(server_name, (variable,), r) ==> r@ == if variable is Some {
                variable->0@
            } else {
                "DPUMesh0"@
            },
        forall|configured: String, r: String| #[trigger]
            call_ensures(worker_name, (&configured, workers, worker), r) ==> {
                &&& workers == 1 ==> r@ == configured@
                &&& workers != 1 ==> r@ == "DPUMesh"@ + decimal(worker as nat)
            },
        forall|r: String| #[trigger]
            call_ensures(shard_name, (worker,), r) ==> r@ == "dmesh-shard-"@ + decimal(
                worker as nat,
            ),
{
}

/// Shards are pinned from core 15 down, the sixteenth and all others to core
/// zero: no two of the first sixteen share a core.
pub proof fn shards_count_down_from_the_last_core(a: usize, b: usize)
    ensures
        forall|r: usize| #[trigger]
            call_ensures(shard_core, (a,), r) ==> {
                &&& a <= 15 ==> r + a == 15
                &&& a > 15 ==> r == 0
            },
        forall|r: usize, q: usize|
            #![trigger call_ensures(shard_core, (a,), r), call_ensures(shard_core, (b,), q)]
            call_ensures(shard_core, (a,), r) && call_ensures(shard_core, (b,), q) && a < b <= 15
                ==> r != q,
{
}

} // verus!
