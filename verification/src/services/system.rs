//! System monitoring: the integer side of the CPU history (how long it is kept, which samples
//! a time window holds, and how a window is cut into buckets) and the host description.
use vstd::prelude::*;
use crate::services::xray::last_items;
use crate::text::owned;

verus! {

/// Traffic counters of a network interface.
#[derive(Debug, Clone)]
pub struct NetworkInterface {
    pub name: String,
    pub received: u64,
    pub transmitted: u64,
}

/// A description of the host.
#[derive(Debug, Clone)]
pub struct ExtendedSystemInfo {
    pub hostname: String,
    pub os_name: String,
    pub os_version: String,
    pub kernel_version: String,
    pub cpu_model: String,
    pub cpu_cores: usize,
    pub total_memory: u64,
}

/// The most CPU samples kept.
pub const MAX_HISTORY_SIZE: usize = 1000;

/// Drops the oldest entries so that at most `max` remain.
pub fn trim_history<T>(history: &mut Vec<T>, max: usize)
    ensures
        final(history)@ == last_items(old(history)@, max as nat),
{
    if history.len() > max {
        let excess = history.len() - max;
        let tail = history.split_off(excess);
        *history = tail;
        assert(history@ =~= old(history)@.skip(old(history)@.len() - max));
    }
}

/// Free memory: total less used, never below zero.
pub fn memory_free(total: u64, used: u64) -> (r: u64)
    ensures
        r == (if total >= used { (total - used) as u64 } else { 0 }),
{
    total.saturating_sub(used)
}

/// A host detail, or `Unknown` when the system does not report it.
pub fn detail_or_unknown(v: Option<String>) -> (r: String)
    ensures
        r@ == (match v {
            Some(s) => s@,
            None => "Unknown"@,
        }),
{
    match v {
        Some(s) => s,
        None => owned("Unknown"),
    }
}

/// The start of a history window of `minutes` minutes ending at `now`.
pub fn history_cutoff(now: i64, minutes: i64) -> (r: i64)
    requires
        i64::MIN <= minutes * 60 <= i64::MAX,
        i64::MIN <= now - minutes * 60 <= i64::MAX,
    ensures
        r == now - minutes * 60,
{
    now - minutes * 60
}

/// The positions, in order, of the times at or after `cutoff`.
pub open spec fn positions_since(times: Seq<i64>, cutoff: i64) -> Seq<usize>
    decreases times.len(),
{
    if times.len() == 0 {
        Seq::empty()
    } else if times.last() >= cutoff {
        positions_since(times.drop_last(), cutoff).push((times.len() - 1) as usize)
    } else {
        positions_since(times.drop_last(), cutoff)
    }
}

/// The positions, in order, of the times in `[start, end)`.
pub open spec fn positions_between(times: Seq<i64>, start: i64, end: i64) -> Seq<usize>
    decreases times.len(),
{
    if times.len() == 0 {
        Seq::empty()
    } else if start <= times.last() < end {
        positions_between(times.drop_last(), start, end).push((times.len() - 1) as usize)
    } else {
        positions_between(times.drop_last(), start, end)
    }
}

/// The samples of a window: the positions of the times at or after `cutoff`.
pub fn samples_since(times: &[i64], cutoff: i64) -> (r: Vec<usize>)
    ensures
        r@ == positions_since(times@, cutoff),
{
    let mut out: Vec<usize> = Vec::new();
    let mut i: usize = 0;
    assert(times@.take(0) =~= Seq::<i64>::empty());
    while i < times.len()
        invariant
            i <= times.len(),
            out@ == positions_since(times@.take(i as int), cutoff),
        decreases times.len() - i,
    {
        assert(times@.take(i + 1).drop_last() =~= times@.take(i as int));
        if times[i] >= cutoff {
            out.push(i);
        }
        i = i + 1;
    }
    assert(times@.take(i as int) =~= times@);
    out
}

/// The samples of a bucket: the positions of the times in `[start, end)`.
pub fn samples_between(times: &[i64], start: i64, end: i64) -> (r: Vec<usize>)
    ensures
        r@ == positions_between(times@, start, end),
{
    let mut out: Vec<usize> = Vec::new();
    let mut i: usize = 0;
    assert(times@.take(0) =~= Seq::<i64>::empty());
    while i < times.len()
        invariant
            i <= times.len(),
            out@ == positions_between(times@.take(i as int), start, end),
        decreases times.len() - i,
    {
        assert(times@.take(i + 1).drop_last() =~= times@.take(i as int));
        if start <= times[i] && times[i] < end {
            out.push(i);
        }
        i = i + 1;
    }
    assert(times@.take(i as int) =~= times@);
    out
}

/// Integer division rounding toward zero, as Rust's `/` does.
pub open spec fn quotient(a: int, b: int) -> int {
    if a >= 0 { a / b } else { -((-a) / b) }
}

/// The width of each bucket: the window's seconds divided by the bucket count, toward zero.
pub open spec fn bucket_width(duration_minutes: i64, bucket_count: usize) -> int {
    quotient(duration_minutes * 60, bucket_count as int)
}

/// The `k`-th bucket `[start, end)` of a window starting at `cutoff`.
pub open spec fn bucket_at(cutoff: i64, duration_minutes: i64, bucket_count: usize, k: int) -> (int, int) {
    (cutoff + k * bucket_width(duration_minutes, bucket_count), cutoff + (k + 1) * bucket_width(duration_minutes, bucket_count))
}

proof fn lemma_bucket_bounds(w: int, total: int, count: int, k: int)
    requires
        count > 0,
        w == quotient(total, count),
        0 <= k <= count,
    ensures
        total >= 0 ==> 0 <= k * w <= total,
        total < 0 ==> total <= k * w <= 0,
{
    if total >= 0 {
        assert(0 <= w && w * count <= total) by (nonlinear_arith)
            requires
                w == total / count,
                total >= 0,
                count > 0,
        ;
        assert(0 <= k * w <= w * count) by (nonlinear_arith)
            requires
                0 <= w,
                0 <= k <= count,
        ;
    } else {
        assert(w <= 0 && total <= w * count) by (nonlinear_arith)
            requires
                w == -((-total) / count),
                total < 0,
                count > 0,
        ;
        assert(w * count <= k * w <= 0) by (nonlinear_arith)
            requires
                w <= 0,
                0 <= k <= count,
        ;
    }
}

/// The buckets of a CPU history window starting at `cutoff`, each as `[start, end)`: the window
/// of `duration_minutes` minutes is cut into `bucket_count` equal parts, the width rounded
/// toward zero.
pub fn cpu_buckets(cutoff: i64, duration_minutes: i64, bucket_count: usize) -> (r: Vec<(i64, i64)>)
    requires
        0 < bucket_count <= i64::MAX,
        i64::MIN <= duration_minutes * 60 <= i64::MAX,
        i64::MIN <= cutoff + duration_minutes * 60 <= i64::MAX,
    ensures
        r@.len() == bucket_count,
        forall|k: int| 0 <= k < bucket_count ==> (#[trigger] r@[k]).0 == bucket_at(cutoff, duration_minutes, bucket_count, k).0
            && r@[k].1 == bucket_at(cutoff, duration_minutes, bucket_count, k).1,
{
    let total: i64 = duration_minutes * 60;
    let count: i64 = bucket_count as i64;
    let size: i64 = total / count;
    assert(size as int == bucket_width(duration_minutes, bucket_count));
    let mut out: Vec<(i64, i64)> = Vec::new();
    let mut i: usize = 0;
    while i < bucket_count
        invariant
            i <= bucket_count,
            bucket_count <= i64::MAX,
            count == bucket_count,
            total == duration_minutes * 60,
            size as int == bucket_width(duration_minutes, bucket_count),
            i64::MIN <= cutoff + total <= i64::MAX,
            out@.len() == i,
            forall|k: int| 0 <= k < i ==> (#[trigger] out@[k]).0 == bucket_at(cutoff, duration_minutes, bucket_count, k).0
                && out@[k].1 == bucket_at(cutoff, duration_minutes, bucket_count, k).1,
        decreases bucket_count - i,
    {
        proof {
            lemma_bucket_bounds(size as int, total as int, count as int, i as int);
            lemma_bucket_bounds(size as int, total as int, count as int, (i + 1) as int);
        }
        let ii: i64 = i as i64;
        let offset: i64 = ii * size;
        let start: i64 = cutoff + offset;
        assert((i + 1) * size == i * size + size) by (nonlinear_arith);
        let end: i64 = start + size;
        out.push((start, end));
        i = i + 1;
    }
    out
}

/// The positions of a window are exactly those of the times at or after the cutoff, each
/// once and in increasing order.
pub proof fn lemma_positions_since_exact(times: Seq<i64>, cutoff: i64)
    requires
        times.len() <= usize::MAX,
    ensures
        forall|k: int| 0 <= k < positions_since(times, cutoff).len() ==> {
            let j = #[trigger] positions_since(times, cutoff)[k];
            j < times.len() && times[j as int] >= cutoff
        },
        forall|k: int, l: int| 0 <= k < l < positions_since(times, cutoff).len()
            ==> #[trigger] positions_since(times, cutoff)[k] < #[trigger] positions_since(times, cutoff)[l],
        forall|j: int| 0 <= j < times.len() && #[trigger] times[j] >= cutoff
            ==> positions_since(times, cutoff).contains(j as usize),
    decreases times.len(),
{
    if times.len() > 0 {
        let rest = times.drop_last();
        lemma_positions_since_exact(rest, cutoff);
        let r = positions_since(times, cutoff);
        let q = positions_since(rest, cutoff);
        assert forall|k: int| 0 <= k < q.len() implies #[trigger] q[k] < rest.len() && rest[q[k] as int] == times[q[k] as int] by {}
        assert forall|j: int| 0 <= j < times.len() && #[trigger] times[j] >= cutoff implies r.contains(j as usize) by {
            if j < times.len() - 1 {
                assert(rest[j] == times[j]);
                let k = choose|k: int| 0 <= k < q.len() && q[k] == j as usize;
                assert(r[k] == q[k]);
            } else {
                assert(r[r.len() - 1] == j as usize);
            }
        }
    }
}

/// The positions of a bucket are exactly those of the times in `[start, end)`, each once and
/// in increasing order.
pub proof fn lemma_positions_between_exact(times: Seq<i64>, start: i64, end: i64)
    requires
        times.len() <= usize::MAX,
    ensures
        forall|k: int| 0 <= k < positions_between(times, start, end).len() ==> {
            let j = #[trigger] positions_between(times, start, end)[k];
            j < times.len() && start <= times[j as int] < end
        },
        forall|k: int, l: int| 0 <= k < l < positions_between(times, start, end).len()
            ==> #[trigger] positions_between(times, start, end)[k] < #[trigger] positions_between(times, start, end)[l],
        forall|j: int| 0 <= j < times.len() && start <= #[trigger] times[j] < end
            ==> positions_between(times, start, end).contains(j as usize),
    decreases times.len(),
{
    if times.len() > 0 {
        let rest = times.drop_last();
        lemma_positions_between_exact(rest, start, end);
        let r = positions_between(times, start, end);
        let q = positions_between(rest, start, end);
        assert forall|k: int| 0 <= k < q.len() implies #[trigger] q[k] < rest.len() && rest[q[k] as int] == times[q[k] as int] by {}
        assert forall|j: int| 0 <= j < times.len() && start <= #[trigger] times[j] < end implies r.contains(j as usize) by {
            if j < times.len() - 1 {
                assert(rest[j] == times[j]);
                let k = choose|k: int| 0 <= k < q.len() && q[k] == j as usize;
                assert(r[k] == q[k]);
            } else {
                assert(r[r.len() - 1] == j as usize);
            }
        }
    }
}

} // verus!
