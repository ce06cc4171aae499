//! The repetition monitor: records the last tool call observed and a
//! consecutive-repeat counter, and rejects a call once the counter exceeds a
//! configured cap. A cheap defence against a provider looping on one call.

use vstd::prelude::*;
use crate::message::{ToolCall, call_eq};

verus! {

/// How often one tool has been checked, cumulatively.
#[derive(Debug)]
pub struct ToolStat {
    pub name: String,
    pub count: u32,
}

impl Clone for ToolStat {
    fn clone(&self) -> (r: Self)
        ensures
            r == *self,
    {
        ToolStat { name: self.name.clone(), count: self.count }
    }
}

/// `c + 1`, stopping at the largest counter value.
pub open spec fn sat_inc(c: u32) -> u32 {
    if c == u32::MAX {
        c
    } else {
        (c + 1) as u32
    }
}

/// The consecutive-repeat counter after one check: one more on a repeat,
/// back to one on a fresh call.
pub open spec fn counter_step(repeat: bool, c: u32) -> u32 {
    if repeat {
        sat_inc(c)
    } else {
        1u32
    }
}

/// Whether a call with this counter value passes a cap of `max`; `None`
/// disables the guard.
pub open spec fn allowed_count(max: Option<u32>, counter: u32) -> bool {
    match max {
        None => true,
        Some(k) => counter <= k,
    }
}

/// The per-tool statistics after recording one more check of `name`: the
/// first matching entry is bumped, or a fresh entry is appended.
pub open spec fn bump_stats(stats: Seq<ToolStat>, name: String) -> Seq<ToolStat>
    decreases stats.len(),
{
    if stats.len() == 0 {
        seq![ToolStat { name, count: 1u32 }]
    } else if stats[0].name@ == name@ {
        seq![ToolStat { name: stats[0].name, count: sat_inc(stats[0].count) }]
            + stats.drop_first()
    } else {
        seq![stats[0]] + bump_stats(stats.drop_first(), name)
    }
}

proof fn lemma_bump_stats_at(stats: Seq<ToolStat>, name: String, i: int)
    requires
        0 <= i < stats.len(),
        forall|j: int| 0 <= j < i ==> (#[trigger] stats[j]).name@ != name@,
        stats[i].name@ == name@,
    ensures
        bump_stats(stats, name) =~= stats.update(
            i,
            ToolStat { name: stats[i].name, count: sat_inc(stats[i].count) },
        ),
    decreases i,
{
    if i > 0 {
        lemma_bump_stats_at(stats.drop_first(), name, i - 1);
    }
}

proof fn lemma_bump_stats_absent(stats: Seq<ToolStat>, name: String)
    requires
        forall|j: int| 0 <= j < stats.len() ==> (#[trigger] stats[j]).name@ != name@,
    ensures
        bump_stats(stats, name) =~= stats.push(ToolStat { name, count: 1u32 }),
    decreases stats.len(),
{
    if stats.len() > 0 {
        lemma_bump_stats_absent(stats.drop_first(), name);
    }
}

/// The index of the first statistics entry for `name`, if any.
fn find_stat(stats: &Vec<ToolStat>, name: &str) -> (r: Option<usize>)
    ensures
        match r {
            Some(i) => i < stats@.len() && stats@[i as int].name@ == name@ && forall|j: int|
                0 <= j < i ==> (#[trigger] stats@[j]).name@ != name@,
            None => forall|j: int|
                0 <= j < stats@.len() ==> (#[trigger] stats@[j]).name@ != name@,
        },
{
    let n = stats.len();
    let mut i: usize = 0;
    while i < n
        invariant
            n == stats@.len(),
            i <= n,
            forall|j: int| 0 <= j < i ==> (#[trigger] stats@[j]).name@ != name@,
        decreases n - i,
    {
        if crate::strutil::str_eq(stats[i].name.as_str(), name) {
            return Some(i);
        }
        i += 1;
    }
    None
}

/// Records one more check of `name` in the statistics.
fn record_stat(stats: &mut Vec<ToolStat>, name: String)
    ensures
        final(stats)@ == bump_stats(old(stats)@, name),
{
    match find_stat(stats, name.as_str()) {
        Some(i) => {
            let c = stats[i].count;
            let bumped: u32 = if c == u32::MAX {
                c
            } else {
                c + 1
            };
            let old_name = stats[i].name.clone();
            let ghost prev = stats@;
            stats.set(i, ToolStat { name: old_name, count: bumped });
            proof {
                lemma_bump_stats_at(prev, name, i as int);
                assert(stats@ =~= bump_stats(prev, name));
            }
        },
        None => {
            let ghost prev = stats@;
            stats.push(ToolStat { name, count: 1 });
            proof {
                lemma_bump_stats_absent(prev, name);
                assert(stats@ =~= bump_stats(prev, name));
            }
        },
    }
}

/// The repetition monitor.
#[derive(Debug)]
pub struct ToolMonitor {
    pub max_repetitions: Option<u32>,
    pub last: Option<ToolCall>,
    pub counter: u32,
    pub stats: Vec<ToolStat>,
}

/// Whether `call` repeats the last recorded call.
pub open spec fn is_repeat(m: ToolMonitor, call: ToolCall) -> bool {
    match m.last {
        Some(prev) => call_eq(prev, call),
        None => false,
    }
}

impl ToolMonitor {
    /// A fresh monitor with the given cap; `None` disables the guard.
    pub fn new(max_repetitions: Option<u32>) -> (r: ToolMonitor)
        ensures
            r.max_repetitions == max_repetitions,
            r.last is None,
            r.counter == 0,
            r.stats@.len() == 0,
    {
        ToolMonitor { max_repetitions, last: None, counter: 0, stats: Vec::new() }
    }

    /// Checks one call: advances the repeat counter, records the call and its
    /// statistics, and says whether the call is still allowed.
    pub fn check_tool_call(&mut self, call: ToolCall) -> (r: bool)
        ensures
            final(self).max_repetitions == old(self).max_repetitions,
            final(self).counter == counter_step(is_repeat(*old(self), call), old(self).counter),
            final(self).last == Some(call),
            final(self).stats@ == bump_stats(old(self).stats@, call.name),
            r == allowed_count(old(self).max_repetitions, final(self).counter),
    {
        let repeat = match &self.last {
            Some(prev) => crate::strutil::str_eq(prev.name.as_str(), call.name.as_str())
                && crate::args::args_equal(&prev.arguments, &call.arguments),
            None => false,
        };
        if repeat {
            if self.counter < u32::MAX {
                self.counter = self.counter + 1;
            }
        } else {
            self.counter = 1;
        }

        record_stat(&mut self.stats, call.name.clone());

        let allowed = match self.max_repetitions {
            None => true,
            Some(k) => self.counter <= k,
        };
        self.last = Some(call);
        allowed
    }

    /// The per-tool statistics recorded so far.
    pub fn get_stats(&self) -> (r: Vec<ToolStat>)
        ensures
            r@ == self.stats@,
    {
        let mut out: Vec<ToolStat> = Vec::new();
        let n = self.stats.len();
        let mut i: usize = 0;
        while i < n
            invariant
                n == self.stats@.len(),
                i <= n,
                out@ =~= self.stats@.subrange(0, i as int),
            decreases n - i,
        {
            out.push(self.stats[i].clone());
            i += 1;
        }
        proof {
            assert(out@ =~= self.stats@);
        }
        out
    }

    /// Forgets everything observed; the cap stays.
    pub fn reset(&mut self)
        ensures
            final(self).max_repetitions == old(self).max_repetitions,
            final(self).last is None,
            final(self).counter == 0,
            final(self).stats@.len() == 0,
    {
        self.last = None;
        self.counter = 0;
        self.stats = Vec::new();
    }
}

/// The counter value after `i` further repeats of the same call, starting
/// from `c0`.
pub open spec fn counter_after_repeats(c0: u32, i: nat) -> u32
    decreases i,
{
    if i == 0 {
        c0
    } else {
        counter_step(true, counter_after_repeats(c0, (i - 1) as nat))
    }
}

/// Monitor idempotence: in a run of identical calls against cap `k`, the
/// counter after the i-th call is exactly i (the first call resets it to one,
/// each repeat adds one), so the i-th call is allowed exactly when `i <= k`.
/// Hence of `n` identical calls, the first `min(n, k)` succeed and the rest
/// are rejected.
pub proof fn lemma_monitor_idempotence(k: u32, n: nat, i: nat)
    requires
        1 <= i <= n,
        n <= u32::MAX,
    ensures
        counter_after_repeats(1u32, (i - 1) as nat) == i,
        allowed_count(Some(k), counter_after_repeats(1u32, (i - 1) as nat)) <==> i <= k,
    decreases i,
{
    if i > 1 {
        lemma_monitor_idempotence(k, n, (i - 1) as nat);
    }
}

} // verus!
