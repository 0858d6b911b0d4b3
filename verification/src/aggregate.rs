//! The process aggregator: folds the raw process table into one combined
//! record per process name, summing CPU and memory usage and collecting the
//! member pids. The table is folded in full each cycle; the output order is
//! first appearance of each name in the table.

use vstd::prelude::*;
use crate::model::{RawProcessSample, distinct_pids, has_pid};

verus! {

/// All processes sharing one name, combined. CPU usage is in hundredths of a
/// percent and memory usage in bytes, each summed over the members; the sums
/// are kept wide enough that they cannot overflow.
#[derive(Debug, Clone)]
pub struct CombinedProcess {
    /// The shared process name, the aggregation key.
    pub name: String,
    /// Total CPU usage over all members, in hundredths of a percent.
    pub cpu_usage: u128,
    /// Total memory usage over all members, in bytes.
    pub memory_usage: u128,
    /// The pids of all members, in table order.
    pub pids: Vec<u32>,
}

/// The sum of `cpu_usage` over the samples of `t` carrying `name`.
pub open spec fn spec_cpu_sum_for(t: Seq<RawProcessSample>, name: Seq<char>) -> int
    decreases t.len(),
{
    if t.len() == 0 {
        0
    } else {
        spec_cpu_sum_for(t.drop_last(), name) + if t.last().name@ == name {
            t.last().cpu_usage as int
        } else {
            0
        }
    }
}

/// The sum of `memory_bytes` over the samples of `t` carrying `name`.
pub open spec fn spec_mem_sum_for(t: Seq<RawProcessSample>, name: Seq<char>) -> int
    decreases t.len(),
{
    if t.len() == 0 {
        0
    } else {
        spec_mem_sum_for(t.drop_last(), name) + if t.last().name@ == name {
            t.last().memory_bytes as int
        } else {
            0
        }
    }
}

/// The pids of the samples of `t` carrying `name`, in table order.
pub open spec fn spec_pids_for(t: Seq<RawProcessSample>, name: Seq<char>) -> Seq<u32>
    decreases t.len(),
{
    if t.len() == 0 {
        Seq::empty()
    } else if t.last().name@ == name {
        spec_pids_for(t.drop_last(), name).push(t.last().pid)
    } else {
        spec_pids_for(t.drop_last(), name)
    }
}

/// Whether one combined record is exactly what the table `t` says about its
/// name: the member pids in table order, both usage sums, and at least one
/// member.
pub open spec fn combined_matches(t: Seq<RawProcessSample>, c: CombinedProcess) -> bool {
    &&& c.pids@ == spec_pids_for(t, c.name@)
    &&& c.cpu_usage as int == spec_cpu_sum_for(t, c.name@)
    &&& c.memory_usage as int == spec_mem_sum_for(t, c.name@)
    &&& c.pids@.len() > 0
}

/// Whether some record in `c` carries this name.
pub open spec fn has_name(c: Seq<CombinedProcess>, name: Seq<char>) -> bool {
    exists|k: int| 0 <= k < c.len() && (#[trigger] c[k]).name@ == name
}

/// Whether `c` is the aggregation of the table `t`: every record matches the
/// table, the names are pairwise distinct, and every sample's name has a
/// record.
pub open spec fn is_aggregation(t: Seq<RawProcessSample>, c: Seq<CombinedProcess>) -> bool {
    &&& forall|k: int| 0 <= k < c.len() ==> combined_matches(t, #[trigger] c[k])
    &&& forall|k1: int, k2: int|
        0 <= k1 < k2 < c.len() ==> (#[trigger] c[k1]).name@ != (#[trigger] c[k2]).name@
    &&& forall|i: int| 0 <= i < t.len() ==> has_name(c, (#[trigger] t[i]).name@)
}

/// Both usage sums over any name lie between zero and the table length times
/// the largest sample value.
proof fn lemma_sums_bounded(t: Seq<RawProcessSample>, name: Seq<char>)
    ensures
        0 <= spec_cpu_sum_for(t, name) <= t.len() * (u64::MAX as int),
        0 <= spec_mem_sum_for(t, name) <= t.len() * (u64::MAX as int),
    decreases t.len(),
{
    if t.len() > 0 {
        lemma_sums_bounded(t.drop_last(), name);
        assert(t.len() * (u64::MAX as int) == (t.len() - 1) * (u64::MAX as int) + u64::MAX as int)
            by (nonlinear_arith);
    }
}

/// A name carried by no sample of `t` has empty pids and zero sums.
proof fn lemma_sums_absent(t: Seq<RawProcessSample>, name: Seq<char>)
    requires
        forall|i: int| 0 <= i < t.len() ==> (#[trigger] t[i]).name@ != name,
    ensures
        spec_pids_for(t, name) == Seq::<u32>::empty(),
        spec_cpu_sum_for(t, name) == 0,
        spec_mem_sum_for(t, name) == 0,
    decreases t.len(),
{
    if t.len() > 0 {
        assert(forall|i: int|
            0 <= i < t.drop_last().len() ==> (#[trigger] t.drop_last()[i]).name@ != name);
        lemma_sums_absent(t.drop_last(), name);
    }
}

/// The sum of `cpu_usage` over the samples of `t` whose pid lies in `pids`.
pub open spec fn spec_cpu_sum_over_pids(t: Seq<RawProcessSample>, pids: Seq<u32>) -> int
    decreases t.len(),
{
    if t.len() == 0 {
        0
    } else {
        spec_cpu_sum_over_pids(t.drop_last(), pids) + if pids.contains(t.last().pid) {
            t.last().cpu_usage as int
        } else {
            0
        }
    }
}

/// The sum of `memory_bytes` over the samples of `t` whose pid lies in `pids`.
pub open spec fn spec_mem_sum_over_pids(t: Seq<RawProcessSample>, pids: Seq<u32>) -> int
    decreases t.len(),
{
    if t.len() == 0 {
        0
    } else {
        spec_mem_sum_over_pids(t.drop_last(), pids) + if pids.contains(t.last().pid) {
            t.last().memory_bytes as int
        } else {
            0
        }
    }
}

/// Whether some record of `c` lists the pid `p` among its members.
pub open spec fn pid_in_some_record(c: Seq<CombinedProcess>, p: u32) -> bool {
    exists|k: int| 0 <= k < c.len() && (#[trigger] c[k]).pids@.contains(p)
}

/// A pid lies in the member list for `name` exactly when some sample carries
/// both that pid and that name.
proof fn lemma_pids_for_membership(t: Seq<RawProcessSample>, name: Seq<char>)
    ensures
        forall|p: u32|
            spec_pids_for(t, name).contains(p) <==> exists|i: int|
                0 <= i < t.len() && (#[trigger] t[i]).pid == p && t[i].name@ == name,
    decreases t.len(),
{
    if t.len() > 0 {
        lemma_pids_for_membership(t.drop_last(), name);
        let rest = spec_pids_for(t.drop_last(), name);
        assert forall|p: u32|
            spec_pids_for(t, name).contains(p) <==> exists|i: int|
                0 <= i < t.len() && (#[trigger] t[i]).pid == p && t[i].name@ == name by {
            if spec_pids_for(t, name).contains(p) {
                if t.last().name@ == name {
                    let j = choose|j: int|
                        0 <= j < rest.push(t.last().pid).len() && rest.push(t.last().pid)[j] == p;
                    if j < rest.len() {
                        assert(rest.contains(p));
                        let i = choose|i: int|
                            0 <= i < t.drop_last().len() && (#[trigger] t.drop_last()[i]).pid == p
                                && t.drop_last()[i].name@ == name;
                        assert(t[i].pid == p && t[i].name@ == name);
                    } else {
                        assert(t[t.len() - 1].pid == p && t[t.len() - 1].name@ == name);
                    }
                } else {
                    let i = choose|i: int|
                        0 <= i < t.drop_last().len() && (#[trigger] t.drop_last()[i]).pid == p
                            && t.drop_last()[i].name@ == name;
                    assert(t[i].pid == p && t[i].name@ == name);
                }
            }
            if exists|i: int| 0 <= i < t.len() && (#[trigger] t[i]).pid == p && t[i].name@
                == name {
                let i = choose|i: int|
                    0 <= i < t.len() && (#[trigger] t[i]).pid == p && t[i].name@ == name;
                if i < t.len() - 1 {
                    assert(t.drop_last()[i].pid == p && t.drop_last()[i].name@ == name);
                    assert(rest.contains(p));
                    if t.last().name@ == name {
                        let j = choose|j: int| 0 <= j < rest.len() && rest[j] == p;
                        assert(rest.push(t.last().pid)[j] == p);
                    }
                } else {
                    assert(t.last().name@ == name);
                    assert(rest.push(t.last().pid).last() == p);
                }
            }
        }
    }
}

/// When membership in `pids` coincides with carrying `name`, the sums over
/// `pids` coincide with the sums over `name`.
proof fn lemma_sum_over_pids_vs_name(t: Seq<RawProcessSample>, pids: Seq<u32>, name: Seq<char>)
    requires
        forall|i: int|
            0 <= i < t.len() ==> (pids.contains((#[trigger] t[i]).pid) <==> t[i].name@ == name),
    ensures
        spec_cpu_sum_over_pids(t, pids) == spec_cpu_sum_for(t, name),
        spec_mem_sum_over_pids(t, pids) == spec_mem_sum_for(t, name),
    decreases t.len(),
{
    if t.len() > 0 {
        assert(forall|i: int|
            0 <= i < t.drop_last().len() ==> (pids.contains((#[trigger] t.drop_last()[i]).pid)
                <==> t.drop_last()[i].name@ == name));
        lemma_sum_over_pids_vs_name(t.drop_last(), pids, name);
        assert(pids.contains(t[t.len() - 1].pid) <==> t[t.len() - 1].name@ == name);
    }
}

/// The member list for `name` holds no pid twice when the table's pids are
/// pairwise distinct.
proof fn lemma_pids_for_distinct(t: Seq<RawProcessSample>, name: Seq<char>)
    requires
        distinct_pids(t),
    ensures
        forall|i1: int, i2: int|
            0 <= i1 < i2 < spec_pids_for(t, name).len() ==> spec_pids_for(t, name)[i1]
                != spec_pids_for(t, name)[i2],
    decreases t.len(),
{
    if t.len() > 0 {
        assert(distinct_pids(t.drop_last())) by {
            assert(forall|i: int|
                0 <= i < t.drop_last().len() ==> #[trigger] t.drop_last()[i] == t[i]);
        }
        lemma_pids_for_distinct(t.drop_last(), name);
        lemma_pids_for_membership(t.drop_last(), name);
        let rest = spec_pids_for(t.drop_last(), name);
        if t.last().name@ == name {
            assert forall|i1: int, i2: int|
                0 <= i1 < i2 < rest.push(t.last().pid).len() implies rest.push(t.last().pid)[i1]
                != rest.push(t.last().pid)[i2] by {
                if i2 == rest.len() {
                    if rest[i1] == t.last().pid {
                        assert(rest.contains(t.last().pid));
                        let i = choose|i: int|
                            0 <= i < t.drop_last().len() && (#[trigger] t.drop_last()[i]).pid
                                == t.last().pid && t.drop_last()[i].name@ == name;
                        assert(t[i].pid == t[t.len() - 1].pid);
                    }
                }
            }
        }
    }
}

/// In every aggregation of a table with pairwise distinct pids, each record's
/// CPU usage equals the sum of CPU usage over all raw samples whose pid lies
/// in the record's member list, and its memory usage equals the corresponding
/// sum of memory.
pub proof fn lemma_combined_sums_over_member_pids(
    t: Seq<RawProcessSample>,
    c: Seq<CombinedProcess>,
    k: int,
)
    requires
        is_aggregation(t, c),
        distinct_pids(t),
        0 <= k < c.len(),
    ensures
        c[k].cpu_usage as int == spec_cpu_sum_over_pids(t, c[k].pids@),
        c[k].memory_usage as int == spec_mem_sum_over_pids(t, c[k].pids@),
{
    let name = c[k].name@;
    let pids = c[k].pids@;
    lemma_pids_for_membership(t, name);
    assert forall|i: int|
        0 <= i < t.len() implies (pids.contains((#[trigger] t[i]).pid) <==> t[i].name@
        == name) by {
        if pids.contains(t[i].pid) {
            let i2 = choose|i2: int|
                0 <= i2 < t.len() && (#[trigger] t[i2]).pid == t[i].pid && t[i2].name@ == name;
            assert(i2 == i);
        }
    }
    lemma_sum_over_pids_vs_name(t, pids, name);
}

/// In every aggregation of a table with pairwise distinct pids, the member
/// lists cover exactly the pids of the table, no pid appears in two
/// different records, and no record lists a pid twice.
pub proof fn lemma_combined_pids_partition(t: Seq<RawProcessSample>, c: Seq<CombinedProcess>)
    requires
        is_aggregation(t, c),
        distinct_pids(t),
    ensures
        forall|p: u32| pid_in_some_record(c, p) <==> has_pid(t, p),
        forall|k1: int, k2: int, p: u32|
            0 <= k1 < k2 < c.len() ==> !(#[trigger] c[k1].pids@.contains(p)
                && #[trigger] c[k2].pids@.contains(p)),
        forall|k: int, i1: int, i2: int|
            0 <= k < c.len() && 0 <= i1 < i2 < c[k].pids@.len() ==> #[trigger] c[k].pids@[i1]
                != #[trigger] c[k].pids@[i2],
{
    assert forall|p: u32| pid_in_some_record(c, p) <==> has_pid(t, p) by {
        if pid_in_some_record(c, p) {
            let k = choose|k: int| 0 <= k < c.len() && (#[trigger] c[k]).pids@.contains(p);
            lemma_pids_for_membership(t, c[k].name@);
            let i = choose|i: int|
                0 <= i < t.len() && (#[trigger] t[i]).pid == p && t[i].name@ == c[k].name@;
            assert(has_pid(t, p));
        }
        if has_pid(t, p) {
            let i = choose|i: int| 0 <= i < t.len() && (#[trigger] t[i]).pid == p;
            assert(has_name(c, t[i].name@));
            let k = choose|k: int| 0 <= k < c.len() && (#[trigger] c[k]).name@ == t[i].name@;
            lemma_pids_for_membership(t, c[k].name@);
            assert(c[k].pids@.contains(p));
            assert(pid_in_some_record(c, p));
        }
    }
    assert forall|k1: int, k2: int, p: u32|
        0 <= k1 < k2 < c.len() implies !(#[trigger] c[k1].pids@.contains(p)
        && #[trigger] c[k2].pids@.contains(p)) by {
        if c[k1].pids@.contains(p) && c[k2].pids@.contains(p) {
            lemma_pids_for_membership(t, c[k1].name@);
            lemma_pids_for_membership(t, c[k2].name@);
            let i1 = choose|i: int|
                0 <= i < t.len() && (#[trigger] t[i]).pid == p && t[i].name@ == c[k1].name@;
            let i2 = choose|i: int|
                0 <= i < t.len() && (#[trigger] t[i]).pid == p && t[i].name@ == c[k2].name@;
            assert(i1 != i2);
        }
    }
    assert forall|k: int, i1: int, i2: int|
        0 <= k < c.len() && 0 <= i1 < i2 < c[k].pids@.len() implies #[trigger] c[k].pids@[i1]
        != #[trigger] c[k].pids@[i2] by {
        lemma_pids_for_distinct(t, c[k].name@);
    }
}

/// Folds the raw process table into one combined record per name, in order
/// of first appearance.
pub fn aggregate(table: &Vec<RawProcessSample>) -> (c: Vec<CombinedProcess>)
    ensures
        is_aggregation(table@, c@),
{
    let mut out: Vec<CombinedProcess> = Vec::new();
    let mut i: usize = 0;
    while i < table.len()
        invariant
            i <= table@.len(),
            is_aggregation(table@.take(i as int), out@),
        decreases table@.len() - i,
    {
        let s = &table[i];
        let ghost prefix = table@.take(i as int);
        let ghost out0 = out@;
        let mut j: usize = 0;
        let mut idx: usize = out.len();
        while j < out.len()
            invariant
                j <= out@.len(),
                idx <= out@.len(),
                idx == out@.len() ==> forall|k: int|
                    0 <= k < j ==> (#[trigger] out@[k]).name@ != s.name@,
                idx < out@.len() ==> out@[idx as int].name@ == s.name@,
            decreases out@.len() - j,
        {
            if idx == out.len() && out[j].name == s.name {
                idx = j;
            }
            j = j + 1;
        }
        proof {
            assert(table@.take(i + 1).drop_last() =~= prefix);
            assert(table@.take(i + 1).last() == table@[i as int]);
            lemma_sums_bounded(prefix, s.name@);
            assert(((i as int) * (u64::MAX as int) + (u64::MAX as int)) < (u128::MAX as int))
                by (nonlinear_arith)
                requires
                    (i as int) <= (u64::MAX as int);
        }
        if idx < out.len() {
            let mut e = out.remove(idx);
            proof {
                assert(combined_matches(prefix, e));
                assert(e.cpu_usage as int == spec_cpu_sum_for(prefix, e.name@));
                assert(prefix.len() <= u64::MAX as int);
            }
            e.cpu_usage = e.cpu_usage + (s.cpu_usage as u128);
            e.memory_usage = e.memory_usage + (s.memory_bytes as u128);
            e.pids.push(s.pid);
            out.insert(idx, e);
            proof {
                assert(out@ =~= out0.update(idx as int, out@[idx as int]));
                assert forall|k: int| 0 <= k < out@.len() implies combined_matches(
                    table@.take(i + 1),
                    #[trigger] out@[k],
                ) by {
                    if k != idx {
                        assert(out@[k] == out0[k]);
                        assert(combined_matches(prefix, out0[k]));
                        if idx < k {
                            assert(out0[idx as int].name@ != out0[k].name@);
                        } else {
                            assert(out0[k].name@ != out0[idx as int].name@);
                        }
                        assert(out@[k].name@ != s.name@);
                    } else {
                        assert(out@[k].name@ == s.name@);
                        assert(out@[k].pids@ == spec_pids_for(prefix, s.name@).push(s.pid));
                    }
                }
                assert forall|k1: int, k2: int| 0 <= k1 < k2 < out@.len() implies (
                #[trigger] out@[k1]).name@ != (#[trigger] out@[k2]).name@ by {
                    assert(out@[k1].name@ == out0[k1].name@);
                    assert(out@[k2].name@ == out0[k2].name@);
                }
                assert forall|i2: int| 0 <= i2 < i + 1 implies has_name(
                    out@,
                    (#[trigger] table@.take(i + 1)[i2]).name@,
                ) by {
                    let n = table@.take(i + 1)[i2].name@;
                    if i2 < i {
                        assert(prefix[i2].name@ == n);
                        assert(has_name(out0, n));
                        let k = choose|k: int|
                            0 <= k < out0.len() && (#[trigger] out0[k]).name@ == n;
                        assert(out@[k].name@ == n);
                    } else {
                        assert(out@[idx as int].name@ == n);
                    }
                }
            }
        } else {
            proof {
                assert forall|i2: int| 0 <= i2 < prefix.len() implies (#[trigger] prefix[i2]).name@
                    != s.name@ by {
                    if prefix[i2].name@ == s.name@ {
                        assert(has_name(out@, prefix[i2].name@));
                    }
                }
                lemma_sums_absent(prefix, s.name@);
            }
            let mut pids: Vec<u32> = Vec::new();
            pids.push(s.pid);
            out.push(
                CombinedProcess {
                    name: s.name.clone(),
                    cpu_usage: s.cpu_usage as u128,
                    memory_usage: s.memory_bytes as u128,
                    pids,
                },
            );
            proof {
                assert forall|k: int| 0 <= k < out@.len() implies combined_matches(
                    table@.take(i + 1),
                    #[trigger] out@[k],
                ) by {
                    if k < out@.len() - 1 {
                        assert(out@[k] == out0[k]);
                        assert(combined_matches(prefix, out0[k]));
                        assert(out@[k].name@ != s.name@);
                    } else {
                        assert(out@[k].name@ == s.name@);
                        assert(out@[k].pids@ =~= spec_pids_for(prefix, s.name@).push(s.pid));
                    }
                }
                assert forall|k1: int, k2: int| 0 <= k1 < k2 < out@.len() implies (
                #[trigger] out@[k1]).name@ != (#[trigger] out@[k2]).name@ by {
                    if k2 < out@.len() - 1 {
                        assert(out0[k1].name@ != out0[k2].name@);
                    } else {
                        assert(out0[k1].name@ != s.name@);
                    }
                }
                assert forall|i2: int| 0 <= i2 < i + 1 implies has_name(
                    out@,
                    (#[trigger] table@.take(i + 1)[i2]).name@,
                ) by {
                    let n = table@.take(i + 1)[i2].name@;
                    if i2 < i {
                        assert(prefix[i2].name@ == n);
                        assert(has_name(out0, n));
                        let k = choose|k: int|
                            0 <= k < out0.len() && (#[trigger] out0[k]).name@ == n;
                        assert(out@[k].name@ == n);
                    } else {
                        assert(out@[out@.len() - 1].name@ == n);
                    }
                }
            }
        }
        i = i + 1;
    }
    proof {
        assert(table@.take(table@.len() as int) =~= table@);
    }
    out
}

} // verus!
