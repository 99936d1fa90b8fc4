use vstd::prelude::*;

use crate::stats::{
    f_avg, f_count, f_max, f_median, f_min, f_q95, f_stddev, field_sum, lemma_field_sum_nonneg_monotone,
    merged, merged_rates, rates_fit, ObservationsStats,
};

verus! {

/// Everything an engine measured: delivery latency per request kind,
/// confirmation latencies and the observed rate.
pub struct BenchStatistics {
    pub request_stats: Vec<(String, ObservationsStats)>,
    pub signature_confirmation_latency: ObservationsStats,
    pub account_update_latency: ObservationsStats,
    pub rps: ObservationsStats,
}

pub open spec fn entries_view(v: Seq<(String, ObservationsStats)>) -> Seq<(Seq<char>, ObservationsStats)> {
    v.map_values(|e: (String, ObservationsStats)| (e.0@, e.1))
}

/// The per-kind entries of all engines, engine after engine.
pub open spec fn all_entries(s: Seq<BenchStatistics>) -> Seq<(Seq<char>, ObservationsStats)>
    decreases s.len(),
{
    if s.len() == 0 {
        Seq::empty()
    } else {
        all_entries(s.drop_last()) + entries_view(s.last().request_stats@)
    }
}

/// The summaries recorded under `name`, in order.
pub open spec fn group_of(entries: Seq<(Seq<char>, ObservationsStats)>, name: Seq<char>) -> Seq<
    ObservationsStats,
>
    decreases entries.len(),
{
    if entries.len() == 0 {
        Seq::empty()
    } else if entries.last().0 == name {
        group_of(entries.drop_last(), name).push(entries.last().1)
    } else {
        group_of(entries.drop_last(), name)
    }
}

pub open spec fn has_name(entries: Seq<(Seq<char>, ObservationsStats)>, name: Seq<char>) -> bool {
    exists|i: int| 0 <= i < entries.len() && (#[trigger] entries[i]).0 == name
}

pub open spec fn rps_of(s: Seq<BenchStatistics>) -> Seq<ObservationsStats> {
    s.map_values(|b: BenchStatistics| b.rps)
}

pub open spec fn signature_of(s: Seq<BenchStatistics>) -> Seq<ObservationsStats> {
    s.map_values(|b: BenchStatistics| b.signature_confirmation_latency)
}

pub open spec fn account_of(s: Seq<BenchStatistics>) -> Seq<ObservationsStats> {
    s.map_values(|b: BenchStatistics| b.account_update_latency)
}

/// Whether the merge of `s` fits the counters' types.
pub open spec fn mergeable(s: Seq<BenchStatistics>) -> bool {
    &&& rates_fit(rps_of(s))
    &&& field_sum(signature_of(s), f_count()) <= usize::MAX
    &&& field_sum(account_of(s), f_count()) <= usize::MAX
    &&& forall|name: Seq<char>| #[trigger]
        field_sum(group_of(all_entries(s), name), f_count()) <= usize::MAX
}

fn collect_field(stats: &Vec<BenchStatistics>, which: u8) -> (r: Vec<ObservationsStats>)
    ensures
        which == 0 ==> r@ == rps_of(stats@),
        which == 1 ==> r@ == signature_of(stats@),
        which != 0 && which != 1 ==> r@ == account_of(stats@),
{
    let mut r: Vec<ObservationsStats> = Vec::new();
    let mut i: usize = 0;
    while i < stats.len()
        invariant
            i <= stats@.len(),
            which == 0 ==> r@ == rps_of(stats@.subrange(0, i as int)),
            which == 1 ==> r@ == signature_of(stats@.subrange(0, i as int)),
            which != 0 && which != 1 ==> r@ == account_of(stats@.subrange(0, i as int)),
        decreases stats@.len() - i,
    {
        let s = &stats[i];
        if which == 0 {
            r.push(s.rps);
        } else if which == 1 {
            r.push(s.signature_confirmation_latency);
        } else {
            r.push(s.account_update_latency);
        }
        proof {
            let p = stats@.subrange(0, i as int + 1);
            assert(rps_of(p) =~= rps_of(stats@.subrange(0, i as int)).push(stats@[i as int].rps));
            assert(signature_of(p) =~= signature_of(stats@.subrange(0, i as int)).push(
                stats@[i as int].signature_confirmation_latency,
            ));
            assert(account_of(p) =~= account_of(stats@.subrange(0, i as int)).push(
                stats@[i as int].account_update_latency,
            ));
        }
        i = i + 1;
    }
    assert(stats@.subrange(0, stats@.len() as int) =~= stats@);
    r
}

fn flatten(stats: &Vec<BenchStatistics>) -> (r: Vec<(String, ObservationsStats)>)
    ensures
        entries_view(r@) == all_entries(stats@),
{
    let mut r: Vec<(String, ObservationsStats)> = Vec::new();
    let mut i: usize = 0;
    while i < stats.len()
        invariant
            i <= stats@.len(),
            entries_view(r@) == all_entries(stats@.subrange(0, i as int)),
        decreases stats@.len() - i,
    {
        let es = &stats[i].request_stats;
        let ghost base = entries_view(r@);
        let mut j: usize = 0;
        while j < es.len()
            invariant
                j <= es@.len(),
                entries_view(r@) == base + entries_view(es@.subrange(0, j as int)),
            decreases es@.len() - j,
        {
            let name = es[j].0.clone();
            assert(name@ == es@[j as int].0@);
            let ghost before = r@;
            r.push((name, es[j].1));
            proof {
                assert(entries_view(r@) =~= entries_view(before).push((es@[j as int].0@, es@[j as int].1)));
                assert(entries_view(es@.subrange(0, j as int + 1)) =~= entries_view(
                    es@.subrange(0, j as int),
                ).push((es@[j as int].0@, es@[j as int].1)));
            }
            assert(entries_view(r@) =~= base + entries_view(es@.subrange(0, j as int + 1)));
            j = j + 1;
        }
        proof {
            assert(es@.subrange(0, es@.len() as int) =~= es@);
            let p = stats@.subrange(0, i as int + 1);
            assert(p.drop_last() =~= stats@.subrange(0, i as int));
        }
        i = i + 1;
    }
    assert(stats@.subrange(0, stats@.len() as int) =~= stats@);
    r
}

fn group(flat: &Vec<(String, ObservationsStats)>, name: &String) -> (r: Vec<ObservationsStats>)
    ensures
        r@ == group_of(entries_view(flat@), name@),
{
    let mut r: Vec<ObservationsStats> = Vec::new();
    let mut i: usize = 0;
    while i < flat.len()
        invariant
            i <= flat@.len(),
            r@ == group_of(entries_view(flat@.subrange(0, i as int)), name@),
        decreases flat@.len() - i,
    {
        proof {
            let p = entries_view(flat@.subrange(0, i as int + 1));
            assert(p.drop_last() =~= entries_view(flat@.subrange(0, i as int)));
        }
        if flat[i].0 == *name {
            r.push(flat[i].1);
        }
        i = i + 1;
    }
    assert(flat@.subrange(0, flat@.len() as int) =~= flat@);
    r
}

proof fn lemma_has_name_prefix(e: Seq<(Seq<char>, ObservationsStats)>, i: int, name: Seq<char>)
    requires
        0 <= i < e.len(),
    ensures
        has_name(e.subrange(0, i + 1), name) <==> has_name(e.subrange(0, i), name) || e[i].0
            == name,
{
    let a = e.subrange(0, i + 1);
    let b = e.subrange(0, i);
    if has_name(a, name) {
        let k = choose|k: int| 0 <= k < a.len() && (#[trigger] a[k]).0 == name;
        if k < i {
            assert(b[k] == a[k]);
        }
    }
    if has_name(b, name) {
        let k = choose|k: int| 0 <= k < b.len() && (#[trigger] b[k]).0 == name;
        assert(a[k] == b[k]);
    }
    if e[i].0 == name {
        assert(a[i] == e[i]);
    }
}

fn distinct_names(flat: &Vec<(String, ObservationsStats)>) -> (r: Vec<String>)
    ensures
        forall|a: int, b: int| 0 <= a < b < r@.len() ==> r@[a]@ != r@[b]@,
        forall|k: int| 0 <= k < r@.len() ==> has_name(entries_view(flat@), #[trigger] r@[k]@),
        forall|name: Seq<char>| #[trigger]
            has_name(entries_view(flat@), name) ==> exists|k: int|
                0 <= k < r@.len() && (#[trigger] r@[k]@) == name,
{
    let ghost e = entries_view(flat@);
    let mut keys: Vec<String> = Vec::new();
    let mut i: usize = 0;
    while i < flat.len()
        invariant
            i <= flat@.len(),
            e == entries_view(flat@),
            forall|a: int, b: int| 0 <= a < b < keys@.len() ==> keys@[a]@ != keys@[b]@,
            forall|k: int| 0 <= k < keys@.len() ==> has_name(e.subrange(0, i as int), #[trigger] keys@[k]@),
            forall|name: Seq<char>| #[trigger]
                has_name(e.subrange(0, i as int), name) ==> exists|k: int|
                    0 <= k < keys@.len() && (#[trigger] keys@[k]@) == name,
        decreases flat@.len() - i,
    {
        let mut found = false;
        let mut j: usize = 0;
        while j < keys.len()
            invariant
                i < flat@.len(),
                j <= keys@.len(),
                found <==> exists|k: int| 0 <= k < j && (#[trigger] keys@[k]@) == flat@[i as int].0@,
            decreases keys@.len() - j,
        {
            if keys[j] == flat[i].0 {
                found = true;
            }
            j = j + 1;
        }
        proof {
            assert forall|name: Seq<char>| #[trigger] has_name(e.subrange(0, i as int + 1), name)
                <==> has_name(e.subrange(0, i as int), name) || e[i as int].0 == name by {
                lemma_has_name_prefix(e, i as int, name);
            }
        }
        if !found {
            let ghost old_keys = keys@;
            keys.push(flat[i].0.clone());
            proof {
                assert(keys@[old_keys.len() as int]@ == e[i as int].0);
                assert forall|k: int| 0 <= k < keys@.len() implies has_name(
                    e.subrange(0, i as int + 1),
                    #[trigger] keys@[k]@,
                ) by {
                    if k < old_keys.len() {
                        assert(keys@[k] == old_keys[k]);
                        assert(has_name(e.subrange(0, i as int), old_keys[k]@));
                    }
                }
                assert forall|name: Seq<char>| #[trigger]
                    has_name(e.subrange(0, i as int + 1), name) implies exists|k: int|
                        0 <= k < keys@.len() && (#[trigger] keys@[k]@) == name by {
                    if has_name(e.subrange(0, i as int), name) {
                        let k = choose|k: int| 0 <= k < old_keys.len() && (#[trigger] old_keys[k]@) == name;
                        assert(keys@[k] == old_keys[k]);
                    } else {
                        assert(keys@[old_keys.len() as int]@ == name);
                    }
                }
            }
        } else {
            proof {
                assert forall|k: int| 0 <= k < keys@.len() implies has_name(
                    e.subrange(0, i as int + 1),
                    #[trigger] keys@[k]@,
                ) by {
                    assert(has_name(e.subrange(0, i as int), keys@[k]@));
                }
                assert forall|name: Seq<char>| #[trigger]
                    has_name(e.subrange(0, i as int + 1), name) implies exists|k: int|
                        0 <= k < keys@.len() && (#[trigger] keys@[k]@) == name by {
                    if !has_name(e.subrange(0, i as int), name) {
                        assert(e[i as int].0 == name);
                    }
                }
            }
        }
        i = i + 1;
    }
    assert(e.subrange(0, flat@.len() as int) =~= e);
    keys
}

impl BenchStatistics {
    /// Merges the statistics of several engines: latencies by the latency
    /// rule, the observed rate by the throughput rule, and delivery latency
    /// per request kind, each kind once, over the engines that recorded it.
    pub fn merge(stats: Vec<BenchStatistics>) -> (r: BenchStatistics)
        requires
            mergeable(stats@),
        ensures
            r.rps == merged_rates(rps_of(stats@)),
            r.signature_confirmation_latency == merged(signature_of(stats@)),
            r.account_update_latency == merged(account_of(stats@)),
            forall|a: int, b: int|
                0 <= a < b < r.request_stats@.len() ==> r.request_stats@[a].0@
                    != r.request_stats@[b].0@,
            forall|k: int|
                0 <= k < r.request_stats@.len() ==> has_name(
                    all_entries(stats@),
                    (#[trigger] r.request_stats@[k]).0@,
                ) && r.request_stats@[k].1 == merged(
                    group_of(all_entries(stats@), r.request_stats@[k].0@),
                ),
            forall|name: Seq<char>| #[trigger]
                has_name(all_entries(stats@), name) ==> exists|k: int|
                    0 <= k < r.request_stats@.len() && (#[trigger] r.request_stats@[k]).0@ == name,
    {
        let flat = flatten(&stats);
        let keys = distinct_names(&flat);
        let mut request_stats: Vec<(String, ObservationsStats)> = Vec::new();
        let mut k: usize = 0;
        while k < keys.len()
            invariant
                k <= keys@.len(),
                mergeable(stats@),
                entries_view(flat@) == all_entries(stats@),
                request_stats@.len() == k,
                forall|a: int| 0 <= a < k ==> (#[trigger] request_stats@[a]).0@ == keys@[a]@,
                forall|a: int|
                    0 <= a < k ==> (#[trigger] request_stats@[a]).1 == merged(
                        group_of(all_entries(stats@), keys@[a]@),
                    ),
            decreases keys@.len() - k,
        {
            let g = group(&flat, &keys[k]);
            proof {
                assert(field_sum(group_of(all_entries(stats@), keys@[k as int]@), f_count())
                    <= usize::MAX);
            }
            let m = ObservationsStats::merge(g);
            request_stats.push((keys[k].clone(), m));
            k = k + 1;
        }
        let r = BenchStatistics {
            request_stats,
            signature_confirmation_latency: ObservationsStats::merge(collect_field(&stats, 1)),
            account_update_latency: ObservationsStats::merge(collect_field(&stats, 2)),
            rps: ObservationsStats::merge_rates(collect_field(&stats, 0)),
        };
        proof {
            assert forall|name: Seq<char>| #[trigger] has_name(all_entries(stats@), name) implies exists|
                k: int,
            | 0 <= k < r.request_stats@.len() && (#[trigger] r.request_stats@[k]).0@ == name by {
                assert(has_name(entries_view(flat@), name));
                let k = choose|k: int| 0 <= k < keys@.len() && (#[trigger] keys@[k]@) == name;
                assert(r.request_stats@[k].0@ == keys@[k]@);
            }
        }
        r
    }
}

/// The summary field numbered `which`: count, median, min, max, avg,
/// quantile95, stddev.
pub open spec fn field_of(which: u8) -> spec_fn(ObservationsStats) -> int {
    if which == 0 {
        f_count()
    } else if which == 1 {
        f_median()
    } else if which == 2 {
        f_min()
    } else if which == 3 {
        f_max()
    } else if which == 4 {
        f_avg()
    } else if which == 5 {
        f_q95()
    } else {
        f_stddev()
    }
}

fn field_value(x: &ObservationsStats, which: u8) -> (r: u64)
    ensures
        r == field_of(which)(*x),
{
    if which == 0 {
        x.count as u64
    } else if which == 1 {
        x.median as u64
    } else if which == 2 {
        x.min as u64
    } else if which == 3 {
        x.max as u64
    } else if which == 4 {
        x.avg as u64
    } else if which == 5 {
        x.quantile95 as u64
    } else {
        x.stddev as u64
    }
}

/// Whether field `which` summed over `v` stays within `limit`.
fn sum_fits(v: &Vec<ObservationsStats>, which: u8, limit: u64) -> (r: bool)
    ensures
        r == (field_sum(v@, field_of(which)) <= limit),
{
    let ghost f = field_of(which);
    let mut acc: u128 = 0;
    let mut i: usize = 0;
    while i < v.len()
        invariant
            i <= v@.len(),
            f == field_of(which),
            acc == field_sum(v@.subrange(0, i as int), f),
            acc <= limit,
        decreases v@.len() - i,
    {
        let x = field_value(&v[i], which);
        proof {
            let p = v@.subrange(0, i as int + 1);
            assert(p.drop_last() =~= v@.subrange(0, i as int));
            assert forall|k: int| 0 <= k < v@.len() implies 0 <= #[trigger] f(v@[k]) by {
                let y = v@[k];
                assert(f(y) == field_of(which)(y));
            }
            lemma_field_sum_nonneg_monotone(v@, f, i as int + 1);
        }
        if acc + x as u128 > limit as u128 {
            return false;
        }
        acc = acc + x as u128;
        i = i + 1;
    }
    assert(v@.subrange(0, v@.len() as int) =~= v@);
    true
}

proof fn lemma_group_absent(e: Seq<(Seq<char>, ObservationsStats)>, name: Seq<char>)
    requires
        !has_name(e, name),
    ensures
        group_of(e, name) == Seq::<ObservationsStats>::empty(),
    decreases e.len(),
{
    if e.len() > 0 {
        if has_name(e.drop_last(), name) {
            let k = choose|k: int| 0 <= k < e.drop_last().len() && (#[trigger] e.drop_last()[k]).0 == name;
            assert(e[k] == e.drop_last()[k]);
        }
        assert(e[e.len() - 1] == e.last());
        lemma_group_absent(e.drop_last(), name);
    }
}

impl BenchStatistics {
    /// Whether the statistics of these engines can be merged: every summed
    /// counter fits its type.
    pub fn can_merge(stats: &Vec<BenchStatistics>) -> (r: bool)
        ensures
            r == mergeable(stats@),
    {
        let rps = collect_field(stats, 0);
        let signature = collect_field(stats, 1);
        let account = collect_field(stats, 2);
        let count_max = usize::MAX as u64;
        let rates = sum_fits(&rps, 0, count_max) && sum_fits(&rps, 1, u32::MAX as u64)
            && sum_fits(&rps, 2, u32::MAX as u64) && sum_fits(&rps, 3, u32::MAX as u64)
            && sum_fits(&rps, 4, u32::MAX as u64) && sum_fits(&rps, 5, u32::MAX as u64)
            && sum_fits(&rps, 6, u32::MAX as u64);
        if !rates || !sum_fits(&signature, 0, count_max) || !sum_fits(&account, 0, count_max) {
            return false;
        }
        let flat = flatten(stats);
        let keys = distinct_names(&flat);
        let mut k: usize = 0;
        while k < keys.len()
            invariant
                k <= keys@.len(),
                entries_view(flat@) == all_entries(stats@),
                count_max == usize::MAX,
                forall|j: int|
                    0 <= j < k ==> field_sum(group_of(all_entries(stats@), #[trigger] keys@[j]@), f_count())
                        <= usize::MAX,
            decreases keys@.len() - k,
        {
            let g = group(&flat, &keys[k]);
            if !sum_fits(&g, 0, count_max) {
                return false;
            }
            k = k + 1;
        }
        proof {
            assert forall|name: Seq<char>| #[trigger]
                field_sum(group_of(all_entries(stats@), name), f_count()) <= usize::MAX by {
                if has_name(entries_view(flat@), name) {
                    let j = choose|j: int| 0 <= j < keys@.len() && (#[trigger] keys@[j]@) == name;
                } else {
                    lemma_group_absent(all_entries(stats@), name);
                    assert(field_sum(Seq::<ObservationsStats>::empty(), f_count()) == 0);
                }
            }
        }
        true
    }
}

/// The request count over a list of named summaries.
pub open spec fn counts_total(v: Seq<(Seq<char>, ObservationsStats)>) -> int
    decreases v.len(),
{
    if v.len() == 0 {
        0
    } else {
        counts_total(v.drop_last()) + v.last().1.count
    }
}

/// The request count recorded under each of `keys`, added up.
pub open spec fn keys_total(e: Seq<(Seq<char>, ObservationsStats)>, keys: Seq<Seq<char>>) -> int
    decreases keys.len(),
{
    if keys.len() == 0 {
        0
    } else {
        keys_total(e, keys.drop_last()) + field_sum(group_of(e, keys.last()), f_count())
    }
}

proof fn lemma_count_push(e: Seq<(Seq<char>, ObservationsStats)>, x: (Seq<char>, ObservationsStats), n: Seq<char>)
    ensures
        field_sum(group_of(e.push(x), n), f_count()) == field_sum(group_of(e, n), f_count()) + if x.0
            == n {
            x.1.count as int
        } else {
            0
        },
{
    assert(e.push(x).drop_last() =~= e);
    if x.0 == n {
        let g = group_of(e, n).push(x.1);
        assert(g.drop_last() =~= group_of(e, n));
    }
}

proof fn lemma_keys_push(e: Seq<(Seq<char>, ObservationsStats)>, x: (Seq<char>, ObservationsStats), keys: Seq<Seq<char>>)
    requires
        forall|a: int, b: int| 0 <= a < b < keys.len() ==> keys[a] != keys[b],
    ensures
        keys_total(e.push(x), keys) == keys_total(e, keys) + if keys.contains(x.0) {
            x.1.count as int
        } else {
            0
        },
    decreases keys.len(),
{
    if keys.len() > 0 {
        let k = keys.drop_last();
        lemma_keys_push(e, x, k);
        lemma_count_push(e, x, keys.last());
        if k.contains(x.0) {
            let j = choose|j: int| 0 <= j < k.len() && k[j] == x.0;
            assert(keys[j] == x.0);
            assert(keys.contains(x.0));
            assert(keys.last() != x.0) by {
                assert(keys[keys.len() - 1] == keys.last());
            }
        } else if keys.contains(x.0) {
            let j = choose|j: int| 0 <= j < keys.len() && keys[j] == x.0;
            if j < keys.len() - 1 {
                assert(k[j] == x.0);
            }
            assert(keys.last() == x.0);
        } else {
            assert(keys.last() != x.0) by {
                assert(keys[keys.len() - 1] == keys.last());
            }
        }
    }
}

proof fn lemma_keys_empty(keys: Seq<Seq<char>>)
    ensures
        keys_total(Seq::<(Seq<char>, ObservationsStats)>::empty(), keys) == 0,
    decreases keys.len(),
{
    if keys.len() > 0 {
        lemma_keys_empty(keys.drop_last());
    }
}

proof fn lemma_keys_cover(e: Seq<(Seq<char>, ObservationsStats)>, keys: Seq<Seq<char>>)
    requires
        forall|a: int, b: int| 0 <= a < b < keys.len() ==> keys[a] != keys[b],
        forall|i: int| 0 <= i < e.len() ==> keys.contains(#[trigger] e[i].0),
    ensures
        keys_total(e, keys) == counts_total(e),
    decreases e.len(),
{
    if e.len() == 0 {
        lemma_keys_empty(keys);
        assert(e =~= Seq::<(Seq<char>, ObservationsStats)>::empty());
    } else {
        let d = e.drop_last();
        let x = e.last();
        assert(d.push(x) =~= e);
        assert forall|i: int| 0 <= i < d.len() implies keys.contains(#[trigger] d[i].0) by {
            assert(d[i] == e[i]);
        }
        lemma_keys_cover(d, keys);
        assert(keys.contains(e[e.len() - 1].0));
        lemma_keys_push(d, x, keys);
    }
}

proof fn lemma_out_total(
    all: Seq<(Seq<char>, ObservationsStats)>,
    out: Seq<(Seq<char>, ObservationsStats)>,
)
    requires
        forall|k: int| 0 <= k < out.len() ==> (#[trigger] out[k]).1 == merged(group_of(all, out[k].0)),
        forall|name: Seq<char>| #[trigger] field_sum(group_of(all, name), f_count()) <= usize::MAX,
    ensures
        counts_total(out) == keys_total(all, out.map_values(|e: (Seq<char>, ObservationsStats)| e.0)),
    decreases out.len(),
{
    if out.len() > 0 {
        let d = out.drop_last();
        assert forall|k: int| 0 <= k < d.len() implies (#[trigger] d[k]).1 == merged(group_of(all, d[k].0)) by {
            assert(d[k] == out[k]);
        }
        lemma_out_total(all, d);
        let names = out.map_values(|e: (Seq<char>, ObservationsStats)| e.0);
        assert(names.drop_last() =~= d.map_values(|e: (Seq<char>, ObservationsStats)| e.0));
        let g = group_of(all, out.last().0);
        assert(out[out.len() - 1] == out.last());
        crate::stats::lemma_field_sum_nonneg_monotone(g, f_count(), 0);
        assert(field_sum(g, f_count()) <= usize::MAX);
    }
}

/// Counts are sums across engines: the requests counted under all kinds of
/// a merge add up to the requests counted by all the engines.
pub proof fn law_merged_counts_add_up(stats: Seq<BenchStatistics>, out: Seq<(String, ObservationsStats)>)
    requires
        mergeable(stats),
        forall|a: int, b: int| 0 <= a < b < out.len() ==> out[a].0@ != out[b].0@,
        forall|k: int|
            0 <= k < out.len() ==> (#[trigger] out[k]).1 == merged(group_of(all_entries(stats), out[k].0@)),
        forall|name: Seq<char>| #[trigger]
            has_name(all_entries(stats), name) ==> exists|k: int|
                0 <= k < out.len() && (#[trigger] out[k]).0@ == name,
    ensures
        counts_total(entries_view(out)) == counts_total(all_entries(stats)),
{
    let all = all_entries(stats);
    let v = entries_view(out);
    assert forall|k: int| 0 <= k < v.len() implies (#[trigger] v[k]).1 == merged(group_of(all, v[k].0)) by {
        assert(v[k] == (out[k].0@, out[k].1));
    }
    lemma_out_total(all, v);
    let keys = v.map_values(|e: (Seq<char>, ObservationsStats)| e.0);
    assert forall|a: int, b: int| 0 <= a < b < keys.len() implies keys[a] != keys[b] by {
        assert(keys[a] == out[a].0@);
        assert(keys[b] == out[b].0@);
    }
    assert forall|i: int| 0 <= i < all.len() implies keys.contains(#[trigger] all[i].0) by {
        assert(has_name(all, all[i].0));
        let k = choose|k: int| 0 <= k < out.len() && (#[trigger] out[k]).0@ == all[i].0;
        assert(keys[k] == out[k].0@);
    }
    lemma_keys_cover(all, keys);
}

} // verus!
