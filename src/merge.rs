//! Merging sorted runs of `(key, value)` entries, as the index builder does with its
//! sorted chunks.
use vstd::prelude::*;
use vstd::multiset::Multiset;
use vstd::seq_lib::group_to_multiset_ensures;

verus! {

broadcast use group_to_multiset_ensures;

/// Whether the keys of `s` never decrease.
pub open spec fn sorted_by_key(s: Seq<(u64, u64)>) -> bool {
    forall|i: int, j: int| 0 <= i <= j < s.len() ==> s[i].0 <= s[j].0
}

/// Every entry of the first `k` runs, counted with multiplicity.
pub open spec fn entries_upto(runs: Seq<Vec<(u64, u64)>>, k: int) -> Multiset<(u64, u64)>
    decreases k,
{
    if k <= 0 {
        Multiset::empty()
    } else {
        entries_upto(runs, k - 1).add(runs[k - 1]@.to_multiset())
    }
}

/// Every entry of all runs, counted with multiplicity.
pub open spec fn all_entries(runs: Seq<Vec<(u64, u64)>>) -> Multiset<(u64, u64)> {
    entries_upto(runs, runs.len() as int)
}

/// The entries of the first `k` runs at or after the read positions `heads`.
pub open spec fn unread_upto(runs: Seq<Vec<(u64, u64)>>, heads: Seq<usize>, k: int) -> Multiset<(u64, u64)>
    decreases k,
{
    if k <= 0 {
        Multiset::empty()
    } else {
        unread_upto(runs, heads, k - 1).add(runs[k - 1]@.subrange(heads[k - 1] as int, runs[k - 1]@.len() as int).to_multiset())
    }
}

/// How many entries of the first `k` runs are at or after the read positions `heads`.
pub open spec fn unread_count(runs: Seq<Vec<(u64, u64)>>, heads: Seq<usize>, k: int) -> int
    decreases k,
{
    if k <= 0 {
        0
    } else {
        unread_count(runs, heads, k - 1) + runs[k - 1]@.len() - heads[k - 1]
    }
}

pub open spec fn heads_valid(runs: Seq<Vec<(u64, u64)>>, heads: Seq<usize>) -> bool {
    heads.len() == runs.len() && forall|i: int| 0 <= i < runs.len() ==> heads[i] <= runs[i]@.len()
}

proof fn lemma_unread_start(runs: Seq<Vec<(u64, u64)>>, heads: Seq<usize>, k: int)
    requires
        heads.len() == runs.len(),
        0 <= k <= runs.len(),
        forall|i: int| 0 <= i < runs.len() ==> heads[i] == 0,
    ensures
        unread_upto(runs, heads, k) == entries_upto(runs, k),
    decreases k,
{
    if k > 0 {
        lemma_unread_start(runs, heads, k - 1);
        assert(runs[k - 1]@.subrange(0, runs[k - 1]@.len() as int) =~= runs[k - 1]@);
    }
}

proof fn lemma_unread_done(runs: Seq<Vec<(u64, u64)>>, heads: Seq<usize>, k: int)
    requires
        heads.len() == runs.len(),
        0 <= k <= runs.len(),
        forall|i: int| 0 <= i < runs.len() ==> heads[i] == runs[i]@.len(),
    ensures
        unread_upto(runs, heads, k) =~= Multiset::empty(),
    decreases k,
{
    if k > 0 {
        lemma_unread_done(runs, heads, k - 1);
        assert(runs[k - 1]@.subrange(heads[k - 1] as int, runs[k - 1]@.len() as int) =~= Seq::<(u64, u64)>::empty());
    }
}

proof fn lemma_unread_count_nonneg(runs: Seq<Vec<(u64, u64)>>, heads: Seq<usize>, k: int)
    requires
        heads_valid(runs, heads),
        0 <= k <= runs.len(),
    ensures
        unread_count(runs, heads, k) >= 0,
    decreases k,
{
    if k > 0 {
        lemma_unread_count_nonneg(runs, heads, k - 1);
    }
}

proof fn lemma_unread_step(runs: Seq<Vec<(u64, u64)>>, heads: Seq<usize>, b: int, k: int)
    requires
        heads_valid(runs, heads),
        0 <= b < runs.len(),
        heads[b] < runs[b]@.len(),
        heads[b] + 1 <= usize::MAX,
        0 <= k <= runs.len(),
    ensures
        b < k ==> unread_upto(runs, heads, k) == unread_upto(runs, heads.update(b, (heads[b] + 1) as usize), k).insert(runs[b]@[heads[b] as int]),
        b < k ==> unread_count(runs, heads, k) == unread_count(runs, heads.update(b, (heads[b] + 1) as usize), k) + 1,
        b >= k ==> unread_upto(runs, heads, k) == unread_upto(runs, heads.update(b, (heads[b] + 1) as usize), k),
        b >= k ==> unread_count(runs, heads, k) == unread_count(runs, heads.update(b, (heads[b] + 1) as usize), k),
    decreases k,
{
    let h2 = heads.update(b, (heads[b] + 1) as usize);
    let x = runs[b]@[heads[b] as int];
    if k > 0 {
        lemma_unread_step(runs, heads, b, k - 1);
        let s = runs[k - 1]@.subrange(heads[k - 1] as int, runs[k - 1]@.len() as int);
        assert(h2[b] == heads[b] + 1);
        if k - 1 == b {
            let t = runs[b]@.subrange(heads[b] + 1, runs[b]@.len() as int);
            assert(s.remove(0) =~= t);
            assert(s.to_multiset().count(x) > 0) by {
                assert(s[0] == x);
                assert(s.contains(x));
            }
            assert(s.to_multiset() =~= t.to_multiset().insert(x));
            assert(unread_upto(runs, heads, k) =~= unread_upto(runs, h2, k).insert(x));
        } else if k - 1 > b {
            assert(h2[k - 1] == heads[k - 1]);
            assert(unread_upto(runs, heads, k) =~= unread_upto(runs, h2, k).insert(x));
        } else {
            assert(h2[k - 1] == heads[k - 1]);
        }
    }
}

/// Whether no two entries share a key.
pub open spec fn keys_distinct(s: Seq<(u64, u64)>) -> bool {
    forall|i: int, j: int| 0 <= i < j < s.len() ==> s[i].0 != s[j].0
}

/// Where keys are distinct, as object ids are, the merged sequence is fixed by the
/// entries merged: two sequences sorted by key that hold the same entries are equal. So
/// building an index twice from the same entries inserts the same sequence.
pub proof fn lemma_merge_output_determined(a: Seq<(u64, u64)>, b: Seq<(u64, u64)>)
    requires
        sorted_by_key(a),
        sorted_by_key(b),
        keys_distinct(a),
        a.to_multiset() == b.to_multiset(),
    ensures
        a == b,
    decreases a.len(),
{
    assert(a.len() == a.to_multiset().len());
    assert(b.len() == b.to_multiset().len());
    if a.len() == 0 {
        assert(a =~= b);
    } else {
        let x = a[0];
        let y = b[0];
        assert(a.contains(x));
        assert(a.to_multiset().count(x) > 0);
        assert(b.contains(x));
        let j = choose|j: int| 0 <= j < b.len() && b[j] == x;
        assert(y.0 <= b[j].0);
        assert(b.contains(y));
        assert(b.to_multiset().count(y) > 0);
        assert(a.contains(y));
        let i = choose|i: int| 0 <= i < a.len() && a[i] == y;
        assert(a[0].0 <= a[i].0);
        assert(i == 0);
        let a2 = a.remove(0);
        let b2 = b.remove(0);
        assert(a2.to_multiset() == a.to_multiset().remove(x));
        assert(b2.to_multiset() == b.to_multiset().remove(y));
        assert forall|p: int, q: int| 0 <= p <= q < a2.len() implies a2[p].0 <= a2[q].0 by {
            assert(a2[p] == a[p + 1] && a2[q] == a[q + 1]);
        }
        assert forall|p: int, q: int| 0 <= p <= q < b2.len() implies b2[p].0 <= b2[q].0 by {
            assert(b2[p] == b[p + 1] && b2[q] == b[q + 1]);
        }
        assert forall|p: int, q: int| 0 <= p < q < a2.len() implies a2[p].0 != a2[q].0 by {
            assert(a2[p] == a[p + 1] && a2[q] == a[q + 1]);
        }
        lemma_merge_output_determined(a2, b2);
        assert(a =~= seq![x].add(a2));
        assert(b =~= seq![y].add(b2));
    }
}

/// The value stored with `key`, where the keys are distinct; `None` where no entry has it.
pub open spec fn spec_value_of(entries: Seq<(u64, u64)>, key: u64) -> Option<u64> {
    if exists|i: int| 0 <= i < entries.len() && entries[i].0 == key {
        Some(entries[choose|i: int| 0 <= i < entries.len() && entries[i].0 == key].1)
    } else {
        None
    }
}

/// Finds the value stored for `key` in entries sorted by key.
pub fn lookup_sorted(entries: &Vec<(u64, u64)>, key: u64) -> (r: Option<u64>)
    requires
        sorted_by_key(entries@),
    ensures
        r matches Some(v) ==> entries@.contains((key, v)),
        r is None ==> forall|i: int| 0 <= i < entries@.len() ==> entries@[i].0 != key,
        keys_distinct(entries@) ==> r == spec_value_of(entries@, key),
{
    let mut lo: usize = 0;
    let mut hi: usize = entries.len();
    while lo < hi
        invariant
            lo <= hi <= entries@.len(),
            sorted_by_key(entries@),
            forall|i: int| 0 <= i < lo ==> entries@[i].0 < key,
            forall|i: int| hi <= i < entries@.len() ==> entries@[i].0 > key,
        decreases hi - lo,
    {
        let mid = lo + (hi - lo) / 2;
        let (k, v) = entries[mid];
        if k == key {
            proof {
                assert(entries@[mid as int] == (key, v));
                if keys_distinct(entries@) {
                    let j = choose|i: int| 0 <= i < entries@.len() && entries@[i].0 == key;
                    assert(0 <= mid < entries@.len() && entries@[mid as int].0 == key);
                    if j < mid {
                        assert(entries@[j].0 != entries@[mid as int].0);
                    } else if j > mid {
                        assert(entries@[mid as int].0 != entries@[j].0);
                    }
                }
            }
            return Some(v);
        } else if k < key {
            lo = mid + 1;
        } else {
            hi = mid;
        }
    }
    None
}

/// After the entries of stage one are merged, a lookup finds, for every entry emitted,
/// the value emitted with it (object ids being distinct).
pub proof fn lemma_lookup_finds_emitted(runs: Seq<Vec<(u64, u64)>>, merged: Seq<(u64, u64)>, key: u64, value: u64)
    requires
        merged.to_multiset() == all_entries(runs),
        keys_distinct(merged),
        all_entries(runs).count((key, value)) > 0,
    ensures
        merged.contains((key, value)),
        forall|i: int| 0 <= i < merged.len() && merged[i].0 == key ==> merged[i].1 == value,
{
    assert(merged.to_multiset().count((key, value)) > 0);
    assert(merged.contains((key, value)));
    let j = choose|j: int| 0 <= j < merged.len() && merged[j] == (key, value);
    assert forall|i: int| 0 <= i < merged.len() && merged[i].0 == key implies merged[i].1 == value by {
        if i != j {
            if i < j {
                assert(merged[i].0 != merged[j].0);
            } else {
                assert(merged[j].0 != merged[i].0);
            }
        }
    }
}

/// Whether the keys of `entries` never decrease: the check made on a merged file once it
/// has been read back.
pub fn is_sorted_by_key(entries: &Vec<(u64, u64)>) -> (r: bool)
    ensures
        r == sorted_by_key(entries@),
{
    let mut i: usize = 1;
    if entries.len() == 0 {
        return true;
    }
    while i < entries.len()
        invariant
            1 <= i <= entries@.len(),
            sorted_by_key(entries@.subrange(0, i as int)),
        decreases entries@.len() - i,
    {
        if entries[i - 1].0 > entries[i].0 {
            proof {
                assert(!sorted_by_key(entries@)) by {
                    assert(entries@[i - 1].0 > entries@[i as int].0);
                }
            }
            return false;
        }
        proof {
            let t = entries@.subrange(0, i + 1);
            assert forall|p: int, q: int| 0 <= p <= q < t.len() implies t[p].0 <= t[q].0 by {
                if q == i {
                    if p < i {
                        assert(entries@.subrange(0, i as int)[p] == t[p]);
                        assert(entries@.subrange(0, i as int)[i - 1] == entries@[i - 1]);
                    }
                } else {
                    assert(entries@.subrange(0, i as int)[p] == t[p]);
                    assert(entries@.subrange(0, i as int)[q] == t[q]);
                }
            }
        }
        i = i + 1;
    }
    proof {
        assert(entries@.subrange(0, entries@.len() as int) =~= entries@);
    }
    true
}

/// Merges runs whose keys never decrease into one run whose keys never decrease.
///
/// At each step the entry with the least key among the heads of the runs is taken (the
/// first such run on ties); an exhausted run is no longer considered.
pub fn merge_sorted_runs(runs: &Vec<Vec<(u64, u64)>>, lo: usize, hi: usize) -> (r: Vec<(u64, u64)>)
    requires
        lo <= hi <= runs@.len(),
        forall|i: int| lo <= i < hi ==> sorted_by_key(#[trigger] runs@[i]@),
    ensures
        sorted_by_key(r@),
        r@.to_multiset() == all_entries(runs@.subrange(lo as int, hi as int)),
{
    let ghost rs = runs@.subrange(lo as int, hi as int);
    let n = hi - lo;
    let mut heads: Vec<usize> = Vec::new();
    while heads.len() < n
        invariant
            heads@.len() <= n,
            n == rs.len(),
            rs == runs@.subrange(lo as int, hi as int),
            lo + n == hi,
            hi <= runs@.len(),
            forall|i: int| 0 <= i < heads@.len() ==> heads@[i] == 0,
        decreases n - heads@.len(),
    {
        heads.push(0);
    }
    let mut out: Vec<(u64, u64)> = Vec::new();
    proof {
        lemma_unread_start(rs, heads@, n as int);
        assert(out@.to_multiset() =~= Multiset::empty());
        assert(out@.to_multiset().add(unread_upto(rs, heads@, n as int)) =~= all_entries(rs));
    }
    loop
        invariant
            n == rs.len(),
            rs == runs@.subrange(lo as int, hi as int),
            lo + n == hi,
            hi <= runs@.len(),
            forall|i: int| 0 <= i < rs.len() ==> sorted_by_key(#[trigger] rs[i]@),
            heads_valid(rs, heads@),
            sorted_by_key(out@),
            out@.len() > 0 ==> forall|i: int, j: int| 0 <= i < n && heads@[i] <= j < rs[i]@.len()
                ==> out@.last().0 <= #[trigger] rs[i]@[j].0,
            out@.to_multiset().add(unread_upto(rs, heads@, n as int)) == all_entries(rs),
        decreases unread_count(rs, heads@, n as int),
    {
        let mut best: Option<usize> = None;
        let mut k: usize = 0;
        while k < n
            invariant
                k <= n,
                n == rs.len(),
            rs == runs@.subrange(lo as int, hi as int),
            lo + n == hi,
            hi <= runs@.len(),
                heads_valid(rs, heads@),
                best matches Some(b) ==> b < k && heads@[b as int] < rs[b as int]@.len()
                    && forall|i: int| 0 <= i < k && heads@[i] < rs[i]@.len()
                        ==> rs[b as int]@[heads@[b as int] as int].0 <= #[trigger] rs[i]@[heads@[i] as int].0,
                best is None ==> forall|i: int| 0 <= i < k ==> heads@[i] == rs[i]@.len(),
            decreases n - k,
        {
            if heads[k] < runs[lo + k].len() {
                match best {
                    None => {
                        best = Some(k);
                    },
                    Some(b) => {
                        if runs[lo + k][heads[k]].0 < runs[lo + b][heads[b]].0 {
                            best = Some(k);
                        }
                    },
                }
            }
            k = k + 1;
        }
        match best {
            None => {
                proof {
                    lemma_unread_done(rs, heads@, n as int);
                    assert(out@.to_multiset().add(unread_upto(rs, heads@, n as int)) =~= out@.to_multiset());
                }
                return out;
            },
            Some(b) => {
                let h = heads[b];
                let len_b = runs[lo + b].len();
                assert(h < len_b);
                let x = runs[lo + b][h];
                let ghost old_heads = heads@;
                let ghost old_out = out@;
                proof {
                    lemma_unread_step(rs, heads@, b as int, n as int);
                }
                out.push(x);
                heads.set(b, h + 1);
                proof {
                    assert(heads@ == old_heads.update(b as int, (h + 1) as usize));
                    assert(unread_count(rs, heads@, n as int) + 1 == unread_count(rs, old_heads, n as int));
                    lemma_unread_count_nonneg(rs, heads@, n as int);
                    assert(out@.to_multiset() =~= old_out.to_multiset().insert(x));
                    assert(out@.to_multiset().add(unread_upto(rs, heads@, n as int))
                        =~= old_out.to_multiset().add(unread_upto(rs, old_heads, n as int)));
                    assert forall|i: int, j: int| 0 <= i <= j < out@.len() implies out@[i].0 <= out@[j].0 by {
                        if j == out@.len() - 1 && i < j {
                            assert(old_out.last().0 <= rs[b as int]@[h as int].0);
                        }
                    }
                    assert forall|i: int, j: int| 0 <= i < n && heads@[i] <= j < rs[i]@.len()
                        implies out@.last().0 <= #[trigger] rs[i]@[j].0 by {
                        assert(sorted_by_key(rs[i]@));
                        if i != b {
                            assert(heads@[i] == old_heads[i]);
                            assert(rs[i]@[heads@[i] as int].0 <= rs[i]@[j].0);
                        }
                    }
                }
            },
        }
    }
}

/// Merges each group of at most `fan_in` consecutive runs into one run: group `g` is
/// made of the runs from `g * fan_in` on.
pub fn merge_round(runs: &Vec<Vec<(u64, u64)>>, fan_in: usize) -> (r: Vec<Vec<(u64, u64)>>)
    requires
        fan_in >= 2,
        forall|i: int| 0 <= i < runs@.len() ==> sorted_by_key(#[trigger] runs@[i]@),
    ensures
        r@.len() * fan_in >= runs@.len(),
        r@.len() == 0 || (r@.len() - 1) * fan_in < runs@.len(),
        forall|g: int| 0 <= g < r@.len() ==> sorted_by_key(#[trigger] r@[g]@) && r@[g]@.to_multiset()
            == all_entries(runs@.subrange(g * fan_in, if (g + 1) * fan_in <= runs@.len() { (g + 1) * fan_in } else { runs@.len() as int })),
{
    let n = runs.len();
    let mut out: Vec<Vec<(u64, u64)>> = Vec::new();
    let mut lo: usize = 0;
    proof {
        assert(out@.len() * fan_in == 0) by (nonlinear_arith)
            requires
                out@.len() == 0,
        ;
    }
    while lo < n
        invariant
            n == runs@.len(),
            lo <= n,
            fan_in >= 2,
            lo < n ==> lo == out@.len() * fan_in,
            lo == n ==> out@.len() * fan_in >= n,
            out@.len() == 0 || (out@.len() - 1) * fan_in < n,
            forall|i: int| 0 <= i < runs@.len() ==> sorted_by_key(#[trigger] runs@[i]@),
            forall|g: int| 0 <= g < out@.len() ==> sorted_by_key(#[trigger] out@[g]@) && out@[g]@.to_multiset()
                == all_entries(runs@.subrange(g * fan_in, if (g + 1) * fan_in <= runs@.len() { (g + 1) * fan_in } else { runs@.len() as int })),
        decreases n - lo,
    {
        let hi = if n - lo > fan_in { lo + fan_in } else { n };
        let merged = merge_sorted_runs(runs, lo, hi);
        let ghost g = out@.len() as int;
        proof {
            assert((g + 1) * fan_in == g * fan_in + fan_in) by (nonlinear_arith);
            assert(g * fan_in == lo);
            assert(hi == (if (g + 1) * fan_in <= n { (g + 1) * fan_in } else { n as int }));
        }
        out.push(merged);
        proof {
            assert(out@.len() == g + 1);
            assert(out@[g] == merged);
        }
        lo = hi;
    }
    out
}

proof fn lemma_entries_prefix(s1: Seq<Vec<(u64, u64)>>, s2: Seq<Vec<(u64, u64)>>, k: int)
    requires
        0 <= k <= s1.len(),
        k <= s2.len(),
        forall|i: int| 0 <= i < k ==> s1[i] == s2[i],
    ensures
        entries_upto(s1, k) == entries_upto(s2, k),
    decreases k,
{
    if k > 0 {
        lemma_entries_prefix(s1, s2, k - 1);
    }
}

proof fn lemma_entries_split(s: Seq<Vec<(u64, u64)>>, a: int, b: int)
    requires
        0 <= a <= b <= s.len(),
    ensures
        entries_upto(s, b) == entries_upto(s, a).add(all_entries(s.subrange(a, b))),
    decreases b - a,
{
    if b == a {
        assert(entries_upto(s, a).add(Multiset::empty()) =~= entries_upto(s, a));
    } else {
        lemma_entries_split(s, a, b - 1);
        let t = s.subrange(a, b);
        lemma_entries_prefix(t, s.subrange(a, b - 1), b - a - 1);
        assert(entries_upto(s, b) =~= entries_upto(s, a).add(all_entries(t)));
    }
}

/// A merge round keeps every entry: its runs together hold what its input runs held.
pub proof fn lemma_round_keeps_entries(runs: Seq<Vec<(u64, u64)>>, merged: Seq<Vec<(u64, u64)>>, fan_in: int)
    requires
        fan_in >= 2,
        merged.len() * fan_in >= runs.len(),
        merged.len() == 0 || (merged.len() - 1) * fan_in < runs.len(),
        forall|g: int| 0 <= g < merged.len() ==> (#[trigger] merged[g])@.to_multiset()
            == all_entries(runs.subrange(g * fan_in, if (g + 1) * fan_in <= runs.len() { (g + 1) * fan_in } else { runs.len() as int })),
    ensures
        all_entries(merged) == all_entries(runs),
{
    lemma_round_prefix(runs, merged, fan_in, merged.len() as int);
    if merged.len() > 0 {
        assert(merged.len() * fan_in >= runs.len());
    } else {
        assert(runs.len() == 0) by (nonlinear_arith)
            requires
                merged.len() * fan_in >= runs.len(),
                merged.len() == 0,
        ;
    }
}

proof fn lemma_round_prefix(runs: Seq<Vec<(u64, u64)>>, merged: Seq<Vec<(u64, u64)>>, fan_in: int, k: int)
    requires
        fan_in >= 2,
        0 <= k <= merged.len(),
        merged.len() == 0 || (merged.len() - 1) * fan_in < runs.len(),
        forall|g: int| 0 <= g < merged.len() ==> (#[trigger] merged[g])@.to_multiset()
            == all_entries(runs.subrange(g * fan_in, if (g + 1) * fan_in <= runs.len() { (g + 1) * fan_in } else { runs.len() as int })),
    ensures
        entries_upto(merged, k) == entries_upto(runs, if k * fan_in <= runs.len() { k * fan_in } else { runs.len() as int }),
    decreases k,
{
    if k > 0 {
        lemma_round_prefix(runs, merged, fan_in, k - 1);
        let a = (k - 1) * fan_in;
        assert(k * fan_in == a + fan_in) by (nonlinear_arith)
            requires
                a == (k - 1) * fan_in,
        ;
        assert(a < runs.len()) by (nonlinear_arith)
            requires
                a == (k - 1) * fan_in,
                k <= merged.len(),
                (merged.len() - 1) * fan_in < runs.len(),
                fan_in >= 2,
        ;
        assert(0 <= a) by (nonlinear_arith)
            requires
                a == (k - 1) * fan_in,
                k >= 1,
                fan_in >= 2,
        ;
        let b = if k * fan_in <= runs.len() { k * fan_in } else { runs.len() as int };
        assert((k - 1) * fan_in <= runs.len());
        assert(merged[k - 1]@.to_multiset() == all_entries(runs.subrange(a, b)));
        lemma_entries_split(runs, a, b);
        assert(entries_upto(merged, k) == entries_upto(merged, k - 1).add(merged[k - 1]@.to_multiset()));
        assert(entries_upto(merged, k - 1) == entries_upto(runs, a));
    } else {
        assert(k * fan_in == 0) by (nonlinear_arith)
            requires
                k == 0,
        ;
    }
}

/// The fan-in of a merge round: measured throughput falls sharply beyond eight sources.
pub const MERGE_FAN_IN: usize = 8;

/// Merges sorted runs, round after round of [`MERGE_FAN_IN`]-way merges, down to one run
/// whose keys never decrease and which holds every entry of the runs.
pub fn merge_all_runs(runs: Vec<Vec<(u64, u64)>>) -> (r: Vec<(u64, u64)>)
    requires
        forall|i: int| 0 <= i < runs@.len() ==> sorted_by_key(#[trigger] runs@[i]@),
    ensures
        sorted_by_key(r@),
        r@.to_multiset() == all_entries(runs@),
{
    let ghost all = all_entries(runs@);
    let mut cur = runs;
    while cur.len() > 1
        invariant
            forall|i: int| 0 <= i < cur@.len() ==> sorted_by_key(#[trigger] cur@[i]@),
            all_entries(cur@) == all,
        decreases cur@.len(),
    {
        let merged = merge_round(&cur, MERGE_FAN_IN);
        proof {
            lemma_round_keeps_entries(cur@, merged@, MERGE_FAN_IN as int);
            assert(merged@.len() < cur@.len()) by (nonlinear_arith)
                requires
                    merged@.len() == 0 || (merged@.len() - 1) * 8 < cur@.len(),
                    cur@.len() > 1,
            ;
        }
        cur = merged;
    }
    if cur.len() == 0 {
        proof {
            assert(all_entries(cur@) =~= Multiset::empty());
        }
        let empty: Vec<(u64, u64)> = Vec::new();
        proof {
            assert(empty@.to_multiset() =~= Multiset::empty());
        }
        empty
    } else {
        let ghost only = cur@[0];
        proof {
            assert(cur@.len() == 1);
            assert(all_entries(cur@) == entries_upto(cur@, 0).add(only@.to_multiset()));
        }
        let last = cur.pop().unwrap();
        proof {
            assert(Multiset::<(u64, u64)>::empty().add(only@.to_multiset()) =~= only@.to_multiset());
        }
        last
    }
}

} // verus!
