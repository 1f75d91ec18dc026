//! The distribution analyzer: bucket occupancy statistics for one seed.

use vstd::prelude::*;

verus! {

/// An exact ratio of two machine integers, used where the statistics are
/// quotients (average occupancies, the compactness ratio). Keeping the
/// numerator and denominator exact lets the contracts speak about them
/// precisely; a caller may divide them out for display.
#[derive(Clone, Copy, Debug, PartialEq, Eq, Structural)]
pub struct Ratio {
    pub num: u64,
    pub den: u64,
}

/// Occupancy statistics of the bucket assignment `id % seed` for one seed.
#[derive(Clone, Copy, Debug, PartialEq, Eq, Structural)]
pub struct Distribution {
    /// The modulus that was evaluated.
    pub seed: u64,
    /// Largest occupancy over the used buckets (0 when no id was placed).
    pub max_pop: usize,
    /// Smallest occupancy over the used buckets (0 when no id was placed).
    pub min_pop: usize,
    /// Number of buckets whose occupancy equals `max_pop`.
    pub max_inst: usize,
    /// Number of buckets whose occupancy equals `min_pop`.
    pub min_inst: usize,
    /// Number of buckets holding at least one id.
    pub used: usize,
    /// Number of empty buckets.
    pub unused: usize,
    /// Mean occupancy over used buckets: `|ids| / used` (0 when none used).
    pub avg_bucket_pop: Ratio,
    /// Mean occupancy if every bucket were used: `|ids| / seed`.
    pub avg_potential: Ratio,
    /// Compactness `min_pop / max_pop` (0 when `max_pop == 0`); 1 is even.
    pub distribution: Ratio,
}

/// How many of the given ids fall into bucket `b` under modulus `seed`.
pub open spec fn count_in_bucket(ids: Seq<u64>, seed: u64, b: int) -> nat
    decreases ids.len(),
{
    if ids.len() == 0 {
        0
    } else {
        count_in_bucket(ids.drop_last(), seed, b) + (if ids.last() % seed == b {
            1nat
        } else {
            0nat
        })
    }
}

proof fn lemma_count_in_bucket_le_len(ids: Seq<u64>, seed: u64, b: int)
    ensures
        count_in_bucket(ids, seed, b) <= ids.len(),
    decreases ids.len(),
{
    if ids.len() > 0 {
        lemma_count_in_bucket_le_len(ids.drop_last(), seed, b);
    }
}

/// Number of buckets among `0..n` holding at least one id.
pub open spec fn used_buckets(ids: Seq<u64>, seed: u64, n: int) -> nat
    decreases n,
{
    if n <= 0 {
        0
    } else {
        used_buckets(ids, seed, n - 1) + (if count_in_bucket(ids, seed, n - 1) > 0 {
            1nat
        } else {
            0nat
        })
    }
}

/// Largest occupancy over buckets `0..n` (0 when all are empty).
pub open spec fn max_pop_upto(ids: Seq<u64>, seed: u64, n: int) -> nat
    decreases n,
{
    if n <= 0 {
        0
    } else {
        let rest = max_pop_upto(ids, seed, n - 1);
        let c = count_in_bucket(ids, seed, n - 1);
        if c > rest {
            c
        } else {
            rest
        }
    }
}

/// Smallest occupancy over the used buckets among `0..n` (0 when none used).
pub open spec fn min_pop_upto(ids: Seq<u64>, seed: u64, n: int) -> nat
    decreases n,
{
    if n <= 0 {
        0
    } else {
        let rest = min_pop_upto(ids, seed, n - 1);
        let c = count_in_bucket(ids, seed, n - 1);
        if c == 0 {
            rest
        } else if rest == 0 {
            c
        } else if c < rest {
            c
        } else {
            rest
        }
    }
}

/// Number of buckets among `0..n` whose occupancy is exactly `v`.
pub open spec fn inst_count(ids: Seq<u64>, seed: u64, n: int, v: nat) -> nat
    decreases n,
{
    if n <= 0 {
        0
    } else {
        inst_count(ids, seed, n - 1, v) + (if count_in_bucket(ids, seed, n - 1) == v {
            1nat
        } else {
            0nat
        })
    }
}

/// Sum of the occupancies of buckets `0..n`.
pub open spec fn sum_counts(ids: Seq<u64>, seed: u64, n: int) -> nat
    decreases n,
{
    if n <= 0 {
        0
    } else {
        sum_counts(ids, seed, n - 1) + count_in_bucket(ids, seed, n - 1)
    }
}

/// The statistics record that analyzing `(ids, seed)` must produce.
pub open spec fn spec_analyze(ids: Seq<u64>, seed: u64) -> Distribution {
    let n = seed as int;
    let total = ids.len() as u64;
    let used = used_buckets(ids, seed, n);
    let maxp = max_pop_upto(ids, seed, n);
    let minp = min_pop_upto(ids, seed, n);
    Distribution {
        seed,
        max_pop: maxp as usize,
        min_pop: minp as usize,
        max_inst: if maxp == 0 {
            0usize
        } else {
            inst_count(ids, seed, n, maxp) as usize
        },
        min_inst: if minp == 0 {
            0usize
        } else {
            inst_count(ids, seed, n, minp) as usize
        },
        used: used as usize,
        unused: (n - used) as usize,
        avg_bucket_pop: if used == 0 {
            Ratio { num: 0, den: 1 }
        } else {
            Ratio { num: total, den: used as u64 }
        },
        avg_potential: Ratio { num: total, den: seed },
        distribution: if maxp == 0 {
            Ratio { num: 0, den: 1 }
        } else {
            Ratio { num: minp as u64, den: maxp as u64 }
        },
    }
}

/// The bucket assignment itself: counter `b` holds the number of ids whose
/// residue modulo `seed` is `b`.
pub fn bucket_counts(ids: &Vec<u64>, seed: u64) -> (r: Vec<usize>)
    requires
        seed >= 1,
        seed <= usize::MAX,
    ensures
        r@.len() == seed,
        forall|b: int| 0 <= b < seed ==> r@[b] == count_in_bucket(ids@, seed, b),
{
    let n = seed as usize;
    let mut buckets: Vec<usize> = Vec::new();
    let mut j: usize = 0;
    while j < n
        invariant
            j <= n,
            n == seed,
            buckets@.len() == j,
            forall|b: int| 0 <= b < j ==> buckets@[b] == 0,
        decreases n - j,
    {
        buckets.push(0);
        j += 1;
    }
    assert(forall|b: int| 0 <= b < seed ==> count_in_bucket(ids@.take(0), seed, b) == 0);
    let mut i: usize = 0;
    while i < ids.len()
        invariant
            i <= ids.len(),
            seed >= 1,
            seed <= usize::MAX,
            buckets@.len() == seed,
            forall|b: int| 0 <= b < seed ==> buckets@[b] == count_in_bucket(
                ids@.take(i as int),
                seed,
                b,
            ),
        decreases ids.len() - i,
    {
        let rem = ids[i] % seed;
        assert(rem < seed);
        let idx = #[verifier::truncate] (rem as usize);
        let ghost prefix = ids@.take(i as int);
        let ghost next = ids@.take(i + 1 as int);
        proof {
            assert(next.drop_last() =~= prefix);
            assert(next.last() == ids@[i as int]);
            lemma_count_in_bucket_le_len(prefix, seed, idx as int);
            assert(prefix.len() <= ids@.len());
        }
        let c = buckets[idx];
        buckets.set(idx, c + 1);
        proof {
            assert forall|b: int| 0 <= b < seed implies buckets@[b] == count_in_bucket(
                next,
                seed,
                b,
            ) by {
                assert(count_in_bucket(next, seed, b) == count_in_bucket(prefix, seed, b) + (
                if next.last() % seed == b {
                    1nat
                } else {
                    0nat
                }));
                assert(next.last() % seed == rem);
            }
        }
        i += 1;
    }
    proof {
        assert(ids@.take(ids@.len() as int) =~= ids@);
    }
    buckets
}

proof fn lemma_inst_zero_above_max(ids: Seq<u64>, seed: u64, n: int, v: nat)
    requires
        v > max_pop_upto(ids, seed, n),
    ensures
        inst_count(ids, seed, n, v) == 0,
    decreases n,
{
    if n > 0 {
        lemma_inst_zero_above_max(ids, seed, n - 1, v);
    }
}

proof fn lemma_inst_zero_below_min(ids: Seq<u64>, seed: u64, n: int, v: nat)
    requires
        0 < v,
        min_pop_upto(ids, seed, n) == 0 || v < min_pop_upto(ids, seed, n),
    ensures
        inst_count(ids, seed, n, v) == 0,
    decreases n,
{
    if n > 0 {
        lemma_inst_zero_below_min(ids, seed, n - 1, v);
    }
}

/// Over any prefix of buckets, the smallest used occupancy never exceeds the
/// largest, and both are zero exactly when no bucket is used.
pub(crate) proof fn lemma_extrema_shape(ids: Seq<u64>, seed: u64, n: int)
    ensures
        min_pop_upto(ids, seed, n) <= max_pop_upto(ids, seed, n),
        min_pop_upto(ids, seed, n) == 0 <==> used_buckets(ids, seed, n) == 0,
        max_pop_upto(ids, seed, n) == 0 <==> used_buckets(ids, seed, n) == 0,
        n >= 0 ==> used_buckets(ids, seed, n) <= n,
        max_pop_upto(ids, seed, n) <= ids.len(),
    decreases n,
{
    if n > 0 {
        lemma_extrema_shape(ids, seed, n - 1);
        lemma_count_in_bucket_le_len(ids, seed, n - 1);
    }
}

/// Each single bucket's occupancy is bounded by the maximum over a range
/// containing it.
proof fn lemma_count_le_max(ids: Seq<u64>, seed: u64, n: int, b: int)
    requires
        0 <= b < n,
    ensures
        count_in_bucket(ids, seed, b) <= max_pop_upto(ids, seed, n),
    decreases n,
{
    if b < n - 1 {
        lemma_count_le_max(ids, seed, n - 1, b);
    }
}

/// A non-empty id set always fills at least one bucket.
pub(crate) proof fn lemma_nonempty_max_pos(ids: Seq<u64>, seed: u64)
    requires
        seed >= 1,
        ids.len() > 0,
    ensures
        max_pop_upto(ids, seed, seed as int) >= 1,
{
    let b = (ids.last() % seed) as int;
    assert(count_in_bucket(ids, seed, b) >= 1);
    lemma_count_le_max(ids, seed, seed as int, b);
}

proof fn lemma_sum_counts_empty(ids: Seq<u64>, seed: u64, n: int)
    requires
        ids.len() == 0,
    ensures
        sum_counts(ids, seed, n) == 0,
    decreases n,
{
    if n > 0 {
        lemma_sum_counts_empty(ids, seed, n - 1);
    }
}

proof fn lemma_sum_counts_drop_last(ids: Seq<u64>, seed: u64, n: int)
    requires
        ids.len() > 0,
        seed >= 1,
    ensures
        sum_counts(ids, seed, n) == sum_counts(ids.drop_last(), seed, n) + (if ids.last() % seed
            < n {
            1nat
        } else {
            0nat
        }),
    decreases n,
{
    if n > 0 {
        lemma_sum_counts_drop_last(ids, seed, n - 1);
    }
}

/// Law: under any modulus, every id lands in exactly one bucket, so the
/// occupancies of all `seed` buckets sum to the number of ids.
pub proof fn lemma_bucket_counts_total(ids: Seq<u64>, seed: u64)
    requires
        seed >= 1,
    ensures
        sum_counts(ids, seed, seed as int) == ids.len(),
    decreases ids.len(),
{
    if ids.len() == 0 {
        lemma_sum_counts_empty(ids, seed, seed as int);
    } else {
        lemma_bucket_counts_total(ids.drop_last(), seed);
        lemma_sum_counts_drop_last(ids, seed, seed as int);
        assert(ids.last() % seed < seed);
    }
}

/// Law: the used and the empty buckets together are all `seed` buckets.
pub proof fn lemma_used_plus_unused(ids: Seq<u64>, seed: u64)
    requires
        seed >= 1,
        seed <= usize::MAX,
    ensures
        spec_analyze(ids, seed).used + spec_analyze(ids, seed).unused == seed,
{
    lemma_extrema_shape(ids, seed, seed as int);
}

/// Law: the compactness ratio lies in `[0, 1]`, and for a non-empty id set it
/// equals 1 exactly when the largest and the smallest used occupancy agree.
pub proof fn lemma_distribution_ratio(ids: Seq<u64>, seed: u64)
    requires
        seed >= 1,
        seed <= usize::MAX,
        0 < ids.len() <= usize::MAX,
    ensures
        spec_analyze(ids, seed).distribution.num <= spec_analyze(ids, seed).distribution.den,
        spec_analyze(ids, seed).distribution.num == spec_analyze(ids, seed).distribution.den
            <==> spec_analyze(ids, seed).max_pop == spec_analyze(ids, seed).min_pop,
{
    lemma_extrema_shape(ids, seed, seed as int);
    lemma_nonempty_max_pos(ids, seed);
}

/// Analyze one seed: place every id in bucket `id % seed` and report the
/// occupancy statistics of the resulting assignment.
pub fn analyze_distribution(ids: &Vec<u64>, seed: u64) -> (d: Distribution)
    requires
        seed >= 1,
        seed <= usize::MAX,
    ensures
        d == spec_analyze(ids@, seed),
{
    let buckets = bucket_counts(ids, seed);
    let n = seed as usize;
    let mut used: usize = 0;
    let mut unused: usize = 0;
    let mut maxp: usize = 0;
    let mut minp: usize = 0;
    let mut maxi: usize = 0;
    let mut mini: usize = 0;
    let mut j: usize = 0;
    while j < n
        invariant
            j <= n,
            n == seed,
            seed >= 1,
            seed <= usize::MAX,
            buckets@.len() == seed,
            forall|b: int| 0 <= b < seed ==> buckets@[b] == count_in_bucket(ids@, seed, b),
            used <= j,
            maxi <= j,
            mini <= j,
            used == used_buckets(ids@, seed, j as int),
            unused == j - used,
            maxp == max_pop_upto(ids@, seed, j as int),
            minp == min_pop_upto(ids@, seed, j as int),
            maxi as int == (if maxp == 0 {
                0int
            } else {
                inst_count(ids@, seed, j as int, maxp as nat) as int
            }),
            mini as int == (if minp == 0 {
                0int
            } else {
                inst_count(ids@, seed, j as int, minp as nat) as int
            }),
        decreases n - j,
    {
        let c = buckets[j];
        if c > 0 {
            used = used + 1;
            if c > maxp {
                proof {
                    lemma_inst_zero_above_max(ids@, seed, j as int, c as nat);
                }
                maxp = c;
                maxi = 1;
            } else if c == maxp {
                maxi = maxi + 1;
            }
            if minp == 0 || c < minp {
                proof {
                    lemma_inst_zero_below_min(ids@, seed, j as int, c as nat);
                }
                minp = c;
                mini = 1;
            } else if c == minp {
                mini = mini + 1;
            }
        } else {
            unused = unused + 1;
        }
        j += 1;
    }
    let total = ids.len() as u64;
    let avg_bucket_pop = if used > 0 {
        Ratio { num: total, den: used as u64 }
    } else {
        Ratio { num: 0, den: 1 }
    };
    let avg_potential = Ratio { num: total, den: seed };
    let distribution = if maxp > 0 {
        Ratio { num: minp as u64, den: maxp as u64 }
    } else {
        Ratio { num: 0, den: 1 }
    };
    Distribution {
        seed,
        max_pop: maxp,
        min_pop: minp,
        max_inst: maxi,
        min_inst: mini,
        used,
        unused,
        avg_bucket_pop,
        avg_potential,
        distribution,
    }
}

} // verus!
