//! The modulus search: a collision-free fast path and a compact-seed sweep.

use vstd::prelude::*;

use crate::analysis::Distribution;
use crate::analysis::analyze_distribution;
use crate::analysis::max_pop_upto;
use crate::analysis::spec_analyze;
use crate::bits::bits_of;
use crate::bits::bitvec_from_elem;
use crate::bits::bitvec_get;
use crate::bits::bitvec_set;

verus! {

/// A seed is perfect for the ids when no two of them share a residue:
/// `id % seed` is injective over the id set.
pub open spec fn injective_mod(ids: Seq<u64>, seed: u64) -> bool {
    forall|k1: int, k2: int|
        0 <= k1 < k2 < ids.len() ==> ids[k1] % seed != ids[k2] % seed
}

/// The compactness tracker starts above any realistic bucket occupancy, so
/// the first analyzed seed is always reported.
pub const INITIAL_MOST_COMPACT: usize = 128;

/// The exact sequence of reports of the compact-seed sweep over seeds
/// `low..=high`, carrying the best (smallest) maximal occupancy seen so far:
/// a seed is reported exactly when it strictly improves on `best`, and the
/// sweep stops early once an occupancy of 1 is reached.
pub open spec fn compact_sweep(ids: Seq<u64>, low: u64, high: u64, best: nat) -> Seq<Distribution>
    decreases high + 1 - low,
    when high < u64::MAX
{
    if low > high {
        Seq::empty()
    } else {
        let m = max_pop_upto(ids, low, low as int);
        if m < best {
            if m == 1 {
                seq![spec_analyze(ids, low)]
            } else {
                seq![spec_analyze(ids, low)] + compact_sweep(ids, (low + 1) as u64, high, m)
            }
        } else {
            compact_sweep(ids, (low + 1) as u64, high, best)
        }
    }
}

proof fn lemma_sweep_improving(ids: Seq<u64>, low: u64, high: u64, best: nat)
    requires
        high < u64::MAX,
        ids.len() <= usize::MAX,
    ensures
        forall|i: int|
            0 <= i < compact_sweep(ids, low, high, best).len() ==> #[trigger] compact_sweep(
                ids,
                low,
                high,
                best,
            )[i].max_pop < best,
        forall|i: int, j: int|
            0 <= i < j < compact_sweep(ids, low, high, best).len() ==> #[trigger] compact_sweep(
                ids,
                low,
                high,
                best,
            )[j].max_pop < #[trigger] compact_sweep(ids, low, high, best)[i].max_pop,
    decreases high + 1 - low,
{
    if low <= high {
        let m = max_pop_upto(ids, low, low as int);
        crate::analysis::lemma_extrema_shape(ids, low, low as int);
        let whole = compact_sweep(ids, low, high, best);
        if m < best {
            let head = spec_analyze(ids, low);
            assert(head.max_pop == m);
            if m == 1 {
                assert(whole == seq![head]);
            } else {
                let tail = compact_sweep(ids, (low + 1) as u64, high, m);
                lemma_sweep_improving(ids, (low + 1) as u64, high, m);
                assert(whole == seq![head] + tail);
                assert forall|i: int| 0 <= i < whole.len() implies #[trigger] whole[i].max_pop
                    < best by {
                    if i > 0 {
                        assert(whole[i] == tail[i - 1]);
                    }
                }
                assert forall|i: int, j: int| 0 <= i < j < whole.len() implies #[trigger] whole[j].max_pop
                    < #[trigger] whole[i].max_pop by {
                    assert(whole[j] == tail[j - 1]);
                    if i > 0 {
                        assert(whole[i] == tail[i - 1]);
                    }
                }
            }
        } else {
            lemma_sweep_improving(ids, (low + 1) as u64, high, best);
            assert(whole == compact_sweep(ids, (low + 1) as u64, high, best));
        }
    }
}

/// Law: along the compact sweep, every report strictly improves on the one
/// before it: the maximal occupancies are strictly decreasing.
pub proof fn lemma_sweep_strictly_improving(ids: Seq<u64>, low: u64, high: u64)
    requires
        high < u64::MAX,
        ids.len() <= usize::MAX,
    ensures
        forall|i: int, j: int|
            0 <= i < j < compact_sweep(ids, low, high, INITIAL_MOST_COMPACT as nat).len()
                ==> #[trigger] compact_sweep(ids, low, high, INITIAL_MOST_COMPACT as nat)[j].max_pop
                < #[trigger] compact_sweep(ids, low, high, INITIAL_MOST_COMPACT as nat)[i].max_pop,
{
    lemma_sweep_improving(ids, low, high, INITIAL_MOST_COMPACT as nat);
}

proof fn lemma_sweep_reaches_one(ids: Seq<u64>, low: u64, high: u64, s: u64, best: nat)
    requires
        high < u64::MAX,
        0 < ids.len() <= usize::MAX,
        low >= 1,
        low <= s <= high,
        best > 1,
        max_pop_upto(ids, s, s as int) == 1,
    ensures
        compact_sweep(ids, low, high, best).len() > 0,
        compact_sweep(ids, low, high, best).last().max_pop == 1,
        compact_sweep(ids, low, high, best).last().seed <= s,
    decreases s - low,
{
    let m = max_pop_upto(ids, low, low as int);
    crate::analysis::lemma_extrema_shape(ids, low, low as int);
    crate::analysis::lemma_nonempty_max_pos(ids, low);
    let whole = compact_sweep(ids, low, high, best);
    if m < best {
        let head = spec_analyze(ids, low);
        assert(head.max_pop == m);
        if m == 1 {
            assert(whole == seq![head]);
        } else {
            assert(low < s);
            let tail = compact_sweep(ids, (low + 1) as u64, high, m);
            lemma_sweep_reaches_one(ids, (low + 1) as u64, high, s, m);
            assert(whole == seq![head] + tail);
            assert(whole.last() == tail.last());
        }
    } else {
        assert(low < s);
        lemma_sweep_reaches_one(ids, (low + 1) as u64, high, s, best);
        assert(whole == compact_sweep(ids, (low + 1) as u64, high, best));
    }
}

/// Law: if some seed in range already places every id alone in its bucket,
/// the compact sweep stops at or before that seed, with a last report whose
/// maximal occupancy is 1.
pub proof fn lemma_sweep_stops_at_perfect(ids: Seq<u64>, low: u64, high: u64, s: u64)
    requires
        high < u64::MAX,
        0 < ids.len() <= usize::MAX,
        low >= 1,
        low <= s <= high,
        max_pop_upto(ids, s, s as int) == 1,
    ensures
        compact_sweep(ids, low, high, INITIAL_MOST_COMPACT as nat).len() > 0,
        compact_sweep(ids, low, high, INITIAL_MOST_COMPACT as nat).last().max_pop == 1,
        compact_sweep(ids, low, high, INITIAL_MOST_COMPACT as nat).last().seed <= s,
{
    lemma_sweep_reaches_one(ids, low, high, s, INITIAL_MOST_COMPACT as nat);
}

/// The residues of the ids under `seed`, in id order.
pub open spec fn residues_mod(ids: Seq<u64>, seed: u64) -> Seq<int> {
    Seq::new(ids.len(), |i: int| (ids[i] % seed) as int)
}

/// Law: a perfect seed maps the ids to pairwise distinct residues, so the
/// residue set holds exactly one element per id.
pub proof fn lemma_perfect_seed_residues(ids: Seq<u64>, s: u64)
    requires
        injective_mod(ids, s),
    ensures
        residues_mod(ids, s).no_duplicates(),
        residues_mod(ids, s).to_set().len() == ids.len(),
{
    let residues = residues_mod(ids, s);
    assert(residues.len() == ids.len());
    assert forall|i: int, j: int|
        0 <= i < residues.len() && 0 <= j < residues.len() && i != j implies residues[i]
        != residues[j] by {
        if i < j {
            assert(ids[i] % s != ids[j] % s);
        } else {
            assert(ids[j] % s != ids[i] % s);
        }
    }
    residues.unique_seq_to_set();
}

/// Law: an id set holding the same value twice has no perfect modulus at
/// all: the two copies always share a bucket.
pub proof fn lemma_duplicate_ids_never_perfect(ids: Seq<u64>, seed: u64)
    requires
        exists|i: int, j: int| 0 <= i < j < ids.len() && ids[i] == ids[j],
    ensures
        !injective_mod(ids, seed),
{
    let (i, j): (int, int) = choose|i: int, j: int| 0 <= i < j < ids.len() && ids[i] == ids[j];
    assert(ids[i] % seed == ids[j] % seed);
}

/// `x` is a power of two.
pub open spec fn is_pow2(x: nat) -> bool
    decreases x,
{
    if x == 0 {
        false
    } else if x == 1 {
        true
    } else {
        x % 2 == 0 && is_pow2(x / 2)
    }
}

/// The smallest power of two at or above `n` (1 for `n <= 1`).
pub fn next_pow2(n: u64) -> (r: u64)
    requires
        n <= 0x8000000000000000,
    ensures
        is_pow2(r as nat),
        r >= n,
        n <= 1 ==> r == 1,
        n >= 2 ==> r < 2 * n,
{
    let mut p: u64 = 1;
    while p < n
        invariant
            1 <= p,
            n <= 0x8000000000000000,
            is_pow2(p as nat),
            p == 1 || p / 2 < n,
        decreases 2 * n - p,
    {
        p = p * 2;
    }
    p
}

/// The lower bound of the seed range: an eighth of the id count, targeting
/// eight ids per bucket, but never below 1 so that the modulus stays valid.
pub open spec fn spec_low_seed(count: nat) -> nat {
    if count / 8 >= 1 {
        count / 8
    } else {
        1
    }
}

/// The seed range explored for `count` ids with range multiplier `k`: from
/// `count / 8` (at least 1) up to the next power of two above `k * count`.
pub fn seed_bounds(count: usize, k: u64) -> (r: (u64, u64))
    requires
        k >= 1,
        k * count + 1 <= 0x2000000000000000,
    ensures
        r.0 == spec_low_seed(count as nat),
        1 <= r.0 <= r.1,
        is_pow2(r.1 as nat),
        r.1 >= k * count + 1,
        count >= 1 ==> r.1 < 2 * (k * count + 1),
        count == 0 ==> r.1 == 1,
{
    proof {
        assert(k as int * count as int >= count as int) by (nonlinear_arith)
            requires
                k as int >= 1,
                count as int >= 0,
        ;
    }
    let low_raw = count / 8;
    let low: u64 = if low_raw < 1 {
        1
    } else {
        low_raw as u64
    };
    let high = next_pow2(k * (count as u64) + 1);
    (low, high)
}

/// Sweep seeds `low..=high` ascending, analyzing each, and report every seed
/// whose maximal bucket occupancy strictly improves on the best seen so far;
/// stop as soon as an occupancy of 1 (a perfect placement) is reported.
pub fn search_compact(ids: &Vec<u64>, low: u64, high: u64) -> (r: Vec<Distribution>)
    requires
        low >= 1,
        high <= usize::MAX,
        high < u64::MAX,
    ensures
        r@ == compact_sweep(ids@, low, high, INITIAL_MOST_COMPACT as nat),
{
    let mut out: Vec<Distribution> = Vec::new();
    let mut best: usize = INITIAL_MOST_COMPACT;
    let mut seed = low;
    while seed <= high
        invariant
            low <= seed,
            seed <= high + 1 || low > high,
            low >= 1,
            high <= usize::MAX,
            high < u64::MAX,
            ids@.len() == ids.len(),
            compact_sweep(ids@, low, high, INITIAL_MOST_COMPACT as nat) == out@ + compact_sweep(
                ids@,
                seed,
                high,
                best as nat,
            ),
        decreases high + 1 - seed,
    {
        let d = analyze_distribution(ids, seed);
        proof {
            crate::analysis::lemma_extrema_shape(ids@, seed, seed as int);
        }
        if d.max_pop < best {
            out.push(d);
            if d.max_pop == 1 {
                return out;
            }
            best = d.max_pop;
        }
        seed += 1;
    }
    out
}

/// Scan seeds `low..=high` ascending for the smallest collision-free modulus:
/// one presence bit per bucket, a seed abandoned at its first collision.
pub fn search_perfect(ids: &Vec<u64>, low: u64, high: u64) -> (r: Option<u64>)
    requires
        low >= 1,
        high <= usize::MAX,
        high < u64::MAX,
    ensures
        match r {
            Some(s) => low <= s <= high && injective_mod(ids@, s) && (forall|t: u64|
                low <= t < s ==> !injective_mod(ids@, t)),
            None => forall|t: u64| low <= t <= high ==> !injective_mod(ids@, t),
        },
{
    let mut seed = low;
    while seed <= high
        invariant
            low <= seed,
            seed <= high + 1 || low > high,
            low >= 1,
            high <= usize::MAX,
            high < u64::MAX,
            forall|t: u64| low <= t < seed ==> !injective_mod(ids@, t),
        decreases high + 1 - seed,
    {
        let mut space = bitvec_from_elem(seed as usize, false);
        let mut collided = false;
        let mut i: usize = 0;
        while i < ids.len() && !collided
            invariant
                i <= ids.len(),
                1 <= seed <= usize::MAX,
                bits_of(space).len() == seed,
                !collided ==> (forall|b: int|
                    0 <= b < seed ==> (bits_of(space)[b] <==> exists|k: int|
                        0 <= k < i && ids@[k] % seed == b)),
                !collided ==> (forall|k1: int, k2: int|
                    0 <= k1 < k2 < i ==> ids@[k1] % seed != ids@[k2] % seed),
                collided ==> !injective_mod(ids@, seed),
            decreases ids.len() - i, (if collided {
                0int
            } else {
                1int
            }),
        {
            let rem = ids[i] % seed;
            assert(rem < seed);
            let b = #[verifier::truncate] (rem as usize);
            match bitvec_get(&space, b) {
                Some(true) => {
                    proof {
                        let k = choose|k: int| 0 <= k < i && ids@[k] % seed == b as int;
                        assert(ids@[k] % seed == ids@[i as int] % seed);
                        assert(!injective_mod(ids@, seed));
                    }
                    collided = true;
                },
                Some(false) => {
                    let ghost before = bits_of(space);
                    bitvec_set(&mut space, b, true);
                    proof {
                        assert forall|bb: int|
                            0 <= bb < seed implies (bits_of(space)[bb] <==> exists|k: int|
                            0 <= k < i + 1 && ids@[k] % seed == bb) by {
                            if bb == b as int {
                                assert(ids@[i as int] % seed == bb);
                            } else {
                                assert(bits_of(space)[bb] == before[bb]);
                                if exists|k: int| 0 <= k < i + 1 && ids@[k] % seed == bb {
                                    let k = choose|k: int|
                                        0 <= k < i + 1 && ids@[k] % seed == bb;
                                    assert(k < i);
                                }
                            }
                        }
                        assert forall|k1: int, k2: int|
                            0 <= k1 < k2 < i + 1 implies ids@[k1] % seed != ids@[k2]
                            % seed by {
                            if k2 == i as int {
                                if ids@[k1] % seed == ids@[k2] % seed {
                                    assert(before[b as int]);
                                }
                            }
                        }
                    }
                    i += 1;
                },
                None => {
                    proof {
                        assert(false);
                    }
                    collided = true;
                },
            }
        }
        if !collided {
            assert(i == ids.len());
            assert(injective_mod(ids@, seed));
            return Some(seed);
        }
        seed += 1;
    }
    None
}

} // verus!
