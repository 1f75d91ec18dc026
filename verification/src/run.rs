//! One full analysis run: validate the id set, derive the seed range, try
//! the collision-free fast path, and fall back to the compact-seed sweep.

use vstd::prelude::*;

use crate::analysis::Distribution;
use crate::search::INITIAL_MOST_COMPACT;
use crate::search::compact_sweep;
use crate::search::injective_mod;
use crate::search::is_pow2;
use crate::search::search_compact;
use crate::search::search_perfect;
use crate::search::seed_bounds;
use crate::search::spec_low_seed;

verus! {

/// What stops a run before any analysis.
#[derive(Clone, Copy, Debug, PartialEq, Eq, Structural)]
pub enum AnalysisError {
    /// No ids were retrieved: no seed range or statistics are meaningful.
    EmptyDataset,
}

/// The outcome of one analysis run over a fixed id set.
pub struct Report {
    /// Number of ids analyzed.
    pub count: usize,
    /// Smallest id (the first: the set is ascending).
    pub min_id: u64,
    /// Largest id (the last).
    pub max_id: u64,
    /// `max_id - min_id`.
    pub id_range: u64,
    /// Lower bound of the explored seed range.
    pub low_seed: u64,
    /// Upper bound of the seed range for the compact sweep.
    pub high_seed: u64,
    /// Extended upper bound for the collision-free fast path.
    pub perfect_high: u64,
    /// The smallest collision-free modulus in range, if one exists.
    pub perfect_seed: Option<u64>,
    /// The improving reports of the compact sweep (empty when the fast path
    /// already found a perfect modulus).
    pub improvements: Vec<Distribution>,
    /// Smallest maximal occupancy reached by the sweep.
    pub most_compact: usize,
}

/// The id set is ascending, as the source hands it over.
pub open spec fn sorted(ids: Seq<u64>) -> bool {
    forall|i: int, j: int| 0 <= i <= j < ids.len() ==> ids[i] <= ids[j]
}

/// Run the whole analysis for an ascending id set with range multiplier `k`:
/// reject an empty set, report the id statistics and the explored bounds,
/// search for a collision-free modulus first, and only when none exists run
/// the compact-seed sweep.
pub fn run_analysis(ids: &Vec<u64>, k: u64) -> (r: Result<Report, AnalysisError>)
    requires
        sorted(ids@),
        k >= 1,
        k * ids@.len() + 1 <= 0x2000000000000000,
        8 * (k * ids@.len() + 1) <= usize::MAX,
    ensures
        r is Err <==> ids@.len() == 0,
        r is Err ==> r == Result::<Report, AnalysisError>::Err(AnalysisError::EmptyDataset),
        r matches Ok(rep) ==> {
            &&& rep.count == ids@.len()
            &&& rep.min_id == ids@[0]
            &&& rep.max_id == ids@.last()
            &&& rep.id_range == rep.max_id - rep.min_id
            &&& rep.low_seed == spec_low_seed(ids@.len())
            &&& is_pow2(rep.high_seed as nat)
            &&& rep.high_seed >= k * ids@.len() + 1
            &&& rep.high_seed < 2 * (k * ids@.len() + 1)
            &&& rep.perfect_high == 4 * rep.high_seed
            &&& (match rep.perfect_seed {
                Some(s) => rep.low_seed <= s <= rep.perfect_high && injective_mod(ids@, s) && (
                forall|t: u64| rep.low_seed <= t < s ==> !injective_mod(ids@, t)),
                None => forall|t: u64|
                    rep.low_seed <= t <= rep.perfect_high ==> !injective_mod(ids@, t),
            })
            &&& (rep.perfect_seed is Some ==> rep.improvements@ == Seq::<Distribution>::empty())
            &&& (rep.perfect_seed is None ==> rep.improvements@ == compact_sweep(
                ids@,
                rep.low_seed,
                rep.high_seed,
                INITIAL_MOST_COMPACT as nat,
            ))
            &&& rep.most_compact == (if rep.improvements@.len() == 0 {
                INITIAL_MOST_COMPACT as int
            } else {
                rep.improvements@.last().max_pop as int
            })
        },
{
    let count = ids.len();
    if count == 0 {
        return Err(AnalysisError::EmptyDataset);
    }
    let min_id = ids[0];
    let max_id = ids[count - 1];
    let id_range = max_id - min_id;
    let (low_seed, high_seed) = seed_bounds(count, k);
    let perfect_high = 4 * high_seed;
    let perfect_seed = search_perfect(ids, low_seed, perfect_high);
    let (improvements, most_compact): (Vec<Distribution>, usize) = match perfect_seed {
        Some(_) => (Vec::new(), INITIAL_MOST_COMPACT),
        None => {
            let imps = search_compact(ids, low_seed, high_seed);
            let mc = if imps.len() == 0 {
                INITIAL_MOST_COMPACT
            } else {
                imps[imps.len() - 1].max_pop
            };
            (imps, mc)
        },
    };
    Ok(
        Report {
            count,
            min_id,
            max_id,
            id_range,
            low_seed,
            high_seed,
            perfect_high,
            perfect_seed,
            improvements,
            most_compact,
        },
    )
}

} // verus!
