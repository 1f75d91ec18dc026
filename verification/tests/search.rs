use td_id_analysis::run::AnalysisError;
use td_id_analysis::run::run_analysis;
use td_id_analysis::search::next_pow2;
use td_id_analysis::search::search_compact;
use td_id_analysis::search::search_perfect;
use td_id_analysis::search::seed_bounds;

#[test]
fn perfect_search_reports_smallest_seed() {
    let ids: Vec<u64> = vec![0, 1, 2, 9];
    assert_eq!(search_perfect(&ids, 1, 20), Some(5));
    assert_eq!(search_perfect(&ids, 8, 20), Some(10));
}

#[test]
fn perfect_search_exhausts_range() {
    let ids: Vec<u64> = vec![0, 1, 2, 9];
    assert_eq!(search_perfect(&ids, 3, 4), None);
    assert_eq!(search_perfect(&ids, 10, 9), None);
}

#[test]
fn duplicates_never_have_a_perfect_seed() {
    let ids: Vec<u64> = vec![5, 5];
    assert_eq!(search_perfect(&ids, 1, 100), None);
}

#[test]
fn compact_sweep_reports_strict_improvements() {
    let ids: Vec<u64> = vec![0, 1, 2, 9];
    let reports = search_compact(&ids, 1, 16);
    assert_eq!(reports.len(), 3);
    assert_eq!(reports[0].seed, 1);
    assert_eq!(reports[0].max_pop, 4);
    assert_eq!(reports[1].seed, 2);
    assert_eq!(reports[1].max_pop, 2);
    assert_eq!(reports[2].seed, 5);
    assert_eq!(reports[2].max_pop, 1);
    for pair in reports.windows(2) {
        assert!(pair[1].max_pop < pair[0].max_pop);
    }
}

#[test]
fn compact_sweep_stops_at_first_perfect_placement() {
    let ids: Vec<u64> = vec![0, 1, 2, 9];
    let reports = search_compact(&ids, 1, 1000);
    assert_eq!(reports.last().map(|d| d.seed), Some(5));
    assert_eq!(reports.last().map(|d| d.max_pop), Some(1));
}

#[test]
fn next_power_of_two_bounds() {
    assert_eq!(next_pow2(0), 1);
    assert_eq!(next_pow2(1), 1);
    assert_eq!(next_pow2(2), 2);
    assert_eq!(next_pow2(3), 4);
    assert_eq!(next_pow2(9), 16);
    assert_eq!(next_pow2(16), 16);
    assert_eq!(next_pow2(17), 32);
}

#[test]
fn seed_bounds_follow_the_id_count() {
    assert_eq!(seed_bounds(4, 2), (1, 16));
    assert_eq!(seed_bounds(100, 2), (12, 256));
    assert_eq!(seed_bounds(100, 3), (12, 512));
}

#[test]
fn empty_dataset_is_rejected() {
    let ids: Vec<u64> = vec![];
    let r = run_analysis(&ids, 2);
    assert!(matches!(r, Err(AnalysisError::EmptyDataset)));
}

#[test]
fn full_run_prefers_the_perfect_seed() {
    let ids: Vec<u64> = vec![0, 1, 2, 9];
    let rep = run_analysis(&ids, 2).unwrap();
    assert_eq!(rep.count, 4);
    assert_eq!(rep.min_id, 0);
    assert_eq!(rep.max_id, 9);
    assert_eq!(rep.id_range, 9);
    assert_eq!(rep.low_seed, 1);
    assert_eq!(rep.high_seed, 16);
    assert_eq!(rep.perfect_high, 64);
    assert_eq!(rep.perfect_seed, Some(5));
    assert!(rep.improvements.is_empty());
    assert_eq!(rep.most_compact, 128);
}

#[test]
fn full_run_falls_back_to_the_sweep() {
    let ids: Vec<u64> = vec![5, 5];
    let rep = run_analysis(&ids, 2).unwrap();
    assert_eq!(rep.perfect_seed, None);
    assert_eq!(rep.improvements.len(), 1);
    assert_eq!(rep.improvements[0].seed, 1);
    assert_eq!(rep.improvements[0].max_pop, 2);
    assert_eq!(rep.most_compact, 2);
}
