use td_id_analysis::analysis::Ratio;
use td_id_analysis::analysis::analyze_distribution;
use td_id_analysis::analysis::bucket_counts;

#[test]
fn distribution_for_seed_eight() {
    let ids: Vec<u64> = vec![0, 1, 2, 9];
    let d = analyze_distribution(&ids, 8);
    assert_eq!(d.seed, 8);
    assert_eq!(d.max_pop, 2);
    assert_eq!(d.min_pop, 1);
    assert_eq!(d.max_inst, 1);
    assert_eq!(d.min_inst, 2);
    assert_eq!(d.used, 3);
    assert_eq!(d.unused, 5);
    assert_eq!(d.avg_bucket_pop, Ratio { num: 4, den: 3 });
    assert_eq!(d.avg_potential, Ratio { num: 4, den: 8 });
    assert_eq!(d.distribution, Ratio { num: 1, den: 2 });
}

#[test]
fn used_and_unused_cover_all_buckets() {
    let ids: Vec<u64> = vec![0, 1, 2, 9];
    for seed in 1..40u64 {
        let d = analyze_distribution(&ids, seed);
        assert_eq!(d.used + d.unused, seed as usize);
    }
}

#[test]
fn bucket_counts_sum_to_id_count() {
    let ids: Vec<u64> = vec![0, 1, 2, 9];
    let counts = bucket_counts(&ids, 8);
    assert_eq!(counts, vec![1, 2, 1, 0, 0, 0, 0, 0]);
    for seed in 1..40u64 {
        let counts = bucket_counts(&ids, seed);
        assert_eq!(counts.iter().sum::<usize>(), ids.len());
    }
}

#[test]
fn compactness_ratio_stays_within_one() {
    let ids: Vec<u64> = vec![3, 7, 20, 21, 22, 50];
    for seed in 1..60u64 {
        let d = analyze_distribution(&ids, seed);
        assert!(d.distribution.num <= d.distribution.den);
        assert!(d.distribution.den > 0);
        let ratio = d.distribution.num as f64 / d.distribution.den as f64;
        assert!((0.0..=1.0).contains(&ratio));
        assert_eq!(d.distribution.num == d.distribution.den, d.max_pop == d.min_pop);
    }
}

#[test]
fn perfectly_even_buckets_give_ratio_one() {
    let ids: Vec<u64> = vec![0, 1, 2, 3];
    let d = analyze_distribution(&ids, 4);
    assert_eq!(d.max_pop, 1);
    assert_eq!(d.min_pop, 1);
    assert_eq!(d.distribution, Ratio { num: 1, den: 1 });
    assert_eq!(d.used, 4);
    assert_eq!(d.unused, 0);
}

#[test]
fn single_bucket_swallows_everything() {
    let ids: Vec<u64> = vec![4, 9, 14, 19];
    let d = analyze_distribution(&ids, 5);
    assert_eq!(d.max_pop, 4);
    assert_eq!(d.min_pop, 4);
    assert_eq!(d.max_inst, 1);
    assert_eq!(d.min_inst, 1);
    assert_eq!(d.used, 1);
    assert_eq!(d.unused, 4);
    assert_eq!(d.avg_bucket_pop, Ratio { num: 4, den: 1 });
}
